use chip8::chip8options::Chip8options;
use chip8::emulator::Emulator;
use chip8::emulator::KeyEvent;
use chip8::emulator::StepOutcome;
use chip8::emulator::System;
use chip8::opcode::OpCode;

fn default_emulator() -> Emulator {
    Emulator::new(&[0], &Chip8options::default())
}

#[test]
fn test_new_loads_font_and_rom() {
    let emulator = Emulator::new(&[1, 2, 3], &Chip8options::default());
    assert_eq!(emulator.memory.len(), 4096);
    // the program sits at the program offset
    assert_eq!(emulator.memory[0x200], 1);
    assert_eq!(emulator.memory[0x201], 2);
    assert_eq!(emulator.memory[0x202], 3);
    // the font table sits at the font offset: first and last byte
    assert_eq!(emulator.memory[0x50], 0xF0);
    assert_eq!(emulator.memory[0x50 + 79], 0x80);
    // everything else is zero
    assert_eq!(emulator.memory[0x4F], 0);
    assert_eq!(emulator.memory[0x203], 0);
    assert_eq!(emulator.pc, 0x200);
    assert_eq!(emulator.display_output.len(), 64 * 32);
    assert!(emulator.display_output.iter().all(|p| !p));
}

#[test]
fn test_add_wraps_to_zero() {
    let mut emulator = default_emulator();
    emulator.reg_vx[1] = 0xFF;
    emulator.execute_opcode(OpCode::Add { vx: 1, val: 1 });
    assert_eq!(emulator.reg_vx[1], 0x00);
}

#[test]
fn test_add_carry_iff_wrapped_below() {
    let mut emulator = default_emulator();
    // wrapped sum below the old value: carry set
    emulator.reg_vx[1] = 0xF0;
    emulator.reg_vx[2] = 0x20;
    emulator.execute_opcode(OpCode::AddVyToVx { vx: 1, vy: 2 });
    assert_eq!(emulator.reg_vx[1], 0x10);
    assert_eq!(emulator.reg_vx[0xF], 1);
    // no wrap: carry clear
    emulator.reg_vx[1] = 0x10;
    emulator.execute_opcode(OpCode::AddVyToVx { vx: 1, vy: 2 });
    assert_eq!(emulator.reg_vx[1], 0x30);
    assert_eq!(emulator.reg_vx[0xF], 0);
}

#[test]
fn test_sub_borrow_flag_all_pairs() {
    // VF after VX - VY is set exactly when VX >= VY, sampled densely
    let mut emulator = default_emulator();
    for a in (0..=255u8).step_by(5) {
        for b in (0..=255u8).step_by(5) {
            emulator.reg_vx[1] = a;
            emulator.reg_vx[2] = b;
            emulator.execute_opcode(OpCode::SubVxVyToVx { vx: 1, vy: 2 });
            assert_eq!(emulator.reg_vx[1], a.wrapping_sub(b));
            assert_eq!(emulator.reg_vx[0xF] == 1, a >= b);
        }
    }
}

#[test]
fn test_shift_quirk_selects_source() {
    // with the toggle set the shifted value comes from VX, cleared from VY
    let mut emulator = default_emulator();
    emulator.reg_vx[1] = 6;
    emulator.reg_vx[2] = 0x50;
    emulator.options.opcode.shift_ignore_vy = true;
    emulator.execute_opcode(OpCode::Shift { vx: 1, vy: 2, left_shift: false });
    assert_eq!(emulator.reg_vx[1], 3);

    emulator.reg_vx[1] = 6;
    emulator.options.opcode.shift_ignore_vy = false;
    emulator.execute_opcode(OpCode::Shift { vx: 1, vy: 2, left_shift: false });
    assert_eq!(emulator.reg_vx[1], 0x28);
}

#[test]
fn test_draw_then_clear_screen() {
    let mut emulator = default_emulator();
    emulator.reg_i = 0x300;
    emulator.memory[0x300] = 0xFF;
    emulator.execute_opcode(OpCode::Display { vx: 0, vy: 1, val: 1 });
    assert!(emulator.display_output[0]);
    assert!(emulator.display_updated);
    emulator.display_updated = false;
    emulator.execute_opcode(OpCode::ClearScreen);
    assert!(emulator.display_output.iter().all(|p| !p));
    assert!(emulator.display_updated);
}

#[test]
fn test_draw_twice_restores_screen() {
    let mut emulator = default_emulator();
    emulator.reg_i = 0x300;
    emulator.memory[0x300] = 0xFF;
    emulator.memory[0x301] = 0x81;
    // first draw on a clear screen: pixels turn on, no collision
    emulator.execute_opcode(OpCode::Display { vx: 0, vy: 1, val: 2 });
    for x in 0..8 {
        assert!(emulator.display_output[x]);
    }
    assert!(emulator.display_output[64]);
    assert!(!emulator.display_output[65]);
    assert!(emulator.display_output[71]);
    assert_eq!(emulator.reg_vx[0xF], 0);
    // second identical draw: every pixel toggles back off, collision set
    emulator.execute_opcode(OpCode::Display { vx: 0, vy: 1, val: 2 });
    assert!(emulator.display_output.iter().all(|p| !p));
    assert_eq!(emulator.reg_vx[0xF], 1);
}

#[test]
fn test_draw_clips_at_screen_edge() {
    let mut emulator = default_emulator();
    emulator.reg_i = 0x300;
    emulator.memory[0x300] = 0xFF;
    emulator.reg_vx[0] = 60;
    emulator.reg_vx[1] = 0;
    emulator.execute_opcode(OpCode::Display { vx: 0, vy: 1, val: 1 });
    // columns 60 through 63 are rendered
    for x in 60..64 {
        assert!(emulator.display_output[x]);
    }
    // the sprite does not wrap around to the row's start
    for x in 0..4 {
        assert!(!emulator.display_output[x]);
    }
    assert_eq!(emulator.reg_vx[0xF], 0);
}

#[test]
fn test_draw_start_coordinates_wrap() {
    let mut emulator = default_emulator();
    emulator.reg_i = 0x300;
    emulator.memory[0x300] = 0x80;
    // 64 + 2 wraps to column 2; 32 + 1 wraps to row 1
    emulator.reg_vx[0] = 66;
    emulator.reg_vx[1] = 33;
    emulator.execute_opcode(OpCode::Display { vx: 0, vy: 1, val: 1 });
    assert!(emulator.display_output[64 + 2]);
}

#[test]
fn test_block_until_key_step() {
    let mut emulator = default_emulator();
    // the word at the program counter asks for a key into V1
    emulator.memory[0x200] = 0xF1;
    emulator.memory[0x201] = 0x0A;
    // with no key pressed, stepping leaves the machine in place
    assert_eq!(emulator.step(), StepOutcome::Repeated);
    assert_eq!(emulator.pc, 0x200);
    assert_eq!(emulator.step(), StepOutcome::Repeated);
    assert_eq!(emulator.pc, 0x200);
    // once keys are pressed, the step advances and takes the lowest one
    emulator.keypad[7] = true;
    emulator.keypad[3] = true;
    assert_eq!(emulator.step(), StepOutcome::Advanced);
    assert_eq!(emulator.pc, 0x202);
    assert_eq!(emulator.reg_vx[1], 3);
}

#[test]
fn test_step_skips_undecodable_word() {
    let mut emulator = default_emulator();
    emulator.memory[0x200] = 0x51;
    emulator.memory[0x201] = 0x01;
    assert_eq!(emulator.step(), StepOutcome::DecodeFailed);
    assert_eq!(emulator.pc, 0x202);
}

#[test]
fn test_store_memory_index_advance() {
    let mut emulator = default_emulator();
    emulator.reg_vx[0] = 11;
    emulator.reg_vx[1] = 13;
    emulator.reg_vx[2] = 15;
    emulator.reg_i = 0x300;
    emulator.options.opcode.store_load_mem_use_i = false;
    emulator.execute_opcode(OpCode::StoreMemory { vx: 2 });
    assert_eq!(emulator.memory[0x300], 11);
    assert_eq!(emulator.memory[0x301], 13);
    assert_eq!(emulator.memory[0x302], 15);
    assert_eq!(emulator.reg_i, 0x300);
    emulator.options.opcode.store_load_mem_use_i = true;
    emulator.execute_opcode(OpCode::StoreMemory { vx: 2 });
    assert_eq!(emulator.reg_i, 0x303);
}

#[test]
fn test_call_stack_depth_limit() {
    let mut emulator = default_emulator();
    for _ in 0..16 {
        emulator.execute_opcode(OpCode::Call(0x400));
    }
    assert_eq!(emulator.stack.len(), 16);
    let pc_before = emulator.pc;
    // a call past the depth limit is rejected: nothing changes
    emulator.execute_opcode(OpCode::Call(0x500));
    assert_eq!(emulator.stack.len(), 16);
    assert_eq!(emulator.pc, pc_before);
}

#[test]
fn test_return_on_empty_stack_is_noop() {
    let mut emulator = default_emulator();
    let pc_before = emulator.pc;
    emulator.execute_opcode(OpCode::Return);
    assert_eq!(emulator.pc, pc_before);
    assert!(emulator.stack.is_empty());
}

#[test]
fn test_random_is_masked() {
    let mut emulator = default_emulator();
    emulator.reg_vx[1] = 0xAA;
    emulator.execute_opcode(OpCode::Random { vx: 1, val: 0 });
    assert_eq!(emulator.reg_vx[1], 0);
    for _ in 0..32 {
        emulator.execute_opcode(OpCode::Random { vx: 1, val: 0x0F });
        assert_eq!(emulator.reg_vx[1] & 0xF0, 0);
    }
}

#[test]
fn test_skip_if_key_masks_register() {
    let mut emulator = default_emulator();
    // a register value past the keypad consults latch index value & 0xF
    emulator.reg_vx[1] = 0xF3;
    emulator.keypad[3] = true;
    let pc_before = emulator.pc;
    emulator.execute_opcode(OpCode::SkipIfKeyPressed { vx: 1 });
    assert_eq!(emulator.pc, pc_before + 2);
}

#[test]
fn test_tick_timers_stop_at_zero() {
    let mut emulator = default_emulator();
    emulator.delay_timer = 2;
    emulator.sound_timer = 1;
    emulator.tick_timers();
    assert_eq!(emulator.delay_timer, 1);
    assert_eq!(emulator.sound_timer, 0);
    emulator.tick_timers();
    assert_eq!(emulator.delay_timer, 0);
    assert_eq!(emulator.sound_timer, 0);
    emulator.tick_timers();
    assert_eq!(emulator.delay_timer, 0);
    assert_eq!(emulator.sound_timer, 0);
}

#[test]
fn test_apply_key_event_latch() {
    let mut emulator = default_emulator();
    assert!(!emulator.apply_key_event(KeyEvent::KeyDown(5)));
    assert!(emulator.keypad[5]);
    assert!(!emulator.apply_key_event(KeyEvent::KeyUp(5)));
    assert!(!emulator.keypad[5]);
    // an index off the keypad is ignored
    assert!(!emulator.apply_key_event(KeyEvent::KeyDown(20)));
    assert!(emulator.keypad.iter().all(|k| !k));
    // the quit signal touches nothing and reports itself
    assert!(emulator.apply_key_event(KeyEvent::Quit));
    assert!(emulator.keypad.iter().all(|k| !k));
}

#[test]
fn test_first_key_finds_lowest() {
    let mut emulator = default_emulator();
    assert!(emulator.first_key().is_none());
    emulator.keypad[9] = true;
    emulator.keypad[4] = true;
    assert_eq!(emulator.first_key(), Some(4));
}

#[test]
fn test_bcd_digits() {
    let mut emulator = default_emulator();
    emulator.reg_i = 0x300;
    emulator.reg_vx[4] = 255;
    emulator.execute_opcode(OpCode::BinaryCodedDecimalConversion { vx: 4 });
    assert_eq!(emulator.memory[0x300], 2);
    assert_eq!(emulator.memory[0x301], 5);
    assert_eq!(emulator.memory[0x302], 5);
    emulator.reg_vx[4] = 7;
    emulator.execute_opcode(OpCode::BinaryCodedDecimalConversion { vx: 4 });
    assert_eq!(emulator.memory[0x300], 0);
    assert_eq!(emulator.memory[0x301], 0);
    assert_eq!(emulator.memory[0x302], 7);
}

struct ScriptedSystem {
    pending: Vec<KeyEvent>,
    frames_pushed: usize,
    lit_pixels_last_frame: usize,
}

impl System for ScriptedSystem {
    fn update_screen(&mut self, display_output: &[bool]) {
        self.frames_pushed += 1;
        self.lit_pixels_last_frame = display_output.iter().filter(|p| **p).count();
    }

    fn get_key_event(&mut self) -> Option<KeyEvent> {
        if self.pending.is_empty() {
            None
        } else {
            Some(self.pending.remove(0))
        }
    }
}

#[test]
fn test_run_tick_pushes_one_frame() {
    // the program draws one sprite row, then jumps to itself
    let rom = [
        0xA2u8, 0x08, // set the index register to 0x208
        0xD0, 0x11, // draw one row at (V0, V1)
        0x12, 0x04, // jump to the jump itself
        0x00, 0x00, //
        0xFF, 0x00, // the sprite row
    ];
    let mut emulator = Emulator::new(&rom, &Chip8options::default());
    let mut system = ScriptedSystem {
        pending: Vec::new(),
        frames_pushed: 0,
        lit_pixels_last_frame: 0,
    };
    let quit = emulator.run_tick(&mut system);
    assert!(!quit);
    // the framebuffer went to the sink exactly once, with the row drawn
    assert_eq!(system.frames_pushed, 1);
    assert_eq!(system.lit_pixels_last_frame, 8);
    assert!(!emulator.display_updated);
}

#[test]
fn test_run_tick_vblank_gate() {
    // two back-to-back draws of the same sprite at the same position
    let rom = [
        0xA2u8, 0x08, // set the index register to 0x208
        0xD0, 0x11, // draw one row at (V0, V1)
        0xD0, 0x11, // draw it again
        0x00, 0x00, //
        0xFF, 0x00, // the sprite row
    ];
    let mut emulator = Emulator::new(&rom, &Chip8options::default());
    let mut system = ScriptedSystem {
        pending: Vec::new(),
        frames_pushed: 0,
        lit_pixels_last_frame: 0,
    };
    // with the vblank wait on, the second draw is deferred: the first tick
    // ends with the row drawn and the program counter parked at the draw
    assert!(!emulator.run_tick(&mut system));
    assert_eq!(system.lit_pixels_last_frame, 8);
    assert_eq!(emulator.pc, 0x204);
    // the next tick runs the deferred draw, toggling the row back off
    assert!(!emulator.run_tick(&mut system));
    assert_eq!(system.lit_pixels_last_frame, 0);
    assert_eq!(emulator.reg_vx[0xF], 1);

    // with the vblank wait off, both draws run within one tick
    let mut options = Chip8options::default();
    options.timing.wait_for_vblank = false;
    let mut emulator = Emulator::new(&rom, &options);
    assert!(!emulator.run_tick(&mut system));
    assert_eq!(system.lit_pixels_last_frame, 0);
    assert_eq!(emulator.reg_vx[0xF], 1);
}

#[test]
fn test_run_tick_decrements_timers_once() {
    // ten steps run per tick, but the timers fall by one per tick only
    let rom = [0x12u8, 0x00]; // jump to the program start, forever
    let mut emulator = Emulator::new(&rom, &Chip8options::default());
    emulator.delay_timer = 5;
    emulator.sound_timer = 1;
    let mut system = ScriptedSystem {
        pending: Vec::new(),
        frames_pushed: 0,
        lit_pixels_last_frame: 0,
    };
    assert!(!emulator.run_tick(&mut system));
    assert_eq!(emulator.delay_timer, 4);
    assert_eq!(emulator.sound_timer, 0);
    assert!(!emulator.run_tick(&mut system));
    assert_eq!(emulator.delay_timer, 3);
    assert_eq!(emulator.sound_timer, 0);
}

#[test]
fn test_run_tick_quit_event() {
    let mut emulator = default_emulator();
    let mut system = ScriptedSystem {
        pending: vec![KeyEvent::KeyDown(2), KeyEvent::Quit],
        frames_pushed: 0,
        lit_pixels_last_frame: 0,
    };
    let quit = emulator.run_tick(&mut system);
    assert!(quit);
    // the key event before the quit signal still landed in the latch
    assert!(emulator.keypad[2]);
}
