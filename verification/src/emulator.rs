//! The CHIP-8 machine state and its execution engine.
//!
//! `Emulator` owns the machine state: memory, the sixteen general registers,
//! the index register, the program counter, the call stack, both timers, the
//! keypad latch and the framebuffer.  Its ghost view is a `MachineV`, and the
//! effect of every instruction on that view is given by the specification
//! function `spec_execute`, against which the executable engine is verified.

use crate::chip8options::Chip8options;
use crate::opcode::OpCode;
use crate::opcode::spec_decode_word;
use vstd::arithmetic::div_mod::lemma_fundamental_div_mod;
use vstd::arithmetic::div_mod::lemma_fundamental_div_mod_converse;
use vstd::prelude::*;

verus! {

/// One keypad or control event drained from the input source.
pub enum KeyEvent {
    KeyDown(u8),
    KeyUp(u8),
    Quit,
}

/// The capability set the machine needs from its surroundings: somewhere to
/// push a finished frame, and a source of input events.  Implemented by the
/// embedding program over whatever display and input technology it uses.
pub trait System {
    /// Presents the current framebuffer, row-major, one `bool` per pixel.
    fn update_screen(&mut self, display_output: &[bool]);

    /// Returns the next pending input event, or `None` when the queue is
    /// empty.
    fn get_key_event(&mut self) -> Option<KeyEvent>;
}

/// How one execution step ended.
#[derive(Debug, Clone, Copy, PartialEq, Eq, Structural)]
pub enum StepOutcome {
    /// The instruction ran and the program counter moved on.
    Advanced,
    /// The program counter was rewound to the instruction it started at:
    /// the machine is blocked waiting for a key.
    Repeated,
    /// The word at the program counter decodes to no instruction; it was
    /// skipped.
    DecodeFailed,
}

/// The mathematical model of the machine state.
#[verifier::ext_equal]
pub ghost struct MachineV {
    pub memory: Seq<u8>,
    pub display: Seq<bool>,
    pub display_width: u8,
    pub display_height: u8,
    pub pc: u16,
    pub reg_i: u16,
    pub stack: Seq<u16>,
    pub delay_timer: u8,
    pub sound_timer: u8,
    pub regs: Seq<u8>,
    pub keypad: Seq<bool>,
    pub options: Chip8options,
    pub display_updated: bool,
}

impl MachineV {
    /// The state is internally consistent: buffer lengths match the
    /// configured layout and the configuration itself is well formed.
    pub open spec fn wf(self) -> bool {
        &&& self.options.wf()
        &&& self.memory.len() == self.options.memory.mem_size as int
        &&& self.regs.len() == 16
        &&& self.keypad.len() == 16
        &&& self.display_width > 0
        &&& self.display_height > 0
        &&& self.display.len() == self.display_width as int * self.display_height as int
    }
}

/// The most calls the machine keeps return addresses for.  A `Call` that
/// would grow the stack past this depth is rejected: the machine is left
/// unchanged, execution continuing with the instruction after the `Call`.
pub const STACK_LIMIT: usize = 16;

/// The index of the lowest pressed key at or above position `i` of the
/// keypad latch, scanning upward, or `None` when no key at or above `i` is
/// pressed.
pub open spec fn first_pressed_key_from(keypad: Seq<bool>, i: int) -> Option<u8>
    decreases 16 - i,
{
    if i < 0 || i >= 16 {
        None
    } else if keypad[i] {
        Some(i as u8)
    } else {
        first_pressed_key_from(keypad, i + 1)
    }
}

/// The index of the lowest pressed key of the keypad latch, or `None` when
/// none is pressed.
pub open spec fn first_pressed_key(keypad: Seq<bool>) -> Option<u8> {
    first_pressed_key_from(keypad, 0)
}

/// Memory after the block store: for each `x` below `count`, register `x`
/// written at address `base + x`, taken modulo the memory size, ascending
/// `x` written last.
pub open spec fn store_regs(mem: Seq<u8>, regs: Seq<u8>, base: int, count: int) -> Seq<u8>
    decreases count,
{
    if count <= 0 {
        mem
    } else {
        store_regs(mem, regs, base, count - 1).update(
            (base + count - 1) % (mem.len() as int),
            regs[count - 1],
        )
    }
}

/// The register file after the block load: for each `x` below `count`,
/// register `x` replaced by the byte at address `base + x`, taken modulo the
/// memory size.
pub open spec fn load_regs(regs: Seq<u8>, mem: Seq<u8>, base: int, count: int) -> Seq<u8>
    decreases count,
{
    if count <= 0 {
        regs
    } else {
        load_regs(regs, mem, base, count - 1).update(
            count - 1,
            mem[(base + count - 1) % (mem.len() as int)],
        )
    }
}

/// The block store leaves the memory size unchanged.
pub proof fn lemma_store_regs_len(mem: Seq<u8>, regs: Seq<u8>, base: int, count: int)
    requires
        mem.len() > 0,
    ensures
        store_regs(mem, regs, base, count).len() == mem.len(),
    decreases count,
{
    if count > 0 {
        lemma_store_regs_len(mem, regs, base, count - 1);
    }
}

/// The block load leaves the register count unchanged.
pub proof fn lemma_load_regs_len(regs: Seq<u8>, mem: Seq<u8>, base: int, count: int)
    requires
        count <= regs.len(),
    ensures
        load_regs(regs, mem, base, count).len() == regs.len(),
    decreases count,
{
    if count > 0 {
        lemma_load_regs_len(regs, mem, base, count - 1);
    }
}

/// The index register after a block store or load: advanced past the bytes
/// touched when the corresponding toggle is set, wrapping modulo the memory
/// size, and left alone otherwise.
pub open spec fn advanced_index(pre: MachineV, vx: u8) -> u16 {
    if pre.options.opcode.store_load_mem_use_i {
        (((pre.reg_i + vx + 1) % (pre.memory.len() as int))) as u16
    } else {
        pre.reg_i
    }
}

/// The byte of memory at `addr`, taken modulo the memory size; every
/// addressed access of the engine resolves this way.
pub open spec fn mem_at(m: MachineV, addr: int) -> u8 {
    m.memory[addr % (m.memory.len() as int)]
}

/// Whether bit `dx` (counting from the left, zero first) of a sprite row
/// byte is set.
pub open spec fn sprite_bit(row_byte: u8, dx: int) -> bool {
    (row_byte >> ((7 - dx) as u8)) & 1 == 1
}

/// Whether screen position `(x, y)` lies inside the rectangle a draw of `n`
/// sprite rows touches: the sprite starts at the drawn registers' values
/// wrapped into the screen, extends eight columns and `n` rows, and clips at
/// the right and bottom edges.
pub open spec fn draw_in_rect(pre: MachineV, vx: int, vy: int, n: int, x: int, y: int) -> bool {
    let w = pre.display_width as int;
    let h = pre.display_height as int;
    let x0 = (pre.regs[vx] as int) % w;
    let y0 = (pre.regs[vy] as int) % h;
    &&& x0 <= x < x0 + 8
    &&& x < w
    &&& y0 <= y < y0 + n
    &&& y < h
}

/// The sprite bit a draw XORs into screen position `(x, y)`: row `y - y0` of
/// the sprite is the byte at `I + (y - y0)`, and `x - x0` picks its bit from
/// the left.
pub open spec fn draw_bit(pre: MachineV, vx: int, vy: int, x: int, y: int) -> bool {
    let w = pre.display_width as int;
    let h = pre.display_height as int;
    let x0 = (pre.regs[vx] as int) % w;
    let y0 = (pre.regs[vy] as int) % h;
    sprite_bit(mem_at(pre, pre.reg_i + (y - y0)), x - x0)
}

/// The framebuffer after a draw: inside the touched rectangle each pixel is
/// XORed with its sprite bit, outside it nothing changes.
pub open spec fn draw_display(pre: MachineV, vx: int, vy: int, n: int) -> Seq<bool> {
    let w = pre.display_width as int;
    Seq::new(
        pre.display.len(),
        |idx: int|
            {
                let x = idx % w;
                let y = idx / w;
                if draw_in_rect(pre, vx, vy, n, x, y) {
                    pre.display[idx] != draw_bit(pre, vx, vy, x, y)
                } else {
                    pre.display[idx]
                }
            },
    )
}

/// Whether a draw collides: some pixel inside the touched rectangle was on
/// and its sprite bit is set.
pub open spec fn draw_collision(pre: MachineV, vx: int, vy: int, n: int) -> bool {
    let w = pre.display_width as int;
    exists|idx: int|
        0 <= idx < pre.display.len() && #[trigger] pre.display[idx] && draw_in_rect(
            pre,
            vx,
            vy,
            n,
            idx % w,
            idx / w,
        ) && draw_bit(pre, vx, vy, idx % w, idx / w)
}

/// The register file after a register copy or a bitwise instruction:
/// `regs` is the file with the destination already written; `VF` is cleared
/// on top of that when the corresponding toggle is set.
pub open spec fn logic_ops_regs(pre: MachineV, regs: Seq<u8>) -> Seq<u8> {
    if pre.options.opcode.logic_ops_reset_vf {
        regs.update(15, 0u8)
    } else {
        regs
    }
}

/// The machine state after executing one decoded instruction on `pre`.
///
/// `rnd` is the byte the random source yielded; only the `Random`
/// instruction reads it.  The program counter in `pre` already points past
/// the instruction word: fetching advances it before execution, and the
/// blocking instruction rewinds it by two to retry.
pub open spec fn spec_execute(pre: MachineV, op: OpCode, rnd: u8) -> MachineV {
    match op {
        OpCode::ClearScreen => MachineV {
            display: Seq::new(pre.display.len(), |i: int| false),
            display_updated: true,
            ..pre
        },
        OpCode::Jump(addr) => MachineV { pc: addr, ..pre },
        OpCode::Call(addr) => {
            if pre.stack.len() < STACK_LIMIT as int {
                MachineV { stack: pre.stack.push(pre.pc), pc: addr, ..pre }
            } else {
                pre
            }
        },
        OpCode::Return => {
            if pre.stack.len() > 0 {
                MachineV { pc: pre.stack.last(), stack: pre.stack.drop_last(), ..pre }
            } else {
                pre
            }
        },
        OpCode::SetVx { vx, val } => MachineV { regs: pre.regs.update(vx as int, val), ..pre },
        OpCode::Add { vx, val } => MachineV {
            regs: pre.regs.update(vx as int, pre.regs[vx as int].wrapping_add(val)),
            ..pre
        },
        OpCode::SkipIfVxEq { vx, val } => MachineV {
            pc: if pre.regs[vx as int] == val {
                pre.pc.wrapping_add(2)
            } else {
                pre.pc
            },
            ..pre
        },
        OpCode::SkipIfVxNeq { vx, val } => MachineV {
            pc: if pre.regs[vx as int] != val {
                pre.pc.wrapping_add(2)
            } else {
                pre.pc
            },
            ..pre
        },
        OpCode::SkipIfVxEqVy { vx, vy } => MachineV {
            pc: if pre.regs[vx as int] == pre.regs[vy as int] {
                pre.pc.wrapping_add(2)
            } else {
                pre.pc
            },
            ..pre
        },
        OpCode::SkipIfVxNeqVy { vx, vy } => MachineV {
            pc: if pre.regs[vx as int] != pre.regs[vy as int] {
                pre.pc.wrapping_add(2)
            } else {
                pre.pc
            },
            ..pre
        },
        OpCode::SetVxToVy { vx, vy } => MachineV {
            regs: logic_ops_regs(pre, pre.regs.update(vx as int, pre.regs[vy as int])),
            ..pre
        },
        OpCode::BinaryOr { vx, vy } => MachineV {
            regs: logic_ops_regs(
                pre,
                pre.regs.update(vx as int, pre.regs[vx as int] | pre.regs[vy as int]),
            ),
            ..pre
        },
        OpCode::BinaryAnd { vx, vy } => MachineV {
            regs: logic_ops_regs(
                pre,
                pre.regs.update(vx as int, pre.regs[vx as int] & pre.regs[vy as int]),
            ),
            ..pre
        },
        OpCode::LogicalXor { vx, vy } => MachineV {
            regs: logic_ops_regs(
                pre,
                pre.regs.update(vx as int, pre.regs[vx as int] ^ pre.regs[vy as int]),
            ),
            ..pre
        },
        OpCode::AddVyToVx { vx, vy } => {
            let sum = pre.regs[vx as int].wrapping_add(pre.regs[vy as int]);
            let flag: u8 = if sum < pre.regs[vx as int] {
                1
            } else {
                0
            };
            MachineV { regs: pre.regs.update(vx as int, sum).update(15, flag), ..pre }
        },
        OpCode::SubVxVyToVx { vx, vy } => {
            let diff = pre.regs[vx as int].wrapping_sub(pre.regs[vy as int]);
            let flag: u8 = if pre.regs[vx as int] >= pre.regs[vy as int] {
                1
            } else {
                0
            };
            MachineV { regs: pre.regs.update(vx as int, diff).update(15, flag), ..pre }
        },
        OpCode::SubVyVxToVx { vx, vy } => {
            let diff = pre.regs[vy as int].wrapping_sub(pre.regs[vx as int]);
            let flag: u8 = if pre.regs[vy as int] >= pre.regs[vx as int] {
                1
            } else {
                0
            };
            MachineV { regs: pre.regs.update(vx as int, diff).update(15, flag), ..pre }
        },
        OpCode::Shift { vx, vy, left_shift } => {
            let src: u8 = if pre.options.opcode.shift_ignore_vy {
                pre.regs[vx as int]
            } else {
                pre.regs[vy as int]
            };
            let shifted: u8 = if left_shift {
                (src & 0x7F) << 1u8
            } else {
                src >> 1u8
            };
            let flag: u8 = if left_shift {
                src >> 7u8
            } else {
                src & 1
            };
            MachineV { regs: pre.regs.update(vx as int, shifted).update(15, flag), ..pre }
        },
        OpCode::SetIndex(addr) => MachineV { reg_i: addr, ..pre },
        OpCode::JumpWithOffset { vx, val } => {
            let sel: int = if pre.options.opcode.jump_w_offset_use_vx {
                vx as int
            } else {
                0
            };
            MachineV { pc: ((val + pre.regs[sel]) as u16), ..pre }
        },
        OpCode::Random { vx, val } => MachineV {
            regs: pre.regs.update(vx as int, rnd & val),
            ..pre
        },
        OpCode::Display { vx, vy, val } => MachineV {
            display: draw_display(pre, vx as int, vy as int, val as int),
            regs: pre.regs.update(
                15,
                if draw_collision(pre, vx as int, vy as int, val as int) {
                    1u8
                } else {
                    0u8
                },
            ),
            display_updated: true,
            ..pre
        },
        OpCode::SkipIfKeyPressed { vx } => MachineV {
            pc: if pre.keypad[(pre.regs[vx as int] & 0xF) as int] {
                pre.pc.wrapping_add(2)
            } else {
                pre.pc
            },
            ..pre
        },
        OpCode::SkipIfKeyNotPressed { vx } => MachineV {
            pc: if !pre.keypad[(pre.regs[vx as int] & 0xF) as int] {
                pre.pc.wrapping_add(2)
            } else {
                pre.pc
            },
            ..pre
        },
        OpCode::SetVxToDelayTimer { vx } => MachineV {
            regs: pre.regs.update(vx as int, pre.delay_timer),
            ..pre
        },
        OpCode::SetDelayTimerToVx { vx } => MachineV { delay_timer: pre.regs[vx as int], ..pre },
        OpCode::SetSoundTimerToVx { vx } => MachineV { sound_timer: pre.regs[vx as int], ..pre },
        OpCode::AddToIndex { vx } => {
            let sum: int = pre.reg_i + pre.regs[vx as int];
            let size: int = pre.options.memory.mem_size as int;
            if sum >= size {
                MachineV {
                    reg_i: ((sum % size) as u16),
                    regs: pre.regs.update(15, 1u8),
                    ..pre
                }
            } else {
                MachineV { reg_i: sum as u16, ..pre }
            }
        },
        OpCode::GetKey { vx } => {
            match first_pressed_key(pre.keypad) {
                Some(k) => MachineV { regs: pre.regs.update(vx as int, k), ..pre },
                None => MachineV { pc: pre.pc.wrapping_sub(2), ..pre },
            }
        },
        OpCode::FontCharacter { vx } => MachineV {
            reg_i: ((pre.options.memory.font_start + 5 * (pre.regs[vx as int] & 0xF)) as u16),
            ..pre
        },
        OpCode::BinaryCodedDecimalConversion { vx } => {
            let v = pre.regs[vx as int];
            let size: int = pre.memory.len() as int;
            MachineV {
                memory: pre.memory.update((pre.reg_i as int) % size, (v / 100) as u8).update(
                    (pre.reg_i + 1) % size,
                    ((v % 100) / 10) as u8,
                ).update((pre.reg_i + 2) % size, (v % 10) as u8),
                ..pre
            }
        },
        OpCode::StoreMemory { vx } => MachineV {
            memory: store_regs(pre.memory, pre.regs, pre.reg_i as int, vx as int + 1),
            reg_i: advanced_index(pre, vx),
            ..pre
        },
        OpCode::LoadMemory { vx } => MachineV {
            regs: load_regs(pre.regs, pre.memory, pre.reg_i as int, vx as int + 1),
            reg_i: advanced_index(pre, vx),
            ..pre
        },
    }
}

/// Whether the draw loops have already processed screen position
/// `(px, py)` when they stand at column `x` of row `y`: rows above `y` are
/// done, and in row `y` the columns left of `x` are.
spec fn drawn_before(
    pre: MachineV,
    vx: int,
    vy: int,
    n: int,
    x: int,
    y: int,
    px: int,
    py: int,
) -> bool {
    draw_in_rect(pre, vx, vy, n, px, py) && (py < y || (py == y && px < x))
}

/// The framebuffer `disp` agrees with the draw's effect on the processed
/// region and with the old framebuffer everywhere else.
spec fn display_matches_upto(
    pre: MachineV,
    vx: int,
    vy: int,
    n: int,
    x: int,
    y: int,
    disp: Seq<bool>,
) -> bool {
    let w = pre.display_width as int;
    forall|p: int|
        0 <= p < pre.display.len() ==> disp[p] == (if drawn_before(
            pre,
            vx,
            vy,
            n,
            x,
            y,
            p % w,
            p / w,
        ) {
            pre.display[p] != draw_bit(pre, vx, vy, p % w, p / w)
        } else {
            pre.display[p]
        })
}

/// Whether a collision has happened within the processed region.
spec fn collision_upto(pre: MachineV, vx: int, vy: int, n: int, x: int, y: int) -> bool {
    let w = pre.display_width as int;
    exists|p: int|
        0 <= p < pre.display.len() && #[trigger] pre.display[p] && drawn_before(
            pre,
            vx,
            vy,
            n,
            x,
            y,
            p % w,
            p / w,
        ) && draw_bit(pre, vx, vy, p % w, p / w)
}

/// The machine state of one CHIP-8 run.
pub struct Emulator {
    pub memory: Vec<u8>,
    pub display_output: Vec<bool>,
    pub display_width: u8,
    pub display_height: u8,
    pub pc: u16,
    pub reg_i: u16,
    pub stack: Vec<u16>,
    pub delay_timer: u8,
    pub sound_timer: u8,
    pub reg_vx: Vec<u8>,
    pub keypad: Vec<bool>,
    pub options: Chip8options,
    pub rng: rand::rngs::ThreadRng,
    pub display_updated: bool,
}

impl View for Emulator {
    type V = MachineV;

    open spec fn view(&self) -> MachineV {
        MachineV {
            memory: self.memory@,
            display: self.display_output@,
            display_width: self.display_width,
            display_height: self.display_height,
            pc: self.pc,
            reg_i: self.reg_i,
            stack: self.stack@,
            delay_timer: self.delay_timer,
            sound_timer: self.sound_timer,
            regs: self.reg_vx@,
            keypad: self.keypad@,
            options: self.options,
            display_updated: self.display_updated,
        }
    }
}

/// The random generator the `Random` instruction draws from.  The type is
/// opaque to verification; nothing is assumed about the bytes it yields.
#[verifier::external_type_specification]
#[verifier::external_body]
pub struct ExThreadRng(rand::rngs::ThreadRng);

/// Relies on `rand::rng`: hands out the thread-local random generator.  It
/// can abort the process if the operating system's entropy source fails at
/// the generator's first initialization on a thread — an environmental
/// failure no caller can rule out, treated as fatal.
#[verifier::external_body]
fn new_thread_rng() -> rand::rngs::ThreadRng {
    rand::rng()
}

/// Relies on `rand::Rng::random`: draws one byte from the generator.  The
/// byte may differ between two calls on equal state; nothing is promised of
/// its value.  It can abort the process if the operating system's entropy
/// source fails when the generator reseeds — an environmental failure no
/// caller can rule out, treated as fatal.
#[verifier::external_body]
fn random_byte(rng: &mut rand::rngs::ThreadRng) -> u8 {
    rand::Rng::random::<u8>(rng)
}

/// The eighty bytes of the standard CHIP-8 font: sixteen glyphs, `0` through
/// `F`, five bytes each, written to memory when the machine is built.
pub open spec fn font_data() -> Seq<u8> {
    seq![
        0xF0u8, 0x90, 0x90, 0x90, 0xF0, // 0
        0x20, 0x60, 0x20, 0x20, 0x70, // 1
        0xF0, 0x10, 0xF0, 0x80, 0xF0, // 2
        0xF0, 0x10, 0xF0, 0x10, 0xF0, // 3
        0x90, 0x90, 0xF0, 0x10, 0x10, // 4
        0xF0, 0x80, 0xF0, 0x10, 0xF0, // 5
        0xF0, 0x80, 0xF0, 0x90, 0xF0, // 6
        0xF0, 0x10, 0x20, 0x40, 0x40, // 7
        0xF0, 0x90, 0xF0, 0x90, 0xF0, // 8
        0xF0, 0x90, 0xF0, 0x10, 0xF0, // 9
        0xF0, 0x90, 0xF0, 0x90, 0x90, // A
        0xE0, 0x90, 0xE0, 0x90, 0xE0, // B
        0xF0, 0x80, 0x80, 0x80, 0xF0, // C
        0xE0, 0x90, 0x90, 0x90, 0xE0, // D
        0xF0, 0x80, 0xF0, 0x80, 0xF0, // E
        0xF0, 0x80, 0xF0, 0x80, 0x80, // F
    ]
}

/// The font table as an executable array.
fn font_table() -> (t: [u8; 80])
    ensures
        t@ == font_data(),
{
    let t: [u8; 80] = [
        0xF0u8, 0x90, 0x90, 0x90, 0xF0, // 0
        0x20, 0x60, 0x20, 0x20, 0x70, // 1
        0xF0, 0x10, 0xF0, 0x80, 0xF0, // 2
        0xF0, 0x10, 0xF0, 0x10, 0xF0, // 3
        0x90, 0x90, 0xF0, 0x10, 0x10, // 4
        0xF0, 0x80, 0xF0, 0x10, 0xF0, // 5
        0xF0, 0x80, 0xF0, 0x90, 0xF0, // 6
        0xF0, 0x10, 0x20, 0x40, 0x40, // 7
        0xF0, 0x90, 0xF0, 0x90, 0xF0, // 8
        0xF0, 0x90, 0xF0, 0x10, 0xF0, // 9
        0xF0, 0x90, 0xF0, 0x90, 0x90, // A
        0xE0, 0x90, 0xE0, 0x90, 0xE0, // B
        0xF0, 0x80, 0x80, 0x80, 0xF0, // C
        0xE0, 0x90, 0x90, 0x90, 0xE0, // D
        0xF0, 0x80, 0xF0, 0x80, 0xF0, // E
        0xF0, 0x80, 0xF0, 0x80, 0x80, // F
    ];
    assert(t@ =~= font_data());
    t
}

/// Memory as it looks right after construction: the program bytes at the
/// configured program offset, the font table at the configured font offset
/// (the program wins where the two overlap, being written last), zero
/// everywhere else.
pub open spec fn initial_memory(rom: Seq<u8>, opts: Chip8options) -> Seq<u8> {
    let rom_start = opts.memory.rom_start as int;
    let font_start = opts.memory.font_start as int;
    Seq::new(
        opts.memory.mem_size as nat,
        |i: int|
            if rom_start <= i < rom_start + rom.len() {
                rom[i - rom_start]
            } else if font_start <= i < font_start + 80 {
                font_data()[i - font_start]
            } else {
                0u8
            },
    )
}

impl Emulator {
    /// The state is internally consistent; constructors establish this and
    /// every engine operation preserves it.
    pub open spec fn wf(self) -> bool {
        self@.wf()
    }

    /// Builds a machine from a program image and a validated option set: the
    /// program is copied to its configured offset, the font table to its
    /// own, the screen starts cleared, every register and timer at zero, and
    /// execution starts at `0x200`.
    pub fn new(rom: &[u8], options: &Chip8options) -> (e: Self)
        requires
            options.wf(),
            options.memory.rom_start + rom@.len() <= options.memory.mem_size,
        ensures
            e@.memory == initial_memory(rom@, *options),
            e@.display =~= Seq::new(
                (options.display.display_width * options.display.display_height) as nat,
                |i: int| false,
            ),
            e@.display_width == options.display.display_width as u8,
            e@.display_height == options.display.display_height as u8,
            e@.pc == 0x200,
            e@.reg_i == 0,
            e@.stack == Seq::<u16>::empty(),
            e@.delay_timer == 0,
            e@.sound_timer == 0,
            e@.regs =~= Seq::new(16, |i: int| 0u8),
            e@.keypad =~= Seq::new(16, |i: int| false),
            e@.options == *options,
            !e@.display_updated,
            e.wf(),
    {
        let mem_size: usize = options.memory.mem_size as usize;
        let font_start: usize = options.memory.font_start as usize;
        let rom_start: usize = options.memory.rom_start as usize;

        let mut memory: Vec<u8> = Vec::new();
        let mut i: usize = 0;
        while i < mem_size
            invariant
                i <= mem_size,
                memory@.len() == i as int,
                forall|j: int| 0 <= j < i as int ==> memory@[j] == 0u8,
            decreases mem_size - i,
        {
            memory.push(0);
            i = i + 1;
        }

        let fonts: [u8; 80] = font_table();
        let mut j: usize = 0;
        while j < 80
            invariant
                j <= 80,
                font_start + 80 <= mem_size,
                memory@.len() == mem_size as int,
                forall|k: int|
                    font_start as int <= k < font_start as int + j as int ==> memory@[k]
                        == font_data()[k - font_start as int],
                forall|k: int|
                    0 <= k < mem_size as int && !(font_start as int <= k < font_start as int
                        + j as int) ==> memory@[k] == 0u8,
                fonts@ == font_data(),
            decreases 80 - j,
        {
            memory.set(font_start + j, fonts[j]);
            j = j + 1;
        }

        let mut r: usize = 0;
        while r < rom.len()
            invariant
                r <= rom@.len(),
                rom_start + rom@.len() <= mem_size,
                font_start + 80 <= mem_size,
                memory@.len() == mem_size as int,
                forall|k: int|
                    rom_start as int <= k < rom_start as int + r as int ==> memory@[k] == rom@[k
                        - rom_start as int],
                forall|k: int|
                    0 <= k < mem_size as int && !(rom_start as int <= k < rom_start as int
                        + r as int) && font_start as int <= k < font_start as int + 80 ==> memory@[k]
                        == font_data()[k - font_start as int],
                forall|k: int|
                    0 <= k < mem_size as int && !(rom_start as int <= k < rom_start as int
                        + r as int) && !(font_start as int <= k < font_start as int + 80)
                        ==> memory@[k] == 0u8,
            decreases rom@.len() - r,
        {
            memory.set(rom_start + r, rom[r]);
            r = r + 1;
        }
        assert(memory@ =~= initial_memory(rom@, *options));

        let w: usize = options.display.display_width as usize;
        let h: usize = options.display.display_height as usize;
        assert(w * h <= 255 * 255) by (nonlinear_arith)
            requires
                w <= 255,
                h <= 255,
        ;
        let display_len: usize = w * h;
        let mut display_output: Vec<bool> = Vec::new();
        let mut d: usize = 0;
        while d < display_len
            invariant
                d <= display_len,
                display_output@.len() == d as int,
                forall|k: int| 0 <= k < d as int ==> !display_output@[k],
            decreases display_len - d,
        {
            display_output.push(false);
            d = d + 1;
        }

        let mut reg_vx: Vec<u8> = Vec::new();
        let mut keypad: Vec<bool> = Vec::new();
        let mut g: usize = 0;
        while g < 16
            invariant
                g <= 16,
                reg_vx@.len() == g as int,
                keypad@.len() == g as int,
                forall|k: int| 0 <= k < g as int ==> reg_vx@[k] == 0u8,
                forall|k: int| 0 <= k < g as int ==> !keypad@[k],
            decreases 16 - g,
        {
            reg_vx.push(0);
            keypad.push(false);
            g = g + 1;
        }

        Emulator {
            memory,
            display_output,
            display_width: options.display.display_width as u8,
            display_height: options.display.display_height as u8,
            pc: 0x200,
            reg_i: 0,
            stack: Vec::new(),
            delay_timer: 0,
            sound_timer: 0,
            reg_vx,
            keypad,
            options: *options,
            rng: new_thread_rng(),
            display_updated: false,
        }
    }
}

/// The low nibble of a byte is below sixteen.
proof fn lemma_mask_nibble(v: u8)
    by (bit_vector)
    ensures
        v & 0xF < 16,
{
}

impl Emulator {
    /// The lowest pressed key of the keypad latch, scanning upward from
    /// zero, or `None` when no key is pressed.
    pub fn first_key(&self) -> (r: Option<u8>)
        requires
            self@.wf(),
        ensures
            r == first_pressed_key(self@.keypad),
    {
        let mut key: usize = 0;
        while key < 16
            invariant
                self@.wf(),
                key <= 16,
                first_pressed_key(self@.keypad) == first_pressed_key_from(
                    self@.keypad,
                    key as int,
                ),
                forall|j: int| 0 <= j < key as int ==> !self@.keypad[j],
            decreases 16 - key,
        {
            if self.keypad[key] {
                return Some(key as u8);
            }
            key = key + 1;
        }
        None
    }

    /// Clears every pixel of the framebuffer and marks it dirty.
    fn op_clear_screen(&mut self)
        ensures
            final(self)@ == (MachineV {
                display: Seq::new(old(self)@.display.len(), |i: int| false),
                display_updated: true,
                ..old(self)@
            }),
    {
        let len: usize = self.display_output.len();
        let mut cleared: Vec<bool> = Vec::new();
        let mut i: usize = 0;
        while i < len
            invariant
                i <= len,
                cleared@.len() == i as int,
                forall|j: int| 0 <= j < i as int ==> !cleared@[j],
            decreases len - i,
        {
            cleared.push(false);
            i = i + 1;
        }
        self.display_output = cleared;
        self.display_updated = true;
        assert(self@.display =~= Seq::new(old(self)@.display.len(), |i: int| false));
    }

    /// Writes the lowest pressed key into `VX`, or rewinds the program
    /// counter by two to retry when no key is pressed.
    fn op_get_key(&mut self, vx: u8)
        requires
            old(self)@.wf(),
            vx < 16,
        ensures
            final(self)@ == (match first_pressed_key(old(self)@.keypad) {
                Some(k) => MachineV { regs: old(self)@.regs.update(vx as int, k), ..old(self)@ },
                None => MachineV { pc: old(self)@.pc.wrapping_sub(2), ..old(self)@ },
            }),
    {
        match self.first_key() {
            Some(k) => {
                self.reg_vx.set(vx as usize, k);
            },
            None => {
                self.pc = self.pc.wrapping_sub(2);
            },
        }
    }

    /// Copies registers `V0` through `VX` into memory at the index
    /// register, each address taken modulo the memory size, and advances the
    /// index register when the corresponding toggle asks for it.
    fn op_store_memory(&mut self, vx: u8)
        requires
            old(self)@.wf(),
            vx < 16,
        ensures
            final(self)@ == (MachineV {
                memory: store_regs(
                    old(self)@.memory,
                    old(self)@.regs,
                    old(self)@.reg_i as int,
                    vx as int + 1,
                ),
                reg_i: advanced_index(old(self)@, vx),
                ..old(self)@
            }),
    {
        let ghost pre = self@;
        let count: usize = vx as usize + 1;
        let len: usize = self.memory.len();
        let mut x: usize = 0;
        while x < count
            invariant
                pre.wf(),
                x <= count,
                count <= 16,
                len == pre.memory.len(),
                len > 0,
                self@ == (MachineV { memory: self@.memory, ..pre }),
                self@.memory.len() == len as int,
                self@.memory == store_regs(pre.memory, pre.regs, pre.reg_i as int, x as int),
            decreases count - x,
        {
            let idx: usize = ((self.reg_i as usize) + x) % len;
            self.memory.set(idx, self.reg_vx[x]);
            x = x + 1;
        }
        if self.options.opcode.store_load_mem_use_i {
            self.reg_i = (((self.reg_i as usize) + (vx as usize) + 1) % len) as u16;
        }
    }

    /// Fills registers `V0` through `VX` from memory at the index register,
    /// each address taken modulo the memory size, and advances the index
    /// register when the corresponding toggle asks for it.
    fn op_load_memory(&mut self, vx: u8)
        requires
            old(self)@.wf(),
            vx < 16,
        ensures
            final(self)@ == (MachineV {
                regs: load_regs(
                    old(self)@.regs,
                    old(self)@.memory,
                    old(self)@.reg_i as int,
                    vx as int + 1,
                ),
                reg_i: advanced_index(old(self)@, vx),
                ..old(self)@
            }),
    {
        let ghost pre = self@;
        let count: usize = vx as usize + 1;
        let len: usize = self.memory.len();
        let mut x: usize = 0;
        while x < count
            invariant
                pre.wf(),
                x <= count,
                count <= 16,
                len == pre.memory.len(),
                len > 0,
                self@ == (MachineV { regs: self@.regs, ..pre }),
                self@.regs.len() == 16,
                self@.regs == load_regs(pre.regs, pre.memory, pre.reg_i as int, x as int),
            decreases count - x,
        {
            let idx: usize = ((self.reg_i as usize) + x) % len;
            let b: u8 = self.memory[idx];
            self.reg_vx.set(x, b);
            x = x + 1;
        }
        if self.options.opcode.store_load_mem_use_i {
            self.reg_i = (((self.reg_i as usize) + (vx as usize) + 1) % len) as u16;
        }
    }

    /// Draws `n` sprite rows read from memory at the index register,
    /// XORing them into the framebuffer; sets `VF` to whether any pixel
    /// collided, and marks the framebuffer dirty.
    #[verifier::rlimit(100)]
    fn op_display(&mut self, vx: u8, vy: u8, n: u8)
        requires
            old(self)@.wf(),
            vx < 16,
            vy < 16,
        ensures
            final(self)@ == (MachineV {
                display: draw_display(old(self)@, vx as int, vy as int, n as int),
                regs: old(self)@.regs.update(
                    15,
                    if draw_collision(old(self)@, vx as int, vy as int, n as int) {
                        1u8
                    } else {
                        0u8
                    },
                ),
                display_updated: true,
                ..old(self)@
            }),
    {
        let ghost pre = self@;
        let ghost gvx = vx as int;
        let ghost gvy = vy as int;
        let ghost gn = n as int;
        let w: usize = self.display_width as usize;
        let h: usize = self.display_height as usize;
        let x0: usize = (self.reg_vx[vx as usize] % self.display_width) as usize;
        let y0: usize = (self.reg_vx[vy as usize] % self.display_height) as usize;
        let x_end: usize = if x0 + 8 < w {
            x0 + 8
        } else {
            w
        };
        let y_end: usize = if y0 + (n as usize) < h {
            y0 + (n as usize)
        } else {
            h
        };
        let len: usize = self.memory.len();
        let mut collision: bool = false;
        let mut y: usize = y0;
        while y < y_end
            invariant
                pre.wf(),
                gvx == vx as int && gvy == vy as int && gn == n as int,
                vx < 16,
                vy < 16,
                w as int == pre.display_width as int,
                h as int == pre.display_height as int,
                w > 0,
                h > 0,
                x0 as int == (pre.regs[gvx] as int) % (w as int),
                y0 as int == (pre.regs[gvy] as int) % (h as int),
                x0 < w,
                y0 <= y <= y_end,
                y_end <= h,
                y_end as int <= y0 as int + gn,
                x_end as int == if x0 + 8 < w as int {
                    x0 as int + 8
                } else {
                    w as int
                },
                y_end as int == if y0 + gn < h as int {
                    y0 as int + gn
                } else {
                    h as int
                },
                len == pre.memory.len(),
                len > 0,
                self@ == (MachineV { display: self@.display, ..pre }),
                self@.display.len() == pre.display.len(),
                pre.display.len() == (w as int) * (h as int),
                display_matches_upto(pre, gvx, gvy, gn, x0 as int, y as int, self@.display),
                collision == collision_upto(pre, gvx, gvy, gn, x0 as int, y as int),
            decreases y_end - y,
        {
            let row: u8 = self.memory[((self.reg_i as usize) + (y - y0)) % len];
            assert(row == mem_at(pre, pre.reg_i + (y as int - y0 as int)));
            let mut x: usize = x0;
            while x < x_end
                invariant
                    pre.wf(),
                    gvx == vx as int && gvy == vy as int && gn == n as int,
                    vx < 16,
                    vy < 16,
                    w as int == pre.display_width as int,
                    h as int == pre.display_height as int,
                    w > 0,
                    h > 0,
                    x0 as int == (pre.regs[gvx] as int) % (w as int),
                    y0 as int == (pre.regs[gvy] as int) % (h as int),
                    x0 < w,
                    x0 <= x <= x_end,
                    y0 <= y < y_end,
                    y_end <= h,
                    y_end as int <= y0 as int + gn,
                    x_end as int == if x0 + 8 < w as int {
                        x0 as int + 8
                    } else {
                        w as int
                    },
                    y_end as int == if y0 + gn < h as int {
                        y0 as int + gn
                    } else {
                        h as int
                    },
                    len == pre.memory.len(),
                    len > 0,
                    row == mem_at(pre, pre.reg_i + (y as int - y0 as int)),
                    self@ == (MachineV { display: self@.display, ..pre }),
                    self@.display.len() == pre.display.len(),
                    pre.display.len() == (w as int) * (h as int),
                    display_matches_upto(pre, gvx, gvy, gn, x as int, y as int, self@.display),
                    collision == collision_upto(pre, gvx, gvy, gn, x as int, y as int),
                decreases x_end - x,
            {
                let ghost wi = w as int;
                let ghost leni = pre.display.len();
                let ghost x_old = x as int;
                let ghost disp0 = self@.display;
                let ghost col0 = collision;
                assert((x as int) + (y as int) * (w as int) < (w as int) * (h as int) && (x as int)
                    + (y as int) * (w as int) < 65536) by (nonlinear_arith)
                    requires
                        0 <= (x as int) && (x as int) < (w as int),
                        0 <= (y as int) && (y as int) < (h as int),
                        (w as int) <= 255,
                        (h as int) <= 255,
                ;
                let idx: usize = x + y * w;
                proof {
                    lemma_fundamental_div_mod_converse(idx as int, wi, y as int, x as int);
                }
                let dx: usize = x - x0;
                let sh: u8 = (7 - dx) as u8;
                let bit: bool = (row >> sh) & 1 == 1;
                assert(bit == draw_bit(pre, gvx, gvy, x as int, y as int));
                assert(draw_in_rect(pre, gvx, gvy, gn, x as int, y as int));
                assert(disp0[idx as int] == pre.display[idx as int]);
                let old_pixel: bool = self.display_output[idx];
                // XOR the sprite bit into the pixel
                self.display_output.set(idx, old_pixel != bit);
                if old_pixel && bit {
                    collision = true;
                }
                x = x + 1;
                proof {
                    assert forall|p: int| 0 <= p < leni implies self@.display[p] == (if drawn_before(
                        pre,
                        gvx,
                        gvy,
                        gn,
                        x as int,
                        y as int,
                        p % wi,
                        p / wi,
                    ) {
                        pre.display[p] != draw_bit(pre, gvx, gvy, p % wi, p / wi)
                    } else {
                        pre.display[p]
                    }) by {
                        lemma_fundamental_div_mod(p, wi);
                        if p != idx as int {
                            if p % wi == x_old && p / wi == y as int {
                                assert(p == wi * (y as int) + x_old);
                                assert(idx as int == x_old + (y as int) * wi);
                                assert(wi * (y as int) == (y as int) * wi) by (nonlinear_arith);
                                assert(false);
                            }
                        }
                    }
                    assert(display_matches_upto(pre, gvx, gvy, gn, x as int, y as int, self@.display));
                    // the collision flag still matches the processed region
                    if collision {
                        if col0 {
                            let p = choose|p: int|
                                0 <= p < leni && #[trigger] pre.display[p] && drawn_before(
                                    pre,
                                    gvx,
                                    gvy,
                                    gn,
                                    x_old,
                                    y as int,
                                    p % wi,
                                    p / wi,
                                ) && draw_bit(pre, gvx, gvy, p % wi, p / wi);
                            assert(drawn_before(pre, gvx, gvy, gn, x as int, y as int, p % wi, p / wi));
                            assert(collision_upto(pre, gvx, gvy, gn, x as int, y as int));
                        } else {
                            assert(pre.display[idx as int] && drawn_before(
                                pre,
                                gvx,
                                gvy,
                                gn,
                                x as int,
                                y as int,
                                idx as int % wi,
                                idx as int / wi,
                            ) && draw_bit(pre, gvx, gvy, idx as int % wi, idx as int / wi));
                            assert(collision_upto(pre, gvx, gvy, gn, x as int, y as int));
                        }
                    }
                    if collision_upto(pre, gvx, gvy, gn, x as int, y as int) && !collision {
                        let p = choose|p: int|
                            0 <= p < leni && #[trigger] pre.display[p] && drawn_before(
                                pre,
                                gvx,
                                gvy,
                                gn,
                                x as int,
                                y as int,
                                p % wi,
                                p / wi,
                            ) && draw_bit(pre, gvx, gvy, p % wi, p / wi);
                        lemma_fundamental_div_mod(p, wi);
                        if p == idx as int {
                            assert(false);
                        } else {
                            if p % wi == x_old && p / wi == y as int {
                                assert(p == wi * (y as int) + x_old);
                                assert(false);
                            }
                            assert(drawn_before(pre, gvx, gvy, gn, x_old, y as int, p % wi, p / wi));
                            assert(false);
                        }
                    }
                    assert(collision == collision_upto(pre, gvx, gvy, gn, x as int, y as int));
                }
            }
            y = y + 1;
            proof {
                let wi = w as int;
                assert forall|p: int| 0 <= p < pre.display.len() implies (#[trigger] drawn_before(
                    pre,
                    gvx,
                    gvy,
                    gn,
                    x0 as int,
                    y as int,
                    p % wi,
                    p / wi,
                )) == drawn_before(
                    pre,
                    gvx,
                    gvy,
                    gn,
                    x_end as int,
                    y as int - 1,
                    p % wi,
                    p / wi,
                ) by {}
                assert(display_matches_upto(pre, gvx, gvy, gn, x0 as int, y as int, self@.display));
                assert(collision_upto(pre, gvx, gvy, gn, x0 as int, y as int) == collision_upto(
                    pre,
                    gvx,
                    gvy,
                    gn,
                    x_end as int,
                    y as int - 1,
                )) by {
                    if collision_upto(pre, gvx, gvy, gn, x0 as int, y as int) {
                        let p = choose|p: int|
                            0 <= p < pre.display.len() && #[trigger] pre.display[p] && drawn_before(
                                pre,
                                gvx,
                                gvy,
                                gn,
                                x0 as int,
                                y as int,
                                p % wi,
                                p / wi,
                            ) && draw_bit(pre, gvx, gvy, p % wi, p / wi);
                        assert(collision_upto(pre, gvx, gvy, gn, x_end as int, y as int - 1));
                    }
                    if collision_upto(pre, gvx, gvy, gn, x_end as int, y as int - 1) {
                        let p = choose|p: int|
                            0 <= p < pre.display.len() && #[trigger] pre.display[p] && drawn_before(
                                pre,
                                gvx,
                                gvy,
                                gn,
                                x_end as int,
                                y as int - 1,
                                p % wi,
                                p / wi,
                            ) && draw_bit(pre, gvx, gvy, p % wi, p / wi);
                        assert(collision_upto(pre, gvx, gvy, gn, x0 as int, y as int));
                    }
                }
            }
        }
        proof {
            let wi = w as int;
            assert forall|p: int| 0 <= p < pre.display.len() implies (#[trigger] drawn_before(
                pre,
                gvx,
                gvy,
                gn,
                x0 as int,
                y_end as int,
                p % wi,
                p / wi,
            )) == draw_in_rect(pre, gvx, gvy, gn, p % wi, p / wi) by {}
        }
        self.reg_vx.set(15, if collision { 1 } else { 0 });
        self.display_updated = true;
        proof {
            let wi = w as int;
            assert(self@.display =~= draw_display(pre, gvx, gvy, gn));
            if collision {
                let p = choose|p: int|
                    0 <= p < pre.display.len() && #[trigger] pre.display[p] && drawn_before(
                        pre,
                        gvx,
                        gvy,
                        gn,
                        x0 as int,
                        y_end as int,
                        p % wi,
                        p / wi,
                    ) && draw_bit(pre, gvx, gvy, p % wi, p / wi);
                assert(draw_collision(pre, gvx, gvy, gn));
            }
            if draw_collision(pre, gvx, gvy, gn) {
                let p = choose|p: int|
                    0 <= p < pre.display.len() && #[trigger] pre.display[p] && draw_in_rect(
                        pre,
                        gvx,
                        gvy,
                        gn,
                        p % (pre.display_width as int),
                        p / (pre.display_width as int),
                    ) && draw_bit(
                        pre,
                        gvx,
                        gvy,
                        p % (pre.display_width as int),
                        p / (pre.display_width as int),
                    );
                assert(drawn_before(pre, gvx, gvy, gn, x0 as int, y_end as int, p % wi, p / wi));
                assert(collision);
            }
        }
    }

    /// Executes one decoded instruction against the machine state, the
    /// random source already drawn: `rnd` stands in for the byte it
    /// yielded, and the state afterward is exactly `spec_execute` of the
    /// state before.
    pub fn execute_opcode_with_random(&mut self, opcode: OpCode, rnd: u8)
        requires
            old(self)@.wf(),
            opcode.wf(),
        ensures
            final(self)@ == spec_execute(old(self)@, opcode, rnd),
            final(self)@.wf(),
    {
        match opcode {
            OpCode::ClearScreen => {
                self.op_clear_screen();
            },
            OpCode::Jump(addr) => {
                self.pc = addr;
            },
            OpCode::Call(addr) => {
                if self.stack.len() < STACK_LIMIT {
                    self.stack.push(self.pc);
                    self.pc = addr;
                }
            },
            OpCode::Return => {
                if let Some(r) = self.stack.pop() {
                    self.pc = r;
                }
            },
            OpCode::SetVx { vx, val } => {
                self.reg_vx.set(vx as usize, val);
            },
            OpCode::Add { vx, val } => {
                let v: u8 = self.reg_vx[vx as usize].wrapping_add(val);
                self.reg_vx.set(vx as usize, v);
            },
            OpCode::SkipIfVxEq { vx, val } => {
                if self.reg_vx[vx as usize] == val {
                    self.pc = self.pc.wrapping_add(2);
                }
            },
            OpCode::SkipIfVxNeq { vx, val } => {
                if self.reg_vx[vx as usize] != val {
                    self.pc = self.pc.wrapping_add(2);
                }
            },
            OpCode::SkipIfVxEqVy { vx, vy } => {
                if self.reg_vx[vx as usize] == self.reg_vx[vy as usize] {
                    self.pc = self.pc.wrapping_add(2);
                }
            },
            OpCode::SkipIfVxNeqVy { vx, vy } => {
                if self.reg_vx[vx as usize] != self.reg_vx[vy as usize] {
                    self.pc = self.pc.wrapping_add(2);
                }
            },
            OpCode::SetVxToVy { vx, vy } => {
                let v: u8 = self.reg_vx[vy as usize];
                self.reg_vx.set(vx as usize, v);
                if self.options.opcode.logic_ops_reset_vf {
                    self.reg_vx.set(15, 0);
                }
            },
            OpCode::BinaryOr { vx, vy } => {
                let v: u8 = self.reg_vx[vx as usize] | self.reg_vx[vy as usize];
                self.reg_vx.set(vx as usize, v);
                if self.options.opcode.logic_ops_reset_vf {
                    self.reg_vx.set(15, 0);
                }
            },
            OpCode::BinaryAnd { vx, vy } => {
                let v: u8 = self.reg_vx[vx as usize] & self.reg_vx[vy as usize];
                self.reg_vx.set(vx as usize, v);
                if self.options.opcode.logic_ops_reset_vf {
                    self.reg_vx.set(15, 0);
                }
            },
            OpCode::LogicalXor { vx, vy } => {
                let v: u8 = self.reg_vx[vx as usize] ^ self.reg_vx[vy as usize];
                self.reg_vx.set(vx as usize, v);
                if self.options.opcode.logic_ops_reset_vf {
                    self.reg_vx.set(15, 0);
                }
            },
            OpCode::AddVyToVx { vx, vy } => {
                let old_vx: u8 = self.reg_vx[vx as usize];
                let sum: u8 = old_vx.wrapping_add(self.reg_vx[vy as usize]);
                self.reg_vx.set(vx as usize, sum);
                self.reg_vx.set(15, if sum < old_vx { 1 } else { 0 });
            },
            OpCode::SubVxVyToVx { vx, vy } => {
                let a: u8 = self.reg_vx[vx as usize];
                let b: u8 = self.reg_vx[vy as usize];
                self.reg_vx.set(vx as usize, a.wrapping_sub(b));
                self.reg_vx.set(15, if a >= b { 1 } else { 0 });
            },
            OpCode::SubVyVxToVx { vx, vy } => {
                let a: u8 = self.reg_vx[vx as usize];
                let b: u8 = self.reg_vx[vy as usize];
                self.reg_vx.set(vx as usize, b.wrapping_sub(a));
                self.reg_vx.set(15, if b >= a { 1 } else { 0 });
            },
            OpCode::Shift { vx, vy, left_shift } => {
                let src: u8 = if self.options.opcode.shift_ignore_vy {
                    self.reg_vx[vx as usize]
                } else {
                    self.reg_vx[vy as usize]
                };
                if left_shift {
                    self.reg_vx.set(vx as usize, (src & 0x7F) << 1u8);
                    self.reg_vx.set(15, src >> 7u8);
                } else {
                    self.reg_vx.set(vx as usize, src >> 1u8);
                    self.reg_vx.set(15, src & 1);
                }
            },
            OpCode::SetIndex(addr) => {
                self.reg_i = addr;
            },
            OpCode::JumpWithOffset { vx, val } => {
                let offset: u8 = if self.options.opcode.jump_w_offset_use_vx {
                    self.reg_vx[vx as usize]
                } else {
                    self.reg_vx[0]
                };
                self.pc = val + offset as u16;
            },
            OpCode::Random { vx, val } => {
                self.reg_vx.set(vx as usize, rnd & val);
            },
            OpCode::Display { vx, vy, val } => {
                self.op_display(vx, vy, val);
            },
            OpCode::SkipIfKeyPressed { vx } => {
                let k: u8 = self.reg_vx[vx as usize] & 0xF;
                proof {
                    lemma_mask_nibble(self.reg_vx@[vx as int]);
                }
                if self.keypad[k as usize] {
                    self.pc = self.pc.wrapping_add(2);
                }
            },
            OpCode::SkipIfKeyNotPressed { vx } => {
                let k: u8 = self.reg_vx[vx as usize] & 0xF;
                proof {
                    lemma_mask_nibble(self.reg_vx@[vx as int]);
                }
                if !self.keypad[k as usize] {
                    self.pc = self.pc.wrapping_add(2);
                }
            },
            OpCode::SetVxToDelayTimer { vx } => {
                let v: u8 = self.delay_timer;
                self.reg_vx.set(vx as usize, v);
            },
            OpCode::SetDelayTimerToVx { vx } => {
                self.delay_timer = self.reg_vx[vx as usize];
            },
            OpCode::SetSoundTimerToVx { vx } => {
                self.sound_timer = self.reg_vx[vx as usize];
            },
            OpCode::AddToIndex { vx } => {
                let sum: u32 = (self.reg_i as u32) + (self.reg_vx[vx as usize] as u32);
                let size: u32 = self.options.memory.mem_size as u32;
                if sum >= size {
                    self.reg_i = (sum % size) as u16;
                    self.reg_vx.set(15, 1);
                } else {
                    self.reg_i = sum as u16;
                }
            },
            OpCode::GetKey { vx } => {
                self.op_get_key(vx);
            },
            OpCode::FontCharacter { vx } => {
                let glyph: u8 = self.reg_vx[vx as usize] & 0xF;
                proof {
                    lemma_mask_nibble(self.reg_vx@[vx as int]);
                }
                self.reg_i = self.options.memory.font_start + 5 * (glyph as u16);
            },
            OpCode::BinaryCodedDecimalConversion { vx } => {
                let v: u8 = self.reg_vx[vx as usize];
                let len: usize = self.memory.len();
                self.memory.set((self.reg_i as usize) % len, v / 100);
                self.memory.set(((self.reg_i as usize) + 1) % len, (v % 100) / 10);
                self.memory.set(((self.reg_i as usize) + 2) % len, v % 10);
            },
            OpCode::StoreMemory { vx } => {
                self.op_store_memory(vx);
                proof {
                    lemma_store_regs_len(
                        old(self)@.memory,
                        old(self)@.regs,
                        old(self)@.reg_i as int,
                        vx as int + 1,
                    );
                }
            },
            OpCode::LoadMemory { vx } => {
                self.op_load_memory(vx);
                proof {
                    lemma_load_regs_len(
                        old(self)@.regs,
                        old(self)@.memory,
                        old(self)@.reg_i as int,
                        vx as int + 1,
                    );
                }
            },
        }
    }

    /// Executes one decoded instruction against the machine state, drawing
    /// from the machine's own random source where the instruction asks for
    /// a random byte.  Apart from that byte, which may be anything, the
    /// effect is exactly `spec_execute` of the state before.
    pub fn execute_opcode(&mut self, opcode: OpCode)
        requires
            old(self)@.wf(),
            opcode.wf(),
        ensures
            exists|r: u8| final(self)@ == spec_execute(old(self)@, opcode, r),
            !(opcode is Random) ==> final(self)@ == spec_execute(old(self)@, opcode, 0),
            final(self)@.wf(),
    {
        let rnd: u8 = if let OpCode::Random { .. } = opcode {
            random_byte(&mut self.rng)
        } else {
            0
        };
        self.execute_opcode_with_random(opcode, rnd);
    }
}

/// The most input events one drain round hands the machine before a step.
/// A bound this size is never reached by a real event queue; it guarantees
/// the interpreter cannot be starved by an input source that never runs dry.
pub const EVENT_DRAIN_LIMIT: u32 = 1024;

/// The two bytes of the instruction word at the program counter, each
/// address taken modulo the memory size.
pub open spec fn spec_fetched_word(pre: MachineV) -> (u8, u8) {
    let size = pre.memory.len() as int;
    (pre.memory[(pre.pc as int) % size], pre.memory[(pre.pc + 1) % size])
}

/// What the instruction word at the program counter decodes to.
pub open spec fn spec_fetched_op(pre: MachineV) -> Option<OpCode> {
    spec_decode_word(spec_fetched_word(pre).0, spec_fetched_word(pre).1)
}

/// Whether the instruction at the program counter is the one that draws
/// from the random source; only then does a step's result depend on it.
pub open spec fn fetched_is_random(pre: MachineV) -> bool {
    match spec_fetched_op(pre) {
        Some(op) => op is Random,
        None => false,
    }
}

/// Whether the instruction at the program counter is a sprite draw; the
/// timing controller consults this for its one-draw-per-tick gate.
pub open spec fn fetched_is_draw(pre: MachineV) -> bool {
    match spec_fetched_op(pre) {
        Some(op) => op is Display,
        None => false,
    }
}

/// One fetch-decode-execute step on the model: the program counter advances
/// past the word first; a word that decodes to no instruction is skipped
/// with a `DecodeFailed` outcome; the blocking instruction with no key
/// pressed reports `Repeated`, having rewound the program counter onto
/// itself; everything else executes and reports `Advanced`.
pub open spec fn spec_step(pre: MachineV, rnd: u8) -> (MachineV, StepOutcome) {
    let fetched = MachineV { pc: pre.pc.wrapping_add(2), ..pre };
    match spec_fetched_op(pre) {
        None => (fetched, StepOutcome::DecodeFailed),
        Some(op) => {
            let post = spec_execute(fetched, op, rnd);
            let outcome = if op is GetKey && first_pressed_key(pre.keypad) is None {
                StepOutcome::Repeated
            } else {
                StepOutcome::Advanced
            };
            (post, outcome)
        },
    }
}

/// The state after the once-per-tick timer decrement: each timer one closer
/// to zero, never below it.
pub open spec fn spec_tick_timers(pre: MachineV) -> MachineV {
    MachineV {
        delay_timer: if pre.delay_timer > 0 {
            (pre.delay_timer - 1) as u8
        } else {
            0
        },
        sound_timer: if pre.sound_timer > 0 {
            (pre.sound_timer - 1) as u8
        } else {
            0
        },
        ..pre
    }
}

/// The state after one drained input event: a key-down or key-up event with
/// an index on the keypad sets or clears that latch bit; anything else
/// leaves the state alone.
pub open spec fn spec_apply_key_event(pre: MachineV, event: KeyEvent) -> MachineV {
    match event {
        KeyEvent::KeyDown(k) => {
            if k < 16 {
                MachineV { keypad: pre.keypad.update(k as int, true), ..pre }
            } else {
                pre
            }
        },
        KeyEvent::KeyUp(k) => {
            if k < 16 {
                MachineV { keypad: pre.keypad.update(k as int, false), ..pre }
            } else {
                pre
            }
        },
        KeyEvent::Quit => pre,
    }
}

/// One thing a display tick does to the machine, in the order it happened:
/// an input event drained and applied to the keypad latch, or one
/// fetch-decode-execute step, carrying the byte the random source yielded
/// during it.  A tick is a sequence of these after the timer decrement.
pub ghost enum TickAction {
    Drained(KeyEvent),
    Stepped(u8),
}

/// The machine state after one tick action.
pub open spec fn apply_tick_action(s: MachineV, a: TickAction) -> MachineV {
    match a {
        TickAction::Drained(event) => spec_apply_key_event(s, event),
        TickAction::Stepped(rnd) => spec_step(s, rnd).0,
    }
}

/// The machine state after a sequence of tick actions, applied in order.
pub open spec fn apply_tick_actions(s: MachineV, actions: Seq<TickAction>) -> MachineV
    decreases actions.len(),
{
    if actions.len() == 0 {
        s
    } else {
        apply_tick_actions(apply_tick_action(s, actions[0]), actions.drop_first())
    }
}

/// How many of the tick actions are instruction steps.
pub open spec fn stepped_count(actions: Seq<TickAction>) -> int
    decreases actions.len(),
{
    if actions.len() == 0 {
        0
    } else {
        (if actions[0] is Stepped {
            1int
        } else {
            0
        }) + stepped_count(actions.drop_first())
    }
}

/// Whether a tick action, taken at state `s`, executes a sprite draw.
pub open spec fn draw_step_contribution(s: MachineV, a: TickAction) -> int {
    if a is Stepped && fetched_is_draw(s) {
        1
    } else {
        0
    }
}

/// How many sprite draws a sequence of tick actions executes, starting
/// from state `s`.
pub open spec fn draw_steps(s: MachineV, actions: Seq<TickAction>) -> int
    decreases actions.len(),
{
    if actions.len() == 0 {
        0
    } else {
        draw_step_contribution(s, actions[0]) + draw_steps(
            apply_tick_action(s, actions[0]),
            actions.drop_first(),
        )
    }
}

/// What a display tick's action trace must look like, given the state the
/// tick started from and whether it drained the quit signal:
/// - no more instruction steps ran than the configured batch size;
/// - with the vblank wait configured, at most one sprite draw executed;
/// - when the quit signal was drained, it is the last action of the trace:
///   the tick ended there, every event drained before it applied, and no
///   instruction fetched after it;
/// - otherwise no quit signal was drained, and the batch is complete: it
///   ran the configured number of steps, unless the vblank gate ended it
///   early — one draw done and the next instruction another draw.
pub open spec fn tick_trace_ok(pre: MachineV, actions: Seq<TickAction>, quit: bool) -> bool {
    let start = spec_tick_timers(pre);
    let cycles = pre.options.timing.cpu_cycles_per_display_tick as int;
    let gate = pre.options.timing.wait_for_vblank;
    &&& stepped_count(actions) <= cycles
    &&& (gate ==> draw_steps(start, actions) <= 1)
    &&& (quit ==> actions.len() > 0 && actions.last() == TickAction::Drained(KeyEvent::Quit))
    &&& (!quit ==> (forall|i: int|
        0 <= i < actions.len() ==> actions[i] != TickAction::Drained(KeyEvent::Quit)))
    &&& (!quit ==> (stepped_count(actions) == cycles || (gate && draw_steps(start, actions) == 1
        && fetched_is_draw(apply_tick_actions(start, actions)))))
}

/// The machine state a display tick with the given action trace leaves
/// behind: the timers decremented once, then the trace applied; on a tick
/// that did not quit, the framebuffer dirty flag is clear afterward, the
/// frame having gone to the display sink if some action had set it.
pub open spec fn tick_result(pre: MachineV, actions: Seq<TickAction>, quit: bool) -> MachineV {
    let end = apply_tick_actions(spec_tick_timers(pre), actions);
    if quit {
        end
    } else {
        MachineV { display_updated: false, ..end }
    }
}

/// Appending a tick action applies it to the state the earlier actions
/// reach.
proof fn lemma_apply_tick_actions_push(s: MachineV, actions: Seq<TickAction>, a: TickAction)
    ensures
        apply_tick_actions(s, actions.push(a)) == apply_tick_action(
            apply_tick_actions(s, actions),
            a,
        ),
    decreases actions.len(),
{
    if actions.len() == 0 {
        assert(actions.push(a)[0] == a);
        assert(actions.push(a).drop_first() =~= Seq::<TickAction>::empty());
        assert(apply_tick_actions(apply_tick_action(s, a), Seq::<TickAction>::empty())
            == apply_tick_action(s, a));
    } else {
        assert(actions.push(a)[0] == actions[0]);
        assert(actions.push(a).drop_first() =~= actions.drop_first().push(a));
        lemma_apply_tick_actions_push(apply_tick_action(s, actions[0]), actions.drop_first(), a);
    }
}

/// Appending a tick action adds one to the step count exactly when it is a
/// step.
proof fn lemma_stepped_count_push(actions: Seq<TickAction>, a: TickAction)
    ensures
        stepped_count(actions.push(a)) == stepped_count(actions) + (if a is Stepped {
            1int
        } else {
            0
        }),
    decreases actions.len(),
{
    if actions.len() == 0 {
        assert(actions.push(a)[0] == a);
        assert(actions.push(a).drop_first() =~= Seq::<TickAction>::empty());
        assert(stepped_count(Seq::<TickAction>::empty()) == 0);
    } else {
        assert(actions.push(a)[0] == actions[0]);
        assert(actions.push(a).drop_first() =~= actions.drop_first().push(a));
        lemma_stepped_count_push(actions.drop_first(), a);
    }
}

/// Appending a tick action adds one to the draw count exactly when it is a
/// step taken at a state whose next instruction is a sprite draw.
proof fn lemma_draw_steps_push(s: MachineV, actions: Seq<TickAction>, a: TickAction)
    ensures
        draw_steps(s, actions.push(a)) == draw_steps(s, actions) + draw_step_contribution(
            apply_tick_actions(s, actions),
            a,
        ),
    decreases actions.len(),
{
    if actions.len() == 0 {
        assert(actions.push(a)[0] == a);
        assert(actions.push(a).drop_first() =~= Seq::<TickAction>::empty());
        assert(draw_steps(apply_tick_action(s, a), Seq::<TickAction>::empty()) == 0);
    } else {
        assert(actions.push(a)[0] == actions[0]);
        assert(actions.push(a).drop_first() =~= actions.drop_first().push(a));
        lemma_draw_steps_push(apply_tick_action(s, actions[0]), actions.drop_first(), a);
    }
}

/// Executing an instruction never changes the configuration or the screen
/// dimensions.
proof fn lemma_execute_preserves_config(pre: MachineV, op: OpCode, rnd: u8)
    ensures
        spec_execute(pre, op, rnd).options == pre.options,
        spec_execute(pre, op, rnd).display_width == pre.display_width,
        spec_execute(pre, op, rnd).display_height == pre.display_height,
{
}

/// A step never changes the configuration or the screen dimensions.
proof fn lemma_step_preserves_config(pre: MachineV, rnd: u8)
    ensures
        spec_step(pre, rnd).0.options == pre.options,
        spec_step(pre, rnd).0.display_width == pre.display_width,
        spec_step(pre, rnd).0.display_height == pre.display_height,
{
    let fetched = MachineV { pc: pre.pc.wrapping_add(2), ..pre };
    match spec_fetched_op(pre) {
        Some(op) => {
            lemma_execute_preserves_config(fetched, op, rnd);
        },
        None => {},
    }
}

impl Emulator {
    /// Decrements both timers toward zero; called once per display tick,
    /// never per instruction.
    pub fn tick_timers(&mut self)
        ensures
            final(self)@ == spec_tick_timers(old(self)@),
    {
        if self.delay_timer > 0 {
            self.delay_timer = self.delay_timer - 1;
        }
        if self.sound_timer > 0 {
            self.sound_timer = self.sound_timer - 1;
        }
    }

    /// Applies one drained input event to the keypad latch and reports
    /// whether it was the quit signal.
    pub fn apply_key_event(&mut self, event: KeyEvent) -> (quit: bool)
        requires
            old(self)@.wf(),
        ensures
            final(self)@ == spec_apply_key_event(old(self)@, event),
            quit == (event is Quit),
            final(self)@.wf(),
    {
        match event {
            KeyEvent::KeyDown(k) => {
                if k < 16 {
                    self.keypad.set(k as usize, true);
                }
                false
            },
            KeyEvent::KeyUp(k) => {
                if k < 16 {
                    self.keypad.set(k as usize, false);
                }
                false
            },
            KeyEvent::Quit => true,
        }
    }

    /// Whether the next instruction to execute is a sprite draw.
    pub fn next_is_draw(&self) -> (b: bool)
        requires
            self@.wf(),
        ensures
            b == fetched_is_draw(self@),
    {
        let len: usize = self.memory.len();
        let b0: u8 = self.memory[(self.pc as usize) % len];
        let b1: u8 = self.memory[((self.pc as usize) + 1) % len];
        match OpCode::from_word(b0, b1) {
            Some(OpCode::Display { .. }) => true,
            _ => false,
        }
    }

    /// Fetches the two-byte word at the program counter, advances the
    /// counter past it, decodes and executes it.  A word that decodes to no
    /// instruction is skipped, never fatal.  Apart from the byte a random
    /// draw yields, the step's effect is exactly `spec_step` of the state
    /// before.
    pub fn step(&mut self) -> (o: StepOutcome)
        requires
            old(self)@.wf(),
        ensures
            exists|r: u8| (final(self)@, o) == spec_step(old(self)@, r),
            !fetched_is_random(old(self)@) ==> (final(self)@, o) == spec_step(old(self)@, 0),
            final(self)@.wf(),
    {
        let ghost pre = self@;
        let len: usize = self.memory.len();
        let b0: u8 = self.memory[(self.pc as usize) % len];
        let b1: u8 = self.memory[((self.pc as usize) + 1) % len];
        self.pc = self.pc.wrapping_add(2);
        let ghost fetched = self@;
        match OpCode::from_word(b0, b1) {
            None => {
                assert((self@, StepOutcome::DecodeFailed) == spec_step(pre, 0u8));
                StepOutcome::DecodeFailed
            },
            Some(op) => {
                let blocked: bool = match &op {
                    OpCode::GetKey { .. } => self.first_key().is_none(),
                    _ => false,
                };
                let ghost gop = op;
                self.execute_opcode(op);
                let o: StepOutcome = if blocked {
                    StepOutcome::Repeated
                } else {
                    StepOutcome::Advanced
                };
                proof {
                    let r = choose|r: u8| self@ == spec_execute(fetched, gop, r);
                    assert((self@, o) == spec_step(pre, r));
                    if !fetched_is_random(pre) {
                        assert((self@, o) == spec_step(pre, 0u8));
                    }
                }
                o
            },
        }
    }

    /// Runs one display tick: decrements the timers, then up to the
    /// configured number of instruction steps, draining pending input
    /// events before each one, and finally pushes the framebuffer to the
    /// display sink when some step changed it.  Returns whether the quit
    /// signal was drained; the caller owns the tick pacing.
    ///
    /// When the vblank wait is configured, only the first sprite draw of a
    /// tick executes: reaching a second one ends the tick's batch early,
    /// the draw deferred to the next tick.
    ///
    /// Which events arrive and which bytes the random source yields are
    /// the surroundings' to decide, so the contract quantifies over them:
    /// the state afterward is `tick_result` of some action trace — the
    /// timers decremented once, then each drained event and each step
    /// applied in the order they happened, the dirty flag clear at the end
    /// of a tick that did not quit — and `tick_trace_ok` pins the trace's
    /// shape: a complete batch unless the quit signal or the vblank gate
    /// ended it, the quit signal always the last action of its tick.
    pub fn run_tick<S: System>(&mut self, system_handle: &mut S) -> (quit: bool)
        requires
            old(self)@.wf(),
        ensures
            final(self)@.wf(),
            final(self)@.options == old(self)@.options,
            final(self)@.display_width == old(self)@.display_width,
            final(self)@.display_height == old(self)@.display_height,
            !quit ==> !final(self)@.display_updated,
            exists|actions: Seq<TickAction>|
                #[trigger] tick_trace_ok(old(self)@, actions, quit) && final(self)@ == tick_result(
                    old(self)@,
                    actions,
                    quit,
                ),
    {
        let ghost pre = self@;
        self.tick_timers();
        let ghost start = self@;
        let ghost mut actions: Seq<TickAction> = Seq::empty();
        let cycles: u32 = self.options.timing.cpu_cycles_per_display_tick;
        let gate: bool = self.options.timing.wait_for_vblank;
        let mut drew: bool = false;
        let mut cycle: u32 = 0;
        while cycle < cycles
            invariant
                pre.wf(),
                self@.wf(),
                pre == old(self)@,
                start == spec_tick_timers(pre),
                cycles == pre.options.timing.cpu_cycles_per_display_tick,
                gate == pre.options.timing.wait_for_vblank,
                cycle <= cycles,
                self@ == apply_tick_actions(start, actions),
                self@.options == pre.options,
                self@.display_width == pre.display_width,
                self@.display_height == pre.display_height,
                stepped_count(actions) == cycle as int,
                gate ==> draw_steps(start, actions) == (if drew {
                    1int
                } else {
                    0
                }),
                forall|i: int|
                    0 <= i < actions.len() ==> actions[i] != TickAction::Drained(KeyEvent::Quit),
            ensures
                pre == old(self)@,
                self@.wf(),
                self@ == apply_tick_actions(start, actions),
                self@.options == pre.options,
                self@.display_width == pre.display_width,
                self@.display_height == pre.display_height,
                stepped_count(actions) == cycles as int || (gate && draw_steps(start, actions) == 1
                    && fetched_is_draw(self@)),
                stepped_count(actions) <= cycles as int,
                gate ==> draw_steps(start, actions) <= 1,
                forall|i: int|
                    0 <= i < actions.len() ==> actions[i] != TickAction::Drained(KeyEvent::Quit),
            decreases cycles - cycle,
        {
            let mut drained: u32 = 0;
            while drained < EVENT_DRAIN_LIMIT
                invariant
                    pre.wf(),
                    self@.wf(),
                    pre == old(self)@,
                    start == spec_tick_timers(pre),
                    cycles == pre.options.timing.cpu_cycles_per_display_tick,
                    gate == pre.options.timing.wait_for_vblank,
                    cycle < cycles,
                    drained <= EVENT_DRAIN_LIMIT,
                    self@ == apply_tick_actions(start, actions),
                    self@.options == pre.options,
                    self@.display_width == pre.display_width,
                    self@.display_height == pre.display_height,
                    stepped_count(actions) == cycle as int,
                    gate ==> draw_steps(start, actions) == (if drew {
                        1int
                    } else {
                        0
                    }),
                    forall|i: int|
                        0 <= i < actions.len() ==> actions[i] != TickAction::Drained(
                            KeyEvent::Quit,
                        ),
                ensures
                    self@.wf(),
                    self@ == apply_tick_actions(start, actions),
                    self@.options == pre.options,
                    self@.display_width == pre.display_width,
                    self@.display_height == pre.display_height,
                    stepped_count(actions) == cycle as int,
                    gate ==> draw_steps(start, actions) == (if drew {
                        1int
                    } else {
                        0
                    }),
                    forall|i: int|
                        0 <= i < actions.len() ==> actions[i] != TickAction::Drained(
                            KeyEvent::Quit,
                        ),
                decreases EVENT_DRAIN_LIMIT - drained,
            {
                match system_handle.get_key_event() {
                    None => {
                        break ;
                    },
                    Some(event) => {
                        let ghost gev = event;
                        let ghost prev_actions = actions;
                        let is_quit: bool = self.apply_key_event(event);
                        proof {
                            actions = prev_actions.push(TickAction::Drained(gev));
                            lemma_apply_tick_actions_push(
                                start,
                                prev_actions,
                                TickAction::Drained(gev),
                            );
                            lemma_stepped_count_push(prev_actions, TickAction::Drained(gev));
                            lemma_draw_steps_push(start, prev_actions, TickAction::Drained(gev));
                        }
                        if is_quit {
                            proof {
                                assert(tick_trace_ok(pre, actions, true));
                                assert(self@ == tick_result(pre, actions, true));
                            }
                            return true;
                        }
                    },
                }
                drained = drained + 1;
            }
            if self.next_is_draw() {
                if drew && gate {
                    break ;
                }
                drew = true;
            }
            let ghost state_before_step = self@;
            let ghost prev_actions = actions;
            let outcome: StepOutcome = self.step();
            proof {
                let r = choose|r: u8| (self@, outcome) == spec_step(state_before_step, r);
                actions = prev_actions.push(TickAction::Stepped(r));
                lemma_apply_tick_actions_push(start, prev_actions, TickAction::Stepped(r));
                lemma_stepped_count_push(prev_actions, TickAction::Stepped(r));
                lemma_draw_steps_push(start, prev_actions, TickAction::Stepped(r));
                lemma_step_preserves_config(state_before_step, r);
            }
            cycle = cycle + 1;
        }
        if self.display_updated {
            system_handle.update_screen(self.display_output.as_slice());
            self.display_updated = false;
        }
        proof {
            assert(tick_trace_ok(pre, actions, false));
            assert(self@ =~= tick_result(pre, actions, false));
        }
        false
    }
}

} // verus!
