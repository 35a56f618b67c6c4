//! Configuration for a CHIP-8 run.
//!
//! All options are plain values with defaults; they are validated once, when
//! the machine is constructed, and fixed for the lifetime of the run.  The
//! embedding program is free to fill them from a configuration file before
//! handing them to the library.

use vstd::prelude::*;

verus! {

/// Framebuffer dimensions and rendering options.  Only the dimensions are
/// consulted by the execution engine; scaling and colors concern the display
/// backend alone.
#[derive(Debug, Clone, Copy)]
pub struct Display {
    pub display_width: u32,
    pub display_height: u32,
    pub scaling: u32,
    pub color_off_rgb: (u8, u8, u8),
    pub color_on_rgb: (u8, u8, u8),
}

impl Default for Display {
    /// A 64 by 32 screen, drawn white on black at twenty-fold scale.
    fn default() -> (d: Display)
        ensures
            d == (Display {
                display_width: 64,
                display_height: 32,
                scaling: 20,
                color_off_rgb: (0, 0, 0),
                color_on_rgb: (255, 255, 255),
            }),
    {
        Display {
            display_width: 64,
            display_height: 32,
            scaling: 20,
            color_off_rgb: (0, 0, 0),
            color_on_rgb: (255, 255, 255),
        }
    }
}

/// How many display ticks pass per second, and how many instruction steps
/// run within each tick.
#[derive(Debug, Clone, Copy)]
pub struct Timing {
    pub display_frequency: u32,
    pub cpu_cycles_per_display_tick: u32,
    /// When set, at most one sprite draw completes per display tick; any
    /// further draw in the same tick is deferred to the next one, the way
    /// early hardware drew at most once per display refresh.
    pub wait_for_vblank: bool,
}

impl Default for Timing {
    /// Sixty ticks per second, ten steps per tick, one draw per tick.
    fn default() -> (t: Timing)
        ensures
            t == (Timing {
                display_frequency: 60,
                cpu_cycles_per_display_tick: 10,
                wait_for_vblank: true,
            }),
    {
        Timing { display_frequency: 60, cpu_cycles_per_display_tick: 10, wait_for_vblank: true }
    }
}

/// Behaviour toggles for instructions whose effect diverged between
/// historical CHIP-8 interpreters.
#[derive(Debug, Clone, Copy)]
pub struct Opcode {
    /// Shift instructions operate on `VX` in place instead of first copying
    /// `VY` into `VX`.
    pub shift_ignore_vy: bool,
    /// The offset jump adds `V[x]`, where `x` is the high nibble of the
    /// target address, instead of `V0`.
    pub jump_w_offset_use_vx: bool,
    /// Block register store and load advance the index register past the
    /// bytes they touched.
    pub store_load_mem_use_i: bool,
    /// Register copy and the bitwise OR, AND and XOR instructions clear `VF`
    /// as a side effect.
    pub logic_ops_reset_vf: bool,
}

impl Default for Opcode {
    /// Shifts ignore `VY`, the offset jump uses `V0`, block store and load
    /// leave the index register alone, and logical instructions leave `VF`
    /// alone.
    fn default() -> (o: Opcode)
        ensures
            o == (Opcode {
                shift_ignore_vy: true,
                jump_w_offset_use_vx: false,
                store_load_mem_use_i: false,
                logic_ops_reset_vf: false,
            }),
    {
        Opcode {
            shift_ignore_vy: true,
            jump_w_offset_use_vx: false,
            store_load_mem_use_i: false,
            logic_ops_reset_vf: false,
        }
    }
}

/// The memory layout: total size, where the program is loaded, and where the
/// font sprites are written.
#[derive(Debug, Clone, Copy)]
pub struct Memory {
    pub mem_size: u16,
    pub rom_start: u16,
    pub font_start: u16,
}

impl Default for Memory {
    /// Four kilobytes, the program at `0x200`, the font at `0x50`.
    fn default() -> (m: Memory)
        ensures
            m == (Memory { mem_size: 4096, rom_start: 0x200, font_start: 0x50 }),
    {
        Memory { mem_size: 4096, rom_start: 0x200, font_start: 0x50 }
    }
}

/// The complete option set for one run.
#[derive(Debug, Clone, Copy)]
pub struct Chip8options {
    pub display: Display,
    pub timing: Timing,
    pub opcode: Opcode,
    pub memory: Memory,
}

impl Chip8options {
    /// The options describe a machine that can be built: the screen has at
    /// least one pixel on each axis and each dimension fits in a byte, and
    /// the eighty font bytes fit in memory at their offset.
    pub open spec fn wf(self) -> bool {
        &&& 0 < self.display.display_width <= 255
        &&& 0 < self.display.display_height <= 255
        &&& self.memory.font_start + 80 <= self.memory.mem_size
    }
}

impl Default for Chip8options {
    /// The default of every option group; a well-formed configuration.
    fn default() -> (o: Chip8options)
        ensures
            o.display == (Display {
                display_width: 64,
                display_height: 32,
                scaling: 20,
                color_off_rgb: (0, 0, 0),
                color_on_rgb: (255, 255, 255),
            }),
            o.timing == (Timing {
                display_frequency: 60,
                cpu_cycles_per_display_tick: 10,
                wait_for_vblank: true,
            }),
            o.opcode == (Opcode {
                shift_ignore_vy: true,
                jump_w_offset_use_vx: false,
                store_load_mem_use_i: false,
                logic_ops_reset_vf: false,
            }),
            o.memory == (Memory { mem_size: 4096, rom_start: 0x200, font_start: 0x50 }),
            o.wf(),
    {
        Chip8options {
            display: Display::default(),
            timing: Timing::default(),
            opcode: Opcode::default(),
            memory: Memory::default(),
        }
    }
}

} // verus!
