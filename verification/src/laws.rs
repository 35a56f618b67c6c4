//! Properties of the execution engine that hold for every machine state,
//! stated and proved once and for all: arithmetic wrap and carry, the
//! subtract borrow flag, the shift toggle, draw collision and clipping, and
//! the blocking key wait.

use crate::emulator::MachineV;
use crate::emulator::StepOutcome;
use crate::emulator::draw_bit;
use crate::emulator::draw_collision;
use crate::emulator::draw_in_rect;
use crate::emulator::first_pressed_key;
use crate::emulator::first_pressed_key_from;
use crate::emulator::spec_execute;
use crate::emulator::spec_fetched_op;
use crate::emulator::spec_step;
use crate::opcode::OpCode;
use vstd::arithmetic::div_mod::lemma_fundamental_div_mod_converse;
use vstd::prelude::*;

verus! {

/// Adding an immediate to `VX` wraps: the register afterward holds the sum
/// reduced modulo 256, and nothing else of the machine changes but that
/// register.
pub proof fn lemma_add_wraps(pre: MachineV, vx: u8, val: u8, rnd: u8)
    requires
        pre.wf(),
        vx < 16,
    ensures
        spec_execute(pre, OpCode::Add { vx, val }, rnd).regs[vx as int] == (pre.regs[vx as int]
            + val) % 256,
        spec_execute(pre, OpCode::Add { vx, val }, rnd) == (MachineV {
            regs: pre.regs.update(vx as int, ((pre.regs[vx as int] + val) % 256) as u8),
            ..pre
        }),
{
}

/// The carry variant of addition sets `VF` to one exactly when the wrapped
/// sum is smaller than the value `VX` held before the operation.
pub proof fn lemma_add_carry_flag(pre: MachineV, vx: u8, vy: u8, rnd: u8)
    requires
        pre.wf(),
        vx < 16,
        vy < 16,
    ensures
        spec_execute(pre, OpCode::AddVyToVx { vx, vy }, rnd).regs[15] == 1u8 <==> (pre.regs[vx as int]
            + pre.regs[vy as int]) % 256 < pre.regs[vx as int],
{
}

/// Subtracting `VY` from `VX` sets `VF` to one exactly when there is no
/// borrow: when `VX` was at least `VY` before the operation.  This holds
/// for every pair of register values.
pub proof fn lemma_sub_borrow_flag(pre: MachineV, vx: u8, vy: u8, rnd: u8)
    requires
        pre.wf(),
        vx < 16,
        vy < 16,
    ensures
        spec_execute(pre, OpCode::SubVxVyToVx { vx, vy }, rnd).regs[15] == 1u8 <==> pre.regs[vx as int]
            >= pre.regs[vy as int],
{
}

/// The value a shift instruction produces from its source byte.
pub open spec fn spec_shifted(src: u8, left_shift: bool) -> u8 {
    if left_shift {
        (src & 0x7F) << 1u8
    } else {
        src >> 1u8
    }
}

/// The shift toggle selects which register's value is shifted into `VX`:
/// with `shift_ignore_vy` set the source is `VX` itself, with it cleared
/// the source is `VY`.  The two machines need only agree on their register
/// files for the results to be these.
pub proof fn lemma_shift_quirk(
    pre_vx: MachineV,
    pre_vy: MachineV,
    vx: u8,
    vy: u8,
    left_shift: bool,
    rnd: u8,
)
    requires
        pre_vx.wf(),
        pre_vy.wf(),
        vx < 16,
        vy < 16,
        vx != 15,
        pre_vx.regs == pre_vy.regs,
        pre_vx.options.opcode.shift_ignore_vy,
        !pre_vy.options.opcode.shift_ignore_vy,
    ensures
        spec_execute(pre_vx, OpCode::Shift { vx, vy, left_shift }, rnd).regs[vx as int]
            == spec_shifted(pre_vx.regs[vx as int], left_shift),
        spec_execute(pre_vy, OpCode::Shift { vx, vy, left_shift }, rnd).regs[vx as int]
            == spec_shifted(pre_vx.regs[vy as int], left_shift),
{
}

/// A draw writes only inside its clip rectangle: any screen position
/// outside it — left of the start column, past the eighth sprite column,
/// above the start row, past the last sprite row, or where the sprite ran
/// off the screen edge — keeps its pixel.
pub proof fn lemma_draw_clip(pre: MachineV, vx: u8, vy: u8, n: u8, rnd: u8, x: int, y: int)
    requires
        pre.wf(),
        vx < 16,
        vy < 16,
        0 <= x < pre.display_width as int,
        0 <= y < pre.display_height as int,
        !draw_in_rect(pre, vx as int, vy as int, n as int, x, y),
    ensures
        spec_execute(pre, OpCode::Display { vx, vy, val: n }, rnd).display[y * (pre.display_width
            as int) + x] == pre.display[y * (pre.display_width as int) + x],
{
    let w = pre.display_width as int;
    let h = pre.display_height as int;
    let idx = y * w + x;
    assert(0 <= y * w + x && y * w + x < w * h) by (nonlinear_arith)
        requires
            0 <= x < w,
            0 <= y < h,
    ;
    lemma_fundamental_div_mod_converse(idx, w, y, x);
}

/// Drawing the same sprite twice at the same position restores every
/// pixel of the screen, and the second draw reports a collision exactly
/// when the first draw turned some visible sprite pixel on: when some
/// position inside the rectangle has its sprite bit set and was off
/// before the first draw.
pub proof fn lemma_draw_twice(pre: MachineV, vx: u8, vy: u8, n: u8, rnd: u8)
    requires
        pre.wf(),
        vx < 16,
        vy < 16,
        vx != 15,
        vy != 15,
    ensures
        spec_execute(
            spec_execute(pre, OpCode::Display { vx, vy, val: n }, rnd),
            OpCode::Display { vx, vy, val: n },
            rnd,
        ).display == pre.display,
        spec_execute(
            spec_execute(pre, OpCode::Display { vx, vy, val: n }, rnd),
            OpCode::Display { vx, vy, val: n },
            rnd,
        ).regs[15] == 1u8 <==> (exists|p: int|
            0 <= p < pre.display.len() && #[trigger] draw_in_rect(
                pre,
                vx as int,
                vy as int,
                n as int,
                p % (pre.display_width as int),
                p / (pre.display_width as int),
            ) && draw_bit(
                pre,
                vx as int,
                vy as int,
                p % (pre.display_width as int),
                p / (pre.display_width as int),
            ) && !pre.display[p]),
{
    let gvx = vx as int;
    let gvy = vy as int;
    let gn = n as int;
    let w = pre.display_width as int;
    let op = OpCode::Display { vx, vy, val: n };
    let mid = spec_execute(pre, op, rnd);
    let post = spec_execute(mid, op, rnd);
    assert(mid.regs[gvx] == pre.regs[gvx]);
    assert(mid.regs[gvy] == pre.regs[gvy]);
    // the draw geometry and sprite bits of the second draw match the first
    assert forall|x: int, y: int|
        #[trigger] draw_in_rect(mid, gvx, gvy, gn, x, y) == draw_in_rect(
            pre,
            gvx,
            gvy,
            gn,
            x,
            y,
        ) && #[trigger] draw_bit(mid, gvx, gvy, x, y) == draw_bit(pre, gvx, gvy, x, y) by {}
    assert(post.display =~= pre.display) by {
        assert forall|p: int| 0 <= p < pre.display.len() implies post.display[p]
            == pre.display[p] by {}
    }
    if post.regs[15] == 1u8 {
        let p = choose|p: int|
            0 <= p < mid.display.len() && #[trigger] mid.display[p] && draw_in_rect(
                mid,
                gvx,
                gvy,
                gn,
                p % w,
                p / w,
            ) && draw_bit(mid, gvx, gvy, p % w, p / w);
        assert(draw_in_rect(pre, gvx, gvy, gn, p % w, p / w) && draw_bit(
            pre,
            gvx,
            gvy,
            p % w,
            p / w,
        ) && !pre.display[p]);
    }
    if exists|p: int|
        0 <= p < pre.display.len() && #[trigger] draw_in_rect(pre, gvx, gvy, gn, p % w, p / w)
            && draw_bit(pre, gvx, gvy, p % w, p / w) && !pre.display[p] {
        let p = choose|p: int|
            0 <= p < pre.display.len() && #[trigger] draw_in_rect(pre, gvx, gvy, gn, p % w, p / w)
                && draw_bit(pre, gvx, gvy, p % w, p / w) && !pre.display[p];
        assert(mid.display[p]);
        assert(draw_collision(mid, gvx, gvy, gn));
    }
}

/// The lowest-pressed-key scan is what its name says: when it yields a
/// key, that key is pressed and none below it is; when it yields nothing,
/// no key is pressed at all.
pub proof fn lemma_first_pressed_key_lowest(keypad: Seq<bool>)
    requires
        keypad.len() == 16,
    ensures
        first_pressed_key(keypad) matches Some(k) ==> k < 16 && keypad[k as int] && (forall|j: int|
            0 <= j < k as int ==> !keypad[j]),
        first_pressed_key(keypad) is None ==> forall|j: int| 0 <= j < 16 ==> !keypad[j],
{
    lemma_first_pressed_key_from(keypad, 0);
}

/// The scan from position `i` yields the lowest pressed key at or above
/// `i`, or nothing when no key at or above `i` is pressed.
proof fn lemma_first_pressed_key_from(keypad: Seq<bool>, i: int)
    requires
        keypad.len() == 16,
        0 <= i <= 16,
    ensures
        first_pressed_key_from(keypad, i) matches Some(k) ==> i <= k < 16 && keypad[k as int] && (
        forall|j: int| i <= j < k as int ==> !keypad[j]),
        first_pressed_key_from(keypad, i) is None ==> forall|j: int| i <= j < 16 ==> !keypad[j],
    decreases 16 - i,
{
    if i < 16 && !keypad[i] {
        lemma_first_pressed_key_from(keypad, i + 1);
    }
}

/// The blocking key wait: with no key pressed, a step at that instruction
/// returns the machine exactly as it was — stepping again and again
/// changes nothing — and reports `Repeated`.  With a key pressed, the step
/// advances the program counter past the word and writes the lowest
/// pressed key index into `VX`.
pub proof fn lemma_block_until_key(pre: MachineV, vx: u8, rnd: u8)
    requires
        pre.wf(),
        vx < 16,
        spec_fetched_op(pre) == Some(OpCode::GetKey { vx }),
    ensures
        first_pressed_key(pre.keypad) is None ==> spec_step(pre, rnd) == (
        pre,
        StepOutcome::Repeated,
        ),
        first_pressed_key(pre.keypad) matches Some(k) ==> spec_step(pre, rnd) == (
        (MachineV { pc: pre.pc.wrapping_add(2), regs: pre.regs.update(vx as int, k), ..pre }),
        StepOutcome::Advanced,
        ),
{
    let fetched = MachineV { pc: pre.pc.wrapping_add(2), ..pre };
    match first_pressed_key(pre.keypad) {
        Some(k) => {},
        None => {
            let post = spec_execute(fetched, OpCode::GetKey { vx }, rnd);
            assert(post.pc == pre.pc);
            assert(post =~= pre);
        },
    }
}

} // verus!
