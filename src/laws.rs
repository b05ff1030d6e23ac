//! Properties of the instruction set that hold for every machine state.
use crate::semantics::{
    address, collides, covers, execute, fetch, low_byte, nibble1, nibble2, nibble3, nibble4, set_v,
    sprite_bit, step, tick_timers_state, tone_requested, MachineState,
};
use crate::sprite::{lemma_pixel_index, pixel_index};
use vstd::prelude::*;

verus! {

/// A state whose program counter has moved past an instruction.
pub open spec fn after_fetch(s: MachineState) -> bool {
    s.wf() && 2 <= s.pc <= 4096
}

/// 7xkk adds kk to Vx modulo 256 and changes nothing else, VF included.
pub proof fn lemma_add_immediate_wraps(s: MachineState, op: u16, rnd: u8)
    requires
        after_fetch(s),
        nibble1(op) == 7,
    ensures
        execute(s, op, rnd) == Ok::<MachineState, crate::semantics::Fault>(
            set_v(s, nibble2(op), ((s.v[nibble2(op)] + low_byte(op)) % 256) as u8),
        ),
{
}

/// 8xy4 leaves `(Vx + Vy) mod 256` in Vx (unless x is F) and sets VF to 1
/// exactly when the sum exceeds 255.
pub proof fn lemma_add_sets_carry(s: MachineState, op: u16, rnd: u8)
    requires
        after_fetch(s),
        nibble1(op) == 8,
        nibble4(op) == 4,
    ensures
        execute(s, op, rnd) is Ok,
        nibble2(op) != 15 ==> execute(s, op, rnd).unwrap().v[nibble2(op)] == (s.v[nibble2(op)]
            + s.v[nibble3(op)]) % 256,
        execute(s, op, rnd).unwrap().v[15] == (if s.v[nibble2(op)] + s.v[nibble3(op)] > 255 {
            1u8
        } else {
            0u8
        }),
{
}

/// 8xy5 leaves `(Vx - Vy) mod 256` in Vx (unless x is F) and sets VF to 1
/// exactly when Vx >= Vy, that is when there is no borrow.
pub proof fn lemma_sub_sets_no_borrow(s: MachineState, op: u16, rnd: u8)
    requires
        after_fetch(s),
        nibble1(op) == 8,
        nibble4(op) == 5,
    ensures
        execute(s, op, rnd) is Ok,
        nibble2(op) != 15 ==> execute(s, op, rnd).unwrap().v[nibble2(op)] == (s.v[nibble2(op)]
            - s.v[nibble3(op)]) % 256,
        execute(s, op, rnd).unwrap().v[15] == (if s.v[nibble2(op)] >= s.v[nibble3(op)] {
            1u8
        } else {
            0u8
        }),
{
}

/// 8xy6 puts the low bit that Vx had before the shift into VF, and halves Vx
/// (unless x is F).
pub proof fn lemma_shift_right_keeps_low_bit(s: MachineState, op: u16, rnd: u8)
    requires
        after_fetch(s),
        nibble1(op) == 8,
        nibble4(op) == 6,
    ensures
        execute(s, op, rnd) is Ok,
        execute(s, op, rnd).unwrap().v[15] == s.v[nibble2(op)] % 2,
        nibble2(op) != 15 ==> execute(s, op, rnd).unwrap().v[nibble2(op)] == s.v[nibble2(op)] / 2,
{
}

/// Drawing a sprite twice at the same place leaves the display as it was.
/// On a blank display the first draw reports no collision and the second
/// reports one exactly when the sprite has a set bit.
pub proof fn lemma_draw_twice_restores(s: MachineState, op: u16, rnd: u8)
    requires
        after_fetch(s),
        nibble1(op) == 0xD,
        nibble2(op) != 15,
        nibble3(op) != 15,
        s.i + nibble4(op) <= 4096,
    ensures
        execute(s, op, rnd) is Ok,
        execute(execute(s, op, rnd).unwrap(), op, rnd) is Ok,
        execute(execute(s, op, rnd).unwrap(), op, rnd).unwrap().screen == s.screen,
        (forall|p: int| 0 <= p < 2048 ==> !s.screen[p]) ==> {
            &&& execute(s, op, rnd).unwrap().v[15] == 0
            &&& execute(execute(s, op, rnd).unwrap(), op, rnd).unwrap().v[15] == if exists|p: int|
                0 <= p < 2048 && #[trigger] covers(
                    s.memory,
                    s.i as int,
                    s.v[nibble2(op)] as int,
                    s.v[nibble3(op)] as int,
                    nibble4(op),
                    p,
                ) {
                1u8
            } else {
                0u8
            }
        },
{
    let x = nibble2(op);
    let y = nibble3(op);
    let n = nibble4(op);
    let cx = s.v[x] as int;
    let cy = s.v[y] as int;
    let s1 = execute(s, op, rnd).unwrap();
    let s2 = execute(s1, op, rnd).unwrap();
    assert(s1.v[x] == s.v[x] && s1.v[y] == s.v[y]);
    assert(s2.screen =~= s.screen);
    if forall|p: int| 0 <= p < 2048 ==> !s.screen[p] {
        assert(!collides(s, cx, cy, n));
        if exists|p: int| 0 <= p < 2048 && #[trigger] covers(s.memory, s.i as int, cx, cy, n, p) {
            let p = choose|p: int|
                0 <= p < 2048 && #[trigger] covers(s.memory, s.i as int, cx, cy, n, p);
            assert(s1.screen[p]);
            assert(covers(s1.memory, s1.i as int, cx, cy, n, p));
            assert(collides(s1, cx, cy, n));
        } else {
            assert(!collides(s1, cx, cy, n));
        }
    }
}

/// Column `col` of sprite row `row` lands on column `(Vx + col) mod 64` of row
/// `(Vy + row) mod 32`, which flips exactly when that bit of the sprite is set.
pub proof fn lemma_draw_wraps(s: MachineState, op: u16, rnd: u8, row: int, col: int)
    requires
        after_fetch(s),
        nibble1(op) == 0xD,
        s.i + nibble4(op) <= 4096,
        0 <= row < nibble4(op),
        0 <= col < 8,
    ensures
        execute(s, op, rnd) is Ok,
        pixel_index(s.v[nibble2(op)] as int, s.v[nibble3(op)] as int, row, col) == (
        s.v[nibble2(op)] + col) % 64 + 64 * ((s.v[nibble3(op)] + row) % 32),
        execute(s, op, rnd).unwrap().screen[pixel_index(
            s.v[nibble2(op)] as int,
            s.v[nibble3(op)] as int,
            row,
            col,
        )] == (s.screen[pixel_index(s.v[nibble2(op)] as int, s.v[nibble3(op)] as int, row, col)]
            != sprite_bit(s.memory[s.i + row], col)),
{
    lemma_pixel_index(s.v[nibble2(op)] as int, s.v[nibble3(op)] as int, row, col);
}

/// A call followed by a return at the called address resumes at the
/// instruction after the call, with the stack as deep as before.
pub proof fn lemma_call_then_return(s: MachineState, rnd: u8)
    requires
        s.wf(),
        s.pc + 1 < 4096,
        nibble1(fetch(s)) == 2,
        s.sp < 16,
        address(fetch(s)) + 1 < 4096,
        s.memory[address(fetch(s)) as int] == 0x00,
        s.memory[address(fetch(s)) + 1] == 0xEE,
    ensures
        step(s, rnd) is Ok,
        step(step(s, rnd).unwrap(), rnd) is Ok,
        step(step(s, rnd).unwrap(), rnd).unwrap().pc == s.pc + 2,
        step(step(s, rnd).unwrap(), rnd).unwrap().sp == s.sp,
{
    let s1 = step(s, rnd).unwrap();
    assert(fetch(s1) == 0x00EE);
}

/// With no key down, Fx0A leaves the machine exactly as it was, so ticking
/// again and again does not move the program counter.
pub proof fn lemma_key_wait_idles(s: MachineState, rnd: u8)
    requires
        s.wf(),
        s.pc + 1 < 4096,
        nibble1(fetch(s)) == 0xF,
        low_byte(fetch(s)) == 0x0A,
        forall|k: int| 0 <= k < 16 ==> !s.keys[k],
    ensures
        step(s, rnd) == Ok::<MachineState, crate::semantics::Fault>(s),
{
    assert(!exists|k: int| 0 <= k < 16 && #[trigger] s.keys[k]);
}

/// With some key down, Fx0A sets Vx to 1 and moves on to the next instruction.
pub proof fn lemma_key_wait_resumes(s: MachineState, rnd: u8, k: int)
    requires
        s.wf(),
        s.pc + 1 < 4096,
        nibble1(fetch(s)) == 0xF,
        low_byte(fetch(s)) == 0x0A,
        0 <= k < 16,
        s.keys[k],
    ensures
        step(s, rnd) == Ok::<MachineState, crate::semantics::Fault>(
            MachineState { pc: (s.pc + 2) as u16, v: s.v.update(nibble2(fetch(s)), 1u8), ..s },
        ),
{
}

/// The state after `k` timer ticks.
pub open spec fn run_timers(s: MachineState, k: nat) -> MachineState
    decreases k,
{
    if k == 0 {
        s
    } else {
        run_timers(tick_timers_state(s), (k - 1) as nat)
    }
}

/// How many of `k` timer ticks from `s` request a tone.
pub open spec fn tones(s: MachineState, k: nat) -> nat
    decreases k,
{
    if k == 0 {
        0
    } else {
        (if tone_requested(s) {
            1nat
        } else {
            0nat
        }) + tones(tick_timers_state(s), (k - 1) as nat)
    }
}

/// Over `k` timer ticks both timers count down and stop at zero, and a tone is
/// requested once if the sound timer runs out within them, never otherwise.
pub proof fn lemma_timers_count_down(s: MachineState, k: nat)
    ensures
        run_timers(s, k).delay == (if s.delay >= k {
            s.delay - k
        } else {
            0
        }),
        run_timers(s, k).sound == (if s.sound >= k {
            s.sound - k
        } else {
            0
        }),
        tones(s, k) == (if 0 < s.sound <= k {
            1nat
        } else {
            0nat
        }),
    decreases k,
{
    if k > 0 {
        lemma_timers_count_down(tick_timers_state(s), (k - 1) as nat);
    }
}

} // verus!
