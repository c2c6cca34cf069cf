//! Machine-wide laws, each proved once and for all over the transition
//! function of the machine model.

use vstd::prelude::*;
use vstd::arithmetic::div_mod::lemma_add_mod_noop;
use vstd::arithmetic::div_mod::lemma_fundamental_div_mod_converse;
use vstd::arithmetic::div_mod::lemma_mod_multiples_vanish;
use vstd::arithmetic::div_mod::lemma_small_mod;
use crate::screen::blit_row;
use crate::screen::blit_rows;
use crate::screen::frame_wf;
use crate::screen::spec_draw;
use crate::state::State;
use crate::state::any_key_pressed;
use crate::state::first_pressed_from;
use crate::state::pc_wrap;
use crate::state::state_wf;
use crate::state::step;
use crate::state::tick_timer;
use crate::state::wrap8;

verus! {

/// Add-immediate wraps and round-trips: adding `kk` to a register and then
/// adding its 8-bit complement leaves the register where it started, and the
/// value after each add stays a byte. No intermediate leaves `[0, 255]`.
pub proof fn lemma_add_imm_round_trip(s: State, x: u16, kk: u8, rnd: u8, rnd2: u8)
    requires
        state_wf(s),
        x < 16,
    ensures
        ({
            let w1 = 0x7000u16 | (x << 8) | (kk as u16);
            let kk2 = wrap8(256 - kk);
            let w2 = 0x7000u16 | (x << 8) | (kk2 as u16);
            let t = step(s, w1, rnd);
            let u = step(t, w2, rnd2);
            &&& t.v[x as int] == wrap8(s.v[x as int] + kk)
            &&& 0 <= t.v[x as int] < 256
            &&& u.v[x as int] == s.v[x as int]
        }),
{
    let w1 = 0x7000u16 | (x << 8) | (kk as u16);
    let kk2 = wrap8(256 - kk);
    let w2 = 0x7000u16 | (x << 8) | (kk2 as u16);
    assert((0x7000u16 | (x << 8) | (kk as u16)) >> 12 & 0xF == 7 && (0x7000u16 | (x << 8) | (
    kk as u16)) >> 8 & 0xF == x && ((0x7000u16 | (x << 8) | (kk as u16)) & 0xFF) == kk as u16)
        by (bit_vector)
        requires
            x < 16,
    ;
    assert((0x7000u16 | (x << 8) | (kk2 as u16)) >> 12 & 0xF == 7 && (0x7000u16 | (x << 8) | (
    kk2 as u16)) >> 8 & 0xF == x && ((0x7000u16 | (x << 8) | (kk2 as u16)) & 0xFF) == kk2 as u16)
        by (bit_vector)
        requires
            x < 16,
            kk2 < 256,
    ;
    let t = step(s, w1, rnd);
    let vx = s.v[x as int];
    assert(t.v[x as int] == wrap8(vx + kk));
    let u = step(t, w2, rnd2);
    assert(u.v[x as int] == wrap8(wrap8(vx + kk) + kk2));
    assert(wrap8(wrap8(vx + kk) + kk2) == vx) by {
        lemma_small_mod((256 - kk) as nat % 256, 256);
        lemma_add_mod_noop(vx + kk, 256 - kk, 256);
        assert(wrap8(vx + kk) == (vx + kk) % 256);
        assert(kk2 == (256 - kk) % 256);
        assert((wrap8(vx + kk) + kk2) % 256 == (vx + kk + 256 - kk) % 256);
        lemma_mod_multiples_vanish(1, vx as int, 256);
        lemma_small_mod(vx as nat, 256);
    }
}

/// Subroutine round trip: a call followed by a return brings the program
/// counter to the instruction after the call and restores the call stack.
pub proof fn lemma_call_return(s: State, nnn: u16, rnd: u8, rnd2: u8)
    requires
        state_wf(s),
        nnn < 4096,
    ensures
        ({
            let t = step(s, 0x2000u16 | nnn, rnd);
            let u = step(t, 0x00EEu16, rnd2);
            &&& t.pc == nnn
            &&& t.stack == s.stack.push(pc_wrap(s.pc + 2))
            &&& u.pc == pc_wrap(s.pc + 2)
            &&& u.stack == s.stack
        }),
{
    let w1 = 0x2000u16 | nnn;
    assert((0x2000u16 | nnn) >> 12 & 0xF == 2 && ((0x2000u16 | nnn) & 0x0FFF) == nnn)
        by (bit_vector)
        requires
            nnn < 4096,
    ;
    assert(0x00EEu16 >> 12 & 0xF == 0 && 0x00EEu16 >> 8 & 0xF == 0 && 0x00EEu16 >> 4 & 0xF == 0xE
        && 0x00EEu16 & 0xF == 0xE) by (bit_vector);
    let t = step(s, w1, rnd);
    let u = step(t, 0x00EEu16, rnd2);
    assert(t.stack.len() > 0);
    assert(u.pc == t.stack.last());
    assert(u.stack =~= s.stack);
}

/// The blocking key-wait opcode: with no key pressed it leaves the machine
/// exactly as it was, so the same instruction runs again next cycle; once a
/// key is pressed it stores the lowest pressed key index and moves on.
pub proof fn lemma_wait_key(s: State, x: u16, rnd: u8)
    requires
        state_wf(s),
        x < 16,
    ensures
        ({
            let t = step(s, 0xF00Au16 | (x << 8), rnd);
            &&& !any_key_pressed(s.keys) ==> t == s
            &&& any_key_pressed(s.keys) ==> t.pc == pc_wrap(s.pc + 2) && t.v == s.v.update(
                x as int,
                first_pressed_from(s.keys, 0),
            )
        }),
{
    let w = 0xF00Au16 | (x << 8);
    assert((0xF00Au16 | (x << 8)) >> 12 & 0xF == 0xF && (0xF00Au16 | (x << 8)) >> 8 & 0xF == x && (
    0xF00Au16 | (x << 8)) >> 4 & 0xF == 0x0 && (0xF00Au16 | (x << 8)) & 0xF == 0xA)
        by (bit_vector)
        requires
            x < 16,
    ;
    let t = step(s, w, rnd);
    if !any_key_pressed(s.keys) {
        assert(t == (State { pc: s.pc, ..(State { pc: pc_wrap(s.pc + 2), ..s }) }));
    }
}

/// Timer decay never goes below zero, and a frame worth at least one and
/// less than two sixtieths of a second takes exactly one decrement off a
/// running timer, carrying the remainder forward.
pub proof fn lemma_timer_single_tick(timer: u8, acc: u64, e: u64)
    requires
        acc < 1000000,
        1000000 <= acc + 60 * e < 2000000,
    ensures
        tick_timer(timer, acc, e).0 <= timer,
        timer > 0 ==> tick_timer(timer, acc, e).0 == timer - 1,
        timer > 0 ==> tick_timer(timer, acc, e).1 == acc + 60 * e - 1000000,
{
    if timer > 0 {
        lemma_fundamental_div_mod_converse(
            acc + 60 * e,
            1000000,
            1,
            acc + 60 * e - 1000000,
        );
    }
}

/// Drawing a one-row sprite twice at the same origin on a clear surface:
/// the first draw reports no collision, the second reports one exactly when
/// the sprite has a set bit at all, and the pixels end as they began, since
/// the XOR toggles cancel.
#[verifier::rlimit(100)]
pub proof fn lemma_draw_twice_cancels(pixels: Seq<u8>, dirty: bool, x0: int, y0: int, row: u8)
    requires
        frame_wf(pixels),
        forall|k: int| 0 <= k < 2048 ==> pixels[k] == 0,
        x0 >= 0,
        y0 >= 0,
    ensures
        ({
            let f1 = spec_draw(pixels, dirty, x0, y0, seq![row]);
            let f2 = spec_draw(f1.pixels, f1.dirty, x0, y0, seq![row]);
            &&& !f1.collision
            &&& f2.collision == (row != 0)
            &&& f2.pixels == pixels
        }),
{
    reveal_with_fuel(blit_row, 9);
    reveal_with_fuel(blit_rows, 2);
    assert forall|a: int, b: int| 0 <= a < b < 8 implies #[trigger] ((x0 + a) % 64) != #[trigger] ((
    x0 + b) % 64) by {
        lemma_add_mod_noop(x0, a, 64);
        lemma_add_mod_noop(x0, b, 64);
        lemma_small_mod(a as nat, 64);
        lemma_small_mod(b as nat, 64);
        let r = x0 % 64;
        if r + a < 64 {
            lemma_small_mod((r + a) as nat, 64);
        } else {
            lemma_mod_multiples_vanish(1, r + a - 64, 64);
            lemma_small_mod((r + a - 64) as nat, 64);
        }
        if r + b < 64 {
            lemma_small_mod((r + b) as nat, 64);
        } else {
            lemma_mod_multiples_vanish(1, r + b - 64, 64);
            lemma_small_mod((r + b - 64) as nat, 64);
        }
    };
    assert(((row >> 7u8) & 1 == 1 || (row >> 6u8) & 1 == 1 || (row >> 5u8) & 1 == 1 || (row
        >> 4u8) & 1 == 1 || (row >> 3u8) & 1 == 1 || (row >> 2u8) & 1 == 1 || (row >> 1u8) & 1 == 1
        || (row >> 0u8) & 1 == 1) <==> row != 0) by (bit_vector);
    let f1 = spec_draw(pixels, dirty, x0, y0, seq![row]);
    let f2 = spec_draw(f1.pixels, f1.dirty, x0, y0, seq![row]);
    assert(f2.pixels =~= pixels);
}

} // verus!
