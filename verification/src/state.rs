//! The mathematical model of the machine: an abstract state, the decoding
//! helpers, and the transition function `step` that gives the meaning of one
//! 16-bit instruction word. The interpreter in `chip8` is proved to follow
//! `step` exactly.

use vstd::prelude::*;
use crate::screen::frame_wf;
use crate::screen::spec_draw;

verus! {

/// Abstract machine state: every observable part of the machine as a
/// mathematical value.
pub ghost struct State {
    /// The 4096-byte memory.
    pub ram: Seq<u8>,
    /// Return addresses pushed by subroutine calls, most recent last.
    pub stack: Seq<u16>,
    /// The 16 general-purpose registers `V0`-`VF`.
    pub v: Seq<u8>,
    /// The 16-bit index register.
    pub i: u16,
    /// The program counter, always below 4096.
    pub pc: u16,
    /// The 60 Hz delay countdown.
    pub delay_timer: u8,
    /// The 60 Hz sound countdown.
    pub sound_timer: u8,
    /// Microseconds of elapsed time, scaled by 60, not yet turned into
    /// delay-timer decrements; always below one second's worth.
    pub delay_acc: u64,
    /// The same accumulator for the sound timer.
    pub sound_acc: u64,
    /// The 64x32 pixel grid, row-major, each entry 0 or 1.
    pub screen: Seq<u8>,
    /// Whether pixels changed since the flag was last acknowledged.
    pub screen_dirty: bool,
    /// The pressed state of the 16 device keys.
    pub keys: Seq<bool>,
    /// While set, a cycle is a no-op.
    pub pause: bool,
    /// Byte length of the most recently loaded program.
    pub rom_len: usize,
}

/// A well-formed machine state.
pub open spec fn state_wf(s: State) -> bool {
    &&& s.ram.len() == 4096
    &&& s.v.len() == 16
    &&& frame_wf(s.screen)
    &&& s.keys.len() == 16
    &&& s.pc < 4096
    &&& forall|k: int| 0 <= k < s.stack.len() ==> s.stack[k] < 4096
    &&& s.delay_acc < 1000000
    &&& s.sound_acc < 1000000
    &&& s.rom_len <= 3584
}

/// Highest nibble of an instruction word.
pub open spec fn nib0(w: u16) -> u16 {
    (w >> 12) & 0xF
}

/// Second nibble (`x`).
pub open spec fn nib1(w: u16) -> u16 {
    (w >> 8) & 0xF
}

/// Third nibble (`y`).
pub open spec fn nib2(w: u16) -> u16 {
    (w >> 4) & 0xF
}

/// Lowest nibble (`n`).
pub open spec fn nib3(w: u16) -> u16 {
    w & 0xF
}

/// Low byte (`kk`).
pub open spec fn low_byte(w: u16) -> u8 {
    (w & 0xFF) as u8
}

/// Low 12 bits (`nnn`), an absolute address.
pub open spec fn addr(w: u16) -> u16 {
    w & 0x0FFF
}

/// 8-bit wraparound.
pub open spec fn wrap8(n: int) -> u8 {
    (n % 256) as u8
}

/// 16-bit wraparound.
pub open spec fn wrap16(n: int) -> u16 {
    (n % 65536) as u16
}

/// Program-counter arithmetic: addresses wrap at the end of memory.
pub open spec fn pc_wrap(n: int) -> u16 {
    (n % 4096) as u16
}

/// The big-endian 16-bit instruction word at the program counter.
pub open spec fn fetch16(s: State) -> u16 {
    ((s.ram[s.pc as int] as u16) << 8) | (s.ram[(s.pc + 1) % 4096] as u16)
}

/// A blank pixel grid.
pub open spec fn blank_screen() -> Seq<u8> {
    Seq::new(2048, |k: int| 0u8)
}

/// Whether device key `key` counts as pressed: key values 16 and above
/// address no key and count as released.
pub open spec fn key_down(keys: Seq<bool>, key: u8) -> bool {
    key < 16 && keys[key as int]
}

/// Whether any of the 16 device keys is pressed.
pub open spec fn any_key_pressed(keys: Seq<bool>) -> bool {
    exists|k: int| 0 <= k < 16 && keys[k]
}

/// The lowest pressed key index at or above `k`, or 0 when none is.
pub open spec fn first_pressed_from(keys: Seq<bool>, k: int) -> u8
    decreases 16 - k,
{
    if k < 0 || k >= 16 {
        0
    } else if keys[k] {
        k as u8
    } else {
        first_pressed_from(keys, k + 1)
    }
}

/// `first_pressed_from` finds `k` when `k` is pressed and no lower key is.
proof fn lemma_first_pressed_between(keys: Seq<bool>, m: int, k: u8)
    requires
        keys.len() == 16,
        0 <= m <= k < 16,
        keys[k as int],
        forall|j: int| m <= j < k ==> !keys[j],
    ensures
        first_pressed_from(keys, m) == k,
    decreases k - m,
{
    if m < k {
        lemma_first_pressed_between(keys, m + 1, k);
    }
}

/// When `k` is pressed and no lower key is, `k` is the key the blocking
/// key-wait opcode reads.
pub proof fn lemma_first_pressed(keys: Seq<bool>, k: u8)
    requires
        keys.len() == 16,
        k < 16,
        keys[k as int],
        forall|j: int| 0 <= j < k ==> !keys[j],
    ensures
        first_pressed_from(keys, 0) == k,
        any_key_pressed(keys),
{
    lemma_first_pressed_between(keys, 0, k);
}

/// The `n`-byte sprite in memory at the index register, reads wrapping at
/// the end of memory.
pub open spec fn sprite_seq(ram: Seq<u8>, i: u16, n: u16) -> Seq<u8> {
    Seq::new(n as nat, |j: int| ram[(i + j) % 4096])
}

/// Memory after `registers[0..cnt]` are stored at the index register,
/// addresses wrapping at the end of memory.
pub open spec fn store_regs(ram: Seq<u8>, v: Seq<u8>, i0: int, cnt: int) -> Seq<u8>
    decreases cnt,
{
    if cnt <= 0 {
        ram
    } else {
        store_regs(ram, v, i0, cnt - 1).update((i0 + cnt - 1) % 4096, v[cnt - 1])
    }
}

/// Registers after `registers[0..cnt]` are filled from memory at the index
/// register, addresses wrapping at the end of memory.
pub open spec fn load_regs(v: Seq<u8>, ram: Seq<u8>, i0: int, cnt: int) -> Seq<u8>
    decreases cnt,
{
    if cnt <= 0 {
        v
    } else {
        load_regs(v, ram, i0, cnt - 1).update(cnt - 1, ram[(i0 + cnt - 1) % 4096])
    }
}

/// One timer advanced by `e` microseconds of wall-clock time: while the
/// timer is nonzero, elapsed time accumulates (scaled by 60), and each full
/// second of scaled time is one decrement, flooring at zero. A zero timer
/// accumulates nothing.
pub open spec fn tick_timer(timer: u8, acc: u64, e: u64) -> (u8, u64) {
    if timer == 0 {
        (timer, acc)
    } else {
        let total = acc + 60 * e;
        let ticks = total / 1000000;
        (
            if ticks >= timer {
                0u8
            } else {
                (timer - ticks) as u8
            },
            (total % 1000000) as u64,
        )
    }
}

/// Both timers advanced independently by the same elapsed time.
pub open spec fn tick_timers(s: State, e: u64) -> State {
    State {
        delay_timer: tick_timer(s.delay_timer, s.delay_acc, e).0,
        delay_acc: tick_timer(s.delay_timer, s.delay_acc, e).1,
        sound_timer: tick_timer(s.sound_timer, s.sound_acc, e).0,
        sound_acc: tick_timer(s.sound_timer, s.sound_acc, e).1,
        ..s
    }
}

/// The meaning of one instruction word `w`: the machine state after the
/// fetch-decode-execute step, given the byte `rnd` drawn for the random
/// opcode. The program counter is advanced by 2 before dispatch; words that
/// match no table entry are no-ops beyond that advance.
pub open spec fn step(s: State, w: u16, rnd: u8) -> State {
    let x = nib1(w) as int;
    let y = nib2(w) as int;
    let n3 = nib3(w);
    let kk = low_byte(w);
    let nnn = addr(w);
    let vx = s.v[x];
    let vy = s.v[y];
    let s2 = State { pc: pc_wrap(s.pc + 2), ..s };
    let skip = State { pc: pc_wrap(s2.pc + 2), ..s2 };
    if nib0(w) == 0x0 {
        if nib1(w) == 0x0 && nib2(w) == 0xE && n3 == 0x0 {
            State { screen: blank_screen(), screen_dirty: true, ..s2 }
        } else if nib1(w) == 0x0 && nib2(w) == 0xE && n3 == 0xE {
            if s2.stack.len() > 0 {
                State { pc: s2.stack.last(), stack: s2.stack.drop_last(), ..s2 }
            } else {
                s2
            }
        } else {
            s2
        }
    } else if nib0(w) == 0x1 {
        State { pc: nnn, ..s2 }
    } else if nib0(w) == 0x2 {
        State { stack: s2.stack.push(s2.pc), pc: nnn, ..s2 }
    } else if nib0(w) == 0x3 {
        if vx == kk {
            skip
        } else {
            s2
        }
    } else if nib0(w) == 0x4 {
        if vx != kk {
            skip
        } else {
            s2
        }
    } else if nib0(w) == 0x5 {
        if n3 == 0x0 && vx == vy {
            skip
        } else {
            s2
        }
    } else if nib0(w) == 0x6 {
        State { v: s2.v.update(x, kk), ..s2 }
    } else if nib0(w) == 0x7 {
        State { v: s2.v.update(x, wrap8(vx + kk)), ..s2 }
    } else if nib0(w) == 0x8 {
        if n3 == 0x0 {
            State { v: s2.v.update(x, vy), ..s2 }
        } else if n3 == 0x1 {
            State { v: s2.v.update(x, vx | vy), ..s2 }
        } else if n3 == 0x2 {
            State { v: s2.v.update(x, vx & vy), ..s2 }
        } else if n3 == 0x3 {
            State { v: s2.v.update(x, vx ^ vy), ..s2 }
        } else if n3 == 0x4 {
            State {
                v: s2.v.update(x, wrap8(vx + vy)).update(
                    15,
                    if vx + vy > 255 {
                        1u8
                    } else {
                        0u8
                    },
                ),
                ..s2
            }
        } else if n3 == 0x5 {
            State {
                v: s2.v.update(x, wrap8(vx - vy)).update(
                    15,
                    if vx >= vy {
                        1u8
                    } else {
                        0u8
                    },
                ),
                ..s2
            }
        } else if n3 == 0x6 {
            let v1 = s2.v.update(15, vx & 1);
            State { v: v1.update(x, v1[x] >> 1), ..s2 }
        } else if n3 == 0x7 {
            State {
                v: s2.v.update(x, wrap8(vy - vx)).update(
                    15,
                    if vy >= vx {
                        1u8
                    } else {
                        0u8
                    },
                ),
                ..s2
            }
        } else if n3 == 0xE {
            let v1 = s2.v.update(15, (vx >> 7) & 1);
            State { v: v1.update(x, v1[x] << 1), ..s2 }
        } else {
            s2
        }
    } else if nib0(w) == 0x9 {
        if n3 == 0x0 && vx != vy {
            skip
        } else {
            s2
        }
    } else if nib0(w) == 0xA {
        State { i: nnn, ..s2 }
    } else if nib0(w) == 0xB {
        State { pc: pc_wrap(nnn + s.v[0]), ..s2 }
    } else if nib0(w) == 0xC {
        State { v: s2.v.update(x, rnd & kk), ..s2 }
    } else if nib0(w) == 0xD {
        let f = spec_draw(
            s2.screen,
            s2.screen_dirty,
            vx as int,
            vy as int,
            sprite_seq(s2.ram, s2.i, n3),
        );
        State {
            screen: f.pixels,
            screen_dirty: f.dirty,
            v: s2.v.update(
                15,
                if f.collision {
                    1u8
                } else {
                    0u8
                },
            ),
            ..s2
        }
    } else if nib0(w) == 0xE {
        if nib2(w) == 0x9 && n3 == 0xE {
            if key_down(s.keys, vx) {
                skip
            } else {
                s2
            }
        } else if nib2(w) == 0xA && n3 == 0x1 {
            if !key_down(s.keys, vx) {
                skip
            } else {
                s2
            }
        } else {
            s2
        }
    } else if nib0(w) == 0xF {
        if nib2(w) == 0x0 && n3 == 0x7 {
            State { v: s2.v.update(x, s2.delay_timer), ..s2 }
        } else if nib2(w) == 0x0 && n3 == 0xA {
            if any_key_pressed(s.keys) {
                State { v: s2.v.update(x, first_pressed_from(s.keys, 0)), ..s2 }
            } else {
                State { pc: s.pc, ..s2 }
            }
        } else if nib2(w) == 0x1 && n3 == 0x5 {
            State { delay_timer: vx, ..s2 }
        } else if nib2(w) == 0x1 && n3 == 0x8 {
            State { sound_timer: vx, ..s2 }
        } else if nib2(w) == 0x1 && n3 == 0xE {
            State { i: wrap16(s2.i + vx), ..s2 }
        } else if nib2(w) == 0x2 && n3 == 0x9 {
            State { i: (5 * vx) as u16, ..s2 }
        } else if nib2(w) == 0x3 && n3 == 0x3 {
            State {
                ram: s2.ram.update(s2.i as int % 4096, vx / 100).update(
                    (s2.i + 1) % 4096,
                    (vx / 10) % 10,
                ).update((s2.i + 2) % 4096, vx % 10),
                ..s2
            }
        } else if nib2(w) == 0x5 && n3 == 0x5 {
            State {
                ram: store_regs(s2.ram, s2.v, s2.i as int, x + 1),
                i: wrap16(s2.i + x + 1),
                ..s2
            }
        } else if nib2(w) == 0x6 && n3 == 0x5 {
            State {
                v: load_regs(s2.v, s2.ram, s2.i as int, x + 1),
                i: wrap16(s2.i + x + 1),
                ..s2
            }
        } else {
            s2
        }
    } else {
        s2
    }
}

/// A step keeps the program counter inside memory and every stacked return
/// address inside memory.
pub proof fn lemma_step_bounds(s: State, w: u16, rnd: u8)
    requires
        state_wf(s),
    ensures
        step(s, w, rnd).pc < 4096,
        forall|k: int| 0 <= k < step(s, w, rnd).stack.len() ==> step(s, w, rnd).stack[k] < 4096,
{
    assert(w & 0x0FFF < 4096) by (bit_vector);
    let t = step(s, w, rnd);
    assert forall|k: int| 0 <= k < t.stack.len() implies t.stack[k] < 4096 by {
        if nib0(w) == 0x2 {
            if k < s.stack.len() {
                assert(t.stack[k] == s.stack[k]);
            } else {
                assert(t.stack[k] == pc_wrap(s.pc + 2));
            }
        } else if nib0(w) == 0x0 && nib1(w) == 0x0 && nib2(w) == 0xE && nib3(w) == 0xE
            && s.stack.len() > 0 {
            assert(t.stack[k] == s.stack[k]);
        } else {
            assert(t.stack[k] == s.stack[k]);
        }
    };
}

/// One whole frame tick: a paused machine does nothing; otherwise the timers
/// advance by the elapsed time and the instruction at the program counter is
/// fetched and executed with random byte `rnd`.
pub open spec fn spec_cycle(s: State, e: u64, rnd: u8) -> State {
    if s.pause {
        s
    } else {
        let t = tick_timers(s, e);
        step(t, fetch16(t), rnd)
    }
}

} // verus!
