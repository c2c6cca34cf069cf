//! The machine interpreter: memory, registers, call stack, program counter,
//! timers, and one fetch-decode-execute step per frame tick. Every mutation
//! is proved to follow the transition function `step` of the machine model.

use vstd::prelude::*;
use vstd::arithmetic::div_mod::lemma_fundamental_div_mod_converse;
use vstd::arithmetic::div_mod::lemma_mod_multiples_vanish;
use crate::keyboard::Keyboard;
use crate::screen::Screen;
use crate::state::State;
use crate::state::blank_screen;
use crate::state::fetch16;
use crate::state::lemma_first_pressed;
use crate::state::lemma_step_bounds;
use crate::state::load_regs;
use crate::state::spec_cycle;
use crate::state::sprite_seq;
use crate::state::state_wf;
use crate::state::step;
use crate::state::store_regs;
use crate::state::tick_timer;
use crate::state::tick_timers;

verus! {

/// The byte offset at which program code is placed.
pub const CODE_START: usize = 0x200;

/// The largest program that fits between the code start and the end of the
/// 4096-byte memory.
pub const MAX_ROM_LEN: usize = 3584;

/// The largest elapsed time one frame tick accepts, in microseconds; far
/// beyond any real frame, it only keeps the scaled accumulator within `u64`.
pub const MAX_ELAPSED_MICROS: u64 = 300_000_000_000_000_000;

/// A failure reported by `load_rom`.
#[derive(Clone, Copy, Debug, PartialEq, Eq, Structural)]
pub enum RomError {
    /// The program is longer than the memory reserved for code.
    RomTooLarge,
}

/// The machine: memory, registers, stack, timers, and the two devices.
pub struct Emulator {
    /// The 4096-byte memory; the font glyphs live at `0x050`-`0x09F`.
    pub ram: Vec<u8>,
    /// Return addresses of active subroutine calls.
    pub stack: Vec<u16>,
    /// The 16 general registers `V0`-`VF`.
    pub v: Vec<u8>,
    /// The index register.
    pub i: u16,
    /// The program counter.
    pub pc: u16,
    /// The delay countdown.
    pub delay_timer: u8,
    /// The sound countdown.
    pub sound_timer: u8,
    delay_acc: u64,
    sound_acc: u64,
    /// The display surface.
    pub screen: Screen,
    /// The input device.
    pub keyboard: Keyboard,
    pause: bool,
    rom_len: usize,
}

/// The 80-byte font: 16 glyphs for the digits `0`-`F`, 5 rows each.
pub open spec fn font() -> Seq<u8> {
    seq![
        0xF0u8, 0x90, 0x90, 0x90, 0xF0,
        0x20, 0x60, 0x20, 0x20, 0x70,
        0xF0, 0x10, 0xF0, 0x80, 0xF0,
        0xF0, 0x10, 0xF0, 0x10, 0xF0,
        0x90, 0x90, 0xF0, 0x10, 0x10,
        0xF0, 0x80, 0xF0, 0x10, 0xF0,
        0xF0, 0x80, 0xF0, 0x90, 0xF0,
        0xF0, 0x10, 0x20, 0x40, 0x40,
        0xF0, 0x90, 0xF0, 0x90, 0xF0,
        0xF0, 0x90, 0xF0, 0x10, 0xF0,
        0xF0, 0x90, 0xF0, 0x90, 0x90,
        0xE0, 0x90, 0xE0, 0x90, 0xE0,
        0xF0, 0x80, 0x80, 0x80, 0xF0,
        0xE0, 0x90, 0x90, 0x90, 0xE0,
        0xF0, 0x80, 0xF0, 0x80, 0xF0,
        0xF0, 0x80, 0xF0, 0x80, 0x80,
    ]
}

/// Memory as construction leaves it: all zero except the font area.
pub open spec fn reset_ram() -> Seq<u8> {
    Seq::new(4096, |k: int| if 0x50 <= k < 0xA0 { font()[k - 0x50] } else { 0u8 })
}

/// The state a freshly constructed or freshly reset machine is in.
pub open spec fn spec_reset() -> State {
    State {
        ram: reset_ram(),
        stack: Seq::empty(),
        v: Seq::new(16, |k: int| 0u8),
        i: 0,
        pc: 0x200,
        delay_timer: 0,
        sound_timer: 0,
        delay_acc: 0,
        sound_acc: 0,
        screen: blank_screen(),
        screen_dirty: true,
        keys: Seq::new(16, |k: int| false),
        pause: true,
        rom_len: 0,
    }
}

/// Reset memory with the first `k` bytes of the program copied in at the
/// code start.
pub open spec fn loaded_ram(rom: Seq<u8>, k: int) -> Seq<u8> {
    Seq::new(
        4096,
        |j: int|
            if 0x200 <= j < 0x200 + k {
                rom[j - 0x200]
            } else {
                reset_ram()[j]
            },
    )
}

/// The state after a successful load: a reset machine with the program
/// copied in at the code start, its length recorded, and the pause lifted.
pub open spec fn spec_loaded(rom: Seq<u8>) -> State {
    State {
        ram: loaded_ram(rom, rom.len() as int),
        pause: false,
        rom_len: rom.len() as usize,
        ..spec_reset()
    }
}

/// The font bytes as an executable vector.
fn font_vec() -> (r: Vec<u8>)
    ensures
        r@ == font(),
{
    let glyphs: [u8; 80] = [
        0xF0, 0x90, 0x90, 0x90, 0xF0,
        0x20, 0x60, 0x20, 0x20, 0x70,
        0xF0, 0x10, 0xF0, 0x80, 0xF0,
        0xF0, 0x10, 0xF0, 0x10, 0xF0,
        0x90, 0x90, 0xF0, 0x10, 0x10,
        0xF0, 0x80, 0xF0, 0x10, 0xF0,
        0xF0, 0x80, 0xF0, 0x90, 0xF0,
        0xF0, 0x10, 0x20, 0x40, 0x40,
        0xF0, 0x90, 0xF0, 0x90, 0xF0,
        0xF0, 0x90, 0xF0, 0x10, 0xF0,
        0xF0, 0x90, 0xF0, 0x90, 0x90,
        0xE0, 0x90, 0xE0, 0x90, 0xE0,
        0xF0, 0x80, 0x80, 0x80, 0xF0,
        0xE0, 0x90, 0x90, 0x90, 0xE0,
        0xF0, 0x80, 0xF0, 0x80, 0xF0,
        0xF0, 0x80, 0xF0, 0x80, 0x80,
    ];
    let mut r: Vec<u8> = Vec::new();
    for k in 0..80usize
        invariant
            r@.len() == k,
            forall|j: int| 0 <= j < k ==> r@[j] == glyphs@[j],
    {
        r.push(glyphs[k]);
    }
    proof {
        assert(r@ =~= font());
    }
    r
}

/// A vector of `n` zero bytes.
fn zero_bytes(n: usize) -> (r: Vec<u8>)
    ensures
        r@ == Seq::new(n as nat, |k: int| 0u8),
{
    let mut r: Vec<u8> = Vec::new();
    for k in 0..n
        invariant
            r@.len() == k,
            forall|j: int| 0 <= j < k ==> r@[j] == 0,
    {
        r.push(0);
    }
    proof {
        assert(r@ =~= Seq::new(n as nat, |k: int| 0u8));
    }
    r
}

/// Draws one byte from the thread-local random generator.
///
/// Relies on `rand::random`: nothing is promised of the value, and callers
/// are verified for every byte it could return.
#[verifier::external_body]
fn random_byte() -> u8 {
    rand::random::<u8>()
}

impl View for Emulator {
    type V = State;

    closed spec fn view(&self) -> State {
        State {
            ram: self.ram@,
            stack: self.stack@,
            v: self.v@,
            i: self.i,
            pc: self.pc,
            delay_timer: self.delay_timer,
            sound_timer: self.sound_timer,
            delay_acc: self.delay_acc,
            sound_acc: self.sound_acc,
            screen: self.screen@,
            screen_dirty: self.screen.spec_dirty(),
            keys: self.keyboard@,
            pause: self.pause,
            rom_len: self.rom_len,
        }
    }
}

impl Emulator {
    /// The machine state is well-formed.
    pub open spec fn wf(&self) -> bool {
        state_wf(self@)
    }

    /// A machine in its construction state: font loaded, program counter at
    /// the code start, paused until a program is loaded.
    pub fn new() -> (r: Emulator)
        ensures
            r.wf(),
            r@ == spec_reset(),
    {
        let mut ram = zero_bytes(4096);
        let glyphs = font_vec();
        for k in 0..80usize
            invariant
                glyphs@ == font(),
                ram@.len() == 4096,
                forall|j: int| 0 <= j < 4096 ==> ram@[j] == (if 0x50 <= j < 0x50 + k {
                    font()[j - 0x50]
                } else {
                    0u8
                }),
        {
            ram.set(0x50 + k, glyphs[k]);
        }
        let r = Emulator {
            ram,
            stack: Vec::new(),
            v: zero_bytes(16),
            i: 0,
            pc: 0x200,
            delay_timer: 0,
            sound_timer: 0,
            delay_acc: 0,
            sound_acc: 0,
            screen: Screen::new(),
            keyboard: Keyboard::new(),
            pause: true,
            rom_len: 0,
        };
        proof {
            assert(r@.ram =~= reset_ram());
            assert(r@.v =~= spec_reset().v);
            assert(r@.screen =~= blank_screen());
            assert(r@.keys =~= spec_reset().keys);
            assert(r@.stack =~= spec_reset().stack);
        }
        r
    }

    /// Whether the machine is paused.
    pub fn is_paused(&self) -> (r: bool)
        ensures
            r == self@.pause,
    {
        self.pause
    }

    /// Pause or resume the machine.
    pub fn set_paused(&mut self, p: bool)
        ensures
            final(self)@ == (State { pause: p, ..old(self)@ }),
    {
        self.pause = p;
    }

    /// Read the big-endian instruction word at the program counter.
    pub fn fetch_instruction(&self) -> (w: u16)
        requires
            self.wf(),
        ensures
            w == fetch16(self@),
    {
        let hi = self.ram[self.pc as usize];
        let lo = self.ram[(self.pc as usize + 1) % 4096];
        ((hi as u16) << 8) | (lo as u16)
    }

    /// Reset the machine, then place the program at the code start. A
    /// program longer than the reserved code space is refused, leaving the
    /// machine freshly reset; otherwise its length is recorded and the
    /// machine unpaused.
    pub fn load_rom(&mut self, rom: &[u8]) -> (r: Result<(), RomError>)
        ensures
            final(self).wf(),
            r is Ok <==> rom@.len() <= 3584,
            r is Ok ==> final(self)@ == spec_loaded(rom@),
            r is Err ==> final(self)@ == spec_reset() && r == Err::<(), RomError>(
                RomError::RomTooLarge,
            ),
    {
        *self = Emulator::new();
        if rom.len() > MAX_ROM_LEN {
            return Err(RomError::RomTooLarge);
        }
        let len = rom.len();
        proof {
            assert(self@.ram =~= loaded_ram(rom@, 0));
        }
        for k in 0..len
            invariant
                len == rom@.len() <= 3584,
                self@ == (State { ram: loaded_ram(rom@, k as int), ..spec_reset() }),
        {
            self.ram.set(CODE_START + k, rom[k]);
            proof {
                assert(self@.ram =~= loaded_ram(rom@, k + 1));
            }
        }
        self.rom_len = len;
        self.pause = false;
        Ok(())
    }

    /// The half-open memory range that holds the loaded program.
    pub fn code_memory_location(&self) -> (r: (usize, usize))
        requires
            self.wf(),
        ensures
            r.0 == 0x200,
            r.1 == 0x200 + self@.rom_len,
    {
        (CODE_START, CODE_START + self.rom_len)
    }

    /// Advance both timers by `elapsed_micros` of wall-clock time.
    fn update_timers(&mut self, elapsed_micros: u64)
        requires
            old(self).wf(),
            elapsed_micros <= MAX_ELAPSED_MICROS,
        ensures
            final(self).wf(),
            final(self)@ == tick_timers(old(self)@, elapsed_micros),
    {
        let (dt, da) = tick_one_timer(self.delay_timer, self.delay_acc, elapsed_micros);
        self.delay_timer = dt;
        self.delay_acc = da;
        let (st, sa) = tick_one_timer(self.sound_timer, self.sound_acc, elapsed_micros);
        self.sound_timer = st;
        self.sound_acc = sa;
        proof {
            assert forall|k: int| 0 <= k < self@.stack.len() implies self@.stack[k] < 4096 by {
                assert(self@.stack[k] == old(self)@.stack[k]);
            };
        }
    }

    /// One frame tick: nothing while paused; otherwise advance the timers,
    /// then fetch and execute exactly one instruction.
    pub fn execute_cycle(&mut self, elapsed_micros: u64)
        requires
            old(self).wf(),
            elapsed_micros <= MAX_ELAPSED_MICROS,
        ensures
            final(self).wf(),
            old(self)@.pause ==> final(self)@ == old(self)@,
            exists|b: u8| final(self)@ == spec_cycle(old(self)@, elapsed_micros, b),
    {
        if !self.pause {
            self.update_timers(elapsed_micros);
            let w = self.fetch_instruction();
            let b = random_byte();
            self.execute_instruction(w, b);
            proof {
                assert(self@ == spec_cycle(old(self)@, elapsed_micros, b));
            }
        } else {
            proof {
                assert(self@ == spec_cycle(old(self)@, elapsed_micros, 0u8));
            }
        }
    }

    /// Decode one instruction word and execute it, `rnd` being the byte
    /// used by the random opcode. The program counter advances by 2 before
    /// dispatch; a word that matches no table entry has no further effect.
    #[verifier::rlimit(60)]
    pub fn execute_instruction(&mut self, w: u16, rnd: u8)
        requires
            old(self).wf(),
        ensures
            final(self).wf(),
            final(self)@ == step(old(self)@, w, rnd),
    {
        assert((w >> 12) & 0xF < 16 && (w >> 8) & 0xF < 16 && (w >> 4) & 0xF < 16 && (w & 0xF) < 16
            && (w & 0xFF) < 256 && (w & 0x0FFF) < 4096) by (bit_vector);
        let n0 = (w >> 12) & 0xF;
        let n1 = (w >> 8) & 0xF;
        let n2 = (w >> 4) & 0xF;
        let n3 = w & 0xF;
        let kk = (w & 0xFF) as u8;
        let nnn = w & 0x0FFF;
        let x = n1 as usize;
        let y = n2 as usize;
        let pc0 = self.pc;
        self.pc = (self.pc + 2) % 4096;
        match (n0, n1, n2, n3) {
            (0x0, 0x0, 0xE, 0x0) => {
                self.screen.clear();
                proof {
                    assert(self@.screen =~= blank_screen());
                }
            }
            (0x0, 0x0, 0xE, 0xE) => {
                if let Some(address) = self.stack.pop() {
                    self.pc = address;
                }
            }
            (0x1, _, _, _) => {
                self.pc = nnn;
            }
            (0x2, _, _, _) => {
                self.stack.push(self.pc);
                self.pc = nnn;
            }
            (0x3, _, _, _) => {
                if self.v[x] == kk {
                    self.pc = (self.pc + 2) % 4096;
                }
            }
            (0x4, _, _, _) => {
                if self.v[x] != kk {
                    self.pc = (self.pc + 2) % 4096;
                }
            }
            (0x5, _, _, 0x0) => {
                if self.v[x] == self.v[y] {
                    self.pc = (self.pc + 2) % 4096;
                }
            }
            (0x6, _, _, _) => {
                self.v.set(x, kk);
            }
            (0x7, _, _, _) => {
                let vx = self.v[x];
                let sum = vx as u16 + kk as u16;
                self.v.set(x, (sum % 256) as u8);
            }
            (0x8, _, _, 0x0) => {
                let vy = self.v[y];
                self.v.set(x, vy);
            }
            (0x8, _, _, 0x1) => {
                let vx = self.v[x];
                let vy = self.v[y];
                self.v.set(x, vx | vy);
            }
            (0x8, _, _, 0x2) => {
                let vx = self.v[x];
                let vy = self.v[y];
                self.v.set(x, vx & vy);
            }
            (0x8, _, _, 0x3) => {
                let vx = self.v[x];
                let vy = self.v[y];
                self.v.set(x, vx ^ vy);
            }
            (0x8, _, _, 0x4) => {
                let vx = self.v[x];
                let vy = self.v[y];
                let sum = vx as u16 + vy as u16;
                self.v.set(x, (sum % 256) as u8);
                self.v.set(15, if sum > 255 { 1 } else { 0 });
            }
            (0x8, _, _, 0x5) => {
                let vx = self.v[x];
                let vy = self.v[y];
                let diff = vx as u16 + 256 - vy as u16;
                self.v.set(x, (diff % 256) as u8);
                self.v.set(15, if vx >= vy { 1 } else { 0 });
                proof {
                    lemma_mod_multiples_vanish(1, vx - vy, 256);
                }
            }
            (0x8, _, _, 0x6) => {
                let vx = self.v[x];
                self.v.set(15, vx & 1);
                let cur = self.v[x];
                self.v.set(x, cur >> 1);
            }
            (0x8, _, _, 0x7) => {
                let vx = self.v[x];
                let vy = self.v[y];
                let diff = vy as u16 + 256 - vx as u16;
                self.v.set(x, (diff % 256) as u8);
                self.v.set(15, if vy >= vx { 1 } else { 0 });
                proof {
                    lemma_mod_multiples_vanish(1, vy - vx, 256);
                }
            }
            (0x8, _, _, 0xE) => {
                let vx = self.v[x];
                self.v.set(15, (vx >> 7) & 1);
                let cur = self.v[x];
                self.v.set(x, cur << 1);
            }
            (0x9, _, _, 0x0) => {
                if self.v[x] != self.v[y] {
                    self.pc = (self.pc + 2) % 4096;
                }
            }
            (0xA, _, _, _) => {
                self.i = nnn;
            }
            (0xB, _, _, _) => {
                let v0 = self.v[0];
                self.pc = (nnn + v0 as u16) % 4096;
            }
            (0xC, _, _, _) => {
                self.v.set(x, rnd & kk);
            }
            (0xD, _, _, _) => {
                let vx = self.v[x];
                let vy = self.v[y];
                let n = n3 as usize;
                let ghost s0 = self@;
                let mut sprite: Vec<u8> = Vec::new();
                for j in 0..n
                    invariant
                        self@ == s0,
                        state_wf(s0),
                        n == n3 as usize,
                        sprite@.len() == j,
                        forall|t: int| 0 <= t < j ==> sprite@[t] == s0.ram[(s0.i + t) % 4096],
                {
                    let b = self.ram[(self.i as usize + j) % 4096];
                    sprite.push(b);
                }
                proof {
                    assert(sprite@ =~= sprite_seq(s0.ram, s0.i, n3));
                }
                let collision = self.screen.draw((vx as usize, vy as usize), sprite.as_slice());
                self.v.set(15, if collision { 1 } else { 0 });
            }
            (0xE, _, 0x9, 0xE) => {
                let vx = self.v[x];
                if vx < 16 {
                    if self.keyboard.is_key_pressed(vx as usize) {
                        self.pc = (self.pc + 2) % 4096;
                    }
                }
            }
            (0xE, _, 0xA, 0x1) => {
                let vx = self.v[x];
                let down = vx < 16 && self.keyboard.is_key_pressed(vx as usize);
                if !down {
                    self.pc = (self.pc + 2) % 4096;
                }
            }
            (0xF, _, 0x0, 0x7) => {
                let t = self.delay_timer;
                self.v.set(x, t);
            }
            (0xF, _, 0x0, 0xA) => {
                match self.keyboard.get_pressed_key() {
                    Some(key) => {
                        proof {
                            lemma_first_pressed(old(self)@.keys, key);
                        }
                        self.v.set(x, key);
                    }
                    None => {
                        self.pc = pc0;
                    }
                }
            }
            (0xF, _, 0x1, 0x5) => {
                self.delay_timer = self.v[x];
            }
            (0xF, _, 0x1, 0x8) => {
                self.sound_timer = self.v[x];
            }
            (0xF, _, 0x1, 0xE) => {
                let vx = self.v[x];
                let t: u32 = self.i as u32 + vx as u32;
                self.i = (t % 65536) as u16;
            }
            (0xF, _, 0x2, 0x9) => {
                let vx = self.v[x];
                self.i = vx as u16 * 5;
            }
            (0xF, _, 0x3, 0x3) => {
                let vx = self.v[x];
                let base = self.i as usize;
                self.ram.set(base % 4096, vx / 100);
                self.ram.set((base + 1) % 4096, (vx / 10) % 10);
                self.ram.set((base + 2) % 4096, vx % 10);
            }
            (0xF, _, 0x5, 0x5) => {
                let ghost s0 = self@;
                let cnt = x + 1;
                for k in 0..cnt
                    invariant
                        cnt == x + 1,
                        x < 16,
                        state_wf(s0),
                        self@ == (State {
                            ram: store_regs(s0.ram, s0.v, s0.i as int, k as int),
                            ..s0
                        }),
                        self@.ram.len() == 4096,
                {
                    let idx = (self.i as usize + k) % 4096;
                    let value = self.v[k];
                    self.ram.set(idx, value);
                }
                let t: u32 = self.i as u32 + x as u32 + 1;
                self.i = (t % 65536) as u16;
            }
            (0xF, _, 0x6, 0x5) => {
                let ghost s0 = self@;
                let cnt = x + 1;
                for k in 0..cnt
                    invariant
                        cnt == x + 1,
                        x < 16,
                        state_wf(s0),
                        self@ == (State {
                            v: load_regs(s0.v, s0.ram, s0.i as int, k as int),
                            ..s0
                        }),
                        self@.v.len() == 16,
                {
                    let idx = (self.i as usize + k) % 4096;
                    let value = self.ram[idx];
                    self.v.set(k, value);
                }
                let t: u32 = self.i as u32 + x as u32 + 1;
                self.i = (t % 65536) as u16;
            }
            _ => {}
        }
        proof {
            lemma_step_bounds(old(self)@, w, rnd);
            assert(self@ == step(old(self)@, w, rnd));
            assert forall|k: int| 0 <= k < self@.stack.len() implies self@.stack[k] < 4096 by {
                assert(self@.stack[k] == step(old(self)@, w, rnd).stack[k]);
            };
        }
    }
}

/// One timer advanced by `e` microseconds: accumulate sixtieths of a
/// microsecond-second and take one decrement per accumulated second.
fn tick_one_timer(timer: u8, acc: u64, e: u64) -> (r: (u8, u64))
    requires
        acc < 1000000,
        e <= MAX_ELAPSED_MICROS,
    ensures
        r == tick_timer(timer, acc, e),
        r.1 < 1000000,
{
    if timer == 0 {
        return (timer, acc);
    }
    let mut total: u64 = acc + 60 * e;
    let mut t = timer;
    let ghost total0 = total as int;
    let ghost mut ticks_done: int = 0;
    while total >= 1000000
        invariant
            ticks_done >= 0,
            total0 == total + 1000000 * ticks_done,
            t as int == (if ticks_done >= timer as int {
                0
            } else {
                timer - ticks_done
            }),
        decreases total,
    {
        total -= 1000000;
        if t > 0 {
            t -= 1;
        }
        proof {
            ticks_done = ticks_done + 1;
        }
    }
    proof {
        lemma_fundamental_div_mod_converse(total0, 1000000, ticks_done, total as int);
    }
    (t, total)
}

} // verus!

