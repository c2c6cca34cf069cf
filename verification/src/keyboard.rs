//! The 16-key input device: a pressed/released bit per device key, plus the
//! conventional mapping from a 4x4 block of host keys to device keys.

use vstd::prelude::*;

verus! {

/// The input device: 16 logical keys, addressed `0x0`-`0xF`.
pub struct Keyboard {
    keys: Vec<bool>,
}

/// Device key index for one host key, following the historical hex-keypad
/// layout: rows `1234` / `QWER` / `ASDF` / `ZXCV` map to `0123` / `4567` /
/// `89AB` / `CDEF`; any other host key maps to device key `0x0`.
pub open spec fn spec_map_key(code: char) -> usize {
    if code == '1' {
        0
    } else if code == '2' {
        1
    } else if code == '3' {
        2
    } else if code == '4' {
        3
    } else if code == 'q' {
        4
    } else if code == 'w' {
        5
    } else if code == 'e' {
        6
    } else if code == 'r' {
        7
    } else if code == 'a' {
        8
    } else if code == 's' {
        9
    } else if code == 'd' {
        10
    } else if code == 'f' {
        11
    } else if code == 'z' {
        12
    } else if code == 'x' {
        13
    } else if code == 'c' {
        14
    } else if code == 'v' {
        15
    } else {
        0
    }
}

impl View for Keyboard {
    type V = Seq<bool>;

    closed spec fn view(&self) -> Seq<bool> {
        self.keys@
    }
}

impl Keyboard {
    /// One entry per device key.
    pub open spec fn wf(&self) -> bool {
        self@.len() == 16
    }

    /// A keyboard with every key released.
    pub fn new() -> (r: Keyboard)
        ensures
            r.wf(),
            forall|k: int| 0 <= k < 16 ==> !r@[k],
    {
        let mut keys: Vec<bool> = Vec::new();
        for idx in 0..16usize
            invariant
                keys@.len() == idx,
                forall|k: int| 0 <= k < idx ==> !keys@[k],
        {
            keys.push(false);
        }
        Keyboard { keys }
    }

    /// Whether device key `key` is currently pressed.
    pub fn is_key_pressed(&self, key: usize) -> (r: bool)
        requires
            self.wf(),
            key < 16,
        ensures
            r == self@[key as int],
    {
        self.keys[key]
    }

    /// The lowest-indexed pressed device key, if any key is pressed at all.
    pub fn get_pressed_key(&self) -> (r: Option<u8>)
        requires
            self.wf(),
        ensures
            match r {
                Some(k) => k < 16 && self@[k as int] && forall|j: int| 0 <= j < k ==> !self@[j],
                None => forall|j: int| 0 <= j < 16 ==> !self@[j],
            },
    {
        let mut idx: usize = 0;
        while idx < 16
            invariant
                self.wf(),
                idx <= 16,
                forall|j: int| 0 <= j < idx ==> !self@[j],
            decreases 16 - idx,
        {
            if self.keys[idx] {
                return Some(idx as u8);
            }
            idx += 1;
        }
        None
    }

    /// Record a press or release of device key `key`.
    pub fn set(&mut self, key: usize, pressed: bool)
        requires
            old(self).wf(),
            key < 16,
        ensures
            final(self).wf(),
            final(self)@ == old(self)@.update(key as int, pressed),
    {
        self.keys.set(key, pressed);
    }

    /// Translate a host key (as a character) to its device key index.
    pub fn map_key(code: char) -> (r: usize)
        ensures
            r == spec_map_key(code),
            r < 16,
    {
        match code {
            '1' => 0,
            '2' => 1,
            '3' => 2,
            '4' => 3,
            'q' => 4,
            'w' => 5,
            'e' => 6,
            'r' => 7,
            'a' => 8,
            's' => 9,
            'd' => 10,
            'f' => 11,
            'z' => 12,
            'x' => 13,
            'c' => 14,
            'v' => 15,
            _ => 0,
        }
    }
}

} // verus!
