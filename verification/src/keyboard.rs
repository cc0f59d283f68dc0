//! The sixteen-key pad.

use vstd::prelude::*;

verus! {

/// The state of the keys `0` to `F`: its view holds, for each key, whether it
/// is held down.
pub struct Keyboard {
    keys: [bool; 16],
}

impl View for Keyboard {
    type V = Seq<bool>;

    closed spec fn view(&self) -> Seq<bool> {
        self.keys@
    }
}

/// The lowest key from `from` on that is held down, if any is.
pub open spec fn first_pressed_from(keys: Seq<bool>, from: int) -> Option<u8>
    decreases keys.len() - from,
{
    if from < 0 || from >= keys.len() {
        None
    } else if keys[from] {
        Some(from as u8)
    } else {
        first_pressed_from(keys, from + 1)
    }
}

/// The lowest key that is held down, if any is.
pub open spec fn first_pressed(keys: Seq<bool>) -> Option<u8> {
    first_pressed_from(keys, 0)
}

/// The key of the pad that a key of the host's keyboard stands for, by the
/// code of the character on it: the block `1234`, `qwer`, `asdf`, `zxcv`
/// stands for the pad's `123C`, `456D`, `789E`, `A0BF`.
pub open spec fn keypad_key(keycode: i32) -> Option<u8> {
    if keycode == 0x31 {
        Some(0x1u8)
    } else if keycode == 0x32 {
        Some(0x2u8)
    } else if keycode == 0x33 {
        Some(0x3u8)
    } else if keycode == 0x34 {
        Some(0xCu8)
    } else if keycode == 0x71 {
        Some(0x4u8)
    } else if keycode == 0x77 {
        Some(0x5u8)
    } else if keycode == 0x65 {
        Some(0x6u8)
    } else if keycode == 0x72 {
        Some(0xDu8)
    } else if keycode == 0x61 {
        Some(0x7u8)
    } else if keycode == 0x73 {
        Some(0x8u8)
    } else if keycode == 0x64 {
        Some(0x9u8)
    } else if keycode == 0x66 {
        Some(0xEu8)
    } else if keycode == 0x7A {
        Some(0xAu8)
    } else if keycode == 0x78 {
        Some(0x0u8)
    } else if keycode == 0x63 {
        Some(0xBu8)
    } else if keycode == 0x76 {
        Some(0xFu8)
    } else {
        None
    }
}

/// The key of the pad that a key of the host's keyboard stands for.
pub fn keypad_index(keycode: i32) -> (key: Option<u8>)
    ensures
        key == keypad_key(keycode),
        key matches Some(index) ==> index < 16,
{
    match keycode {
        0x31 => Some(0x1),
        0x32 => Some(0x2),
        0x33 => Some(0x3),
        0x34 => Some(0xC),
        0x71 => Some(0x4),
        0x77 => Some(0x5),
        0x65 => Some(0x6),
        0x72 => Some(0xD),
        0x61 => Some(0x7),
        0x73 => Some(0x8),
        0x64 => Some(0x9),
        0x66 => Some(0xE),
        0x7A => Some(0xA),
        0x78 => Some(0x0),
        0x63 => Some(0xB),
        0x76 => Some(0xF),
        _ => None,
    }
}

/// For each key of the pad, whether one of the pressed keys of the host's
/// keyboard stands for it.
pub fn keys_state(pressed: &[i32]) -> (state: [bool; 16])
    ensures
        forall|key: int|
            0 <= key < 16 ==> state@[key] == exists|i: int|
                0 <= i < pressed@.len() && keypad_key(#[trigger] pressed@[i]) == Some(key as u8),
{
    let mut keys_state = [false;16];
    let mut done: usize = 0;
    while done < pressed.len()
        invariant
            done <= pressed@.len(),
            forall|key: int|
                0 <= key < 16 ==> keys_state@[key] == exists|i: int|
                    0 <= i < done && keypad_key(#[trigger] pressed@[i]) == Some(key as u8),
        decreases pressed@.len() - done,
    {
        let ghost before = keys_state@;
        if let Some(index) = keypad_index(pressed[done]) {
            keys_state[index as usize] = true;
        }
        proof {
            let next = done + 1;
            assert forall|key: int| 0 <= key < 16 implies keys_state@[key] == exists|i: int|
                0 <= i < next && keypad_key(#[trigger] pressed@[i]) == Some(key as u8) by {
                if before[key] {
                    let i = choose|i: int|
                        0 <= i < done && keypad_key(#[trigger] pressed@[i]) == Some(key as u8);
                    assert(0 <= i < next && keypad_key(pressed@[i]) == Some(key as u8));
                }
                if keypad_key(pressed@[done as int]) == Some(key as u8) {
                    assert(0 <= done < next && keypad_key(pressed@[done as int]) == Some(key as u8));
                }
            }
        }
        done += 1;
    }
    keys_state
}

impl Default for Keyboard {
    fn default() -> (keyboard: Keyboard)
        ensures
            keyboard@ == Seq::new(16, |key: int| false),
    {
        let keyboard = Keyboard { keys: [false;16] };
        assert(keyboard@ =~= Seq::new(16, |key: int| false));
        keyboard
    }
}

impl Keyboard {
    /// There are sixteen keys.
    pub proof fn lemma_sixteen_keys(&self)
        ensures
            self@.len() == 16,
    {
    }

    pub fn press_key(&mut self, key: u8)
        requires
            key < 16,
        ensures
            final(self)@ == old(self)@.update(key as int, true),
    {
        self.keys[key as usize] = true;
    }

    pub fn release_key(&mut self, key: u8)
        requires
            key < 16,
        ensures
            final(self)@ == old(self)@.update(key as int, false),
    {
        self.keys[key as usize] = false;
    }

    pub fn is_key_pressed(&self, key: u8) -> (pressed: bool)
        requires
            key < 16,
        ensures
            pressed == self@[key as int],
    {
        self.keys[key as usize]
    }

    /// The lowest key that is held down, if any is.
    pub fn pressed_key(&self) -> (pressed: Option<u8>)
        ensures
            pressed == first_pressed(self@),
            match pressed {
                Some(key) => key < 16 && self@[key as int] && forall|lower: int|
                    0 <= lower < key ==> !self@[lower],
                None => forall|key: int| 0 <= key < 16 ==> !self@[key],
            },
    {
        let mut key: u8 = 0;
        while key < 16
            invariant
                key <= 16,
                self@.len() == 16,
                forall|lower: int| 0 <= lower < key ==> !self@[lower],
                first_pressed(self@) == first_pressed_from(self@, key as int),
            decreases 16 - key,
        {
            if self.keys[key as usize] {
                return Some(key);
            }
            key += 1;
        }
        None
    }
}

} // verus!
