//! The sixteen-key hexadecimal keypad and its keyboard layout.

use vstd::prelude::*;

verus! {

/// The key code that a keyboard character stands for, in either case:
///
/// ```text
/// 1 2 3 4        1 2 3 C
/// q w e r   ->   4 5 6 D
/// a s d f        7 8 9 E
/// z x c v        A 0 B F
/// ```
pub open spec fn key_code(chr: char) -> Option<u8> {
    if chr == 'x' || chr == 'X' {
        Some(0x0u8)
    } else if chr == '1' {
        Some(0x1u8)
    } else if chr == '2' {
        Some(0x2u8)
    } else if chr == '3' {
        Some(0x3u8)
    } else if chr == 'q' || chr == 'Q' {
        Some(0x4u8)
    } else if chr == 'w' || chr == 'W' {
        Some(0x5u8)
    } else if chr == 'e' || chr == 'E' {
        Some(0x6u8)
    } else if chr == 'a' || chr == 'A' {
        Some(0x7u8)
    } else if chr == 's' || chr == 'S' {
        Some(0x8u8)
    } else if chr == 'd' || chr == 'D' {
        Some(0x9u8)
    } else if chr == 'z' || chr == 'Z' {
        Some(0xAu8)
    } else if chr == 'c' || chr == 'C' {
        Some(0xBu8)
    } else if chr == '4' {
        Some(0xCu8)
    } else if chr == 'r' || chr == 'R' {
        Some(0xDu8)
    } else if chr == 'f' || chr == 'F' {
        Some(0xEu8)
    } else if chr == 'v' || chr == 'V' {
        Some(0xFu8)
    } else {
        None
    }
}

/// The keypad with `chr` pressed, if `chr` is on the layout.
pub open spec fn pressed(keys: Seq<bool>, chr: char) -> Seq<bool> {
    match key_code(chr) {
        Some(code) => keys.update(code as int, true),
        None => keys,
    }
}

/// The pressed state of the sixteen keys.
pub struct Keypad {
    keypad: [bool; 16],
}

impl View for Keypad {
    type V = Seq<bool>;

    closed spec fn view(&self) -> Seq<bool> {
        self.keypad@
    }
}

impl Keypad {
    /// A keypad with no key pressed.
    pub fn new() -> (keypad: Keypad)
        ensures
            keypad@ == Seq::new(16, |i: int| false),
    {
        let keypad = Keypad { keypad: [false; 16] };
        assert(keypad@ =~= Seq::new(16, |i: int| false));
        keypad
    }

    /// The view of a keypad always has sixteen keys.
    pub proof fn lemma_len(&self)
        ensures
            self@.len() == 16,
    {
    }

    /// Releases every key.
    pub fn reset_all(&mut self)
        ensures
            final(self)@ == Seq::new(16, |i: int| false),
    {
        self.keypad = [false; 16];
        assert(self@ =~= Seq::new(16, |i: int| false));
    }

    /// Presses the key that `chr` stands for and returns its code. A
    /// character that is not on the layout presses nothing.
    pub fn set_press(&mut self, chr: char) -> (code: Option<u8>)
        ensures
            code == key_code(chr),
            final(self)@ == pressed(old(self)@, chr),
            code matches Some(c) ==> c < 16,
    {
        let code: Option<u8> = match chr {
            'x' | 'X' => Some(0x0u8),
            '1' => Some(0x1u8),
            '2' => Some(0x2u8),
            '3' => Some(0x3u8),
            'q' | 'Q' => Some(0x4u8),
            'w' | 'W' => Some(0x5u8),
            'e' | 'E' => Some(0x6u8),
            'a' | 'A' => Some(0x7u8),
            's' | 'S' => Some(0x8u8),
            'd' | 'D' => Some(0x9u8),
            'z' | 'Z' => Some(0xAu8),
            'c' | 'C' => Some(0xBu8),
            '4' => Some(0xCu8),
            'r' | 'R' => Some(0xDu8),
            'f' | 'F' => Some(0xEu8),
            'v' | 'V' => Some(0xFu8),
            _ => None,
        };
        if let Some(key) = code {
            self.keypad[key as usize] = true;
        }
        code
    }

    /// Whether key `key` is pressed.
    pub fn check_press(&self, key: u8) -> (is_pressed: bool)
        requires
            key <= 0xF,
        ensures
            is_pressed == self@[key as int],
    {
        self.keypad[key as usize]
    }
}

} // verus!
