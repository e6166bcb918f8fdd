//! The keypad: sixteen hexadecimal keys and one key that ends the program.
//!
//! The state of the keypad is modelled as a `Seq<bool>` of 17 flags in keypad
//! order: the keys 0x0 to 0xF at their own value, the exit key last.

use vstd::prelude::*;

pub mod crossterm_input;

verus! {

/// Number of keys of the keypad, the exit key included.
pub const NUMBER_OF_KEYS: usize = 17;

/// A source of input: something that can tell which keys are down now.
pub trait Input {
    /// Updates (reads) all key values and updates the given keyboard object
    fn update(&mut self, keyboard: &mut Keyboard);
}

/// Enumeration that maps all CHIP-8 Keyboard input, plus interpreter system keys
#[derive(Copy, Clone, Debug, PartialEq, Eq, Structural)]
pub enum ChipKeys {
    Key0,
    Key1,
    Key2,
    Key3,
    Key4,
    Key5,
    Key6,
    Key7,
    Key8,
    Key9,
    KeyA,
    KeyB,
    KeyC,
    KeyD,
    KeyE,
    KeyF,
    ESC,
}

/// What an input source saw on the host's keyboard: the escape key, or the
/// key of a character.
#[derive(Copy, Clone, Debug, PartialEq, Eq, Structural)]
pub enum KeyPress {
    Esc,
    Char(char),
}

/// The key at place `i` of keypad order: the key with value `i` for `i` up
/// to 0xF, and the exit key after them.
pub open spec fn key_at(i: int) -> ChipKeys {
    if i == 0 {
        ChipKeys::Key0
    } else if i == 1 {
        ChipKeys::Key1
    } else if i == 2 {
        ChipKeys::Key2
    } else if i == 3 {
        ChipKeys::Key3
    } else if i == 4 {
        ChipKeys::Key4
    } else if i == 5 {
        ChipKeys::Key5
    } else if i == 6 {
        ChipKeys::Key6
    } else if i == 7 {
        ChipKeys::Key7
    } else if i == 8 {
        ChipKeys::Key8
    } else if i == 9 {
        ChipKeys::Key9
    } else if i == 10 {
        ChipKeys::KeyA
    } else if i == 11 {
        ChipKeys::KeyB
    } else if i == 12 {
        ChipKeys::KeyC
    } else if i == 13 {
        ChipKeys::KeyD
    } else if i == 14 {
        ChipKeys::KeyE
    } else if i == 15 {
        ChipKeys::KeyF
    } else {
        ChipKeys::ESC
    }
}

/// All keys in keypad order.
pub open spec fn all_keys() -> Seq<ChipKeys> {
    Seq::new(17, |i: int| key_at(i))
}

/// The test "this key is down" for the keypad state `flags`.
pub open spec fn down_in(flags: Seq<bool>) -> spec_fn(ChipKeys) -> bool {
    |key: ChipKeys| flags[key.index()]
}

/// The keys among the first `n` of keypad order that are down in `flags`, in
/// keypad order.
pub open spec fn active_below(flags: Seq<bool>, n: int) -> Seq<ChipKeys> {
    all_keys().take(n).filter(down_in(flags))
}

/// The keys that are down in the keypad state `flags`, in keypad order.
pub open spec fn active_keys(flags: Seq<bool>) -> Seq<ChipKeys> {
    all_keys().filter(down_in(flags))
}

/// The keypad state with no key down.
pub open spec fn no_keys() -> Seq<bool> {
    Seq::new(17, |i: int| false)
}

/// The key of the hexadecimal keypad that the host's key for character `c`
/// stands for. The host's keys `1234`, `qwer`, `asdf`, `zxcv` lie as the
/// keypad's rows `123C`, `456D`, `789E`, `A0BF` do.
pub open spec fn keypad_key(c: char) -> Option<ChipKeys> {
    if c == '1' {
        Some(ChipKeys::Key1)
    } else if c == '2' {
        Some(ChipKeys::Key2)
    } else if c == '3' {
        Some(ChipKeys::Key3)
    } else if c == '4' {
        Some(ChipKeys::KeyC)
    } else if c == 'q' {
        Some(ChipKeys::Key4)
    } else if c == 'w' {
        Some(ChipKeys::Key5)
    } else if c == 'e' {
        Some(ChipKeys::Key6)
    } else if c == 'r' {
        Some(ChipKeys::KeyD)
    } else if c == 'a' {
        Some(ChipKeys::Key7)
    } else if c == 's' {
        Some(ChipKeys::Key8)
    } else if c == 'd' {
        Some(ChipKeys::Key9)
    } else if c == 'f' {
        Some(ChipKeys::KeyE)
    } else if c == 'z' {
        Some(ChipKeys::KeyA)
    } else if c == 'x' {
        Some(ChipKeys::Key0)
    } else if c == 'c' {
        Some(ChipKeys::KeyB)
    } else if c == 'v' {
        Some(ChipKeys::KeyF)
    } else {
        None
    }
}

/// The key that a key of the host stands for, if any.
pub open spec fn key_for(press: KeyPress) -> Option<ChipKeys> {
    match press {
        KeyPress::Esc => Some(ChipKeys::ESC),
        KeyPress::Char(c) => keypad_key(c),
    }
}

/// The keypad state after an input source has seen `observed`: no key is
/// down but the one that `observed` stands for.
pub open spec fn observed_keys(observed: Option<KeyPress>) -> Seq<bool> {
    match observed {
        Some(press) => match key_for(press) {
            Some(key) => no_keys().update(key.index(), true),
            None => no_keys(),
        },
        None => no_keys(),
    }
}

impl ChipKeys {
    /// The place of the key in keypad order.
    pub open spec fn index(self) -> int {
        match self {
            ChipKeys::Key0 => 0,
            ChipKeys::Key1 => 1,
            ChipKeys::Key2 => 2,
            ChipKeys::Key3 => 3,
            ChipKeys::Key4 => 4,
            ChipKeys::Key5 => 5,
            ChipKeys::Key6 => 6,
            ChipKeys::Key7 => 7,
            ChipKeys::Key8 => 8,
            ChipKeys::Key9 => 9,
            ChipKeys::KeyA => 10,
            ChipKeys::KeyB => 11,
            ChipKeys::KeyC => 12,
            ChipKeys::KeyD => 13,
            ChipKeys::KeyE => 14,
            ChipKeys::KeyF => 15,
            ChipKeys::ESC => 16,
        }
    }

    /// The value of the key: its digit, and 0 for the exit key.
    pub open spec fn hex(self) -> u8 {
        if self == ChipKeys::ESC {
            0
        } else {
            self.index() as u8
        }
    }

    /// Returns the value of the key: its digit, and 0 for the exit key.
    pub fn to_hex(&self) -> (hex: u8)
        ensures
            hex == self.hex(),
    {
        return match self {
            ChipKeys::Key0 => 0x0,
            ChipKeys::Key1 => 0x1,
            ChipKeys::Key2 => 0x2,
            ChipKeys::Key3 => 0x3,
            ChipKeys::Key4 => 0x4,
            ChipKeys::Key5 => 0x5,
            ChipKeys::Key6 => 0x6,
            ChipKeys::Key7 => 0x7,
            ChipKeys::Key8 => 0x8,
            ChipKeys::Key9 => 0x9,
            ChipKeys::KeyA => 0xA,
            ChipKeys::KeyB => 0xB,
            ChipKeys::KeyC => 0xC,
            ChipKeys::KeyD => 0xD,
            ChipKeys::KeyE => 0xE,
            ChipKeys::KeyF => 0xF,
            ChipKeys::ESC => 0x0,
        };
    }

    /// Returns the place of the key in keypad order.
    pub fn position(&self) -> (place: usize)
        ensures
            place == self.index(),
            place < 17,
    {
        match self {
            ChipKeys::Key0 => 0,
            ChipKeys::Key1 => 1,
            ChipKeys::Key2 => 2,
            ChipKeys::Key3 => 3,
            ChipKeys::Key4 => 4,
            ChipKeys::Key5 => 5,
            ChipKeys::Key6 => 6,
            ChipKeys::Key7 => 7,
            ChipKeys::Key8 => 8,
            ChipKeys::Key9 => 9,
            ChipKeys::KeyA => 10,
            ChipKeys::KeyB => 11,
            ChipKeys::KeyC => 12,
            ChipKeys::KeyD => 13,
            ChipKeys::KeyE => 14,
            ChipKeys::KeyF => 15,
            ChipKeys::ESC => 16,
        }
    }

    /// Returns the key at `place` of keypad order.
    pub fn at_position(place: usize) -> (key: ChipKeys)
        requires
            place < 17,
        ensures
            key == key_at(place as int),
            key.index() == place,
    {
        match place {
            0 => ChipKeys::Key0,
            1 => ChipKeys::Key1,
            2 => ChipKeys::Key2,
            3 => ChipKeys::Key3,
            4 => ChipKeys::Key4,
            5 => ChipKeys::Key5,
            6 => ChipKeys::Key6,
            7 => ChipKeys::Key7,
            8 => ChipKeys::Key8,
            9 => ChipKeys::Key9,
            10 => ChipKeys::KeyA,
            11 => ChipKeys::KeyB,
            12 => ChipKeys::KeyC,
            13 => ChipKeys::KeyD,
            14 => ChipKeys::KeyE,
            15 => ChipKeys::KeyF,
            _ => ChipKeys::ESC,
        }
    }

    /// Returns the key that a key of the host stands for, if any.
    pub fn from_key_press(press: KeyPress) -> (key: Option<ChipKeys>)
        ensures
            key == key_for(press),
    {
        match press {
            KeyPress::Esc => Some(ChipKeys::ESC),
            KeyPress::Char('1') => Some(ChipKeys::Key1),
            KeyPress::Char('2') => Some(ChipKeys::Key2),
            KeyPress::Char('3') => Some(ChipKeys::Key3),
            KeyPress::Char('4') => Some(ChipKeys::KeyC),
            KeyPress::Char('q') => Some(ChipKeys::Key4),
            KeyPress::Char('w') => Some(ChipKeys::Key5),
            KeyPress::Char('e') => Some(ChipKeys::Key6),
            KeyPress::Char('r') => Some(ChipKeys::KeyD),
            KeyPress::Char('a') => Some(ChipKeys::Key7),
            KeyPress::Char('s') => Some(ChipKeys::Key8),
            KeyPress::Char('d') => Some(ChipKeys::Key9),
            KeyPress::Char('f') => Some(ChipKeys::KeyE),
            KeyPress::Char('z') => Some(ChipKeys::KeyA),
            KeyPress::Char('x') => Some(ChipKeys::Key0),
            KeyPress::Char('c') => Some(ChipKeys::KeyB),
            KeyPress::Char('v') => Some(ChipKeys::KeyF),
            _ => None,
        }
    }
}

/// CHIP-8 Keyboard + Extra system keys
pub struct Keyboard {
    /// One flag per key, in keypad order: true while the key is down.
    pub keys: [bool; 17],
}

impl View for Keyboard {
    type V = Seq<bool>;

    /// The 17 flags in keypad order.
    open spec fn view(&self) -> Seq<bool> {
        self.keys@
    }
}

impl Default for Keyboard {
    fn default() -> (res: Keyboard)
        ensures
            res@ == no_keys(),
    {
        Keyboard::new()
    }
}

impl Keyboard {
    /// Constructs a new keyboard, all keys default to not pressed
    pub fn new() -> (res: Keyboard)
        ensures
            res@ == no_keys(),
    {
        let res = Keyboard { keys: [false; 17] };
        res
    }

    /// Clears all keys (resets state to not pressed)
    pub fn clear(&mut self)
        ensures
            final(self)@ == no_keys(),
    {
        self.keys = [false; 17];
    }

    /// Marks `key` as pressed.
    pub fn press(&mut self, key: ChipKeys)
        ensures
            final(self)@ == old(self)@.update(key.index(), true),
    {
        self.keys[key.position()] = true;
    }

    /// Replaces the whole state by what an input source has just seen: every
    /// key goes up, then the key that `observed` stands for, if any, goes down.
    /// Returns whether `observed` stands for a key.
    pub fn update(&mut self, observed: Option<KeyPress>) -> (recognised: bool)
        ensures
            final(self)@ == observed_keys(observed),
            recognised == (observed matches Some(press) && key_for(press) is Some),
    {
        self.clear();
        match observed {
            Some(press) => match ChipKeys::from_key_press(press) {
                Some(key) => {
                    self.press(key);
                    true
                },
                None => false,
            },
            None => false,
        }
    }

    /// Returns a Vector of ChipKeys that contains all active (pressed) keys
    pub fn get_active_inputs(&self) -> (inputs: Vec<ChipKeys>)
        ensures
            inputs@ == active_keys(self@),
    {
        let mut inputs: Vec<ChipKeys> = Vec::with_capacity(NUMBER_OF_KEYS);
        let mut place: usize = 0;
        while place < NUMBER_OF_KEYS
            invariant
                place <= 17,
                inputs@ == active_below(self@, place as int),
            decreases 17 - place,
        {
            proof {
                lemma_next_key(self@, place as int);
            }
            if self.keys[place] {
                inputs.push(ChipKeys::at_position(place));
            }
            place += 1;
        }
        proof {
            assert(all_keys().take(17) =~= all_keys());
        }
        inputs
    }

    /// Returns whether `key` is pressed.
    pub fn is_key_pressed(&self, key: ChipKeys) -> (pressed: bool)
        ensures
            pressed == self@[key.index()],
    {
        self.keys[key.position()]
    }

    /// Returns whether the key of the hexadecimal keypad with value `hex_key`
    /// is pressed. No key has a value above 0xF.
    pub fn is_pressed(&self, hex_key: u8) -> (pressed: bool)
        ensures
            pressed == (hex_key <= 0xF && self@[hex_key as int]),
    {
        hex_key <= 0xF && self.keys[hex_key as usize]
    }
}

/// What the key at place `n` adds to the active keys before it.
proof fn lemma_next_key(flags: Seq<bool>, n: int)
    requires
        0 <= n < 17,
    ensures
        active_below(flags, n + 1) == if flags[n] {
            active_below(flags, n).push(key_at(n))
        } else {
            active_below(flags, n)
        },
{
    reveal(Seq::filter);
    let upto = all_keys().take(n + 1);
    assert(upto.drop_last() =~= all_keys().take(n));
}

/// Before the first key that is down no key is active, and from it on it is
/// the first active key.
proof fn lemma_active_below_first(flags: Seq<bool>, first: int, n: int)
    requires
        0 <= first < 17,
        flags[first],
        forall|j: int| 0 <= j < first ==> !flags[j],
        0 <= n <= 17,
    ensures
        n <= first ==> active_below(flags, n).len() == 0,
        n > first ==> active_below(flags, n).len() > 0 && active_below(flags, n)[0] == key_at(
            first,
        ),
    decreases n,
{
    if n > 0 {
        lemma_active_below_first(flags, first, n - 1);
        lemma_next_key(flags, n - 1);
    }
}

/// With no key down no key is active.
pub proof fn lemma_no_active_key(flags: Seq<bool>)
    requires
        flags.len() == 17,
        forall|j: int| 0 <= j < 17 ==> !flags[j],
    ensures
        active_keys(flags).len() == 0,
{
    assert(all_keys().take(17) =~= all_keys());
    lemma_none_active_below(flags, 17);
}

/// With no key down among the first `n`, none of them is active.
proof fn lemma_none_active_below(flags: Seq<bool>, n: int)
    requires
        0 <= n <= 17,
        forall|j: int| 0 <= j < n ==> !flags[j],
    ensures
        active_below(flags, n).len() == 0,
    decreases n,
{
    if n > 0 {
        lemma_none_active_below(flags, n - 1);
        lemma_next_key(flags, n - 1);
    }
}

/// The first active key is the key that is down at the lowest place of keypad
/// order: the lowest digit that is down, and the exit key if no digit is.
pub proof fn lemma_first_active_key(flags: Seq<bool>, first: int)
    requires
        flags.len() == 17,
        0 <= first < 17,
        flags[first],
        forall|j: int| 0 <= j < first ==> !flags[j],
    ensures
        active_keys(flags).len() > 0,
        active_keys(flags)[0] == key_at(first),
{
    assert(all_keys().take(17) =~= all_keys());
    lemma_active_below_first(flags, first, 17);
}

} // verus!
