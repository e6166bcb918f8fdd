//! The keypad as a terminal feeds it: one key at most per poll.

use crate::input::{active_keys, no_keys, observed_keys, ChipKeys, KeyPress, Keyboard};
use vstd::prelude::*;

verus! {

/// The state of an input source that polls a terminal for key events.
pub struct CrosstermInput {
    /// What the last poll saw.
    pub keyboard: Keyboard,
    /// How long a poll waits for an event, in milliseconds.
    pub poll_timeout_millis: u64,
}

impl CrosstermInput {
    /// Constructs an input source with no key down.
    pub fn new(poll_timeout_millis: u64) -> (res: CrosstermInput)
        ensures
            res.keyboard@ == no_keys(),
            res.poll_timeout_millis == poll_timeout_millis,
    {
        CrosstermInput { keyboard: Keyboard::new(), poll_timeout_millis }
    }

    /// Returns the keys that the last poll saw, in keypad order.
    pub fn get_active_inputs(&self) -> (inputs: Vec<ChipKeys>)
        ensures
            inputs@ == active_keys(self.keyboard@),
    {
        self.keyboard.get_active_inputs()
    }

    /// Takes in what a poll of the terminal has seen: afterwards no key is
    /// down but the one that `observed` stands for.
    pub fn update(&mut self, observed: Option<KeyPress>)
        ensures
            final(self).keyboard@ == observed_keys(observed),
            final(self).poll_timeout_millis == old(self).poll_timeout_millis,
    {
        self.keyboard.update(observed);
    }
}

} // verus!
