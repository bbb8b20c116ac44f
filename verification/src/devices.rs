//! Plain in-memory keypad and timer sources. A host that has no real input
//! or clock of its own (a test harness, a scripted run) sets their state
//! directly between steps.

use vstd::prelude::*;
use crate::traits::{HexKeyboard, Timer};

verus! {

/// A keypad whose currently held key is set by the host. Key codes are kept
/// in [0, 15] by masking to the low nibble.
pub struct Keypad {
    key: Option<u8>,
}

impl View for Keypad {
    type V = Option<u8>;

    closed spec fn view(&self) -> Option<u8> {
        match self.key {
            Some(k) => Some((k & 0x0F) as u8),
            None => None,
        }
    }
}

impl Keypad {
    /// A keypad with no key held.
    pub fn new() -> (k: Keypad)
        ensures
            k@ is None,
    {
        Keypad { key: None }
    }

    /// Holds down `key`; only its low nibble is kept.
    pub fn press(&mut self, key: u8)
        ensures
            final(self)@ == Some((key & 0x0F) as u8),
    {
        self.key = Some(key);
    }

    /// Releases whatever key was held.
    pub fn release(&mut self)
        ensures
            final(self)@ is None,
    {
        self.key = None;
    }
}

impl HexKeyboard for Keypad {
    fn pressed_key(&self) -> (key: Option<u8>)
        ensures
            key == self@,
    {
        let r = match self.key {
            Some(k) => Some(k & 0x0F),
            None => None,
        };
        proof {
            assert(forall|k: u8| (k & 0x0F) <= 0xF) by (bit_vector);
        }
        r
    }
}

/// A tick source that reports the same number of elapsed 60 Hz intervals on
/// every poll, for driving the machine at a fixed scripted rate.
pub struct StepTimer {
    cycles: u8,
}

impl View for StepTimer {
    type V = u8;

    closed spec fn view(&self) -> u8 {
        self.cycles
    }
}

impl StepTimer {
    /// A source that reports `cycles` elapsed intervals per poll.
    pub fn new(cycles: u8) -> (t: StepTimer)
        ensures
            t@ == cycles,
    {
        StepTimer { cycles }
    }
}

impl Timer for StepTimer {
    fn cycles_passed(&self) -> (r: u8)
        ensures
            r == self@,
    {
        self.cycles
    }
}

} // verus!
