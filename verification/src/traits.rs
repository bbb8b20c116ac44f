//! Capability interfaces through which the virtual CPU reaches its
//! collaborators: a display sink, a polled hex keypad, and a 60 Hz tick
//! source. Hosts implement these; the CPU never blocks on any of them.

use vstd::prelude::*;

verus! {

/// A display sink that can XOR-composite sprites and report collisions.
pub trait Drawable {
    /// Composites `sprite` at column `x`, row `y`; returns whether any
    /// previously set pixel was cleared.
    fn write_sprite(&mut self, x: usize, y: usize, sprite: &[u8]) -> bool;

    /// Signals the renderer that the buffer changed.
    fn flush(&self);

    /// Resets every pixel to off.
    fn clear(&mut self);
}

/// A polled, never-blocking hex keypad source.
pub trait HexKeyboard {
    /// The key currently held down, if any. Key codes are in [0, 15].
    fn pressed_key(&self) -> (key: Option<u8>)
        ensures
            key matches Some(k) ==> k <= 0xF,
    ;
}

/// A monotonic tick source polled once per CPU step: how many whole 60 Hz
/// intervals have elapsed since the previous poll.
pub trait Timer {
    fn cycles_passed(&self) -> u8;
}

} // verus!
