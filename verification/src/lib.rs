//! A verified CHIP-8 virtual machine core: instruction decoder, register and
//! memory model, and the bit-packed display compositor, together with the
//! capability interfaces (display sink, keypad source, timer source) through
//! which a host drives the machine.

pub mod cpu;
pub mod devices;
pub mod instructions;
pub mod screen;
pub mod traits;

pub use cpu::Chip8;
pub use cpu::Chip8Error;
pub use devices::Keypad;
pub use devices::StepTimer;
pub use traits::Drawable;
pub use traits::HexKeyboard;
pub use traits::Timer;
pub use screen::character_offset;
pub use screen::Screen;
pub use screen::CHIP8_FONT;
pub use instructions::address;
pub use instructions::first_nibble;
pub use instructions::last_nibble;
pub use instructions::Instruction;
