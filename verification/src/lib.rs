//! A verified core for a small 8-bit virtual machine: a 4096-byte memory,
//! sixteen 8-bit registers, a call stack, two 60 Hz countdown timers, a
//! 64x32 monochrome framebuffer and a 16-key input device, driven by a
//! fixed instruction set of 16-bit words.

pub mod chip8;
pub mod keyboard;
pub mod laws;
pub mod screen;
pub mod state;

pub use chip8::Emulator;
pub use chip8::RomError;
pub use keyboard::Keyboard;
pub use screen::Screen;
