pub mod chip8;
pub mod display;
pub mod keyboard;
pub mod laws;
pub mod machine;

pub use crate::chip8::Chip8;
pub use crate::display::Display;
pub use crate::keyboard::Keyboard;
pub use crate::machine::{decode, Chip8Error, Instruction};
