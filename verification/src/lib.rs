//! A CHIP-8 interpreter core: instruction decoding, the executor, and the
//! XOR framebuffer, each with a machine-checked contract.

pub mod display;
pub mod executor;
pub mod input;
pub mod machine;
pub mod opcodes;
pub mod semantics;
pub mod timing;

pub use display::{Display, Pixel, Vec2};
pub use executor::CycleError;
pub use input::{InputEvent, InputHandler, KeyEvent};
pub use machine::{Chip8, LoadError};
pub use opcodes::{decode, DecodeError, OpCode};
pub use semantics::ExecError;
pub use timing::{Due, Pacer};
