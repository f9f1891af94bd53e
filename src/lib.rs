//! Memory bus, register model, cartridge loader and instruction dispatch of a
//! dual-CPU handheld emulator core.
//!
//! Main memory is a single arena owned by [`core_impl::Core`]; the page table
//! stores offsets into it rather than host pointers, so a mapping can never
//! outlive the memory it refers to.

pub mod arm9;
pub mod bus;
pub mod bytes;
pub mod cartridge;
pub mod core_impl;
pub mod error;
pub mod interpreter;
pub mod masks;
pub mod psr;
pub mod ptrs;

pub use arm9::Arm9;
pub use cartridge::{Cartridge, CartridgeHeader};
pub use core_impl::{Core, Engine};
pub use error::{Error, Result};
pub use interpreter::{Interpreter, NDSInterp};
pub use psr::Psr;
pub use ptrs::{adr_to_page, PtrTable};
