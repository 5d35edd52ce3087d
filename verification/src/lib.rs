//! Signature scanning over the memory of another process.
//!
//! The crate holds the rules of the scanner: how a signature text is parsed,
//! where a signature matches in a buffer, how the regions of an address space
//! are walked, and which region is read next. Talking to the operating system
//! is left to the caller, who feeds the answers back in.

pub mod access;
pub mod error;
pub mod modules;
pub mod prefix;
pub mod process;
pub mod region;
pub mod scanner;
pub mod signature;
pub mod snapshot;
pub mod syntax;
pub mod text;
pub mod value;
