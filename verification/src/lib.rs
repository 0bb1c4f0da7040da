//! The keystream generator of DSTU 8845: a synchronous additive stream
//! cipher over 64-bit words, with a 256-bit or 512-bit key and a 256-bit
//! initialization vector.
//!
//! A generator is sixteen state words and a two-word delay register. Setup
//! fills the state from key and initialization vector, two initialization
//! passes mix it, and every generation pass after that puts out sixteen
//! keystream words, 128 bytes. Encrypting and decrypting are the same
//! operation: exclusive-or with the keystream.
//!
//! The three word maps of the generator (multiplication by the field
//! constant, multiplication by its inverse, and the register transform) are
//! given by byte-indexed tables, which the caller supplies as a
//! [`tables::Tables`]. Every contract here holds for whatever tables are
//! supplied.
//!
//! * [`words`]: little-endian bytes and words.
//! * [`tables`]: the three word maps.
//! * [`engine`]: the mixing passes, as a mathematical model.
//! * [`generator`]: the core, which sets up the state and puts out blocks.
//! * [`stream`]: the driver, which applies keystream to data of any length,
//!   and what holds of the keystream.
//! * [`erase`]: overwriting secrets.

pub mod engine;
pub mod erase;
pub mod generator;
pub mod stream;
pub mod tables;
pub mod words;

pub use generator::Dstu8845Core;
pub use stream::{Dstu8845, Dstu8845_256, Dstu8845_512, InvalidLength};
pub use tables::Tables;
