//! Encoding and decoding of smart-contract call data.
//!
//! The crate converts loosely typed host values into the strongly typed
//! tokens a contract interface expects, and decoded tokens back into
//! host-friendly values (hex strings, decimal strings, booleans and
//! sequences).  The binary packing itself is delegated to the `ethabi`
//! crate; everything around it — hex framing, 256-bit integer text
//! conversion, tokenizing, detokenizing and schema lookup — is verified.

pub mod abi;
pub mod coder;
pub mod detokenize;
pub mod laws;
pub mod text;
pub mod tokenize;
pub mod types;
pub mod u256;

pub use coder::Coder;
pub use types::{CoderError, DynamicValue, ParamType, Token};
pub use u256::U256;
