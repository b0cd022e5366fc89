//! Decoder for a length-prefixed binary transaction encoding.
//!
//! A transaction arrives as one immutable byte sequence: a fixed-width
//! little-endian version, a variable-length count of inputs, the inputs,
//! a count of outputs, and the outputs. A [`cursor::ByteCursor`] consumes
//! the sequence from the front; the primitive field readers in [`fields`]
//! decode counts, fixed-width integers, reversed identifiers and
//! length-prefixed blobs; [`transaction::decode_transaction`] sequences
//! them into a [`transaction::Transaction`].

pub mod cursor;
pub mod fields;
pub mod transaction;
