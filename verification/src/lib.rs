//! Maliciously secure correlated oblivious transfer over BN254.
//!
//! A sender holds two labels for every wire of a circuit; a receiver
//! learns, for every wire, the label of its choice bit and nothing of the
//! other, and the sender learns nothing of the bits. A MAC check at the
//! end lets the receiver catch a sender that authenticates other labels
//! than it sent.
//!
//! The crate is layered bottom-up:
//!
//! * [`field`]: canonical elements of the base field and of the scalar field,
//! * [`curve`]: affine points of the group `G1`,
//! * [`encoding`]: the byte encoding of elements, points and messages,
//! * [`mimc`]: the keyed permutation from which label pads are derived,
//! * [`pvw`]: the dual-key base oblivious transfer,
//! * [`mac`]: the affine MAC over labels and offsets,
//! * [`framing`]: the layout of messages that carry both branches,
//! * [`cot`]: the steps of the correlated transfer, one function each,
//! * [`session`]: a session round by round, in the order of the protocol,
//! * [`laws`]: theorems relating the functions above.
//!
//! Nothing here reads or writes: every message is a value that the caller
//! carries to the peer.
#![allow(non_snake_case)]

pub mod cot;
pub mod curve;
pub mod encoding;
pub mod errors;
pub mod field;
pub mod framing;
pub mod laws;
pub mod mac;
pub mod mimc;
pub mod pvw;
pub mod session;
