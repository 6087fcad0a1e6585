//! Consensus core of a proof-of-stake node.
//!
//! The core is the lottery that decides, slot by slot, which stakeholder may
//! propose a block, and the chain of proposals with its rules of linkage:
//!
//! - `keychain`: the secret keys of an epoch, each derived from the one
//!   before it, with the Merkle root and path recorded at its insertion;
//! - `calibration`: the two coefficients that turn a stake into a winning
//!   threshold, computed in decimals of a fixed precision (`decimal`);
//! - `coins`: the coins that compete in each slot of an epoch;
//! - `lottery`: which coin wins a slot, if any;
//! - `block` and `proposal`: headers, blocks and proposals with their
//!   canonical encoding and hashes, and the chains that proposals form.
//!
//! Underneath stand the Pallas fields and curve (`field`, `curve`), the hash
//! functions (`hash`), the Merkle accumulator (`merkle`), nullifiers
//! (`nullifier`) and integers as bytes (`bytes`). The field, curve, hash,
//! tree and decimal arithmetic is that of other crates; each call into them
//! stands in a function of its own, whose contract says what is taken from
//! the call without proof.
//!
//! `irc`, `rpc`, `net` and `util` hold the decisions that the node's daemons
//! take; the daemons themselves are not part of this library.

pub mod block;
pub mod bytes;
pub mod calibration;
pub mod coins;
pub mod curve;
pub mod decimal;
pub mod field;
pub mod hash;
pub mod irc;
pub mod keychain;
pub mod lottery;
pub mod merkle;
pub mod net;
pub mod nullifier;
pub mod proposal;
pub mod random;
pub mod rpc;
pub mod util;
