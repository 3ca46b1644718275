//! The public-key announcement: it names a key and is itself never signed,
//! so it stays outside the signing capability.

use vstd::prelude::*;

verus! {

/// An ed25519 public key's raw bytes, announced to the counterparty. It
/// carries no signature slot and has no canonical signing form.
#[derive(Clone, Debug, PartialEq, Eq)]
pub struct PubKeyMsg {
    pub pub_key_ed25519: Vec<u8>,
}

} // verus!
