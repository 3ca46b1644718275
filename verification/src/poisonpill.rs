//! The poison pill: a control message asking the signer to stop. It carries
//! no signable content and no signature slot.

use vstd::prelude::*;

use crate::signable::{EncodeError, TendermintSignable};

verus! {

/// The shutdown request. It has no fields: nothing about it is signed, and
/// nothing can be attached to it.
#[derive(Clone, Copy, Debug, PartialEq, Eq, Structural)]
pub struct PoisonPillMsg;

impl TendermintSignable for PoisonPillMsg {
    /// The fixed canonical payload: empty, whatever instance is asked.
    open spec fn canonical_bytes(&self) -> Seq<u8> {
        Seq::<u8>::empty()
    }

    open spec fn signature_view(&self) -> Seq<u8> {
        Seq::<u8>::empty()
    }

    open spec fn signable_fields_eq(&self, other: &Self) -> bool {
        true
    }

    open spec fn has_signature_slot() -> bool {
        false
    }

    proof fn lemma_canonical_ignores_signature(&self, other: &Self) {
    }

    fn sign_bytes(&self, sign_bytes: &mut Vec<u8>) -> (r: Result<bool, EncodeError>) {
        proof {
            assert(sign_bytes@ =~= old(sign_bytes)@ + self.canonical_bytes());
        }
        Ok(true)
    }

    fn set_signature(&mut self, sig: &Vec<u8>) {
    }
}

/// The poison pill's canonical payload is the same fixed (empty) byte
/// sequence for any two instances: canonicalizing it any number of times,
/// in any state, yields the same bytes.
pub proof fn lemma_poison_pill_canonical_fixed(a: PoisonPillMsg, b: PoisonPillMsg)
    ensures
        a.canonical_bytes() == b.canonical_bytes(),
        a.canonical_bytes() == Seq::<u8>::empty(),
{
}

} // verus!
