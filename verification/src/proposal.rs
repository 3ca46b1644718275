//! The proposal message: a block a validator puts forward for a round.

use vstd::prelude::*;

use crate::encode::{copy_bytes, encode_sint64_field, sint64_field};
use crate::signable::{EncodeError, TendermintSignable};
use crate::types::{block_id_field, encode_block_id_field, encode_time_field, time_field, BlockID, Time};

verus! {

/// A proposal to be signed: the consensus position, the round whose prior
/// quorum the proposal claims (polka round), the proposed block, the
/// proposal timestamp, and the signature slot.
#[derive(Clone, Debug, PartialEq, Eq)]
pub struct SignProposalMsg {
    pub height: i64,
    pub round: i64,
    pub pol_round: i64,
    pub block_id: BlockID,
    pub timestamp: Time,
    pub signature: Vec<u8>,
}

/// The canonical bytes of a proposal: height, round, polka round, block
/// identifier and timestamp, in that order. The signature slot is not part
/// of the signed bytes.
pub open spec fn proposal_canonical(m: SignProposalMsg) -> Seq<u8> {
    sint64_field(1, m.height) + sint64_field(2, m.round) + sint64_field(3, m.pol_round)
        + block_id_field(4, m.block_id) + time_field(5, m.timestamp)
}

impl TendermintSignable for SignProposalMsg {
    open spec fn canonical_bytes(&self) -> Seq<u8> {
        proposal_canonical(*self)
    }

    open spec fn signature_view(&self) -> Seq<u8> {
        self.signature@
    }

    open spec fn signable_fields_eq(&self, other: &Self) -> bool {
        &&& self.height == other.height
        &&& self.round == other.round
        &&& self.pol_round == other.pol_round
        &&& self.block_id.hash@ == other.block_id.hash@
        &&& match (self.block_id.parts_header, other.block_id.parts_header) {
            (Some(p), Some(q)) => p.total == q.total && p.hash@ == q.hash@,
            (None, None) => true,
            _ => false,
        }
        &&& self.timestamp == other.timestamp
    }

    open spec fn has_signature_slot() -> bool {
        true
    }

    proof fn lemma_canonical_ignores_signature(&self, other: &Self) {
        assert(crate::types::block_id_body(self.block_id) == crate::types::block_id_body(
            other.block_id,
        ));
    }

    fn sign_bytes(&self, sign_bytes: &mut Vec<u8>) -> (r: Result<bool, EncodeError>) {
        encode_sint64_field(sign_bytes, 1, self.height);
        encode_sint64_field(sign_bytes, 2, self.round);
        encode_sint64_field(sign_bytes, 3, self.pol_round);
        encode_block_id_field(sign_bytes, 4, &self.block_id);
        encode_time_field(sign_bytes, 5, &self.timestamp);
        proof {
            assert(sign_bytes@ =~= old(sign_bytes)@ + self.canonical_bytes());
        }
        Ok(true)
    }

    fn set_signature(&mut self, sig: &Vec<u8>) {
        self.signature = copy_bytes(sig);
    }
}

/// Canonicalization never collapses two proposals that differ in a signed
/// field: equal canonical bytes force equal height, round, polka round,
/// block identifier and timestamp. The length bounds only state that the
/// byte fields could exist in memory.
#[verifier::rlimit(100)]
#[verifier::spinoff_prover]
pub proof fn lemma_proposal_canonical_injective(a: SignProposalMsg, b: SignProposalMsg)
    requires
        proposal_canonical(a) == proposal_canonical(b),
        a.block_id.hash@.len() <= u64::MAX,
        b.block_id.hash@.len() <= u64::MAX,
        a.block_id.parts_header is Some ==> a.block_id.parts_header->0.hash@.len() <= u64::MAX,
        b.block_id.parts_header is Some ==> b.block_id.parts_header->0.hash@.len() <= u64::MAX,
    ensures
        a.height == b.height,
        a.round == b.round,
        a.pol_round == b.pol_round,
        a.block_id.hash@ == b.block_id.hash@,
        a.block_id.parts_header is Some <==> b.block_id.parts_header is Some,
        a.block_id.parts_header is Some ==> a.block_id.parts_header->0.total
            == b.block_id.parts_header->0.total && a.block_id.parts_header->0.hash@
            == b.block_id.parts_header->0.hash@,
        a.timestamp == b.timestamp,
{
    let ra = sint64_field(2, a.round);
    let pa = sint64_field(3, a.pol_round);
    let ba = block_id_field(4, a.block_id);
    let wa = time_field(5, a.timestamp);
    let rb = sint64_field(2, b.round);
    let pb = sint64_field(3, b.pol_round);
    let bb = block_id_field(4, b.block_id);
    let wb = time_field(5, b.timestamp);
    assert(proposal_canonical(a) =~= sint64_field(1, a.height) + (ra + (pa + (ba + wa))));
    assert(proposal_canonical(b) =~= sint64_field(1, b.height) + (rb + (pb + (bb + wb))));
    crate::unambiguity::lemma_sint64_field_prefix_free(
        1,
        a.height,
        ra + (pa + (ba + wa)),
        b.height,
        rb + (pb + (bb + wb)),
    );
    crate::unambiguity::lemma_sint64_field_prefix_free(
        2,
        a.round,
        pa + (ba + wa),
        b.round,
        pb + (bb + wb),
    );
    crate::unambiguity::lemma_sint64_field_prefix_free(3, a.pol_round, ba + wa, b.pol_round, bb + wb);
    crate::unambiguity::lemma_block_id_then_time_inj(
        4,
        5,
        a.block_id,
        a.timestamp,
        b.block_id,
        b.timestamp,
    );
}

} // verus!
