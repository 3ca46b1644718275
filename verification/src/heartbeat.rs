//! The heartbeat message: a liveness signal a validator signs.

use vstd::prelude::*;

use crate::encode::{bytes_field, copy_bytes, encode_bytes_field, encode_sint64_field, sint64_field};
use crate::signable::{EncodeError, TendermintSignable};

verus! {

/// A heartbeat to be signed: chain and validator identifiers, consensus
/// position, an optional sequence number, and the signature slot.
#[derive(Clone, Debug, PartialEq, Eq)]
pub struct SignHeartbeatMsg {
    pub chain_id: Vec<u8>,
    pub validator_address: Vec<u8>,
    pub validator_index: i64,
    pub height: i64,
    pub round: i64,
    pub sequence: Option<i64>,
    pub signature: Vec<u8>,
}

/// The canonical bytes of a heartbeat: chain id, height, round, and the
/// sequence number only when one is present — an absent sequence and a
/// zero sequence encode differently. The validator identifiers and the
/// signature slot are not part of the signed bytes.
pub open spec fn heartbeat_canonical(m: SignHeartbeatMsg) -> Seq<u8> {
    bytes_field(1, m.chain_id@) + sint64_field(2, m.height) + sint64_field(3, m.round) + match m
        .sequence {
        Some(s) => sint64_field(4, s),
        None => Seq::<u8>::empty(),
    }
}

impl TendermintSignable for SignHeartbeatMsg {
    open spec fn canonical_bytes(&self) -> Seq<u8> {
        heartbeat_canonical(*self)
    }

    open spec fn signature_view(&self) -> Seq<u8> {
        self.signature@
    }

    open spec fn signable_fields_eq(&self, other: &Self) -> bool {
        &&& self.chain_id@ == other.chain_id@
        &&& self.validator_address@ == other.validator_address@
        &&& self.validator_index == other.validator_index
        &&& self.height == other.height
        &&& self.round == other.round
        &&& self.sequence == other.sequence
    }

    open spec fn has_signature_slot() -> bool {
        true
    }

    proof fn lemma_canonical_ignores_signature(&self, other: &Self) {
    }

    fn sign_bytes(&self, sign_bytes: &mut Vec<u8>) -> (r: Result<bool, EncodeError>) {
        encode_bytes_field(sign_bytes, 1, &self.chain_id);
        encode_sint64_field(sign_bytes, 2, self.height);
        encode_sint64_field(sign_bytes, 3, self.round);
        match self.sequence {
            Some(s) => {
                encode_sint64_field(sign_bytes, 4, s);
            },
            None => {},
        }
        proof {
            assert(sign_bytes@ =~= old(sign_bytes)@ + self.canonical_bytes());
        }
        Ok(true)
    }

    fn set_signature(&mut self, sig: &Vec<u8>) {
        self.signature = copy_bytes(sig);
    }
}

/// The canonical bytes of a heartbeat are a function of its signed fields
/// alone — chain id, height, round, sequence; the validator identifiers
/// and the signature slot never reach them.
pub proof fn lemma_heartbeat_canonical_signed_fields_only(a: SignHeartbeatMsg, b: SignHeartbeatMsg)
    requires
        a.chain_id@ == b.chain_id@,
        a.height == b.height,
        a.round == b.round,
        a.sequence == b.sequence,
    ensures
        heartbeat_canonical(a) == heartbeat_canonical(b),
{
}

/// Canonicalization never collapses two heartbeats that differ in a signed
/// field: equal canonical bytes force equal chain id, height, round and
/// sequence, an absent sequence never passing for a present one. The
/// length bounds only state that the chain ids could exist in memory.
#[verifier::rlimit(100)]
#[verifier::spinoff_prover]
pub proof fn lemma_heartbeat_canonical_injective(a: SignHeartbeatMsg, b: SignHeartbeatMsg)
    requires
        heartbeat_canonical(a) == heartbeat_canonical(b),
        a.chain_id@.len() <= u64::MAX,
        b.chain_id@.len() <= u64::MAX,
    ensures
        a.chain_id@ == b.chain_id@,
        a.height == b.height,
        a.round == b.round,
        a.sequence == b.sequence,
{
    let sa = match a.sequence {
        Some(s) => sint64_field(4, s),
        None => Seq::<u8>::empty(),
    };
    let sb = match b.sequence {
        Some(s) => sint64_field(4, s),
        None => Seq::<u8>::empty(),
    };
    assert(heartbeat_canonical(a) =~= bytes_field(1, a.chain_id@) + (sint64_field(2, a.height)
        + (sint64_field(3, a.round) + sa)));
    assert(heartbeat_canonical(b) =~= bytes_field(1, b.chain_id@) + (sint64_field(2, b.height)
        + (sint64_field(3, b.round) + sb)));
    crate::unambiguity::lemma_bytes_field_prefix_free(
        1,
        a.chain_id@,
        sint64_field(2, a.height) + (sint64_field(3, a.round) + sa),
        b.chain_id@,
        sint64_field(2, b.height) + (sint64_field(3, b.round) + sb),
    );
    crate::unambiguity::lemma_sint64_field_prefix_free(
        2,
        a.height,
        sint64_field(3, a.round) + sa,
        b.height,
        sint64_field(3, b.round) + sb,
    );
    crate::unambiguity::lemma_sint64_field_prefix_free(3, a.round, sa, b.round, sb);
    match (a.sequence, b.sequence) {
        (None, None) => {},
        (Some(s1), Some(s2)) => {
            assert(sint64_field(4, s1) + Seq::<u8>::empty() =~= sint64_field(4, s1));
            assert(sint64_field(4, s2) + Seq::<u8>::empty() =~= sint64_field(4, s2));
            crate::unambiguity::lemma_sint64_field_prefix_free(
                4,
                s1,
                Seq::empty(),
                s2,
                Seq::empty(),
            );
        },
        (Some(s1), None) => {
            crate::encode::lemma_varint_bytes_len(crate::encode::zigzag(s1));
            crate::encode::lemma_varint_bytes_len(32u64);
            assert(sa.len() > 0);
        },
        (None, Some(s2)) => {
            crate::encode::lemma_varint_bytes_len(crate::encode::zigzag(s2));
            crate::encode::lemma_varint_bytes_len(32u64);
            assert(sb.len() > 0);
        },
    }
}

/// A present sequence number is distinguishable from an absent one in the
/// canonical bytes, zero included: the encodings never coincide.
pub proof fn lemma_heartbeat_sequence_presence_visible(a: SignHeartbeatMsg, b: SignHeartbeatMsg)
    requires
        a.sequence is Some,
        b.sequence is None,
        a.chain_id@ == b.chain_id@,
        a.height == b.height,
        a.round == b.round,
    ensures
        heartbeat_canonical(a) != heartbeat_canonical(b),
{
    let prefix = bytes_field(1, a.chain_id@) + sint64_field(2, a.height) + sint64_field(
        3,
        a.round,
    );
    assert(heartbeat_canonical(b) == prefix + Seq::<u8>::empty());
    assert(heartbeat_canonical(b) =~= prefix);
    let s: i64 = a.sequence->0;
    assert(heartbeat_canonical(a) == prefix + sint64_field(4, s));
    crate::encode::lemma_varint_bytes_len(crate::encode::zigzag(s));
    crate::encode::lemma_varint_bytes_len(32u64);
    assert(heartbeat_canonical(a).len() > heartbeat_canonical(b).len());
}

} // verus!
