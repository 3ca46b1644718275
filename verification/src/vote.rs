//! The vote message: a validator's prevote or precommit for a round.

use vstd::assert_by_contradiction;
use vstd::prelude::*;

use crate::encode::{
    bytes_field, copy_bytes, encode_bytes_field, encode_sint64_field, encode_uint_field,
    sint64_field, uint_field,
};
use crate::signable::{EncodeError, TendermintSignable};
use crate::types::{block_id_field, encode_block_id_field, encode_time_field, time_field, BlockID, Time};

verus! {

/// The closed set of vote kinds.
#[derive(Clone, Copy, Debug, PartialEq, Eq, Structural)]
pub enum VoteType {
    Prevote,
    Precommit,
}

/// The wire value of a vote kind.
pub open spec fn vote_type_raw(t: VoteType) -> u64 {
    match t {
        VoteType::Prevote => 1,
        VoteType::Precommit => 2,
    }
}

/// The decode-time rejection of a vote-type value outside the closed set.
#[derive(Clone, Copy, Debug, PartialEq, Eq, Structural)]
pub struct InvalidVoteType;

impl VoteType {
    /// Reads a wire value into the closed set; any unrecognized value is
    /// rejected here, before a vote can be built and canonicalized.
    pub fn from_raw(raw: u32) -> (r: Result<VoteType, InvalidVoteType>)
        ensures
            raw == 1 ==> r == Ok::<VoteType, InvalidVoteType>(VoteType::Prevote),
            raw == 2 ==> r == Ok::<VoteType, InvalidVoteType>(VoteType::Precommit),
            raw != 1 && raw != 2 ==> r == Err::<VoteType, InvalidVoteType>(InvalidVoteType),
    {
        if raw == 1 {
            Ok(VoteType::Prevote)
        } else if raw == 2 {
            Ok(VoteType::Precommit)
        } else {
            Err(InvalidVoteType)
        }
    }

    /// The wire value of this vote kind.
    pub fn to_raw(&self) -> (r: u32)
        ensures
            r as u64 == vote_type_raw(*self),
    {
        match self {
            VoteType::Prevote => 1,
            VoteType::Precommit => 2,
        }
    }
}

/// A vote to be signed: chain identifier, vote kind, consensus position,
/// the block voted for (empty for a nil vote), the vote timestamp, the
/// voting validator's identifiers, and the signature slot.
#[derive(Clone, Debug, PartialEq, Eq)]
pub struct SignVoteMsg {
    pub chain_id: Vec<u8>,
    pub vote_type: VoteType,
    pub height: i64,
    pub round: i64,
    pub block_id: BlockID,
    pub timestamp: Time,
    pub validator_address: Vec<u8>,
    pub validator_index: i64,
    pub signature: Vec<u8>,
}

/// The canonical bytes of a vote: chain id, vote type, height, round, block
/// identifier and timestamp, in that order. The validator identifiers and
/// the signature slot are not part of the signed bytes.
pub open spec fn vote_canonical(m: SignVoteMsg) -> Seq<u8> {
    bytes_field(1, m.chain_id@) + uint_field(2, vote_type_raw(m.vote_type)) + sint64_field(
        3,
        m.height,
    ) + sint64_field(4, m.round) + block_id_field(5, m.block_id) + time_field(6, m.timestamp)
}

impl TendermintSignable for SignVoteMsg {
    open spec fn canonical_bytes(&self) -> Seq<u8> {
        vote_canonical(*self)
    }

    open spec fn signature_view(&self) -> Seq<u8> {
        self.signature@
    }

    open spec fn signable_fields_eq(&self, other: &Self) -> bool {
        &&& self.chain_id@ == other.chain_id@
        &&& self.vote_type == other.vote_type
        &&& self.height == other.height
        &&& self.round == other.round
        &&& self.block_id.hash@ == other.block_id.hash@
        &&& match (self.block_id.parts_header, other.block_id.parts_header) {
            (Some(p), Some(q)) => p.total == q.total && p.hash@ == q.hash@,
            (None, None) => true,
            _ => false,
        }
        &&& self.timestamp == other.timestamp
        &&& self.validator_address@ == other.validator_address@
        &&& self.validator_index == other.validator_index
    }

    open spec fn has_signature_slot() -> bool {
        true
    }

    proof fn lemma_canonical_ignores_signature(&self, other: &Self) {
        assert(crate::types::block_id_body(self.block_id) == crate::types::block_id_body(
            other.block_id,
        ));
    }

    fn sign_bytes(&self, sign_bytes: &mut Vec<u8>) -> (r: Result<bool, EncodeError>) {
        encode_bytes_field(sign_bytes, 1, &self.chain_id);
        encode_uint_field(sign_bytes, 2, self.vote_type.to_raw() as u64);
        encode_sint64_field(sign_bytes, 3, self.height);
        encode_sint64_field(sign_bytes, 4, self.round);
        encode_block_id_field(sign_bytes, 5, &self.block_id);
        encode_time_field(sign_bytes, 6, &self.timestamp);
        proof {
            assert(sign_bytes@ =~= old(sign_bytes)@ + self.canonical_bytes());
        }
        Ok(true)
    }

    fn set_signature(&mut self, sig: &Vec<u8>) {
        self.signature = copy_bytes(sig);
    }
}

/// The canonical bytes of a vote are a function of its signed fields alone
/// — chain id, vote type, height, round, block identifier, timestamp; the
/// validator identifiers and the signature slot never reach them.
pub proof fn lemma_vote_canonical_signed_fields_only(a: SignVoteMsg, b: SignVoteMsg)
    requires
        a.chain_id@ == b.chain_id@,
        a.vote_type == b.vote_type,
        a.height == b.height,
        a.round == b.round,
        a.block_id.hash@ == b.block_id.hash@,
        match (a.block_id.parts_header, b.block_id.parts_header) {
            (Some(p), Some(q)) => p.total == q.total && p.hash@ == q.hash@,
            (None, None) => true,
            _ => false,
        },
        a.timestamp == b.timestamp,
    ensures
        vote_canonical(a) == vote_canonical(b),
{
    assert(crate::types::block_id_body(a.block_id) == crate::types::block_id_body(b.block_id));
}

/// Canonicalization never collapses two votes that differ in a signed
/// field: equal canonical bytes force equal chain id, vote type, height,
/// round, block identifier and timestamp. The length bounds only state
/// that the byte fields could exist in memory.
#[verifier::rlimit(100)]
#[verifier::spinoff_prover]
pub proof fn lemma_vote_canonical_injective(a: SignVoteMsg, b: SignVoteMsg)
    requires
        vote_canonical(a) == vote_canonical(b),
        a.chain_id@.len() <= u64::MAX,
        b.chain_id@.len() <= u64::MAX,
        a.block_id.hash@.len() <= u64::MAX,
        b.block_id.hash@.len() <= u64::MAX,
        a.block_id.parts_header is Some ==> a.block_id.parts_header->0.hash@.len() <= u64::MAX,
        b.block_id.parts_header is Some ==> b.block_id.parts_header->0.hash@.len() <= u64::MAX,
    ensures
        a.chain_id@ == b.chain_id@,
        a.vote_type == b.vote_type,
        a.height == b.height,
        a.round == b.round,
        a.block_id.hash@ == b.block_id.hash@,
        a.block_id.parts_header is Some <==> b.block_id.parts_header is Some,
        a.block_id.parts_header is Some ==> a.block_id.parts_header->0.total
            == b.block_id.parts_header->0.total && a.block_id.parts_header->0.hash@
            == b.block_id.parts_header->0.hash@,
        a.timestamp == b.timestamp,
{
    let ta = uint_field(2, vote_type_raw(a.vote_type));
    let ha = sint64_field(3, a.height);
    let ra = sint64_field(4, a.round);
    let ba = block_id_field(5, a.block_id);
    let wa = time_field(6, a.timestamp);
    let tb = uint_field(2, vote_type_raw(b.vote_type));
    let hb = sint64_field(3, b.height);
    let rb = sint64_field(4, b.round);
    let bb = block_id_field(5, b.block_id);
    let wb = time_field(6, b.timestamp);
    assert(vote_canonical(a) =~= bytes_field(1, a.chain_id@) + (ta + (ha + (ra + (ba + wa)))));
    assert(vote_canonical(b) =~= bytes_field(1, b.chain_id@) + (tb + (hb + (rb + (bb + wb)))));
    crate::unambiguity::lemma_bytes_field_prefix_free(
        1,
        a.chain_id@,
        ta + (ha + (ra + (ba + wa))),
        b.chain_id@,
        tb + (hb + (rb + (bb + wb))),
    );
    crate::unambiguity::lemma_uint_field_prefix_free(
        2,
        vote_type_raw(a.vote_type),
        ha + (ra + (ba + wa)),
        vote_type_raw(b.vote_type),
        hb + (rb + (bb + wb)),
    );
    crate::unambiguity::lemma_sint64_field_prefix_free(
        3,
        a.height,
        ra + (ba + wa),
        b.height,
        rb + (bb + wb),
    );
    crate::unambiguity::lemma_sint64_field_prefix_free(4, a.round, ba + wa, b.round, bb + wb);
    crate::unambiguity::lemma_block_id_then_time_inj(
        5,
        6,
        a.block_id,
        a.timestamp,
        b.block_id,
        b.timestamp,
    );
}

/// A nil vote — one whose block identifier is empty — never shares its
/// canonical bytes with a vote that names a block, whatever every other
/// field of either vote holds. The length bounds only state that the byte
/// fields could exist in memory.
#[verifier::rlimit(100)]
#[verifier::spinoff_prover]
pub proof fn lemma_nil_vote_bytes_distinct(a: SignVoteMsg, b: SignVoteMsg)
    requires
        a.block_id.is_empty(),
        b.block_id.hash@.len() > 0,
        b.block_id.hash@.len() <= u64::MAX,
        a.chain_id@.len() <= u64::MAX,
        b.chain_id@.len() <= u64::MAX,
    ensures
        a.canonical_bytes() != b.canonical_bytes(),
{
    let ta = uint_field(2, vote_type_raw(a.vote_type));
    let ha = sint64_field(3, a.height);
    let ra = sint64_field(4, a.round);
    let ba = block_id_field(5, a.block_id);
    let wa = time_field(6, a.timestamp);
    let tb = uint_field(2, vote_type_raw(b.vote_type));
    let hb = sint64_field(3, b.height);
    let rb = sint64_field(4, b.round);
    let bb = block_id_field(5, b.block_id);
    let wb = time_field(6, b.timestamp);
    let body_a = crate::types::block_id_body(a.block_id);
    let body_b = crate::types::block_id_body(b.block_id);
    assert_by_contradiction!(a.canonical_bytes() != b.canonical_bytes(), {
        assert(vote_canonical(a) =~= bytes_field(1, a.chain_id@) + (ta + (ha + (ra + (ba + wa)))));
        assert(vote_canonical(b) =~= bytes_field(1, b.chain_id@) + (tb + (hb + (rb + (bb + wb)))));
        crate::unambiguity::lemma_bytes_field_prefix_free(
            1,
            a.chain_id@,
            ta + (ha + (ra + (ba + wa))),
            b.chain_id@,
            tb + (hb + (rb + (bb + wb))),
        );
        crate::unambiguity::lemma_uint_field_prefix_free(
            2,
            vote_type_raw(a.vote_type),
            ha + (ra + (ba + wa)),
            vote_type_raw(b.vote_type),
            hb + (rb + (bb + wb)),
        );
        crate::unambiguity::lemma_sint64_field_prefix_free(
            3,
            a.height,
            ra + (ba + wa),
            b.height,
            rb + (bb + wb),
        );
        crate::unambiguity::lemma_sint64_field_prefix_free(4, a.round, ba + wa, b.round, bb + wb);
        // Both streams now start with the block identifier field: strip its
        // key, then the one varint that prefixes each body.
        let k = crate::encode::key_bytes(5, 2);
        assert(ba + wa =~= k + (crate::encode::len_prefixed(body_a) + wa));
        assert(bb + wb =~= k + (crate::encode::len_prefixed(body_b) + wb));
        crate::unambiguity::lemma_cancel_prefix(
            k,
            crate::encode::len_prefixed(body_a) + wa,
            k,
            crate::encode::len_prefixed(body_b) + wb,
        );
        assert(crate::encode::len_prefixed(body_a) + wa =~= crate::encode::varint_bytes(
            body_a.len() as u64,
        ) + (body_a + wa));
        assert(crate::encode::len_prefixed(body_b) + wb =~= crate::encode::varint_bytes(
            body_b.len() as u64,
        ) + (body_b + wb));
        crate::unambiguity::lemma_varint_prefix_free(
            body_a.len() as u64,
            body_a + wa,
            body_b.len() as u64,
            body_b + wb,
        );
        // The empty block identifier's body is exactly two bytes, the second
        // a zero; a named block's body carries the hash's nonzero length
        // varint there.
        assert(crate::encode::key_bytes(1, 2) =~= seq![10u8]);
        assert(crate::encode::varint_bytes(0) =~= seq![0u8]);
        assert(body_a =~= seq![10u8, 0u8]);
        let lh: u64 = b.block_id.hash@.len() as u64;
        let pb = match b.block_id.parts_header {
            Some(p) => bytes_field(2, crate::types::parts_set_header_body(p)),
            None => Seq::<u8>::empty(),
        };
        assert(body_b =~= seq![10u8] + (crate::encode::varint_bytes(lh) + (b.block_id.hash@
            + pb)));
        crate::encode::lemma_varint_bytes_len(lh);
        assert(body_b[1] == crate::encode::varint_bytes(lh)[0]);
        assert(crate::encode::varint_bytes(lh)[0] != 0u8);
        assert((body_a + wa)[1] == 0u8);
        assert((body_b + wb)[1] == body_b[1]);
        assert(false);
    });
}

} // verus!
