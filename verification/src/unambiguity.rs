//! The canonical encoding is a prefix code: no encoded field is a proper
//! prefix of another field's encoding, so equal canonical byte sequences
//! force the underlying fields to agree. These lemmas walk an equality of
//! two encoded streams field by field.

use vstd::prelude::*;

use crate::encode::{
    bytes_field, key_bytes, le_bytes, lemma_varint_bytes_len, len_prefixed, sfixed32_field,
    sfixed64_field, sint64_field, to_u32_twos, to_u64_twos, uint_field, varint_bytes, zigzag,
    MAX_FIELD_NUMBER,
};
use crate::types::{block_id_body, block_id_field, parts_set_header_body, time_body, time_field,
    BlockID, Time};

verus! {

/// Powers of 256: the number of values `k` little-endian bytes can carry.
pub open spec fn pow256(k: nat) -> int
    decreases k,
{
    if k == 0 {
        1
    } else {
        256 * pow256((k - 1) as nat)
    }
}

/// Two equal concatenations with equally long heads agree head for head
/// and tail for tail.
pub proof fn lemma_cancel_prefix(a1: Seq<u8>, r1: Seq<u8>, a2: Seq<u8>, r2: Seq<u8>)
    requires
        a1.len() == a2.len(),
        a1 + r1 == a2 + r2,
    ensures
        a1 == a2,
        r1 == r2,
{
    assert forall|i: int| 0 <= i < a1.len() implies a1[i] == a2[i] by {
        assert((a1 + r1)[i] == a1[i]);
        assert((a2 + r2)[i] == a2[i]);
    }
    assert(a1 =~= a2);
    assert((a1 + r1).len() == a1.len() + r1.len());
    assert((a2 + r2).len() == a2.len() + r2.len());
    assert(r1.len() == r2.len());
    assert forall|i: int| 0 <= i < r1.len() implies r1[i] == r2[i] by {
        assert((a1 + r1)[a1.len() + i] == r1[i]);
        assert((a2 + r2)[a2.len() + i] == r2[i]);
    }
    assert(r1 =~= r2);
}

/// A varint can be read off the front of a stream in only one way.
pub proof fn lemma_varint_prefix_free(n1: u64, r1: Seq<u8>, n2: u64, r2: Seq<u8>)
    requires
        varint_bytes(n1) + r1 == varint_bytes(n2) + r2,
    ensures
        n1 == n2,
        r1 == r2,
    decreases n1,
{
    let v1 = varint_bytes(n1);
    let v2 = varint_bytes(n2);
    assert((v1 + r1)[0] == v1[0]);
    assert((v2 + r2)[0] == v2[0]);
    if n1 < 128 && n2 < 128 {
        assert(v1[0] == n1 as u8 && v2[0] == n2 as u8);
        lemma_cancel_prefix(v1, r1, v2, r2);
    } else if n1 < 128 || n2 < 128 {
        // One head byte is below 128, the other carries the continuation
        // bit: the streams cannot be equal.
        assert(false);
    } else {
        assert(v1[0] == (n1 % 128 + 128) as u8 && v2[0] == (n2 % 128 + 128) as u8);
        assert(n1 % 128 == n2 % 128);
        let w1 = varint_bytes((n1 / 128) as u64);
        let w2 = varint_bytes((n2 / 128) as u64);
        let b = v1[0];
        assert(v1 == seq![b] + w1 && v2 == seq![b] + w2);
        assert(v1 + r1 =~= seq![b] + (w1 + r1));
        assert(v2 + r2 =~= seq![b] + (w2 + r2));
        lemma_cancel_prefix(seq![b], w1 + r1, seq![b], w2 + r2);
        lemma_varint_prefix_free((n1 / 128) as u64, r1, (n2 / 128) as u64, r2);
        assert(n1 == 128 * (n1 / 128) + n1 % 128);
        assert(n2 == 128 * (n2 / 128) + n2 % 128);
    }
}

/// A length-prefixed payload can be read off the front of a stream in only
/// one way.
pub proof fn lemma_len_prefixed_prefix_free(d1: Seq<u8>, r1: Seq<u8>, d2: Seq<u8>, r2: Seq<u8>)
    requires
        d1.len() <= u64::MAX,
        d2.len() <= u64::MAX,
        len_prefixed(d1) + r1 == len_prefixed(d2) + r2,
    ensures
        d1 == d2,
        r1 == r2,
{
    let l1 = d1.len() as u64;
    let l2 = d2.len() as u64;
    assert(len_prefixed(d1) + r1 =~= varint_bytes(l1) + (d1 + r1));
    assert(len_prefixed(d2) + r2 =~= varint_bytes(l2) + (d2 + r2));
    lemma_varint_prefix_free(l1, d1 + r1, l2, d2 + r2);
    lemma_cancel_prefix(d1, r1, d2, r2);
}

/// A length-delimited field with a given field number can be read off the
/// front of a stream in only one way.
pub proof fn lemma_bytes_field_prefix_free(
    field: u64,
    d1: Seq<u8>,
    r1: Seq<u8>,
    d2: Seq<u8>,
    r2: Seq<u8>,
)
    requires
        d1.len() <= u64::MAX,
        d2.len() <= u64::MAX,
        bytes_field(field, d1) + r1 == bytes_field(field, d2) + r2,
    ensures
        d1 == d2,
        r1 == r2,
{
    let k = key_bytes(field, 2);
    assert(bytes_field(field, d1) + r1 =~= k + (len_prefixed(d1) + r1));
    assert(bytes_field(field, d2) + r2 =~= k + (len_prefixed(d2) + r2));
    lemma_cancel_prefix(k, len_prefixed(d1) + r1, k, len_prefixed(d2) + r2);
    lemma_len_prefixed_prefix_free(d1, r1, d2, r2);
}

/// An unsigned varint field with a given field number can be read off the
/// front of a stream in only one way.
pub proof fn lemma_uint_field_prefix_free(field: u64, n1: u64, r1: Seq<u8>, n2: u64, r2: Seq<u8>)
    requires
        uint_field(field, n1) + r1 == uint_field(field, n2) + r2,
    ensures
        n1 == n2,
        r1 == r2,
{
    let k = key_bytes(field, 0);
    assert(uint_field(field, n1) + r1 =~= k + (varint_bytes(n1) + r1));
    assert(uint_field(field, n2) + r2 =~= k + (varint_bytes(n2) + r2));
    lemma_cancel_prefix(k, varint_bytes(n1) + r1, k, varint_bytes(n2) + r2);
    lemma_varint_prefix_free(n1, r1, n2, r2);
}

/// The byte-count capacities the fixed-width fields rely on.
pub proof fn lemma_pow256_values()
    ensures
        pow256(4) == 0x1_0000_0000,
        pow256(8) == 0x1_0000_0000_0000_0000,
{
    assert(pow256(0) == 1);
    assert(pow256(1) == 256);
    assert(pow256(2) == 0x1_0000);
    assert(pow256(3) == 0x100_0000);
    assert(pow256(4) == 0x1_0000_0000);
    assert(pow256(5) == 0x100_0000_0000);
    assert(pow256(6) == 0x1_0000_0000_0000);
    assert(pow256(7) == 0x100_0000_0000_0000);
    assert(pow256(8) == 0x1_0000_0000_0000_0000);
}

/// A fixed-width encoding holds exactly as many bytes as asked for.
pub proof fn lemma_le_bytes_len(v: u64, k: nat)
    ensures
        le_bytes(v, k).len() == k,
    decreases k,
{
    if k > 0 {
        lemma_le_bytes_len((v / 256) as u64, (k - 1) as nat)
    }
}

/// `k` little-endian bytes determine a value below `pow256(k)` uniquely.
pub proof fn lemma_le_bytes_inj(v1: u64, v2: u64, k: nat)
    requires
        le_bytes(v1, k) == le_bytes(v2, k),
        v1 < pow256(k),
        v2 < pow256(k),
    ensures
        v1 == v2,
    decreases k,
{
    if k == 0 {
        assert(v1 == 0 && v2 == 0);
    } else {
        let t1 = le_bytes((v1 / 256) as u64, (k - 1) as nat);
        let t2 = le_bytes((v2 / 256) as u64, (k - 1) as nat);
        assert(le_bytes(v1, k)[0] == (v1 % 256) as u8);
        assert(le_bytes(v2, k)[0] == (v2 % 256) as u8);
        assert(v1 % 256 == v2 % 256);
        lemma_cancel_prefix(seq![(v1 % 256) as u8], t1, seq![(v2 % 256) as u8], t2);
        assert(v1 / 256 < pow256((k - 1) as nat));
        assert(v2 / 256 < pow256((k - 1) as nat));
        lemma_le_bytes_inj((v1 / 256) as u64, (v2 / 256) as u64, (k - 1) as nat);
        assert(v1 == 256 * (v1 / 256) + v1 % 256);
        assert(v2 == 256 * (v2 / 256) + v2 % 256);
    }
}

/// An eight-byte fixed-width field with a given field number can be read
/// off the front of a stream in only one way.
pub proof fn lemma_sfixed64_field_prefix_free(
    field: u64,
    n1: i64,
    r1: Seq<u8>,
    n2: i64,
    r2: Seq<u8>,
)
    requires
        sfixed64_field(field, n1) + r1 == sfixed64_field(field, n2) + r2,
    ensures
        n1 == n2,
        r1 == r2,
{
    let k = key_bytes(field, 1);
    let e1 = le_bytes(to_u64_twos(n1), 8);
    let e2 = le_bytes(to_u64_twos(n2), 8);
    assert(sfixed64_field(field, n1) + r1 =~= k + (e1 + r1));
    assert(sfixed64_field(field, n2) + r2 =~= k + (e2 + r2));
    lemma_cancel_prefix(k, e1 + r1, k, e2 + r2);
    lemma_le_bytes_len(to_u64_twos(n1), 8);
    lemma_le_bytes_len(to_u64_twos(n2), 8);
    lemma_cancel_prefix(e1, r1, e2, r2);
    lemma_pow256_values();
    lemma_le_bytes_inj(to_u64_twos(n1), to_u64_twos(n2), 8);
}

/// A four-byte fixed-width field with a given field number can be read off
/// the front of a stream in only one way.
pub proof fn lemma_sfixed32_field_prefix_free(
    field: u64,
    n1: i32,
    r1: Seq<u8>,
    n2: i32,
    r2: Seq<u8>,
)
    requires
        sfixed32_field(field, n1) + r1 == sfixed32_field(field, n2) + r2,
    ensures
        n1 == n2,
        r1 == r2,
{
    let k = key_bytes(field, 5);
    let e1 = le_bytes(to_u32_twos(n1) as u64, 4);
    let e2 = le_bytes(to_u32_twos(n2) as u64, 4);
    assert(sfixed32_field(field, n1) + r1 =~= k + (e1 + r1));
    assert(sfixed32_field(field, n2) + r2 =~= k + (e2 + r2));
    lemma_cancel_prefix(k, e1 + r1, k, e2 + r2);
    lemma_le_bytes_len(to_u32_twos(n1) as u64, 4);
    lemma_le_bytes_len(to_u32_twos(n2) as u64, 4);
    lemma_cancel_prefix(e1, r1, e2, r2);
    lemma_pow256_values();
    lemma_le_bytes_inj(to_u32_twos(n1) as u64, to_u32_twos(n2) as u64, 4);
}

/// A timestamp field with a given field number can be read off the front
/// of a stream in only one way.
pub proof fn lemma_time_field_prefix_free(field: u64, t1: Time, r1: Seq<u8>, t2: Time, r2: Seq<u8>)
    requires
        time_field(field, t1) + r1 == time_field(field, t2) + r2,
    ensures
        t1 == t2,
        r1 == r2,
{
    lemma_le_bytes_len(to_u64_twos(t1.seconds), 8);
    lemma_le_bytes_len(to_u64_twos(t2.seconds), 8);
    lemma_le_bytes_len(to_u32_twos(t1.nanos) as u64, 4);
    lemma_le_bytes_len(to_u32_twos(t2.nanos) as u64, 4);
    assert(key_bytes(1, 1) =~= seq![9u8]);
    assert(key_bytes(2, 5) =~= seq![21u8]);
    assert(time_body(t1).len() == 14);
    assert(time_body(t2).len() == 14);
    lemma_bytes_field_prefix_free(field, time_body(t1), r1, time_body(t2), r2);
    lemma_sfixed64_field_prefix_free(
        1,
        t1.seconds,
        sfixed32_field(2, t1.nanos),
        t2.seconds,
        sfixed32_field(2, t2.nanos),
    );
    assert(sfixed32_field(2, t1.nanos) + Seq::<u8>::empty() =~= sfixed32_field(2, t1.nanos));
    assert(sfixed32_field(2, t2.nanos) + Seq::<u8>::empty() =~= sfixed32_field(2, t2.nanos));
    lemma_sfixed32_field_prefix_free(2, t1.nanos, Seq::empty(), t2.nanos, Seq::empty());
}

/// A block identifier field followed by a timestamp field determines both:
/// equal byte tails force equal hashes, equal parts headers (present in
/// one exactly when present in the other) and equal timestamps. The
/// length bounds only state that the hash fields could exist in memory.
#[verifier::rlimit(100)]
#[verifier::spinoff_prover]
pub proof fn lemma_block_id_then_time_inj(
    bf: u64,
    tf: u64,
    b1: BlockID,
    t1: Time,
    b2: BlockID,
    t2: Time,
)
    requires
        tf != 2,
        tf <= MAX_FIELD_NUMBER,
        block_id_field(bf, b1) + time_field(tf, t1) == block_id_field(bf, b2) + time_field(
            tf,
            t2,
        ),
        b1.hash@.len() <= u64::MAX,
        b2.hash@.len() <= u64::MAX,
        b1.parts_header is Some ==> b1.parts_header->0.hash@.len() <= u64::MAX,
        b2.parts_header is Some ==> b2.parts_header->0.hash@.len() <= u64::MAX,
    ensures
        b1.hash@ == b2.hash@,
        b1.parts_header is Some <==> b2.parts_header is Some,
        b1.parts_header is Some ==> b1.parts_header->0.total == b2.parts_header->0.total
            && b1.parts_header->0.hash@ == b2.parts_header->0.hash@,
        t1 == t2,
{
    let w1 = time_field(tf, t1);
    let w2 = time_field(tf, t2);
    let body1 = block_id_body(b1);
    let body2 = block_id_body(b2);
    let k = key_bytes(bf, 2);
    assert(block_id_field(bf, b1) + w1 =~= k + (len_prefixed(body1) + w1));
    assert(block_id_field(bf, b2) + w2 =~= k + (len_prefixed(body2) + w2));
    lemma_cancel_prefix(k, len_prefixed(body1) + w1, k, len_prefixed(body2) + w2);
    assert(len_prefixed(body1) + w1 =~= varint_bytes(body1.len() as u64) + (body1 + w1));
    assert(len_prefixed(body2) + w2 =~= varint_bytes(body2.len() as u64) + (body2 + w2));
    lemma_varint_prefix_free(body1.len() as u64, body1 + w1, body2.len() as u64, body2 + w2);
    let seg1 = match b1.parts_header {
        Some(p) => bytes_field(2, parts_set_header_body(p)),
        None => Seq::<u8>::empty(),
    };
    let seg2 = match b2.parts_header {
        Some(p) => bytes_field(2, parts_set_header_body(p)),
        None => Seq::<u8>::empty(),
    };
    assert(body1 + w1 =~= bytes_field(1, b1.hash@) + (seg1 + w1));
    assert(body2 + w2 =~= bytes_field(1, b2.hash@) + (seg2 + w2));
    lemma_bytes_field_prefix_free(1, b1.hash@, seg1 + w1, b2.hash@, seg2 + w2);
    match (b1.parts_header, b2.parts_header) {
        (None, None) => {
            assert(seg1 + w1 =~= w1);
            assert(seg2 + w2 =~= w2);
            assert(w1 + Seq::<u8>::empty() =~= w1);
            assert(w2 + Seq::<u8>::empty() =~= w2);
            lemma_time_field_prefix_free(tf, t1, Seq::empty(), t2, Seq::empty());
        },
        (Some(p1), Some(p2)) => {
            let pb1 = parts_set_header_body(p1);
            let pb2 = parts_set_header_body(p2);
            let pk = key_bytes(2, 2);
            assert(seg1 + w1 =~= pk + (len_prefixed(pb1) + w1));
            assert(seg2 + w2 =~= pk + (len_prefixed(pb2) + w2));
            lemma_cancel_prefix(pk, len_prefixed(pb1) + w1, pk, len_prefixed(pb2) + w2);
            assert(len_prefixed(pb1) + w1 =~= varint_bytes(pb1.len() as u64) + (pb1 + w1));
            assert(len_prefixed(pb2) + w2 =~= varint_bytes(pb2.len() as u64) + (pb2 + w2));
            lemma_varint_prefix_free(pb1.len() as u64, pb1 + w1, pb2.len() as u64, pb2 + w2);
            assert(pb1 + w1 =~= sint64_field(1, p1.total) + (bytes_field(2, p1.hash@) + w1));
            assert(pb2 + w2 =~= sint64_field(1, p2.total) + (bytes_field(2, p2.hash@) + w2));
            lemma_sint64_field_prefix_free(
                1,
                p1.total,
                bytes_field(2, p1.hash@) + w1,
                p2.total,
                bytes_field(2, p2.hash@) + w2,
            );
            lemma_bytes_field_prefix_free(2, p1.hash@, w1, p2.hash@, w2);
            assert(w1 + Seq::<u8>::empty() =~= w1);
            assert(w2 + Seq::<u8>::empty() =~= w2);
            lemma_time_field_prefix_free(tf, t1, Seq::empty(), t2, Seq::empty());
        },
        (Some(p1), None) => {
            // The parts-header field and the timestamp field begin with
            // different keys, so this reading cannot happen.
            assert(seg2 + w2 =~= w2);
            let pb = parts_set_header_body(p1);
            assert(key_bytes(2, 2) =~= seq![18u8]);
            assert(seg1 + w1 =~= seq![18u8] + ((varint_bytes(pb.len() as u64) + pb) + w1));
            assert((seg1 + w1)[0] == 18u8);
            lemma_time_field_first_byte(tf, t2);
            assert(false);
        },
        (None, Some(p2)) => {
            assert(seg1 + w1 =~= w1);
            let pb = parts_set_header_body(p2);
            assert(key_bytes(2, 2) =~= seq![18u8]);
            assert(seg2 + w2 =~= seq![18u8] + ((varint_bytes(pb.len() as u64) + pb) + w2));
            assert((seg2 + w2)[0] == 18u8);
            lemma_time_field_first_byte(tf, t1);
            assert(false);
        },
    }
}

/// A timestamp field never begins with the parts-header key, as long as
/// its own field number is not the parts header's.
proof fn lemma_time_field_first_byte(tf: u64, t: Time)
    requires
        tf != 2,
        tf <= MAX_FIELD_NUMBER,
    ensures
        time_field(tf, t).len() >= 1,
        time_field(tf, t)[0] != 18u8,
{
    let kv: u64 = (tf * 8 + 2) as u64;
    lemma_varint_bytes_len(kv);
    assert(time_field(tf, t) =~= varint_bytes(kv) + len_prefixed(time_body(t)));
    assert(time_field(tf, t)[0] == varint_bytes(kv)[0]);
    if kv < 128 {
        assert(varint_bytes(kv)[0] == kv as u8);
    } else {
        assert(varint_bytes(kv)[0] == (kv % 128 + 128) as u8);
    }
}

/// A zigzag-varint field with a given field number can be read off the
/// front of a stream in only one way.
pub proof fn lemma_sint64_field_prefix_free(field: u64, n1: i64, r1: Seq<u8>, n2: i64, r2: Seq<u8>)
    requires
        sint64_field(field, n1) + r1 == sint64_field(field, n2) + r2,
    ensures
        n1 == n2,
        r1 == r2,
{
    let k = key_bytes(field, 0);
    assert(sint64_field(field, n1) + r1 =~= k + (varint_bytes(zigzag(n1)) + r1));
    assert(sint64_field(field, n2) + r2 =~= k + (varint_bytes(zigzag(n2)) + r2));
    lemma_cancel_prefix(k, varint_bytes(zigzag(n1)) + r1, k, varint_bytes(zigzag(n2)) + r2);
    lemma_varint_prefix_free(zigzag(n1), r1, zigzag(n2), r2);
    assert(n1 == n2);
}

} // verus!
