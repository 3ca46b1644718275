//! The shared consensus data shapes: wire timestamps and block identifiers,
//! with their canonical byte forms.

use vstd::prelude::*;

use crate::encode::{
    bytes_field, encode_bytes_field, encode_sfixed32_field, encode_sfixed64_field,
    encode_sint64_field, sfixed32_field, sfixed64_field, sint64_field,
};

verus! {

/// A wire timestamp: seconds since the Unix epoch and a nanosecond part,
/// independently fielded and independently signed.
#[derive(Clone, Copy, Debug, PartialEq, Eq, Structural)]
pub struct Time {
    pub seconds: i64,
    pub nanos: i32,
}

/// The instant a `Time` denotes, as nanoseconds relative to the epoch.
///
/// The two components carry their signs independently: for non-negative
/// `seconds` the instant is epoch + seconds + nanos, while for negative
/// `seconds` it is epoch - |seconds| - nanos, the nanosecond part being
/// subtracted as well. This asymmetric negation is the wire convention and
/// is kept exactly, even where a combined signed-nanosecond reading would
/// differ.
pub open spec fn epoch_offset_nanos(t: Time) -> int {
    if t.seconds >= 0 {
        t.seconds * 1_000_000_000 + t.nanos
    } else {
        t.seconds * 1_000_000_000 - t.nanos
    }
}

/// The canonical body of a `Time`: seconds as an eight-byte fixed field,
/// nanos as a four-byte fixed field.
pub open spec fn time_body(t: Time) -> Seq<u8> {
    sfixed64_field(1, t.seconds) + sfixed32_field(2, t.nanos)
}

/// A `Time` as a length-delimited field of an enclosing message.
pub open spec fn time_field(field: u64, t: Time) -> Seq<u8> {
    bytes_field(field, time_body(t))
}

impl Time {
    /// The absolute instant this timestamp denotes, as a signed count of
    /// nanoseconds from the epoch, following the independent-sign wire
    /// convention of `epoch_offset_nanos`.
    pub fn to_epoch_offset_nanos(&self) -> (r: i128)
        ensures
            r == epoch_offset_nanos(*self),
    {
        let s: i128 = self.seconds as i128;
        let n: i128 = self.nanos as i128;
        if self.seconds >= 0 {
            s * 1_000_000_000 + n
        } else {
            s * 1_000_000_000 - n
        }
    }

    /// Whether this timestamp denotes a strictly earlier instant than
    /// `other`, under the same independent-sign reading.
    pub fn is_before(&self, other: &Time) -> (r: bool)
        ensures
            r == (epoch_offset_nanos(*self) < epoch_offset_nanos(*other)),
    {
        self.to_epoch_offset_nanos() < other.to_epoch_offset_nanos()
    }
}

/// The count and combined hash of the parts a block was split into.
#[derive(Clone, Debug, PartialEq, Eq)]
pub struct PartsSetHeader {
    pub total: i64,
    pub hash: Vec<u8>,
}

/// The canonical body of a `PartsSetHeader`: the count as a zigzag varint
/// field, then the hash as a length-delimited field.
pub open spec fn parts_set_header_body(p: PartsSetHeader) -> Seq<u8> {
    sint64_field(1, p.total) + bytes_field(2, p.hash@)
}

/// A block identifier: the block's content hash and, if the block was split
/// into parts, their header.
#[derive(Clone, Debug, PartialEq, Eq)]
pub struct BlockID {
    pub hash: Vec<u8>,
    pub parts_header: Option<PartsSetHeader>,
}

impl BlockID {
    /// No block is named: the hash is empty and no parts header is present.
    pub open spec fn is_empty(self) -> bool {
        self.hash@.len() == 0 && self.parts_header is None
    }

    /// A parts header may only accompany a non-empty hash.
    pub open spec fn wf(self) -> bool {
        self.parts_header is Some ==> self.hash@.len() > 0
    }
}

/// The canonical body of a `BlockID`: the hash as a length-delimited field,
/// then, only if present, the parts header as an embedded message.
pub open spec fn block_id_body(b: BlockID) -> Seq<u8> {
    bytes_field(1, b.hash@) + match b.parts_header {
        Some(p) => bytes_field(2, parts_set_header_body(p)),
        None => Seq::<u8>::empty(),
    }
}

/// A `BlockID` as a length-delimited field of an enclosing message.
pub open spec fn block_id_field(field: u64, b: BlockID) -> Seq<u8> {
    bytes_field(field, block_id_body(b))
}

/// Appends the canonical `Time` field to `out`.
pub fn encode_time_field(out: &mut Vec<u8>, field: u64, t: &Time)
    requires
        field <= crate::encode::MAX_FIELD_NUMBER,
    ensures
        final(out)@ == old(out)@ + time_field(field, *t),
{
    let mut body: Vec<u8> = Vec::new();
    encode_sfixed64_field(&mut body, 1, t.seconds);
    encode_sfixed32_field(&mut body, 2, t.nanos);
    proof {
        assert(body@ =~= time_body(*t));
    }
    encode_bytes_field(out, field, &body);
}

/// Appends the canonical `PartsSetHeader` field to `out`.
pub fn encode_parts_set_header_field(out: &mut Vec<u8>, field: u64, p: &PartsSetHeader)
    requires
        field <= crate::encode::MAX_FIELD_NUMBER,
    ensures
        final(out)@ == old(out)@ + bytes_field(field, parts_set_header_body(*p)),
{
    let mut body: Vec<u8> = Vec::new();
    encode_sint64_field(&mut body, 1, p.total);
    encode_bytes_field(&mut body, 2, &p.hash);
    proof {
        assert(body@ =~= parts_set_header_body(*p));
    }
    encode_bytes_field(out, field, &body);
}

/// Appends the canonical `BlockID` field to `out`.
pub fn encode_block_id_field(out: &mut Vec<u8>, field: u64, b: &BlockID)
    requires
        field <= crate::encode::MAX_FIELD_NUMBER,
    ensures
        final(out)@ == old(out)@ + block_id_field(field, *b),
{
    let mut body: Vec<u8> = Vec::new();
    encode_bytes_field(&mut body, 1, &b.hash);
    match &b.parts_header {
        Some(p) => {
            encode_parts_set_header_field(&mut body, 2, p);
        },
        None => {},
    }
    proof {
        assert(body@ =~= block_id_body(*b));
    }
    encode_bytes_field(out, field, &body);
}

} // verus!
