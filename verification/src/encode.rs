//! Wire primitives for the canonical encoding: LEB128 varints, zigzag
//! integers, little-endian fixed-width integers, and field-tagged pieces.

use vstd::prelude::*;

verus! {

/// LEB128 encoding of `n`: seven bits per byte, least significant first,
/// high bit set on every byte but the last.
pub open spec fn varint_bytes(n: u64) -> Seq<u8>
    decreases n,
{
    if n < 128 {
        seq![n as u8]
    } else {
        seq![(n % 128 + 128) as u8] + varint_bytes((n / 128) as u64)
    }
}

/// Zigzag mapping of a signed value onto an unsigned one: non-negative `n`
/// becomes `2n`, negative `n` becomes `-2n - 1`.
pub open spec fn zigzag(n: i64) -> u64 {
    if n >= 0 {
        (2 * n) as u64
    } else {
        (-2 * n - 1) as u64
    }
}

/// The two's-complement image of a signed 64-bit value in an unsigned one.
pub open spec fn to_u64_twos(n: i64) -> u64 {
    if n >= 0 {
        n as u64
    } else {
        (n + 0x1_0000_0000_0000_0000) as u64
    }
}

/// The two's-complement image of a signed 32-bit value in an unsigned one.
pub open spec fn to_u32_twos(n: i32) -> u32 {
    if n >= 0 {
        n as u32
    } else {
        (n + 0x1_0000_0000) as u32
    }
}

/// The `k` low-order bytes of `v`, least significant first.
pub open spec fn le_bytes(v: u64, k: nat) -> Seq<u8>
    decreases k,
{
    if k == 0 {
        Seq::empty()
    } else {
        seq![(v % 256) as u8] + le_bytes((v / 256) as u64, (k - 1) as nat)
    }
}

/// A signed 64-bit value as eight little-endian two's-complement bytes.
pub open spec fn sfixed64_bytes(n: i64) -> Seq<u8> {
    le_bytes(to_u64_twos(n), 8)
}

/// A signed 32-bit value as four little-endian two's-complement bytes.
pub open spec fn sfixed32_bytes(n: i32) -> Seq<u8> {
    le_bytes(to_u32_twos(n) as u64, 4)
}

/// A field key: the field number and the wire type packed into one varint.
pub open spec fn key_bytes(field: u64, wire: u64) -> Seq<u8> {
    varint_bytes((field * 8 + wire) as u64)
}

/// A length-delimited payload: its byte count as a varint, then the bytes.
pub open spec fn len_prefixed(data: Seq<u8>) -> Seq<u8> {
    varint_bytes(data.len() as u64) + data
}

/// A length-delimited field: key (wire type 2), length, payload.
pub open spec fn bytes_field(field: u64, data: Seq<u8>) -> Seq<u8> {
    key_bytes(field, 2) + len_prefixed(data)
}

/// A zigzag-varint field: key (wire type 0), then `zigzag(n)` as a varint.
pub open spec fn sint64_field(field: u64, n: i64) -> Seq<u8> {
    key_bytes(field, 0) + varint_bytes(zigzag(n))
}

/// An unsigned varint field: key (wire type 0), then `n` as a varint.
pub open spec fn uint_field(field: u64, n: u64) -> Seq<u8> {
    key_bytes(field, 0) + varint_bytes(n)
}

/// An eight-byte fixed-width field: key (wire type 1), then the bytes.
pub open spec fn sfixed64_field(field: u64, n: i64) -> Seq<u8> {
    key_bytes(field, 1) + sfixed64_bytes(n)
}

/// A four-byte fixed-width field: key (wire type 5), then the bytes.
pub open spec fn sfixed32_field(field: u64, n: i32) -> Seq<u8> {
    key_bytes(field, 5) + sfixed32_bytes(n)
}

/// The largest field number the exec encoders accept; far beyond any field
/// this crate uses, and small enough that the packed key fits a `u64`.
pub const MAX_FIELD_NUMBER: u64 = 0xFFFF_FFFF;

/// A varint is never empty.
pub proof fn lemma_varint_bytes_len(n: u64)
    ensures
        varint_bytes(n).len() >= 1,
{
}

/// Appends the LEB128 encoding of `n` to `out`.
pub fn encode_varint(out: &mut Vec<u8>, n: u64)
    ensures
        final(out)@ == old(out)@ + varint_bytes(n),
{
    let mut x: u64 = n;
    while x >= 128
        invariant
            out@ + varint_bytes(x) == old(out)@ + varint_bytes(n),
        decreases x,
    {
        let ghost out0 = out@;
        let ghost x0 = x;
        let b: u8 = ((x % 128) + 128) as u8;
        out.push(b);
        x = x / 128;
        proof {
            assert(varint_bytes(x0) == seq![b] + varint_bytes(x));
            assert(out@ + varint_bytes(x) =~= out0 + varint_bytes(x0));
        }
    }
    let ghost out1 = out@;
    out.push(x as u8);
    proof {
        assert(varint_bytes(x) == seq![x as u8]);
        assert(out@ =~= out1 + varint_bytes(x));
    }
}

/// Appends the LEB128 encoding of `zigzag(n)` to `out`.
pub fn encode_zigzag_varint(out: &mut Vec<u8>, n: i64)
    ensures
        final(out)@ == old(out)@ + varint_bytes(zigzag(n)),
{
    let z: u64 = if n >= 0 {
        (n as u64) * 2
    } else {
        let m: u64 = (-(n + 1)) as u64;
        m * 2 + 1
    };
    assert(z == zigzag(n));
    encode_varint(out, z);
}

/// The two's-complement image of `n`, computed without a truncating cast.
pub fn to_u64_twos_exec(n: i64) -> (r: u64)
    ensures
        r == to_u64_twos(n),
{
    if n >= 0 {
        n as u64
    } else {
        let m: u64 = (-(n + 1)) as u64;
        u64::MAX - m
    }
}

/// The two's-complement image of `n`, computed without a truncating cast.
pub fn to_u32_twos_exec(n: i32) -> (r: u32)
    ensures
        r == to_u32_twos(n),
{
    if n >= 0 {
        n as u32
    } else {
        let m: u32 = (-(n + 1)) as u32;
        u32::MAX - m
    }
}

/// Appends the `k` low-order bytes of `v` to `out`, least significant first.
pub fn encode_le_bytes(out: &mut Vec<u8>, v: u64, k: usize)
    ensures
        final(out)@ == old(out)@ + le_bytes(v, k as nat),
{
    let mut x: u64 = v;
    let mut left: usize = k;
    while left > 0
        invariant
            out@ + le_bytes(x, left as nat) == old(out)@ + le_bytes(v, k as nat),
        decreases left,
    {
        let ghost out0 = out@;
        let ghost x0 = x;
        let ghost left0 = left;
        out.push((x % 256) as u8);
        x = x / 256;
        left = left - 1;
        proof {
            assert(le_bytes(x0, left0 as nat) == seq![(x0 % 256) as u8] + le_bytes(x, left as nat));
            assert(out@ + le_bytes(x, left as nat) =~= out0 + le_bytes(x0, left0 as nat));
        }
    }
    proof {
        assert(le_bytes(x, 0) == Seq::<u8>::empty());
        assert(out@ =~= out@ + le_bytes(x, 0));
    }
}

/// Appends a field key to `out`.
pub fn encode_key(out: &mut Vec<u8>, field: u64, wire: u64)
    requires
        field <= MAX_FIELD_NUMBER,
        wire < 8,
    ensures
        final(out)@ == old(out)@ + key_bytes(field, wire),
{
    encode_varint(out, field * 8 + wire);
}

/// Appends an unsigned varint field to `out`.
pub fn encode_uint_field(out: &mut Vec<u8>, field: u64, n: u64)
    requires
        field <= MAX_FIELD_NUMBER,
    ensures
        final(out)@ == old(out)@ + uint_field(field, n),
{
    encode_key(out, field, 0);
    encode_varint(out, n);
    proof {
        assert(out@ =~= old(out)@ + uint_field(field, n));
    }
}

/// Appends a zigzag-varint field to `out`.
pub fn encode_sint64_field(out: &mut Vec<u8>, field: u64, n: i64)
    requires
        field <= MAX_FIELD_NUMBER,
    ensures
        final(out)@ == old(out)@ + sint64_field(field, n),
{
    encode_key(out, field, 0);
    encode_zigzag_varint(out, n);
    proof {
        assert(out@ =~= old(out)@ + sint64_field(field, n));
    }
}

/// Appends a length-delimited field to `out`.
pub fn encode_bytes_field(out: &mut Vec<u8>, field: u64, data: &Vec<u8>)
    requires
        field <= MAX_FIELD_NUMBER,
    ensures
        final(out)@ == old(out)@ + bytes_field(field, data@),
{
    encode_key(out, field, 2);
    encode_varint(out, data.len() as u64);
    let mut i: usize = 0;
    while i < data.len()
        invariant
            i <= data.len(),
            out@ == old(out)@ + key_bytes(field, 2) + varint_bytes(data@.len() as u64)
                + data@.take(i as int),
        decreases data.len() - i,
    {
        out.push(data[i]);
        i = i + 1;
        proof {
            assert(data@.take(i as int) =~= data@.take(i - 1) + seq![data@[i - 1]]);
            assert(out@ =~= old(out)@ + key_bytes(field, 2) + varint_bytes(data@.len() as u64)
                + data@.take(i as int));
        }
    }
    proof {
        assert(data@.take(data@.len() as int) =~= data@);
        assert(out@ =~= old(out)@ + bytes_field(field, data@));
    }
}

/// Appends an eight-byte fixed-width field to `out`.
pub fn encode_sfixed64_field(out: &mut Vec<u8>, field: u64, n: i64)
    requires
        field <= MAX_FIELD_NUMBER,
    ensures
        final(out)@ == old(out)@ + sfixed64_field(field, n),
{
    encode_key(out, field, 1);
    encode_le_bytes(out, to_u64_twos_exec(n), 8);
    proof {
        assert(out@ =~= old(out)@ + sfixed64_field(field, n));
    }
}

/// Appends a four-byte fixed-width field to `out`.
pub fn encode_sfixed32_field(out: &mut Vec<u8>, field: u64, n: i32)
    requires
        field <= MAX_FIELD_NUMBER,
    ensures
        final(out)@ == old(out)@ + sfixed32_field(field, n),
{
    encode_key(out, field, 5);
    encode_le_bytes(out, to_u32_twos_exec(n) as u64, 4);
    proof {
        assert(out@ =~= old(out)@ + sfixed32_field(field, n));
    }
}

/// Copies a byte vector; the verified stand-in for `Vec::clone`.
pub fn copy_bytes(data: &Vec<u8>) -> (r: Vec<u8>)
    ensures
        r@ == data@,
{
    let mut r: Vec<u8> = Vec::new();
    let mut i: usize = 0;
    while i < data.len()
        invariant
            i <= data.len(),
            r@ == data@.take(i as int),
        decreases data.len() - i,
    {
        r.push(data[i]);
        i = i + 1;
        proof {
            assert(data@.take(i as int) =~= data@.take(i - 1) + seq![data@[i - 1]]);
            assert(r@ =~= data@.take(i as int));
        }
    }
    proof {
        assert(data@.take(data@.len() as int) =~= data@);
    }
    r
}

} // verus!
