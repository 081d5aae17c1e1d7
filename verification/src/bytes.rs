use vstd::prelude::*;
use vstd::slice::slice_subrange;
use crate::error::DecodeError;

verus! {

/// The big-endian 32-bit value held in the first four bytes of `s`.
pub open spec fn be32(s: Seq<u8>) -> u32
    recommends
        s.len() >= 4,
{
    ((s[0] as u32) << 24) | ((s[1] as u32) << 16) | ((s[2] as u32) << 8) | (s[3] as u32)
}

/// The big-endian 64-bit value held in the first eight bytes of `s`.
pub open spec fn be64(s: Seq<u8>) -> u64
    recommends
        s.len() >= 8,
{
    ((s[0] as u64) << 56) | ((s[1] as u64) << 48) | ((s[2] as u64) << 40) | ((s[3] as u64)
        << 32) | ((s[4] as u64) << 24) | ((s[5] as u64) << 16) | ((s[6] as u64) << 8) | (
    s[7] as u64)
}

/// The four-byte big-endian encoding of `v`.
pub open spec fn be32_bytes(v: u32) -> Seq<u8> {
    seq![
        (v >> 24) as u8,
        ((v >> 16) & 0xff) as u8,
        ((v >> 8) & 0xff) as u8,
        (v & 0xff) as u8,
    ]
}

/// Reading back the four-byte encoding of `v` yields `v` again.
pub proof fn lemma_be32_bytes_roundtrip(v: u32)
    ensures
        be32_bytes(v).len() == 4,
        be32(be32_bytes(v)) == v,
{
    assert((((((v >> 24) as u8) as u32) << 24) | (((((v >> 16) & 0xff) as u8) as u32) << 16) | ((((
    (v >> 8) & 0xff) as u8) as u32) << 8) | (((v & 0xff) as u8) as u32)) == v) by (bit_vector);
}

/// How many alignment filler bytes follow a variable-length field of `len`
/// bytes so that the next field starts on a four-byte boundary.
pub open spec fn pad_len(len: nat) -> nat {
    if len % 4 == 0 {
        0
    } else {
        (4 - len % 4) as nat
    }
}

/// Reads a four-byte big-endian integer from the front of `i`.
pub fn read_be_u32<'a>(i: &'a [u8]) -> (r: Result<(u32, &'a [u8]), DecodeError>)
    ensures
        i@.len() >= 4 ==> (r matches Ok((v, rest)) && v == be32(i@) && rest@ == i@.skip(4)),
        i@.len() < 4 ==> (r matches Err(e) && e == DecodeError::Incomplete),
{
    if i.len() < 4 {
        Err(DecodeError::Incomplete)
    } else {
        let v = ((i[0] as u32) << 24) | ((i[1] as u32) << 16) | ((i[2] as u32) << 8) | (
        i[3] as u32);
        let rest = slice_subrange(i, 4, i.len());
        proof {
            assert(rest@ =~= i@.skip(4));
        }
        Ok((v, rest))
    }
}

/// Reads an eight-byte big-endian integer from the front of `i`.
pub fn read_be_u64<'a>(i: &'a [u8]) -> (r: Result<(u64, &'a [u8]), DecodeError>)
    ensures
        i@.len() >= 8 ==> (r matches Ok((v, rest)) && v == be64(i@) && rest@ == i@.skip(8)),
        i@.len() < 8 ==> (r matches Err(e) && e == DecodeError::Incomplete),
{
    if i.len() < 8 {
        Err(DecodeError::Incomplete)
    } else {
        let v = ((i[0] as u64) << 56) | ((i[1] as u64) << 48) | ((i[2] as u64) << 40) | ((
        i[3] as u64) << 32) | ((i[4] as u64) << 24) | ((i[5] as u64) << 16) | ((i[6] as u64)
            << 8) | (i[7] as u64);
        let rest = slice_subrange(i, 8, i.len());
        proof {
            assert(rest@ =~= i@.skip(8));
        }
        Ok((v, rest))
    }
}

/// Splits `i` into its first `n` bytes and everything after them, when `i` is
/// long enough.
pub fn take_span<'a>(i: &'a [u8], n: usize) -> (r: Option<(&'a [u8], &'a [u8])>)
    ensures
        n <= i@.len() ==> (r matches Some((a, b)) && a@ == i@.take(n as int) && b@ == i@.skip(
            n as int,
        )),
        n > i@.len() ==> r is None,
{
    if n <= i.len() {
        let a = slice_subrange(i, 0, n);
        let b = slice_subrange(i, n, i.len());
        proof {
            assert(a@ =~= i@.take(n as int));
            assert(b@ =~= i@.skip(n as int));
        }
        Some((a, b))
    } else {
        None
    }
}

/// Hands back the whole of `i` as a borrowed blob together with the empty
/// remainder that follows it: the "take the rest" step that ends decoders
/// whose trailing bytes are kept or discarded uninterpreted.
pub fn rest_span<'a>(i: &'a [u8]) -> (r: (&'a [u8], &'a [u8]))
    ensures
        r.0@ == i@,
        r.1@ == i@.skip(i@.len() as int),
        r.1@.len() == 0,
{
    let empty = slice_subrange(i, i.len(), i.len());
    proof {
        assert(empty@ =~= i@.skip(i@.len() as int));
    }
    (i, empty)
}

} // verus!
