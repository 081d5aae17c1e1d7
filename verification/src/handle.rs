use vstd::prelude::*;
use crate::bytes::{be32, be32_bytes, lemma_be32_bytes_roundtrip, read_be_u32, take_span};
use crate::error::DecodeError;

verus! {

/// A length-prefixed opaque file handle: the server-assigned identifier that
/// nearly every other record carries. The body is a zero-copy view into the
/// input buffer.
#[derive(Debug, PartialEq)]
pub struct Nfs3Handle<'a> {
    pub len: u32,
    pub value: &'a [u8],
}

/// Mathematical image of a decoded handle.
#[verifier::ext_equal]
pub ghost struct Nfs3HandleView {
    pub len: u32,
    pub value: Seq<u8>,
}

impl View for Nfs3Handle<'_> {
    type V = Nfs3HandleView;

    open spec fn view(&self) -> Nfs3HandleView {
        Nfs3HandleView { len: self.len, value: self.value@ }
    }
}

/// A decoded handle is well formed: the body has exactly the declared length.
pub open spec fn handle_wf(h: Nfs3HandleView) -> bool {
    h.value.len() == h.len
}

/// Layout of a handle: a four-byte length, then exactly that many body bytes.
/// The result pairs the count of consumed bytes with the decoded handle.
/// A declared length reaching past the end of the buffer is `Malformed`; it
/// is never satisfied by under-reading.
pub open spec fn spec_parse_handle(s: Seq<u8>) -> Result<(nat, Nfs3HandleView), DecodeError> {
    if s.len() < 4 {
        Err(DecodeError::Incomplete)
    } else {
        let len = be32(s);
        if 4 + len > s.len() {
            Err(DecodeError::Malformed)
        } else {
            Ok(
                (
                    (4 + len) as nat,
                    Nfs3HandleView { len, value: s.subrange(4, 4 + len as int) },
                ),
            )
        }
    }
}

/// A successful handle decode consumes at least the length field, at most the
/// buffer, and yields a well-formed handle.
pub proof fn lemma_parse_handle_consumed(s: Seq<u8>)
    ensures
        spec_parse_handle(s) matches Ok((n, h)) ==> 4 <= n <= s.len() && handle_wf(h) && n == 4
            + h.len,
{
}

/// The wire form of a handle: four big-endian length bytes, then the body.
pub open spec fn encode_handle(h: Nfs3HandleView) -> Seq<u8> {
    be32_bytes(h.len) + h.value
}

/// Law: decoding an encoded well-formed handle yields the handle back and
/// consumes the whole buffer, leaving an empty remainder.
pub proof fn lemma_handle_round_trip(h: Nfs3HandleView)
    requires
        handle_wf(h),
    ensures
        spec_parse_handle(encode_handle(h)) matches Ok((n, h2)) && n == encode_handle(h).len()
            && h2 == h,
{
    let s = encode_handle(h);
    lemma_be32_bytes_roundtrip(h.len);
    assert(be32(s) == be32(be32_bytes(h.len)));
    assert(s.subrange(4, 4 + h.len as int) =~= h.value);
    assert(spec_parse_handle(s)->Ok_0.1 =~= h);
}

/// Decodes a file handle from the front of `i`, returning it together with
/// the unconsumed remainder.
pub fn parse_nfs3_handle<'a>(i: &'a [u8]) -> (r: Result<(Nfs3Handle<'a>, &'a [u8]), DecodeError>)
    ensures
        (match spec_parse_handle(i@) {
            Ok((n, hv)) => r matches Ok((h, rest)) && h@ == hv && rest@ == i@.skip(n as int),
            Err(e) => r matches Err(e2) && e2 == e,
        }),
{
    match read_be_u32(i) {
        Err(e) => Err(e),
        Ok((len, after_len)) => {
            if len as usize > after_len.len() {
                Err(DecodeError::Malformed)
            } else {
                match take_span(after_len, len as usize) {
                    Some((value, rest)) => {
                        proof {
                            assert(value@ =~= i@.subrange(4, 4 + len as int));
                            assert(rest@ =~= i@.skip(4 + len as int));
                        }
                        Ok((Nfs3Handle { len, value }, rest))
                    },
                    None => Err(DecodeError::Malformed),
                }
            }
        },
    }
}

} // verus!
