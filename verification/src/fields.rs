use vstd::prelude::*;
use vstd::slice::slice_to_vec;
use crate::bytes::{be32, pad_len, read_be_u32, take_span};
use crate::error::DecodeError;

verus! {

/// Layout of the flag that gates every optional field: a four-byte integer
/// that must be 0 ("absent") or 1 ("a value follows"). Any other value is a
/// protocol violation, never silently coerced.
pub open spec fn spec_parse_opt_flag(s: Seq<u8>) -> Result<(nat, bool), DecodeError> {
    if s.len() < 4 {
        Err(DecodeError::Incomplete)
    } else if be32(s) > 1 {
        Err(DecodeError::ConstraintViolation)
    } else {
        Ok((4, be32(s) == 1))
    }
}

/// Reads an optional-field flag, yielding whether a value follows.
pub fn parse_opt_flag<'a>(i: &'a [u8]) -> (r: Result<(bool, &'a [u8]), DecodeError>)
    ensures
        (match spec_parse_opt_flag(i@) {
            Ok((n, b)) => r matches Ok((b2, rest)) && b2 == b && rest@ == i@.skip(n as int),
            Err(e) => r matches Err(e2) && e2 == e,
        }),
{
    match read_be_u32(i) {
        Err(e) => Err(e),
        Ok((v, rest)) => {
            if v > 1 {
                Err(DecodeError::ConstraintViolation)
            } else {
                Ok((v == 1, rest))
            }
        },
    }
}

/// Layout of a bare name field: a four-byte length, then exactly that many
/// name bytes, with no alignment filler. A declared length reaching past the
/// end of the buffer is `Malformed`.
pub open spec fn spec_parse_name(s: Seq<u8>) -> Result<(nat, Seq<u8>), DecodeError> {
    if s.len() < 4 {
        Err(DecodeError::Incomplete)
    } else {
        let len = be32(s);
        if 4 + len > s.len() {
            Err(DecodeError::Malformed)
        } else {
            Ok(((4 + len) as nat, s.subrange(4, 4 + len as int)))
        }
    }
}

/// Layout of a padded name field: a bare name field followed by 0–3 filler
/// bytes (content ignored) so that the next field starts on a four-byte
/// boundary. Missing filler bytes are `Incomplete`.
pub open spec fn spec_parse_padded_name(s: Seq<u8>) -> Result<(nat, Seq<u8>), DecodeError> {
    match spec_parse_name(s) {
        Err(e) => Err(e),
        Ok((n, name)) => {
            let fill = pad_len(name.len());
            if n + fill > s.len() {
                Err(DecodeError::Incomplete)
            } else {
                Ok(((n + fill) as nat, name))
            }
        },
    }
}

/// Law: the filler after a field of `len` bytes is `(4 - len % 4) % 4` bytes,
/// and a length-prefixed field of `len` bytes plus its filler spans a
/// multiple of four bytes measured from the start of the length field.
pub proof fn lemma_padded_field_size(len: nat)
    ensures
        pad_len(len) == (4 - len % 4) % 4,
        (4 + len + pad_len(len)) % 4 == 0,
{
    assert((4 + len + pad_len(len)) % 4 == 0) by {
        let q = len as int / 4;
        vstd::arithmetic::div_mod::lemma_fundamental_div_mod(len as int, 4);
        if len % 4 == 0 {
            assert(4 + len + pad_len(len) == (q + 1) * 4);
            vstd::arithmetic::div_mod::lemma_mod_multiples_basic(q + 1, 4);
        } else {
            assert(4 + len + pad_len(len) == (q + 2) * 4);
            vstd::arithmetic::div_mod::lemma_mod_multiples_basic(q + 2, 4);
        }
    }
}

/// Law: a successful padded-name decode of a name of length `L` consumes
/// exactly `4 + L + ((4 - L % 4) % 4)` bytes, a multiple of four, and never
/// more than the buffer holds.
pub proof fn lemma_parse_padded_name_consumed(s: Seq<u8>)
    ensures
        spec_parse_padded_name(s) matches Ok((n, name)) ==> n == 4 + name.len() + ((4 - name.len()
            % 4) % 4) && n % 4 == 0 && 4 <= n <= s.len(),
{
    match spec_parse_padded_name(s) {
        Ok((n, name)) => lemma_padded_field_size(name.len()),
        Err(_) => (),
    }
}

/// Reads a bare name field, returning the declared length and an owned copy
/// of the name bytes.
pub fn parse_name<'a>(i: &'a [u8]) -> (r: Result<(u32, Vec<u8>, &'a [u8]), DecodeError>)
    ensures
        (match spec_parse_name(i@) {
            Ok((n, name)) => r matches Ok((len, nv, rest)) && len == name.len() && nv@ == name
                && rest@ == i@.skip(n as int),
            Err(e) => r matches Err(e2) && e2 == e,
        }),
{
    match read_be_u32(i) {
        Err(e) => Err(e),
        Ok((len, after_len)) => {
            if len as usize > after_len.len() {
                Err(DecodeError::Malformed)
            } else {
                match take_span(after_len, len as usize) {
                    Some((name, rest)) => {
                        proof {
                            assert(name@ =~= i@.subrange(4, 4 + len as int));
                            assert(rest@ =~= i@.skip(4 + len as int));
                        }
                        Ok((len, slice_to_vec(name), rest))
                    },
                    None => Err(DecodeError::Malformed),
                }
            }
        },
    }
}

/// Reads a padded name field, returning the declared length and an owned
/// copy of the name bytes, with the filler skipped.
pub fn parse_padded_name<'a>(i: &'a [u8]) -> (r: Result<(u32, Vec<u8>, &'a [u8]), DecodeError>)
    ensures
        (match spec_parse_padded_name(i@) {
            Ok((n, name)) => r matches Ok((len, nv, rest)) && len == name.len() && nv@ == name
                && rest@ == i@.skip(n as int),
            Err(e) => r matches Err(e2) && e2 == e,
        }),
{
    match parse_name(i) {
        Err(e) => Err(e),
        Ok((len, nv, after_name)) => {
            let fill: usize = if len % 4 != 0 {
                (4 - len % 4) as usize
            } else {
                0
            };
            match take_span(after_name, fill) {
                Some((_, rest)) => {
                    proof {
                        assert(rest@ =~= i@.skip((4 + len as int) + fill as int));
                    }
                    Ok((len, nv, rest))
                },
                None => Err(DecodeError::Incomplete),
            }
        },
    }
}

} // verus!
