use vstd::prelude::*;
use crate::bytes::{be32, read_be_u32, rest_span, take_span};
use crate::error::DecodeError;
use crate::fields::{parse_opt_flag, spec_parse_opt_flag};
use crate::handle::{parse_nfs3_handle, spec_parse_handle, Nfs3Handle, Nfs3HandleView};

verus! {

// ---------------------------------------------------------------------------
// CREATE reply: a status code, then a handle gated by an optional-field
// flag.
// ---------------------------------------------------------------------------
#[derive(Debug, PartialEq)]
pub struct Nfs3ReplyCreate<'a> {
    pub status: u32,
    pub handle: Option<Nfs3Handle<'a>>,
}

#[verifier::ext_equal]
pub ghost struct Nfs3ReplyCreateView {
    pub status: u32,
    pub handle: Option<Nfs3HandleView>,
}

impl View for Nfs3ReplyCreate<'_> {
    type V = Nfs3ReplyCreateView;

    open spec fn view(&self) -> Nfs3ReplyCreateView {
        Nfs3ReplyCreateView {
            status: self.status,
            handle: match self.handle {
                Some(h) => Some(h@),
                None => None,
            },
        }
    }
}

/// Layout of a CREATE reply: a four-byte status, a {0,1} flag, and — only
/// when the flag is 1 — the new object's handle. A flag of 0 consumes no
/// bytes beyond the flag itself.
pub open spec fn spec_parse_response_create(s: Seq<u8>) -> Result<
    (nat, Nfs3ReplyCreateView),
    DecodeError,
> {
    if s.len() < 4 {
        Err(DecodeError::Incomplete)
    } else {
        let status = be32(s);
        match spec_parse_opt_flag(s.skip(4)) {
            Err(e) => Err(e),
            Ok((_, follows)) => {
                if !follows {
                    Ok((8, Nfs3ReplyCreateView { status, handle: None }))
                } else {
                    match spec_parse_handle(s.skip(8)) {
                        Err(e) => Err(e),
                        Ok((n, h)) => Ok(
                            ((8 + n) as nat, Nfs3ReplyCreateView { status, handle: Some(h) }),
                        ),
                    }
                }
            },
        }
    }
}

/// Law: when the optional-handle flag of a CREATE reply is 0, the decoded
/// record's handle is absent and exactly the status and flag bytes are
/// consumed — nothing beyond the flag.
pub proof fn lemma_create_reply_flag_absent(s: Seq<u8>)
    requires
        s.len() >= 8,
        be32(s.skip(4)) == 0,
    ensures
        spec_parse_response_create(s) matches Ok((n, v)) && n == 8 && v.status == be32(s)
            && v.handle is None,
{
}

/// Law: a CREATE reply whose optional-handle flag is 2 fails with
/// `ConstraintViolation`.
pub proof fn lemma_create_reply_flag_two(s: Seq<u8>)
    requires
        s.len() >= 8,
        be32(s.skip(4)) == 2,
    ensures
        spec_parse_response_create(s) matches Err(e) && e == DecodeError::ConstraintViolation,
{
}

/// Decodes a CREATE reply from the front of `i`.
pub fn parse_nfs3_response_create<'a>(i: &'a [u8]) -> (r: Result<
    (Nfs3ReplyCreate<'a>, &'a [u8]),
    DecodeError,
>)
    ensures
        (match spec_parse_response_create(i@) {
            Ok((n, v)) => r matches Ok((rec, rest)) && rec@ == v && rest@ == i@.skip(n as int),
            Err(e) => r matches Err(e2) && e2 == e,
        }),
{
    match read_be_u32(i) {
        Err(e) => Err(e),
        Ok((status, t)) => {
            match parse_opt_flag(t) {
                Err(e) => Err(e),
                Ok((follows, u)) => {
                    if !follows {
                        proof {
                            assert(u@ =~= i@.skip(8));
                        }
                        Ok((Nfs3ReplyCreate { status, handle: None }, u))
                    } else {
                        proof {
                            assert(u@ =~= i@.skip(8));
                        }
                        match parse_nfs3_handle(u) {
                            Err(e) => Err(e),
                            Ok((handle, rest)) => {
                                proof {
                                    let n = spec_parse_handle(i@.skip(8))->Ok_0.0;
                                    assert(rest@ =~= i@.skip(8 + n as int));
                                }
                                Ok((Nfs3ReplyCreate { status, handle: Some(handle) }, rest))
                            },
                        }
                    }
                },
            }
        },
    }
}

// ---------------------------------------------------------------------------
// LOOKUP reply: a status code, then a mandatory handle.
// ---------------------------------------------------------------------------
#[derive(Debug, PartialEq)]
pub struct Nfs3ReplyLookup<'a> {
    pub status: u32,
    pub handle: Nfs3Handle<'a>,
}

#[verifier::ext_equal]
pub ghost struct Nfs3ReplyLookupView {
    pub status: u32,
    pub handle: Nfs3HandleView,
}

impl View for Nfs3ReplyLookup<'_> {
    type V = Nfs3ReplyLookupView;

    open spec fn view(&self) -> Nfs3ReplyLookupView {
        Nfs3ReplyLookupView { status: self.status, handle: self.handle@ }
    }
}

/// Layout of a LOOKUP reply: a four-byte status, then the looked-up object's
/// handle with no optionality.
pub open spec fn spec_parse_response_lookup(s: Seq<u8>) -> Result<
    (nat, Nfs3ReplyLookupView),
    DecodeError,
> {
    if s.len() < 4 {
        Err(DecodeError::Incomplete)
    } else {
        match spec_parse_handle(s.skip(4)) {
            Err(e) => Err(e),
            Ok((n, h)) => Ok(
                ((4 + n) as nat, Nfs3ReplyLookupView { status: be32(s), handle: h }),
            ),
        }
    }
}

/// Decodes a LOOKUP reply from the front of `i`.
pub fn parse_nfs3_response_lookup<'a>(i: &'a [u8]) -> (r: Result<
    (Nfs3ReplyLookup<'a>, &'a [u8]),
    DecodeError,
>)
    ensures
        (match spec_parse_response_lookup(i@) {
            Ok((n, v)) => r matches Ok((rec, rest)) && rec@ == v && rest@ == i@.skip(n as int),
            Err(e) => r matches Err(e2) && e2 == e,
        }),
{
    match read_be_u32(i) {
        Err(e) => Err(e),
        Ok((status, t)) => {
            match parse_nfs3_handle(t) {
                Err(e) => Err(e),
                Ok((handle, rest)) => {
                    proof {
                        let n = spec_parse_handle(i@.skip(4))->Ok_0.0;
                        assert(rest@ =~= i@.skip(4 + n as int));
                    }
                    Ok((Nfs3ReplyLookup { status, handle }, rest))
                },
            }
        },
    }
}

// ---------------------------------------------------------------------------
// READDIRPLUS reply header: status, an optional directory-attributes blob,
// an eight-byte verifier, then the raw entry bytes handed on for iterative
// consumption.
// ---------------------------------------------------------------------------
#[derive(Debug, PartialEq)]
pub struct Nfs3ResponseReaddirplus<'a> {
    pub status: u32,
    pub data: &'a [u8],
}

#[verifier::ext_equal]
pub ghost struct Nfs3ResponseReaddirplusView {
    pub status: u32,
    pub data: Seq<u8>,
}

impl View for Nfs3ResponseReaddirplus<'_> {
    type V = Nfs3ResponseReaddirplusView;

    open spec fn view(&self) -> Nfs3ResponseReaddirplusView {
        Nfs3ResponseReaddirplusView { status: self.status, data: self.data@ }
    }
}

/// Layout of a READDIRPLUS reply header: a four-byte status, a {0,1} flag
/// gating an 84-byte directory-attributes blob (consumed and discarded), an
/// eight-byte cookie verifier (consumed and discarded), then the rest of the
/// buffer kept as the raw entry bytes.
pub open spec fn spec_parse_response_readdirplus(s: Seq<u8>) -> Result<
    (nat, Nfs3ResponseReaddirplusView),
    DecodeError,
> {
    if s.len() < 4 {
        Err(DecodeError::Incomplete)
    } else {
        let status = be32(s);
        match spec_parse_opt_flag(s.skip(4)) {
            Err(e) => Err(e),
            Ok((_, attr_follows)) => {
                let attr: nat = if attr_follows {
                    84
                } else {
                    0
                };
                let t = s.skip(8);
                if t.len() < attr + 8 {
                    Err(DecodeError::Incomplete)
                } else {
                    Ok(
                        (
                            s.len(),
                            Nfs3ResponseReaddirplusView {
                                status,
                                data: t.skip(attr as int + 8),
                            },
                        ),
                    )
                }
            },
        }
    }
}

/// Decodes a READDIRPLUS reply header from the front of `i`, consuming the
/// whole buffer; the returned record carries the raw entry bytes.
pub fn parse_nfs3_response_readdirplus<'a>(i: &'a [u8]) -> (r: Result<
    (Nfs3ResponseReaddirplus<'a>, &'a [u8]),
    DecodeError,
>)
    ensures
        (match spec_parse_response_readdirplus(i@) {
            Ok((n, v)) => r matches Ok((rec, rest)) && rec@ == v && rest@ == i@.skip(n as int),
            Err(e) => r matches Err(e2) && e2 == e,
        }),
{
    match read_be_u32(i) {
        Err(e) => Err(e),
        Ok((status, t)) => {
            match parse_opt_flag(t) {
                Err(e) => Err(e),
                Ok((attr_follows, u)) => {
                    let attr: usize = if attr_follows {
                        84
                    } else {
                        0
                    };
                    match take_span(u, attr) {
                        None => Err(DecodeError::Incomplete),
                        Some((_, v)) => {
                            match take_span(v, 8) {
                                None => Err(DecodeError::Incomplete),
                                Some((_, w)) => {
                                    let (data, rest) = rest_span(w);
                                    proof {
                                        assert(data@ =~= i@.skip(8).skip(attr as int + 8));
                                        assert(rest@ =~= i@.skip(i@.len() as int));
                                    }
                                    Ok((Nfs3ResponseReaddirplus { status, data }, rest))
                                },
                            }
                        },
                    }
                },
            }
        },
    }
}

} // verus!
