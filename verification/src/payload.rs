use vstd::prelude::*;
use crate::bytes::{be32, be64, pad_len, read_be_u32, read_be_u64, rest_span, take_span};
use crate::error::DecodeError;
use crate::handle::{parse_nfs3_handle, spec_parse_handle, Nfs3Handle, Nfs3HandleView};

verus! {

// ---------------------------------------------------------------------------
// Payload extraction. A declared-length binary payload may legitimately be
// split across network arrivals, so extraction follows one of three
// strategies chosen from the caller's completeness indicator and from how
// much data is actually present.
// ---------------------------------------------------------------------------

/// Complete strategy: the caller guarantees the buffer holds the whole
/// declared payload plus its filler; exactly that many bytes are consumed.
/// A short payload body is `Malformed` (the caller broke its promise); body
/// present but filler missing is `Incomplete`.
pub open spec fn spec_parse_data_complete(s: Seq<u8>, file_len: nat, fill: nat) -> Result<
    (nat, Seq<u8>),
    DecodeError,
> {
    if file_len > s.len() {
        Err(DecodeError::Malformed)
    } else if file_len + fill > s.len() {
        Err(DecodeError::Incomplete)
    } else {
        Ok(((file_len + fill) as nat, s.take(file_len as int)))
    }
}

/// Partial strategy for a fragment that nonetheless holds the whole declared
/// payload: the payload is taken in full and as much of the filler as is
/// actually present is skipped — filler may legitimately be missing at a
/// fragment boundary.
pub open spec fn spec_parse_data_partial(s: Seq<u8>, file_len: nat, fill: nat) -> Result<
    (nat, Seq<u8>),
    DecodeError,
> {
    if file_len > s.len() {
        Err(DecodeError::Malformed)
    } else {
        let f: nat = if fill <= s.len() - file_len {
            fill
        } else {
            (s.len() - file_len) as nat
        };
        Ok(((file_len + f) as nat, s.take(file_len as int)))
    }
}

/// What payload extraction yields for declared length `file_len` under the
/// caller-supplied completeness indicator: the complete strategy, the
/// partial-but-sufficient strategy, or — when fewer bytes than the declared
/// length remain — the whole rest of the buffer as a truncated payload, with
/// nothing left unconsumed. Truncation is not an error: it is the expected
/// shape of a mid-stream fragment.
pub open spec fn spec_parse_data(s: Seq<u8>, file_len: nat, complete: bool) -> Result<
    (nat, Seq<u8>),
    DecodeError,
> {
    let fill = pad_len(file_len);
    if complete {
        spec_parse_data_complete(s, file_len, fill)
    } else if s.len() >= file_len {
        spec_parse_data_partial(s, file_len, fill)
    } else {
        Ok((s.len(), s))
    }
}

/// Extracts a payload under the complete strategy.
pub fn parse_nfs3_data_complete<'a>(i: &'a [u8], file_len: usize, fill_bytes: usize) -> (r: Result<
    (&'a [u8], &'a [u8]),
    DecodeError,
>)
    ensures
        (match spec_parse_data_complete(i@, file_len as nat, fill_bytes as nat) {
            Ok((n, d)) => r matches Ok((data, rest)) && data@ == d && rest@ == i@.skip(n as int),
            Err(e) => r matches Err(e2) && e2 == e,
        }),
{
    if file_len > i.len() {
        Err(DecodeError::Malformed)
    } else if fill_bytes > i.len() - file_len {
        Err(DecodeError::Incomplete)
    } else {
        match take_span(i, file_len) {
            None => Err(DecodeError::Malformed),
            Some((data, t)) => {
                match take_span(t, fill_bytes) {
                    None => Err(DecodeError::Incomplete),
                    Some((_, rest)) => {
                        proof {
                            assert(rest@ =~= i@.skip(file_len as int + fill_bytes as int));
                        }
                        Ok((data, rest))
                    },
                }
            },
        }
    }
}

/// Extracts a payload under the partial-but-sufficient strategy.
pub fn parse_nfs3_data_partial<'a>(i: &'a [u8], file_len: usize, fill_bytes: usize) -> (r: Result<
    (&'a [u8], &'a [u8]),
    DecodeError,
>)
    ensures
        (match spec_parse_data_partial(i@, file_len as nat, fill_bytes as nat) {
            Ok((n, d)) => r matches Ok((data, rest)) && data@ == d && rest@ == i@.skip(n as int),
            Err(e) => r matches Err(e2) && e2 == e,
        }),
{
    if file_len > i.len() {
        Err(DecodeError::Malformed)
    } else {
        let f: usize = if fill_bytes <= i.len() - file_len {
            fill_bytes
        } else {
            i.len() - file_len
        };
        match take_span(i, file_len) {
            None => Err(DecodeError::Malformed),
            Some((data, t)) => {
                match take_span(t, f) {
                    None => Err(DecodeError::Incomplete),
                    Some((_, rest)) => {
                        proof {
                            assert(rest@ =~= i@.skip(file_len as int + f as int));
                        }
                        Ok((data, rest))
                    },
                }
            },
        }
    }
}

// ---------------------------------------------------------------------------
// WRITE request.
// ---------------------------------------------------------------------------
#[derive(Debug, PartialEq)]
pub struct Nfs3RequestWrite<'a> {
    pub handle: Nfs3Handle<'a>,
    pub offset: u64,
    pub count: u32,
    pub stable: u32,
    pub file_len: u32,
    pub file_data: &'a [u8],
}

#[verifier::ext_equal]
pub ghost struct Nfs3RequestWriteView {
    pub handle: Nfs3HandleView,
    pub offset: u64,
    pub count: u32,
    pub stable: u32,
    pub file_len: u32,
    pub file_data: Seq<u8>,
}

impl View for Nfs3RequestWrite<'_> {
    type V = Nfs3RequestWriteView;

    open spec fn view(&self) -> Nfs3RequestWriteView {
        Nfs3RequestWriteView {
            handle: self.handle@,
            offset: self.offset,
            count: self.count,
            stable: self.stable,
            file_len: self.file_len,
            file_data: self.file_data@,
        }
    }
}

/// Layout of the fixed preamble of a WRITE request: the file handle, an
/// eight-byte offset, a four-byte count, a stability mode constrained to
/// {0, 1, 2}, and a declared data length that must not exceed the count.
/// The result gives the consumed byte count and the decoded fields, in
/// order: handle, offset, count, stable, file_len.
pub open spec fn spec_parse_write_preamble(s: Seq<u8>) -> Result<
    (nat, Nfs3HandleView, u64, u32, u32, u32),
    DecodeError,
> {
    match spec_parse_handle(s) {
        Err(e) => Err(e),
        Ok((n, h)) => {
            let t = s.skip(n as int);
            if t.len() < 8 {
                Err(DecodeError::Incomplete)
            } else if t.len() < 12 {
                Err(DecodeError::Incomplete)
            } else if t.len() < 16 {
                Err(DecodeError::Incomplete)
            } else if be32(t.skip(12)) > 2 {
                Err(DecodeError::ConstraintViolation)
            } else if t.len() < 20 {
                Err(DecodeError::Incomplete)
            } else if be32(t.skip(16)) > be32(t.skip(8)) {
                Err(DecodeError::ConstraintViolation)
            } else {
                Ok(
                    (
                        (n + 20) as nat,
                        h,
                        be64(t),
                        be32(t.skip(8)),
                        be32(t.skip(12)),
                        be32(t.skip(16)),
                    ),
                )
            }
        },
    }
}

/// What decoding a WRITE request yields: the preamble, then the payload
/// under the three-way extraction strategy.
pub open spec fn spec_parse_request_write(s: Seq<u8>, complete: bool) -> Result<
    (nat, Nfs3RequestWriteView),
    DecodeError,
> {
    match spec_parse_write_preamble(s) {
        Err(e) => Err(e),
        Ok((n, h, offset, count, stable, file_len)) => {
            match spec_parse_data(s.skip(n as int), file_len as nat, complete) {
                Err(e) => Err(e),
                Ok((m, data)) => Ok(
                    (
                        (n + m) as nat,
                        Nfs3RequestWriteView {
                            handle: h,
                            offset,
                            count,
                            stable,
                            file_len,
                            file_data: data,
                        },
                    ),
                ),
            }
        },
    }
}

/// Law: with `complete` set and a buffer holding, after the preamble,
/// exactly the declared data length plus its filler, a WRITE request
/// decodes successfully, carries the full declared payload, and leaves an
/// empty remainder.
pub proof fn lemma_write_complete_exact(s: Seq<u8>)
    requires
        spec_parse_write_preamble(s) matches Ok((n, h, offset, count, stable, file_len))
            && s.len() == n + file_len + pad_len(file_len as nat),
    ensures
        ({
            let (n, h, offset, count, stable, file_len) = spec_parse_write_preamble(s)->Ok_0;
            spec_parse_request_write(s, true) matches Ok((c, v)) && c == s.len() && v.file_data
                == s.skip(n as int).take(file_len as int)
        }),
{
}

/// Law: with `complete` clear and a buffer holding, after the preamble,
/// fewer bytes than the declared data length, a WRITE request decodes
/// successfully — not an error — with the entire remaining buffer as its
/// truncated payload and an empty remainder.
pub proof fn lemma_write_partial_truncated(s: Seq<u8>)
    requires
        spec_parse_write_preamble(s) matches Ok((n, h, offset, count, stable, file_len)) && s.len()
            - n < file_len,
    ensures
        ({
            let (n, h, offset, count, stable, file_len) = spec_parse_write_preamble(s)->Ok_0;
            spec_parse_request_write(s, false) matches Ok((c, v)) && c == s.len() && v.file_data
                == s.skip(n as int)
        }),
{
}

/// Decodes a WRITE request from the front of `i`; `complete` is the
/// caller's promise that the buffer is not a mid-stream fragment.
pub fn parse_nfs3_request_write<'a>(i: &'a [u8], complete: bool) -> (r: Result<
    (Nfs3RequestWrite<'a>, &'a [u8]),
    DecodeError,
>)
    ensures
        (match spec_parse_request_write(i@, complete) {
            Ok((n, v)) => r matches Ok((rec, rest)) && rec@ == v && rest@ == i@.skip(n as int),
            Err(e) => r matches Err(e2) && e2 == e,
        }),
{
    match parse_nfs3_handle(i) {
        Err(e) => Err(e),
        Ok((handle, t)) => {
            match read_be_u64(t) {
                Err(e) => Err(e),
                Ok((offset, t1)) => {
                    match read_be_u32(t1) {
                        Err(e) => Err(e),
                        Ok((count, t2)) => {
                            match read_be_u32(t2) {
                                Err(e) => Err(e),
                                Ok((stable, t3)) => {
                                    if stable > 2 {
                                        Err(DecodeError::ConstraintViolation)
                                    } else {
                                        match read_be_u32(t3) {
                                            Err(e) => Err(e),
                                            Ok((file_len, body)) => {
                                                if file_len > count {
                                                    Err(DecodeError::ConstraintViolation)
                                                } else {
                                                    proof {
                                                        let n = spec_parse_handle(i@)->Ok_0.0;
                                                        assert(body@ =~= i@.skip(n as int + 20));
                                                    }
                                                    parse_write_payload(
                                                        i,
                                                        handle,
                                                        offset,
                                                        count,
                                                        stable,
                                                        file_len,
                                                        body,
                                                        complete,
                                                    )
                                                }
                                            },
                                        }
                                    }
                                },
                            }
                        },
                    }
                },
            }
        },
    }
}

/// Finishes a WRITE request decode: extracts the payload from `body` under
/// the three-way strategy and assembles the record.
fn parse_write_payload<'a>(
    i: &'a [u8],
    handle: Nfs3Handle<'a>,
    offset: u64,
    count: u32,
    stable: u32,
    file_len: u32,
    body: &'a [u8],
    complete: bool,
) -> (r: Result<(Nfs3RequestWrite<'a>, &'a [u8]), DecodeError>)
    requires
        spec_parse_write_preamble(i@) matches Ok((n, h, o, c, st, fl)) && h == handle@ && o
            == offset && c == count && st == stable && fl == file_len && body@ == i@.skip(n as int),
    ensures
        (match spec_parse_request_write(i@, complete) {
            Ok((n, v)) => r matches Ok((rec, rest)) && rec@ == v && rest@ == i@.skip(n as int),
            Err(e) => r matches Err(e2) && e2 == e,
        }),
{
    let fill: usize = if file_len % 4 != 0 {
        (4 - file_len % 4) as usize
    } else {
        0
    };
    let ghost n = spec_parse_write_preamble(i@)->Ok_0.0;
    let d = if complete {
        parse_nfs3_data_complete(body, file_len as usize, fill)
    } else if body.len() >= file_len as usize {
        parse_nfs3_data_partial(body, file_len as usize, fill)
    } else {
        Ok(rest_span(body))
    };
    match d {
        Err(e) => Err(e),
        Ok((file_data, rest)) => {
            proof {
                let m = spec_parse_data(i@.skip(n as int), file_len as nat, complete)->Ok_0.0;
                assert(rest@ =~= i@.skip(n as int + m as int));
            }
            Ok(
                (
                    Nfs3RequestWrite { handle, offset, count, stable, file_len, file_data },
                    rest,
                ),
            )
        },
    }
}

// ---------------------------------------------------------------------------
// READ reply.
// ---------------------------------------------------------------------------
#[derive(Debug, PartialEq)]
pub struct NfsReplyRead<'a> {
    pub status: u32,
    pub attr_follows: u32,
    pub attr_blob: &'a [u8],
    pub count: u32,
    pub eof: bool,
    pub data_len: u32,
    pub data: &'a [u8],
}

#[verifier::ext_equal]
pub ghost struct NfsReplyReadView {
    pub status: u32,
    pub attr_follows: u32,
    pub attr_blob: Seq<u8>,
    pub count: u32,
    pub eof: bool,
    pub data_len: u32,
    pub data: Seq<u8>,
}

impl View for NfsReplyRead<'_> {
    type V = NfsReplyReadView;

    open spec fn view(&self) -> NfsReplyReadView {
        NfsReplyReadView {
            status: self.status,
            attr_follows: self.attr_follows,
            attr_blob: self.attr_blob@,
            count: self.count,
            eof: self.eof,
            data_len: self.data_len,
            data: self.data@,
        }
    }
}

/// Layout of the fixed preamble of a READ reply: a four-byte status, a
/// {0,1} attributes flag, an 84-byte attribute blob (kept but opaque), a
/// four-byte count, a {0,1} end-of-file flag, and a declared data length
/// that must not exceed the count. The result gives the consumed byte count
/// and the decoded fields, in order: status, attr_follows, attr_blob,
/// count, eof, data_len.
pub open spec fn spec_parse_read_reply_preamble(s: Seq<u8>) -> Result<
    (nat, u32, u32, Seq<u8>, u32, bool, u32),
    DecodeError,
> {
    if s.len() < 4 {
        Err(DecodeError::Incomplete)
    } else if s.len() < 8 {
        Err(DecodeError::Incomplete)
    } else if be32(s.skip(4)) > 1 {
        Err(DecodeError::ConstraintViolation)
    } else if s.len() < 92 {
        Err(DecodeError::Incomplete)
    } else if s.len() < 96 {
        Err(DecodeError::Incomplete)
    } else if s.len() < 100 {
        Err(DecodeError::Incomplete)
    } else if be32(s.skip(96)) > 1 {
        Err(DecodeError::ConstraintViolation)
    } else if s.len() < 104 {
        Err(DecodeError::Incomplete)
    } else if be32(s.skip(100)) > be32(s.skip(92)) {
        Err(DecodeError::ConstraintViolation)
    } else {
        Ok(
            (
                104,
                be32(s),
                be32(s.skip(4)),
                s.skip(8).take(84),
                be32(s.skip(92)),
                be32(s.skip(96)) == 1,
                be32(s.skip(100)),
            ),
        )
    }
}

/// What decoding a READ reply yields: the preamble, then the trailing data
/// under the three-way extraction strategy.
pub open spec fn spec_parse_reply_read(s: Seq<u8>, complete: bool) -> Result<
    (nat, NfsReplyReadView),
    DecodeError,
> {
    match spec_parse_read_reply_preamble(s) {
        Err(e) => Err(e),
        Ok((n, status, attr_follows, attr_blob, count, eof, data_len)) => {
            match spec_parse_data(s.skip(n as int), data_len as nat, complete) {
                Err(e) => Err(e),
                Ok((m, data)) => Ok(
                    (
                        (n + m) as nat,
                        NfsReplyReadView {
                            status,
                            attr_follows,
                            attr_blob,
                            count,
                            eof,
                            data_len,
                            data,
                        },
                    ),
                ),
            }
        },
    }
}

/// Decodes a READ reply from the front of `i`; `complete` is the caller's
/// promise that the buffer is not a mid-stream fragment.
pub fn parse_nfs3_reply_read<'a>(i: &'a [u8], complete: bool) -> (r: Result<
    (NfsReplyRead<'a>, &'a [u8]),
    DecodeError,
>)
    ensures
        (match spec_parse_reply_read(i@, complete) {
            Ok((n, v)) => r matches Ok((rec, rest)) && rec@ == v && rest@ == i@.skip(n as int),
            Err(e) => r matches Err(e2) && e2 == e,
        }),
{
    match read_be_u32(i) {
        Err(e) => Err(e),
        Ok((status, t0)) => {
            match read_be_u32(t0) {
                Err(e) => Err(e),
                Ok((attr_flag, t1)) => {
                    if attr_flag > 1 {
                        Err(DecodeError::ConstraintViolation)
                    } else {
                        match take_span(t1, 84) {
                            None => Err(DecodeError::Incomplete),
                            Some((attr_blob, t2)) => {
                                match read_be_u32(t2) {
                                    Err(e) => Err(e),
                                    Ok((count, t3)) => {
                                        match read_be_u32(t3) {
                                            Err(e) => Err(e),
                                            Ok((eof_flag, t4)) => {
                                                if eof_flag > 1 {
                                                    Err(DecodeError::ConstraintViolation)
                                                } else {
                                                    match read_be_u32(t4) {
                                                        Err(e) => Err(e),
                                                        Ok((data_len, body)) => {
                                                            if data_len > count {
                                                                Err(
                                                                    DecodeError::ConstraintViolation,
                                                                )
                                                            } else {
                                                                proof {
                                                                    assert(body@ =~= i@.skip(104));
                                                                    assert(attr_blob@ =~= i@.skip(
                                                                        8,
                                                                    ).take(84));
                                                                }
                                                                parse_read_reply_payload(
                                                                    i,
                                                                    status,
                                                                    attr_flag,
                                                                    attr_blob,
                                                                    count,
                                                                    eof_flag == 1,
                                                                    data_len,
                                                                    body,
                                                                    complete,
                                                                )
                                                            }
                                                        },
                                                    }
                                                }
                                            },
                                        }
                                    },
                                }
                            },
                        }
                    }
                },
            }
        },
    }
}

/// Finishes a READ reply decode: extracts the trailing data from `body`
/// under the three-way strategy and assembles the record.
fn parse_read_reply_payload<'a>(
    i: &'a [u8],
    status: u32,
    attr_follows: u32,
    attr_blob: &'a [u8],
    count: u32,
    eof: bool,
    data_len: u32,
    body: &'a [u8],
    complete: bool,
) -> (r: Result<(NfsReplyRead<'a>, &'a [u8]), DecodeError>)
    requires
        spec_parse_read_reply_preamble(i@) matches Ok((n, st, af, ab, c, e, dl)) && st == status
            && af == attr_follows && ab == attr_blob@ && c == count && e == eof && dl == data_len
            && body@ == i@.skip(n as int),
    ensures
        (match spec_parse_reply_read(i@, complete) {
            Ok((n, v)) => r matches Ok((rec, rest)) && rec@ == v && rest@ == i@.skip(n as int),
            Err(e) => r matches Err(e2) && e2 == e,
        }),
{
    let fill: usize = if data_len % 4 != 0 {
        (4 - data_len % 4) as usize
    } else {
        0
    };
    let ghost n = spec_parse_read_reply_preamble(i@)->Ok_0.0;
    let d = if complete {
        parse_nfs3_data_complete(body, data_len as usize, fill)
    } else if body.len() >= data_len as usize {
        parse_nfs3_data_partial(body, data_len as usize, fill)
    } else {
        Ok(rest_span(body))
    };
    match d {
        Err(e) => Err(e),
        Ok((data, rest)) => {
            proof {
                let m = spec_parse_data(i@.skip(n as int), data_len as nat, complete)->Ok_0.0;
                assert(rest@ =~= i@.skip(n as int + m as int));
            }
            Ok(
                (
                    NfsReplyRead { status, attr_follows, attr_blob, count, eof, data_len, data },
                    rest,
                ),
            )
        },
    }
}

} // verus!
