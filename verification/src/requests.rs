use vstd::prelude::*;
use crate::bytes::{be32, be64, read_be_u32, read_be_u64, rest_span, take_span};
use crate::error::DecodeError;
use crate::fields::{parse_name, parse_padded_name, spec_parse_name, spec_parse_padded_name};
use crate::handle::{parse_nfs3_handle, spec_parse_handle, Nfs3Handle, Nfs3HandleView};

verus! {

// ---------------------------------------------------------------------------
// GETATTR request: a handle and nothing else.
// ---------------------------------------------------------------------------
#[derive(Debug, PartialEq)]
pub struct Nfs3RequestGetAttr<'a> {
    pub handle: Nfs3Handle<'a>,
}

#[verifier::ext_equal]
pub ghost struct Nfs3RequestGetAttrView {
    pub handle: Nfs3HandleView,
}

impl View for Nfs3RequestGetAttr<'_> {
    type V = Nfs3RequestGetAttrView;

    open spec fn view(&self) -> Nfs3RequestGetAttrView {
        Nfs3RequestGetAttrView { handle: self.handle@ }
    }
}

/// Layout of a GETATTR request: the object handle alone.
pub open spec fn spec_parse_request_getattr(s: Seq<u8>) -> Result<
    (nat, Nfs3RequestGetAttrView),
    DecodeError,
> {
    match spec_parse_handle(s) {
        Err(e) => Err(e),
        Ok((n, h)) => Ok((n, Nfs3RequestGetAttrView { handle: h })),
    }
}

/// Decodes a GETATTR request from the front of `i`.
pub fn parse_nfs3_request_getattr<'a>(i: &'a [u8]) -> (r: Result<
    (Nfs3RequestGetAttr<'a>, &'a [u8]),
    DecodeError,
>)
    ensures
        (match spec_parse_request_getattr(i@) {
            Ok((n, v)) => r matches Ok((rec, rest)) && rec@ == v && rest@ == i@.skip(n as int),
            Err(e) => r matches Err(e2) && e2 == e,
        }),
{
    match parse_nfs3_handle(i) {
        Err(e) => Err(e),
        Ok((handle, rest)) => Ok((Nfs3RequestGetAttr { handle }, rest)),
    }
}

// ---------------------------------------------------------------------------
// ACCESS request: a handle and the requested access bits.
// ---------------------------------------------------------------------------
#[derive(Debug, PartialEq)]
pub struct Nfs3RequestAccess<'a> {
    pub handle: Nfs3Handle<'a>,
    pub check_access: u32,
}

#[verifier::ext_equal]
pub ghost struct Nfs3RequestAccessView {
    pub handle: Nfs3HandleView,
    pub check_access: u32,
}

impl View for Nfs3RequestAccess<'_> {
    type V = Nfs3RequestAccessView;

    open spec fn view(&self) -> Nfs3RequestAccessView {
        Nfs3RequestAccessView { handle: self.handle@, check_access: self.check_access }
    }
}

/// Layout of an ACCESS request: the handle, then a four-byte access mask.
pub open spec fn spec_parse_request_access(s: Seq<u8>) -> Result<
    (nat, Nfs3RequestAccessView),
    DecodeError,
> {
    match spec_parse_handle(s) {
        Err(e) => Err(e),
        Ok((n, h)) => {
            let t = s.skip(n as int);
            if t.len() < 4 {
                Err(DecodeError::Incomplete)
            } else {
                Ok(
                    (
                        (n + 4) as nat,
                        Nfs3RequestAccessView { handle: h, check_access: be32(t) },
                    ),
                )
            }
        },
    }
}

/// Decodes an ACCESS request from the front of `i`.
pub fn parse_nfs3_request_access<'a>(i: &'a [u8]) -> (r: Result<
    (Nfs3RequestAccess<'a>, &'a [u8]),
    DecodeError,
>)
    ensures
        (match spec_parse_request_access(i@) {
            Ok((n, v)) => r matches Ok((rec, rest)) && rec@ == v && rest@ == i@.skip(n as int),
            Err(e) => r matches Err(e2) && e2 == e,
        }),
{
    match parse_nfs3_handle(i) {
        Err(e) => Err(e),
        Ok((handle, t)) => {
            match read_be_u32(t) {
                Err(e) => Err(e),
                Ok((check_access, rest)) => {
                    proof {
                        let n = spec_parse_handle(i@)->Ok_0.0;
                        assert(rest@ =~= i@.skip(n as int + 4));
                    }
                    Ok((Nfs3RequestAccess { handle, check_access }, rest))
                },
            }
        },
    }
}

// ---------------------------------------------------------------------------
// COMMIT request: a handle, then an offset and count that are read but not
// retained — the operation is identified purely by its handle.
// ---------------------------------------------------------------------------
#[derive(Debug, PartialEq)]
pub struct Nfs3RequestCommit<'a> {
    pub handle: Nfs3Handle<'a>,
}

#[verifier::ext_equal]
pub ghost struct Nfs3RequestCommitView {
    pub handle: Nfs3HandleView,
}

impl View for Nfs3RequestCommit<'_> {
    type V = Nfs3RequestCommitView;

    open spec fn view(&self) -> Nfs3RequestCommitView {
        Nfs3RequestCommitView { handle: self.handle@ }
    }
}

/// Layout of a COMMIT request: the handle, an eight-byte offset and a
/// four-byte count; the scalars are consumed and discarded.
pub open spec fn spec_parse_request_commit(s: Seq<u8>) -> Result<
    (nat, Nfs3RequestCommitView),
    DecodeError,
> {
    match spec_parse_handle(s) {
        Err(e) => Err(e),
        Ok((n, h)) => {
            let t = s.skip(n as int);
            if t.len() < 12 {
                Err(DecodeError::Incomplete)
            } else {
                Ok(((n + 12) as nat, Nfs3RequestCommitView { handle: h }))
            }
        },
    }
}

/// Decodes a COMMIT request from the front of `i`.
pub fn parse_nfs3_request_commit<'a>(i: &'a [u8]) -> (r: Result<
    (Nfs3RequestCommit<'a>, &'a [u8]),
    DecodeError,
>)
    ensures
        (match spec_parse_request_commit(i@) {
            Ok((n, v)) => r matches Ok((rec, rest)) && rec@ == v && rest@ == i@.skip(n as int),
            Err(e) => r matches Err(e2) && e2 == e,
        }),
{
    match parse_nfs3_handle(i) {
        Err(e) => Err(e),
        Ok((handle, t)) => {
            match read_be_u64(t) {
                Err(e) => Err(e),
                Ok((_offset, u)) => {
                    match read_be_u32(u) {
                        Err(e) => Err(e),
                        Ok((_count, rest)) => {
                            proof {
                                let n = spec_parse_handle(i@)->Ok_0.0;
                                assert(rest@ =~= i@.skip(n as int + 12));
                            }
                            Ok((Nfs3RequestCommit { handle }, rest))
                        },
                    }
                },
            }
        },
    }
}

// ---------------------------------------------------------------------------
// READ request: a handle and the read offset; the count is read but not
// retained.
// ---------------------------------------------------------------------------
#[derive(Debug, PartialEq)]
pub struct Nfs3RequestRead<'a> {
    pub handle: Nfs3Handle<'a>,
    pub offset: u64,
}

#[verifier::ext_equal]
pub ghost struct Nfs3RequestReadView {
    pub handle: Nfs3HandleView,
    pub offset: u64,
}

impl View for Nfs3RequestRead<'_> {
    type V = Nfs3RequestReadView;

    open spec fn view(&self) -> Nfs3RequestReadView {
        Nfs3RequestReadView { handle: self.handle@, offset: self.offset }
    }
}

/// Layout of a READ request: the handle, an eight-byte offset (kept) and a
/// four-byte count (consumed and discarded).
pub open spec fn spec_parse_request_read(s: Seq<u8>) -> Result<
    (nat, Nfs3RequestReadView),
    DecodeError,
> {
    match spec_parse_handle(s) {
        Err(e) => Err(e),
        Ok((n, h)) => {
            let t = s.skip(n as int);
            if t.len() < 8 {
                Err(DecodeError::Incomplete)
            } else if t.len() < 12 {
                Err(DecodeError::Incomplete)
            } else {
                Ok(((n + 12) as nat, Nfs3RequestReadView { handle: h, offset: be64(t) }))
            }
        },
    }
}

/// Decodes a READ request from the front of `i`.
pub fn parse_nfs3_request_read<'a>(i: &'a [u8]) -> (r: Result<
    (Nfs3RequestRead<'a>, &'a [u8]),
    DecodeError,
>)
    ensures
        (match spec_parse_request_read(i@) {
            Ok((n, v)) => r matches Ok((rec, rest)) && rec@ == v && rest@ == i@.skip(n as int),
            Err(e) => r matches Err(e2) && e2 == e,
        }),
{
    match parse_nfs3_handle(i) {
        Err(e) => Err(e),
        Ok((handle, t)) => {
            match read_be_u64(t) {
                Err(e) => Err(e),
                Ok((offset, u)) => {
                    match read_be_u32(u) {
                        Err(e) => Err(e),
                        Ok((_count, rest)) => {
                            proof {
                                let n = spec_parse_handle(i@)->Ok_0.0;
                                assert(rest@ =~= i@.skip(n as int + 12));
                            }
                            Ok((Nfs3RequestRead { handle, offset }, rest))
                        },
                    }
                },
            }
        },
    }
}

// ---------------------------------------------------------------------------
// LOOKUP request: a directory handle and the name looked up; whatever
// follows the name (its alignment filler) is consumed and discarded.
// ---------------------------------------------------------------------------
#[derive(Debug, PartialEq)]
pub struct Nfs3RequestLookup<'a> {
    pub handle: Nfs3Handle<'a>,
    pub name_vec: Vec<u8>,
}

#[verifier::ext_equal]
pub ghost struct Nfs3RequestLookupView {
    pub handle: Nfs3HandleView,
    pub name_vec: Seq<u8>,
}

impl View for Nfs3RequestLookup<'_> {
    type V = Nfs3RequestLookupView;

    open spec fn view(&self) -> Nfs3RequestLookupView {
        Nfs3RequestLookupView { handle: self.handle@, name_vec: self.name_vec@ }
    }
}

/// Layout of a LOOKUP request: the directory handle, a bare name field, then
/// the rest of the buffer (the name's filler) consumed and discarded.
pub open spec fn spec_parse_request_lookup(s: Seq<u8>) -> Result<
    (nat, Nfs3RequestLookupView),
    DecodeError,
> {
    match spec_parse_handle(s) {
        Err(e) => Err(e),
        Ok((n, h)) => {
            match spec_parse_name(s.skip(n as int)) {
                Err(e) => Err(e),
                Ok((n1, name)) => Ok(
                    (s.len(), Nfs3RequestLookupView { handle: h, name_vec: name }),
                ),
            }
        },
    }
}

/// Decodes a LOOKUP request from the front of `i`, consuming the whole
/// buffer.
pub fn parse_nfs3_request_lookup<'a>(i: &'a [u8]) -> (r: Result<
    (Nfs3RequestLookup<'a>, &'a [u8]),
    DecodeError,
>)
    ensures
        (match spec_parse_request_lookup(i@) {
            Ok((n, v)) => r matches Ok((rec, rest)) && rec@ == v && rest@ == i@.skip(n as int),
            Err(e) => r matches Err(e2) && e2 == e,
        }),
{
    match parse_nfs3_handle(i) {
        Err(e) => Err(e),
        Ok((handle, t)) => {
            match parse_name(t) {
                Err(e) => Err(e),
                Ok((_name_len, name_vec, u)) => {
                    let (_, rest) = rest_span(u);
                    proof {
                        assert(rest@ =~= i@.skip(i@.len() as int));
                    }
                    Ok((Nfs3RequestLookup { handle, name_vec }, rest))
                },
            }
        },
    }
}

// ---------------------------------------------------------------------------
// REMOVE request: a directory handle, the declared name length and the name;
// the trailing filler is consumed and discarded.
// ---------------------------------------------------------------------------
#[derive(Debug, PartialEq)]
pub struct Nfs3RequestRemove<'a> {
    pub handle: Nfs3Handle<'a>,
    pub name_len: u32,
    pub name_vec: Vec<u8>,
}

#[verifier::ext_equal]
pub ghost struct Nfs3RequestRemoveView {
    pub handle: Nfs3HandleView,
    pub name_len: u32,
    pub name_vec: Seq<u8>,
}

impl View for Nfs3RequestRemove<'_> {
    type V = Nfs3RequestRemoveView;

    open spec fn view(&self) -> Nfs3RequestRemoveView {
        Nfs3RequestRemoveView {
            handle: self.handle@,
            name_len: self.name_len,
            name_vec: self.name_vec@,
        }
    }
}

/// Layout of a REMOVE request: the directory handle, a bare name field, then
/// the rest of the buffer consumed and discarded.
pub open spec fn spec_parse_request_remove(s: Seq<u8>) -> Result<
    (nat, Nfs3RequestRemoveView),
    DecodeError,
> {
    match spec_parse_handle(s) {
        Err(e) => Err(e),
        Ok((n, h)) => {
            match spec_parse_name(s.skip(n as int)) {
                Err(e) => Err(e),
                Ok((n1, name)) => Ok(
                    (
                        s.len(),
                        Nfs3RequestRemoveView {
                            handle: h,
                            name_len: name.len() as u32,
                            name_vec: name,
                        },
                    ),
                ),
            }
        },
    }
}

/// Decodes a REMOVE request from the front of `i`, consuming the whole
/// buffer.
pub fn parse_nfs3_request_remove<'a>(i: &'a [u8]) -> (r: Result<
    (Nfs3RequestRemove<'a>, &'a [u8]),
    DecodeError,
>)
    ensures
        (match spec_parse_request_remove(i@) {
            Ok((n, v)) => r matches Ok((rec, rest)) && rec@ == v && rest@ == i@.skip(n as int),
            Err(e) => r matches Err(e2) && e2 == e,
        }),
{
    match parse_nfs3_handle(i) {
        Err(e) => Err(e),
        Ok((handle, t)) => {
            match parse_name(t) {
                Err(e) => Err(e),
                Ok((name_len, name_vec, u)) => {
                    let (_, rest) = rest_span(u);
                    proof {
                        assert(rest@ =~= i@.skip(i@.len() as int));
                    }
                    Ok((Nfs3RequestRemove { handle, name_len, name_vec }, rest))
                },
            }
        },
    }
}

// ---------------------------------------------------------------------------
// RMDIR request: a directory handle and a padded name; the remainder after
// the filler is handed back untouched.
// ---------------------------------------------------------------------------
#[derive(Debug, PartialEq)]
pub struct Nfs3RequestRmdir<'a> {
    pub handle: Nfs3Handle<'a>,
    pub name_vec: Vec<u8>,
}

#[verifier::ext_equal]
pub ghost struct Nfs3RequestRmdirView {
    pub handle: Nfs3HandleView,
    pub name_vec: Seq<u8>,
}

impl View for Nfs3RequestRmdir<'_> {
    type V = Nfs3RequestRmdirView;

    open spec fn view(&self) -> Nfs3RequestRmdirView {
        Nfs3RequestRmdirView { handle: self.handle@, name_vec: self.name_vec@ }
    }
}

/// Layout of an RMDIR request: the directory handle, then a padded name
/// field; nothing after the filler is consumed.
pub open spec fn spec_parse_request_rmdir(s: Seq<u8>) -> Result<
    (nat, Nfs3RequestRmdirView),
    DecodeError,
> {
    match spec_parse_handle(s) {
        Err(e) => Err(e),
        Ok((n, h)) => {
            match spec_parse_padded_name(s.skip(n as int)) {
                Err(e) => Err(e),
                Ok((n1, name)) => Ok(
                    ((n + n1) as nat, Nfs3RequestRmdirView { handle: h, name_vec: name }),
                ),
            }
        },
    }
}

/// Decodes an RMDIR request from the front of `i`.
pub fn parse_nfs3_request_rmdir<'a>(i: &'a [u8]) -> (r: Result<
    (Nfs3RequestRmdir<'a>, &'a [u8]),
    DecodeError,
>)
    ensures
        (match spec_parse_request_rmdir(i@) {
            Ok((n, v)) => r matches Ok((rec, rest)) && rec@ == v && rest@ == i@.skip(n as int),
            Err(e) => r matches Err(e2) && e2 == e,
        }),
{
    match parse_nfs3_handle(i) {
        Err(e) => Err(e),
        Ok((handle, t)) => {
            match parse_padded_name(t) {
                Err(e) => Err(e),
                Ok((_name_len, name_vec, rest)) => {
                    proof {
                        let n = spec_parse_handle(i@)->Ok_0.0;
                        let n1 = spec_parse_padded_name(i@.skip(n as int))->Ok_0.0;
                        assert(rest@ =~= i@.skip(n as int + n1 as int));
                    }
                    Ok((Nfs3RequestRmdir { handle, name_vec }, rest))
                },
            }
        },
    }
}

// ---------------------------------------------------------------------------
// MKDIR request: a directory handle and a padded name; the trailing
// attributes blob is consumed and discarded.
// ---------------------------------------------------------------------------
#[derive(Debug, PartialEq)]
pub struct Nfs3RequestMkdir<'a> {
    pub handle: Nfs3Handle<'a>,
    pub name_vec: Vec<u8>,
}

#[verifier::ext_equal]
pub ghost struct Nfs3RequestMkdirView {
    pub handle: Nfs3HandleView,
    pub name_vec: Seq<u8>,
}

impl View for Nfs3RequestMkdir<'_> {
    type V = Nfs3RequestMkdirView;

    open spec fn view(&self) -> Nfs3RequestMkdirView {
        Nfs3RequestMkdirView { handle: self.handle@, name_vec: self.name_vec@ }
    }
}

/// Layout of an MKDIR request: the directory handle, a padded name field,
/// then a trailing attributes blob consumed and discarded.
pub open spec fn spec_parse_request_mkdir(s: Seq<u8>) -> Result<
    (nat, Nfs3RequestMkdirView),
    DecodeError,
> {
    match spec_parse_handle(s) {
        Err(e) => Err(e),
        Ok((n, h)) => {
            match spec_parse_padded_name(s.skip(n as int)) {
                Err(e) => Err(e),
                Ok((n1, name)) => Ok(
                    (s.len(), Nfs3RequestMkdirView { handle: h, name_vec: name }),
                ),
            }
        },
    }
}

/// Decodes an MKDIR request from the front of `i`, consuming the whole
/// buffer.
pub fn parse_nfs3_request_mkdir<'a>(i: &'a [u8]) -> (r: Result<
    (Nfs3RequestMkdir<'a>, &'a [u8]),
    DecodeError,
>)
    ensures
        (match spec_parse_request_mkdir(i@) {
            Ok((n, v)) => r matches Ok((rec, rest)) && rec@ == v && rest@ == i@.skip(n as int),
            Err(e) => r matches Err(e2) && e2 == e,
        }),
{
    match parse_nfs3_handle(i) {
        Err(e) => Err(e),
        Ok((handle, t)) => {
            match parse_padded_name(t) {
                Err(e) => Err(e),
                Ok((_name_len, name_vec, u)) => {
                    let (_, rest) = rest_span(u);
                    proof {
                        assert(rest@ =~= i@.skip(i@.len() as int));
                    }
                    Ok((Nfs3RequestMkdir { handle, name_vec }, rest))
                },
            }
        },
    }
}

// ---------------------------------------------------------------------------
// RENAME request: source handle and padded name, then destination handle and
// name, whose filler is swallowed with the rest of the buffer.
// ---------------------------------------------------------------------------
#[derive(Debug, PartialEq)]
pub struct Nfs3RequestRename<'a> {
    pub from_handle: Nfs3Handle<'a>,
    pub from_name_vec: Vec<u8>,
    pub to_handle: Nfs3Handle<'a>,
    pub to_name_vec: Vec<u8>,
}

#[verifier::ext_equal]
pub ghost struct Nfs3RequestRenameView {
    pub from_handle: Nfs3HandleView,
    pub from_name_vec: Seq<u8>,
    pub to_handle: Nfs3HandleView,
    pub to_name_vec: Seq<u8>,
}

impl View for Nfs3RequestRename<'_> {
    type V = Nfs3RequestRenameView;

    open spec fn view(&self) -> Nfs3RequestRenameView {
        Nfs3RequestRenameView {
            from_handle: self.from_handle@,
            from_name_vec: self.from_name_vec@,
            to_handle: self.to_handle@,
            to_name_vec: self.to_name_vec@,
        }
    }
}

/// Layout of a RENAME request: source handle, padded source name,
/// destination handle, bare destination name, then the rest of the buffer
/// (the destination name's filler) consumed and discarded.
pub open spec fn spec_parse_request_rename(s: Seq<u8>) -> Result<
    (nat, Nfs3RequestRenameView),
    DecodeError,
> {
    match spec_parse_handle(s) {
        Err(e) => Err(e),
        Ok((n0, fh)) => {
            let t = s.skip(n0 as int);
            match spec_parse_padded_name(t) {
                Err(e) => Err(e),
                Ok((n1, from_name)) => {
                    let u = t.skip(n1 as int);
                    match spec_parse_handle(u) {
                        Err(e) => Err(e),
                        Ok((n2, th)) => {
                            match spec_parse_name(u.skip(n2 as int)) {
                                Err(e) => Err(e),
                                Ok((n3, to_name)) => Ok(
                                    (
                                        s.len(),
                                        Nfs3RequestRenameView {
                                            from_handle: fh,
                                            from_name_vec: from_name,
                                            to_handle: th,
                                            to_name_vec: to_name,
                                        },
                                    ),
                                ),
                            }
                        },
                    }
                },
            }
        },
    }
}

/// Decodes a RENAME request from the front of `i`, consuming the whole
/// buffer.
pub fn parse_nfs3_request_rename<'a>(i: &'a [u8]) -> (r: Result<
    (Nfs3RequestRename<'a>, &'a [u8]),
    DecodeError,
>)
    ensures
        (match spec_parse_request_rename(i@) {
            Ok((n, v)) => r matches Ok((rec, rest)) && rec@ == v && rest@ == i@.skip(n as int),
            Err(e) => r matches Err(e2) && e2 == e,
        }),
{
    match parse_nfs3_handle(i) {
        Err(e) => Err(e),
        Ok((from_handle, t)) => {
            match parse_padded_name(t) {
                Err(e) => Err(e),
                Ok((_from_len, from_name_vec, u)) => {
                    match parse_nfs3_handle(u) {
                        Err(e) => Err(e),
                        Ok((to_handle, v)) => {
                            match parse_name(v) {
                                Err(e) => Err(e),
                                Ok((_to_len, to_name_vec, w)) => {
                                    let (_, rest) = rest_span(w);
                                    proof {
                                        assert(rest@ =~= i@.skip(i@.len() as int));
                                    }
                                    Ok(
                                        (
                                            Nfs3RequestRename {
                                                from_handle,
                                                from_name_vec,
                                                to_handle,
                                                to_name_vec,
                                            },
                                            rest,
                                        ),
                                    )
                                },
                            }
                        },
                    }
                },
            }
        },
    }
}

// ---------------------------------------------------------------------------
// CREATE request: a directory handle, a padded name, the create mode, then
// whatever remains kept uninterpreted as a verifier/attributes blob.
// ---------------------------------------------------------------------------
#[derive(Debug, PartialEq)]
pub struct Nfs3RequestCreate<'a> {
    pub handle: Nfs3Handle<'a>,
    pub name_len: u32,
    pub create_mode: u32,
    pub verifier: &'a [u8],
    pub name_vec: Vec<u8>,
}

#[verifier::ext_equal]
pub ghost struct Nfs3RequestCreateView {
    pub handle: Nfs3HandleView,
    pub name_len: u32,
    pub create_mode: u32,
    pub verifier: Seq<u8>,
    pub name_vec: Seq<u8>,
}

impl View for Nfs3RequestCreate<'_> {
    type V = Nfs3RequestCreateView;

    open spec fn view(&self) -> Nfs3RequestCreateView {
        Nfs3RequestCreateView {
            handle: self.handle@,
            name_len: self.name_len,
            create_mode: self.create_mode,
            verifier: self.verifier@,
            name_vec: self.name_vec@,
        }
    }
}

/// Layout of a CREATE request: the directory handle, a padded name field,
/// a four-byte create mode, then the rest of the buffer kept as an
/// uninterpreted verifier/attributes blob.
pub open spec fn spec_parse_request_create(s: Seq<u8>) -> Result<
    (nat, Nfs3RequestCreateView),
    DecodeError,
> {
    match spec_parse_handle(s) {
        Err(e) => Err(e),
        Ok((n0, h)) => {
            let t = s.skip(n0 as int);
            match spec_parse_padded_name(t) {
                Err(e) => Err(e),
                Ok((n1, name)) => {
                    let u = t.skip(n1 as int);
                    if u.len() < 4 {
                        Err(DecodeError::Incomplete)
                    } else {
                        Ok(
                            (
                                s.len(),
                                Nfs3RequestCreateView {
                                    handle: h,
                                    name_len: name.len() as u32,
                                    create_mode: be32(u),
                                    verifier: u.skip(4),
                                    name_vec: name,
                                },
                            ),
                        )
                    }
                },
            }
        },
    }
}

/// Decodes a CREATE request from the front of `i`, consuming the whole
/// buffer.
pub fn parse_nfs3_request_create<'a>(i: &'a [u8]) -> (r: Result<
    (Nfs3RequestCreate<'a>, &'a [u8]),
    DecodeError,
>)
    ensures
        (match spec_parse_request_create(i@) {
            Ok((n, v)) => r matches Ok((rec, rest)) && rec@ == v && rest@ == i@.skip(n as int),
            Err(e) => r matches Err(e2) && e2 == e,
        }),
{
    match parse_nfs3_handle(i) {
        Err(e) => Err(e),
        Ok((handle, t)) => {
            match parse_padded_name(t) {
                Err(e) => Err(e),
                Ok((name_len, name_vec, u)) => {
                    match read_be_u32(u) {
                        Err(e) => Err(e),
                        Ok((create_mode, v)) => {
                            let (verifier, rest) = rest_span(v);
                            proof {
                                assert(rest@ =~= i@.skip(i@.len() as int));
                            }
                            Ok(
                                (
                                    Nfs3RequestCreate {
                                        handle,
                                        name_len,
                                        create_mode,
                                        verifier,
                                        name_vec,
                                    },
                                    rest,
                                ),
                            )
                        },
                    }
                },
            }
        },
    }
}

// ---------------------------------------------------------------------------
// READDIRPLUS request: handle, cookie, an eight-byte verifier kept as a
// borrowed blob, and the dircount/maxcount limits.
// ---------------------------------------------------------------------------
#[derive(Debug, PartialEq)]
pub struct Nfs3RequestReaddirplus<'a> {
    pub handle: Nfs3Handle<'a>,
    pub cookie: u32,
    pub verifier: &'a [u8],
    pub dircount: u32,
    pub maxcount: u32,
}

#[verifier::ext_equal]
pub ghost struct Nfs3RequestReaddirplusView {
    pub handle: Nfs3HandleView,
    pub cookie: u32,
    pub verifier: Seq<u8>,
    pub dircount: u32,
    pub maxcount: u32,
}

impl View for Nfs3RequestReaddirplus<'_> {
    type V = Nfs3RequestReaddirplusView;

    open spec fn view(&self) -> Nfs3RequestReaddirplusView {
        Nfs3RequestReaddirplusView {
            handle: self.handle@,
            cookie: self.cookie,
            verifier: self.verifier@,
            dircount: self.dircount,
            maxcount: self.maxcount,
        }
    }
}

/// Layout of a READDIRPLUS request: the directory handle, a four-byte
/// cookie, an eight-byte cookie verifier, then the dircount and maxcount
/// limits.
pub open spec fn spec_parse_request_readdirplus(s: Seq<u8>) -> Result<
    (nat, Nfs3RequestReaddirplusView),
    DecodeError,
> {
    match spec_parse_handle(s) {
        Err(e) => Err(e),
        Ok((n, h)) => {
            let t = s.skip(n as int);
            if t.len() < 4 {
                Err(DecodeError::Incomplete)
            } else {
                let u = t.skip(4);
                if u.len() < 8 {
                    Err(DecodeError::Incomplete)
                } else {
                    let w = u.skip(8);
                    if w.len() < 4 {
                        Err(DecodeError::Incomplete)
                    } else if w.len() < 8 {
                        Err(DecodeError::Incomplete)
                    } else {
                        Ok(
                            (
                                (n + 20) as nat,
                                Nfs3RequestReaddirplusView {
                                    handle: h,
                                    cookie: be32(t),
                                    verifier: u.take(8),
                                    dircount: be32(w),
                                    maxcount: be32(w.skip(4)),
                                },
                            ),
                        )
                    }
                }
            }
        },
    }
}

/// Decodes a READDIRPLUS request from the front of `i`.
pub fn parse_nfs3_request_readdirplus<'a>(i: &'a [u8]) -> (r: Result<
    (Nfs3RequestReaddirplus<'a>, &'a [u8]),
    DecodeError,
>)
    ensures
        (match spec_parse_request_readdirplus(i@) {
            Ok((n, v)) => r matches Ok((rec, rest)) && rec@ == v && rest@ == i@.skip(n as int),
            Err(e) => r matches Err(e2) && e2 == e,
        }),
{
    match parse_nfs3_handle(i) {
        Err(e) => Err(e),
        Ok((handle, t)) => {
            match read_be_u32(t) {
                Err(e) => Err(e),
                Ok((cookie, u)) => {
                    match take_span(u, 8) {
                        None => Err(DecodeError::Incomplete),
                        Some((verifier, w)) => {
                            match read_be_u32(w) {
                                Err(e) => Err(e),
                                Ok((dircount, x)) => {
                                    match read_be_u32(x) {
                                        Err(e) => Err(e),
                                        Ok((maxcount, rest)) => {
                                            proof {
                                                let n = spec_parse_handle(i@)->Ok_0.0;
                                                assert(rest@ =~= i@.skip(n as int + 20));
                                            }
                                            Ok(
                                                (
                                                    Nfs3RequestReaddirplus {
                                                        handle,
                                                        cookie,
                                                        verifier,
                                                        dircount,
                                                        maxcount,
                                                    },
                                                    rest,
                                                ),
                                            )
                                        },
                                    }
                                },
                            }
                        },
                    }
                },
            }
        },
    }
}

} // verus!
