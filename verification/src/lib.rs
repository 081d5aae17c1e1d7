//! Verified decoders for NFSv3 procedure payloads carried over RPC.
//!
//! Each decoder consumes bytes from the front of a caller-supplied buffer and
//! returns a structured record together with the unconsumed remainder, or a
//! typed failure. The byte layout — big-endian integers, length-prefixed
//! opaque handles, four-byte alignment filler after names, {0,1} flags gating
//! optional fields — is stated by spec functions, and every executable
//! decoder is proved to follow them exactly: no panic, no read past the
//! buffer, and a usable partial result when a payload spans several network
//! arrivals.

pub mod bytes;
pub mod error;
pub mod fields;
pub mod handle;
pub mod payload;
pub mod readdir;
pub mod replies;
pub mod requests;

pub use crate::error::DecodeError;
pub use crate::handle::{parse_nfs3_handle, Nfs3Handle};
pub use crate::payload::{
    parse_nfs3_data_complete, parse_nfs3_data_partial, parse_nfs3_reply_read,
    parse_nfs3_request_write, Nfs3RequestWrite, NfsReplyRead,
};
pub use crate::readdir::{
    parse_nfs3_response_readdirplus_entries, parse_nfs3_response_readdirplus_entry,
    parse_nfs3_response_readdirplus_entry_cond, Nfs3ResponseReaddirplusEntry,
    Nfs3ResponseReaddirplusEntryC,
};
pub use crate::replies::{
    parse_nfs3_response_create, parse_nfs3_response_lookup, parse_nfs3_response_readdirplus,
    Nfs3ReplyCreate, Nfs3ReplyLookup, Nfs3ResponseReaddirplus,
};
pub use crate::requests::{
    parse_nfs3_request_access, parse_nfs3_request_commit, parse_nfs3_request_create,
    parse_nfs3_request_getattr, parse_nfs3_request_lookup, parse_nfs3_request_mkdir,
    parse_nfs3_request_read, parse_nfs3_request_readdirplus, parse_nfs3_request_remove,
    parse_nfs3_request_rename, parse_nfs3_request_rmdir, Nfs3RequestAccess, Nfs3RequestCommit,
    Nfs3RequestCreate, Nfs3RequestGetAttr, Nfs3RequestLookup, Nfs3RequestMkdir, Nfs3RequestRead,
    Nfs3RequestReaddirplus, Nfs3RequestRemove, Nfs3RequestRename, Nfs3RequestRmdir,
};
