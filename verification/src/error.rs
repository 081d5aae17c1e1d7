use vstd::prelude::*;

verus! {

/// Why a decode attempt failed.
///
/// `Incomplete` means the buffer ended inside a fixed-size field (an integer,
/// a flag, a cookie, an opaque blob of known size, or alignment filler): more
/// bytes could make the same decode succeed.
///
/// `ConstraintViolation` means a decoded scalar fell outside its allowed
/// range: an optional-field flag outside {0, 1}, a write stability mode
/// outside {0, 1, 2}, or a declared data length exceeding its governing
/// count. No amount of further data can repair such a message.
///
/// `Malformed` means a declared length asked for more bytes than remain for a
/// field that has no partial-read fallback (a handle body, a name body, or a
/// payload body whose caller promised a complete buffer).
#[derive(Debug, Clone, Copy, PartialEq, Eq, Structural)]
pub enum DecodeError {
    Incomplete,
    ConstraintViolation,
    Malformed,
}

} // verus!
