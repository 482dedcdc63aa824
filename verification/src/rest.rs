//! Error markers of the request-facing layer. The HTTP layer itself (routing,
//! lock handling, response shaping) stands outside the library; these are the
//! typed conditions it reports.

use vstd::prelude::*;

verus! {

/// The request asked for a platform the service does not support.
#[derive(Clone, Copy, Debug)]
pub struct SystemUnsupportedError {}

/// A required request header was absent; the field names it.
#[derive(Clone, Copy, Debug)]
pub struct MissingHeaderError<'a>(pub &'a str);

/// A condition after which the whole process must be torn down rather than
/// keep serving possibly corrupted state.
#[derive(Clone, Copy, Debug)]
pub enum FatalError {
    CentralLockPoisoned,
}

} // verus!
