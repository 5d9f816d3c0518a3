//! The result shape and the two error kinds that every grammar rule returns.

use vstd::prelude::*;

verus! {

/// A parse error.
///
/// `Known` names a semantic or syntactic violation in input that is
/// structurally present ("year must be after 1990"). `TagError` signals that
/// an expected literal token was absent at the current position, so a caller
/// trying alternatives may treat it as "this alternative did not match"
/// rather than as a hard failure.
#[derive(Debug, PartialEq, Clone)]
pub enum Error {
    Known(&'static str),
    TagError(&'static str),
}

/// The universal parse result: on success, the unconsumed suffix of the
/// input together with the parsed value; on failure, an [`Error`].
pub type Res<'a, T> = Result<(&'a [u8], T), Error>;

} // verus!
