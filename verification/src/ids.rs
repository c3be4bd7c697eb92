//! Fresh identifiers for batches and attempts.

use vstd::prelude::*;

verus! {

/// The number of characters of an identifier.
pub const ID_LENGTH: usize = 36;

/// `uuid::Uuid::new_v4`, written out in hyphenated form: a random
/// identifier of 36 characters. Two calls may return anything, equal or
/// not; all that is claimed is the length. The call relies on the
/// operating system's random number generator and does not return if that
/// is unavailable.
#[verifier::external_body]
pub(crate) fn random_id() -> (id: String)
    ensures
        id@.len() == ID_LENGTH,
{
    format!("{}", uuid::Uuid::new_v4().hyphenated())
}

} // verus!
