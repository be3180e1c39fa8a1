//! Fresh identifiers for enriched records and output files.

use vstd::prelude::*;

verus! {

/// Relies on uuid::Uuid::new_v4 and its Display form: the hyphenated text of
/// a UUID is always 36 characters. The value is random, so nothing more is
/// promised of it.
#[verifier::external_body]
pub(crate) fn fresh_id() -> (r: String)
    ensures
        r@.len() == 36,
{
    uuid::Uuid::new_v4().to_string()
}

} // verus!
