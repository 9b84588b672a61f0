//! Fail-closed extraction of facts earlier validation established.
//!
//! Renderers use this seam instead of inventing plausible fallback metadata:
//! if phase ordering or validation changes, an incomplete proof becomes an
//! explicit error rather than valid-looking generated Rust.

use vstd::prelude::*;

use crate::schema::{Fault, GenerationError, Message};
use crate::strings::cat2;
use crate::versions::{single_bounded_of, VersionSet};

verus! {

/// The refusal when `concept` is not one bounded interval.
pub open spec fn unbounded_fault(message: &Message, concept: Seq<char>) -> Fault {
    Fault::InternalInvariant { message: message.name.text@, detail: concept + " is not one bounded interval"@ }
}

/// The bounds of a version set that must be one bounded interval.
pub fn bounded(message: &Message, versions: &VersionSet, concept: &str) -> (r: Result<(i16, i16), GenerationError>)
    ensures
        match single_bounded_of(versions@) {
            Some(bounds) => r == Ok::<(i16, i16), GenerationError>(bounds),
            None => r matches Err(e) && e@ == unbounded_fault(message, concept@),
        },
{
    match versions.single_bounded() {
        Some(bounds) => Ok(bounds),
        None => {
            let detail = cat2(concept, " is not one bounded interval");
            Err(GenerationError::internal(message, detail.as_str()))
        },
    }
}

/// The bounds of a version set that is empty or one bounded interval.
pub fn optional_bounded(message: &Message, versions: &VersionSet, concept: &str) -> (r: Result<Option<(i16, i16)>, GenerationError>)
    ensures
        if versions@ == Set::<int>::empty() {
            r == Ok::<Option<(i16, i16)>, GenerationError>(None)
        } else {
            match single_bounded_of(versions@) {
                Some(bounds) => r == Ok::<Option<(i16, i16)>, GenerationError>(Some(bounds)),
                None => r matches Err(e) && e@ == unbounded_fault(message, concept@),
            }
        },
{
    if versions.is_empty() {
        Ok(None)
    } else {
        match bounded(message, versions, concept) {
            Ok(bounds) => Ok(Some(bounds)),
            Err(e) => Err(e),
        }
    }
}

} // verus!
