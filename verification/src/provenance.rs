//! The banner that opens every rendered file.

use vstd::prelude::*;

use crate::strings::owned;

verus! {

/// The first line of every rendered file.
pub open spec fn banner_text() -> Seq<char> {
    "//! Kafka wire types for one API key. Edit the schemas, not this file."@
}

pub fn generated_banner() -> (r: String)
    ensures
        r@ == banner_text(),
{
    owned("//! Kafka wire types for one API key. Edit the schemas, not this file.")
}

} // verus!
