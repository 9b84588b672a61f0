//! The fixed batch of compiler-authored verification files: stable paths and
//! producer identities for the fuzz dispatch and the two tag censuses.

use vstd::prelude::*;

use crate::fuzz_dispatch::{dispatch_fault, dispatch_text, render_fuzz_dispatch};
use crate::group::{ApiGroup, MessageSource};
use crate::schema::GenerationError;
use crate::tag_assertions::{census_text, render_tag_boundaries, render_tag_claims, sorted_outcome};
use crate::tag_census::Census;
use crate::text::trimmed;

verus! {

/// One rendered verification file and the label of what produced it.
pub struct VerificationFile {
    pub path: &'static str,
    pub source: String,
    pub producer: &'static str,
}

/// Renders the whole batch, failing on the first file that cannot render.
pub fn render_verification_files(groups: &Vec<ApiGroup>, unkeyed: &Vec<MessageSource>, commit: &str) -> (r: Result<
    Vec<VerificationFile>,
    GenerationError,
>)
    ensures
        match dispatch_fault(groups@, unkeyed@) {
            Some(f) => r matches Err(e) && e@ == f,
            None => match sorted_outcome(groups@, unkeyed@, Census::Boundaries) {
                Err(f) => r matches Err(e) && e@ == f,
                Ok(boundaries) => match sorted_outcome(groups@, unkeyed@, Census::Claims) {
                    Err(f) => r matches Err(e) && e@ == f,
                    Ok(claims) => r matches Ok(files) && files@.len() == 3 && files@[0].path@ == "fuzz_roundtrip.rs"@
                        && files@[0].source@ == trimmed(dispatch_text(groups@, unkeyed@, commit@)) && files@[0].producer@
                        == "fixed fuzz dispatch"@ && files@[1].path@ == "tag_boundaries.rs"@ && files@[1].source@
                        == trimmed(census_text(Census::Boundaries, boundaries, commit@)) && files@[1].producer@
                        == "fixed known-tag boundary assertions"@ && files@[2].path@ == "tag_claims.rs"@
                        && files@[2].source@ == trimmed(census_text(Census::Claims, claims, commit@))
                        && files@[2].producer@ == "fixed known-tag claim assertions"@,
                },
            },
        },
{
    let dispatch = render_fuzz_dispatch(groups, unkeyed, commit)?;
    let boundaries = render_tag_boundaries(groups, unkeyed, commit)?;
    let claims = render_tag_claims(groups, unkeyed, commit)?;
    let files = vec![
        VerificationFile { path: "fuzz_roundtrip.rs", source: dispatch, producer: "fixed fuzz dispatch" },
        VerificationFile { path: "tag_boundaries.rs", source: boundaries, producer: "fixed known-tag boundary assertions" },
        VerificationFile { path: "tag_claims.rs", source: claims, producer: "fixed known-tag claim assertions" },
    ];
    Ok(files)
}

} // verus!
