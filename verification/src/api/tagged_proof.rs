//! Structural check that both generated tag-ownership paths match the schema.
//!
//! Validation and encoding render separately, so the tag numbers each renderer
//! actually emitted are compared with the schema's rather than trusting that
//! shared source text agrees.

use vstd::prelude::*;

use crate::api::tag_plan::{known_order, known_tag_plans};
use crate::schema::{Fault, Field, GenerationError, Scope};
use crate::strings::{decimal, decimal_u64, owned};

verus! {

/// The tag numbers of a plan order.
pub open spec fn order_tags(keys: Seq<(u32, int)>) -> Seq<u32> {
    keys.map_values(|k: (u32, int)| k.0)
}

/// Tag numbers recorded beside one generated construct, in emission order.
#[derive(Debug)]
pub struct RenderedKnownTags {
    tags: Vec<u32>,
}

impl View for RenderedKnownTags {
    type V = Seq<u32>;

    closed spec fn view(&self) -> Seq<u32> {
        self.tags@
    }
}

impl Default for RenderedKnownTags {
    fn default() -> (r: RenderedKnownTags)
        ensures
            r@ == Seq::<u32>::empty(),
    {
        RenderedKnownTags { tags: Vec::new() }
    }
}

impl RenderedKnownTags {
    /// Records one tag at the statement that renders it.
    pub fn record(&mut self, tag: u32)
        ensures
            final(self)@ == old(self)@.push(tag),
    {
        self.tags.push(tag);
    }

    /// Whether the renderer emitted no tag-specific construct.
    pub fn is_empty(&self) -> (r: bool)
        ensures
            r == (self@.len() == 0),
    {
        self.tags.len() == 0
    }

    /// Whether exactly `expected` was recorded, in that order.
    pub fn matches(&self, expected: &[u32]) -> (r: bool)
        ensures
            r == (self@ == expected@),
    {
        if self.tags.len() != expected.len() {
            return false;
        }
        let mut i: usize = 0;
        while i < expected.len()
            invariant
                self.tags@.len() == expected@.len(),
                i <= expected@.len(),
                forall|j: int| 0 <= j < i ==> self.tags@[j] == expected@[j],
            decreases expected@.len() - i,
        {
            if self.tags[i] != expected[i] {
                return false;
            }
            i = i + 1;
        }
        assert(self.tags@ =~= expected@);
        true
    }

    /// The recorded tags as `{:?}` writes a list.
    pub fn listed(&self) -> (r: String)
        ensures
            r@ == tag_list_text(self@),
    {
        tag_list(&self.tags)
    }
}

/// The items of a tag list after the first `n`, each preceded by `, `.
pub open spec fn tag_items(tags: Seq<u32>, n: int) -> Seq<char>
    decreases n,
{
    if n <= 0 {
        Seq::empty()
    } else if n == 1 {
        decimal(tags[0] as int)
    } else {
        tag_items(tags, n - 1) + ", "@ + decimal(tags[n - 1] as int)
    }
}

/// A tag list as `{:?}` writes it: `[0, 2]`.
pub open spec fn tag_list_text(tags: Seq<u32>) -> Seq<char> {
    "["@ + tag_items(tags, tags.len() as int) + "]"@
}

fn tag_list(tags: &Vec<u32>) -> (r: String)
    ensures
        r@ == tag_list_text(tags@),
{
    let mut items = String::new();
    let mut i: usize = 0;
    while i < tags.len()
        invariant
            i <= tags@.len(),
            items@ == tag_items(tags@, i as int),
        decreases tags@.len() - i,
    {
        if i > 0 {
            items.append(", ");
        }
        let n = decimal_u64(tags[i] as u64);
        items.append(n.as_str());
        i = i + 1;
    }
    let mut r = owned("[");
    r.append(items.as_str());
    r.append("]");
    r
}

/// The divergence report when a rendered tag list disagrees with the schema.
pub open spec fn divergence(owner: Seq<char>, expected: Seq<u32>, validated: Seq<u32>, claimed: Seq<u32>) -> Seq<char> {
    "known-tag rendering diverged for "@ + owner + ": IR "@ + tag_list_text(expected) + ", validation "@
        + tag_list_text(validated) + ", claims "@ + tag_list_text(claimed)
}

/// Requires schema ownership, validation checks, and encode-time claims to name
/// the same tags in the same order.
pub fn verify_known_tag_rendering(
    fields: &Vec<Field>,
    scope: &Scope,
    owner: &str,
    validated: &RenderedKnownTags,
    claimed: &RenderedKnownTags,
) -> (r: Result<(), GenerationError>)
    ensures
        ({
            let expected = order_tags(known_order(fields@));
            if validated@ == expected && claimed@ == expected {
                r is Ok
            } else {
                r matches Err(e) && e@ == (Fault::InternalInvariant {
                    message: scope.message.name.text@,
                    detail: divergence(owner@, expected, validated@, claimed@),
                })
            }
        }),
{
    let plans = known_tag_plans(fields, scope);
    let mut expected: Vec<u32> = Vec::new();
    let mut i: usize = 0;
    while i < plans.len()
        invariant
            i <= plans@.len(),
            expected@ == order_tags(crate::api::tag_plan::plan_keys(plans@)).take(i as int),
        decreases plans@.len() - i,
    {
        expected.push(plans[i].tag);
        proof {
            let all = order_tags(crate::api::tag_plan::plan_keys(plans@));
            assert(all.take(i + 1) =~= all.take(i as int).push(plans@[i as int].tag));
        }
        i = i + 1;
    }
    proof {
        let all = order_tags(crate::api::tag_plan::plan_keys(plans@));
        assert(all.take(i as int) =~= all);
    }
    if validated.matches(expected.as_slice()) && claimed.matches(expected.as_slice()) {
        return Ok(());
    }
    let wanted = tag_list(&expected);
    let seen = validated.listed();
    let sent = claimed.listed();
    let mut detail = owned("known-tag rendering diverged for ");
    detail.append(owner);
    detail.append(": IR ");
    detail.append(wanted.as_str());
    detail.append(", validation ");
    detail.append(seen.as_str());
    detail.append(", claims ");
    detail.append(sent.as_str());
    Err(GenerationError::internal(scope.message, detail.as_str()))
}

} // verus!
