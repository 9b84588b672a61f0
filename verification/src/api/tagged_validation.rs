//! Generated validation for retained fields that overlap active known tags.
//!
//! General representability and recursive descent belong to the validation
//! renderer; this file owns only the tag-ownership phase and its diagnostic.

use vstd::prelude::*;

use crate::api::imports::{spell, spelling};
use crate::api::symbol::ExternalSymbol as S;
use crate::api::tag_plan::{active_in, known_order, known_tag_plans, owner_gate, KnownTagPlan};
use crate::api::tagged::lemma_plan_order_indices;
use crate::api::tagged_proof::{order_tags, RenderedKnownTags};
use crate::field::version::{as_conjunct, conjunct};
use crate::schema::{Field, Scope, ScopeView};
use crate::strings::{decimal, decimal_u64, owned};
use crate::text::{emit_blank, emit_close, emit_line, emit_open, RustText};

verus! {

/// The check refusing a retained entry that reuses one active known tag.
pub open spec fn ownership_check_text(t: Seq<char>, d: nat, tag: u32, field: Field, scope: ScopeView, owner: Seq<char>) -> Seq<char> {
    let message = scope.message;
    let collision = "self.unknown_tagged_fields.contains_tag("@ + decimal(tag as int) + ")"@;
    let condition = match owner_gate(field, scope) {
        None => collision,
        Some(presence) => conjunct(presence) + " && "@ + collision,
    };
    let t = emit_open(t, d, "if "@ + condition);
    let t = emit_open(
        t,
        d + 1,
        "return "@ + spelling(message, S::ResultErr) + "("@ + spelling(message, S::EncodeError) + "::KnownTagConflict"@,
    );
    let t = emit_line(t, d + 2, "message: "@ + owner + ","@);
    let t = emit_line(t, d + 2, "tag: "@ + decimal(tag as int) + ","@);
    let t = emit_line(t, d + 2, "version,"@);
    let t = emit_close(t, d + 1, ");"@);
    emit_close(t, d, ""@)
}

/// The checks of the first `n` known tags.
pub open spec fn ownership_checks_text(
    t: Seq<char>,
    d: nat,
    fields: Seq<Field>,
    keys: Seq<(u32, int)>,
    n: int,
    scope: ScopeView,
    owner: Seq<char>,
) -> Seq<char>
    decreases n,
{
    if n <= 0 {
        t
    } else {
        let before = ownership_checks_text(t, d, fields, keys, n - 1, scope, owner);
        ownership_check_text(before, d, keys[n - 1].0, fields[keys[n - 1].1], scope, owner)
    }
}

/// The tag-ownership validator, or nothing when no tag is known.
pub open spec fn ownership_text(t: Seq<char>, d: nat, fields: Seq<Field>, scope: ScopeView, owner: Seq<char>) -> Seq<char> {
    let keys = known_order(fields);
    let message = scope.message;
    if keys.len() == 0 {
        t
    } else {
        let t = emit_open(
            t,
            d,
            "pub(crate) fn validate_known_tag_ownership(&self, version: "@ + spelling(message, S::ApiVersion) + ") -> "@
                + spelling(message, S::Result) + "<(), "@ + spelling(message, S::EncodeError) + ">"@,
        );
        let t = ownership_checks_text(t, d + 1, fields, keys, keys.len() as int, scope, owner);
        let t = emit_line(t, d + 1, spelling(message, S::ResultOk) + "(())"@);
        let t = emit_close(t, d, ""@);
        emit_blank(t)
    }
}

fn render_ownership_check(rust: &mut RustText, plan: &KnownTagPlan, field: &Field, scope: &Scope, owner: &str)
    requires
        old(rust).room(3),
        plan.active_versions@ == active_in(*field, scope@),
    ensures
        final(rust).text() == ownership_check_text(old(rust).text(), old(rust).depth(), plan.tag, *field, scope@, owner@),
        final(rust).depth() == old(rust).depth(),
{
    let message = scope.message;
    let number = decimal_u64(plan.tag as u64);
    let collision = crate::strings::cat3("self.unknown_tagged_fields.contains_tag(", number.as_str(), ")");
    let condition = match plan.owner_condition(field, scope) {
        None => collision,
        Some(presence) => {
            let mut c = as_conjunct(presence.as_str());
            c.append(" && ");
            c.append(collision.as_str());
            c
        },
    };
    let head = crate::strings::cat2("if ", condition.as_str());
    rust.open(head.as_str());
    let err = spell(message, S::ResultErr);
    let error = spell(message, S::EncodeError);
    let l = crate::strings::cat5("return ", err.as_str(), "(", error.as_str(), "::KnownTagConflict");
    rust.open(l.as_str());
    let l = crate::strings::cat3("message: ", owner, ",");
    rust.line(l.as_str());
    let l = crate::strings::cat3("tag: ", number.as_str(), ",");
    rust.line(l.as_str());
    rust.line("version,");
    rust.close(");");
    rust.close("");
}

fn render_ownership_head(rust: &mut RustText, scope: &Scope)
    requires
        old(rust).room(1),
    ensures
        final(rust).text() == emit_open(
            old(rust).text(),
            old(rust).depth(),
            "pub(crate) fn validate_known_tag_ownership(&self, version: "@ + spelling(scope.message, S::ApiVersion)
                + ") -> "@ + spelling(scope.message, S::Result) + "<(), "@ + spelling(scope.message, S::EncodeError) + ">"@,
        ),
        final(rust).depth() == old(rust).depth() + 1,
{
    let message = scope.message;
    let api_version = spell(message, S::ApiVersion);
    let result = spell(message, S::Result);
    let error = spell(message, S::EncodeError);
    let mut l = owned("pub(crate) fn validate_known_tag_ownership(&self, version: ");
    l.append(api_version.as_str());
    l.append(") -> ");
    l.append(result.as_str());
    l.append("<(), ");
    l.append(error.as_str());
    l.append(">");
    rust.open(l.as_str());
}

/// Emits the generated check that no retained entry reuses an active known
/// tag, and reports the tags it checked, in check order.
pub fn render_known_tag_ownership(rust: &mut RustText, fields: &Vec<Field>, scope: &Scope, owner: &str) -> (checked: RenderedKnownTags)
    requires
        old(rust).room(4),
    ensures
        final(rust).text() == ownership_text(old(rust).text(), old(rust).depth(), fields@, scope@, owner@),
        final(rust).depth() == old(rust).depth(),
        checked@ == order_tags(known_order(fields@)),
{
    let plans = known_tag_plans(fields, scope);
    let ghost keys = known_order(fields@);
    proof {
        lemma_plan_order_indices(fields@, fields@.len() as int);
    }
    assert(forall|k: int| 0 <= k < plans@.len() ==> (#[trigger] plans@[k]).tag == keys[k].0 && plans@[k].field_index == keys[k].1) by {
        assert forall|k: int| 0 <= k < plans@.len() implies (#[trigger] plans@[k]).tag == keys[k].0 && plans@[k].field_index == keys[k].1 by {
            assert(crate::api::tag_plan::plan_keys(plans@)[k] == keys[k]);
        }
    }
    let mut checked = RenderedKnownTags::default();
    if plans.len() == 0 {
        assert(checked@ =~= order_tags(keys));
        return checked;
    }
    render_ownership_head(rust, scope);
    let ghost start = rust.text();
    let ghost depth = rust.depth();
    let mut i: usize = 0;
    while i < plans.len()
        invariant
            crate::api::tag_plan::is_plan_of(plans@, fields@, scope@),
            keys == known_order(fields@),
            forall|k: int| 0 <= k < plans@.len() ==> (#[trigger] plans@[k]).tag == keys[k].0 && plans@[k].field_index == keys[k].1,
            forall|k: int| 0 <= k < keys.len() ==> 0 <= (#[trigger] keys[k]).1 < fields@.len(),
            i <= plans@.len(),
            rust.depth() == depth,
            depth + 3 <= usize::MAX,
            rust.text() == ownership_checks_text(start, depth, fields@, keys, i as int, scope@, owner@),
            checked@ == order_tags(keys).take(i as int),
        decreases plans@.len() - i,
    {
        let plan = &plans[i];
        assert(plans@[i as int].active_versions@ == active_in(fields@[plans@[i as int].field_index as int], scope@));
        render_ownership_check(rust, plan, &fields[plan.field_index], scope, owner);
        checked.record(plan.tag);
        proof {
            let all = order_tags(keys);
            assert(all.take(i + 1) =~= all.take(i as int).push(plan.tag));
        }
        i = i + 1;
    }
    proof {
        let all = order_tags(keys);
        assert(all.take(i as int) =~= all);
    }
    let ok = spell(scope.message, S::ResultOk);
    let l = crate::strings::cat2(ok.as_str(), "(())");
    rust.line(l.as_str());
    rust.close("");
    rust.blank();
    checked
}

} // verus!
