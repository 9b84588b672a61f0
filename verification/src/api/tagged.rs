//! Emission for the known half of a tagged-field section.
//!
//! A flexible structure ends in one section carrying two populations: tags this
//! build does not know are retained bytes owned by the wire kernel, and tags it
//! does know are ordinary fields that happen to travel in the section. Turning
//! the known ones into Rust is what this file owns; the ascending merge of both
//! populations lives in the kernel.

use vstd::prelude::*;

use crate::api::codec::{array_body_text, local, local_text, render_array_body};
use crate::api::imports::{spell, spelling};
use crate::api::symbol::ExternalSymbol as S;
use crate::api::tag_plan::{active_in, is_plan_of, known_order, known_tag_plans, section_gate, KnownTagPlan};
use crate::api::tagged_payload::{tag_helper, tag_helper_text};
use crate::api::tagged_proof::RenderedKnownTags;
use crate::field::codec::{array_length_codec, array_length_text, element_codec, element_fault, element_text, read_expression, read_text};
use crate::field::regime::{is_nullable, nullable_somewhere};
use crate::field::types::{default_expression, default_text, field_type_text, non_default_condition, non_default_text, rust_type};
use crate::schema::{Fault, Field, FieldType, GenerationError, Message, Scope, ScopeView};
use crate::strings::{decimal, decimal_u64, owned};
use crate::text::{emit_blank, emit_close, emit_line, emit_open, RustText};

verus! {

/// Whether this field travels in the tagged-field section rather than inline.
pub fn is_tagged(field: &Field) -> (r: bool)
    ensures
        r == field.tag is Some,
{
    field.tag.is_some()
}

/// Whether any of `fields`, or any member they declare, is tagged.
pub open spec fn fields_tagged(fields: Seq<Field>) -> bool
    decreases fields,
{
    if fields.len() == 0 {
        false
    } else {
        field_tagged(fields[0]) || fields_tagged(fields.drop_first())
    }
}

/// Whether one field, or any member it declares, is tagged.
pub open spec fn field_tagged(field: Field) -> bool
    decreases field,
{
    field.tag is Some || fields_tagged(field.fields@)
}

/// Whether anything a message emits declares a known tag.
pub open spec fn message_tagged(message: &Message) -> bool {
    fields_tagged(message.fields@) || exists|i: int|
        0 <= i < message.common_structs@.len() && fields_tagged(#[trigger] message.common_structs@[i].fields@)
}

fn any_tagged(fields: &Vec<Field>) -> (r: bool)
    ensures
        r == fields_tagged(fields@),
    decreases fields@,
{
    let mut i = fields.len();
    let mut found = false;
    while i > 0
        invariant
            i <= fields@.len(),
            found == fields_tagged(fields@.skip(i as int)),
        decreases i,
    {
        i = i - 1;
        let field = &fields[i];
        proof {
            assert(fields@.skip(i as int)[0] == *field);
            assert(fields@.skip(i as int).drop_first() =~= fields@.skip(i + 1));
        }
        let here = field.tag.is_some() || any_tagged(&field.fields);
        proof {
            assert(here == field_tagged(*field));
            assert(fields_tagged(fields@.skip(i as int)) == (field_tagged(fields@.skip(i as int)[0])
                || fields_tagged(fields@.skip(i as int).drop_first())));
        }
        found = here || found;
    }
    assert(fields@.skip(0) =~= fields@);
    found
}

/// Whether anything this message emits declares a known tag.
///
/// Asked of the whole message, structs included, because the import list is
/// per message module and every struct a message declares lands in it.
pub fn declares_a_tag(message: &Message) -> (r: bool)
    ensures
        r == message_tagged(message),
{
    if any_tagged(&message.fields) {
        return true;
    }
    let commons = &message.common_structs;
    let mut i: usize = 0;
    while i < commons.len()
        invariant
            i <= commons@.len(),
            commons == &message.common_structs,
            forall|k: int| 0 <= k < i ==> !fields_tagged(#[trigger] commons@[k].fields@),
        decreases commons@.len() - i,
    {
        if any_tagged(&commons[i].fields) {
            return true;
        }
        i = i + 1;
    }
    false
}

/// The refusal a tagged field's codec raises: an array of arrays.
pub open spec fn tagged_field_fault(field: Field, scope: ScopeView) -> Option<Fault> {
    match field.ty {
        FieldType::Array(element) => if element_text(*element, &field, scope) is None {
            Some(element_fault(*element, &field, scope))
        } else {
            None
        },
        _ => None,
    }
}

/// The first refusal among the first `n` known tags, in plan order.
pub open spec fn plan_fault(fields: Seq<Field>, keys: Seq<(u32, int)>, n: int, scope: ScopeView) -> Option<Fault>
    decreases n,
{
    if n <= 0 {
        None
    } else {
        match plan_fault(fields, keys, n - 1, scope) {
            Some(f) => Some(f),
            None => tagged_field_fault(fields[keys[n - 1].1], scope),
        }
    }
}

/// The first refusal among a field list's known tags.
pub open spec fn tags_fault(fields: Seq<Field>, scope: ScopeView) -> Option<Fault> {
    plan_fault(fields, known_order(fields), known_order(fields).len() as int, scope)
}

pub proof fn lemma_plan_fault_persists(fields: Seq<Field>, keys: Seq<(u32, int)>, k: int, n: int, scope: &Scope)
    requires
        0 <= k <= n,
        plan_fault(fields, keys, k, scope@) is Some,
    ensures
        plan_fault(fields, keys, n, scope@) == plan_fault(fields, keys, k, scope@),
    decreases n - k,
{
    if n > k {
        lemma_plan_fault_persists(fields, keys, k, n - 1, scope);
    }
}

/// The known-tag entries of a plan order point at tagged fields of the list.
pub proof fn lemma_plan_order_indices(fields: Seq<Field>, n: int)
    requires
        0 <= n <= fields.len(),
    ensures
        forall|k: int|
            0 <= k < plan_order_len(fields, n) ==> 0 <= (#[trigger] crate::api::tag_plan::plan_order(fields, n)[k]).1 < n
                && fields[crate::api::tag_plan::plan_order(fields, n)[k].1].tag == Some(
                crate::api::tag_plan::plan_order(fields, n)[k].0,
            ),
    decreases n,
{
    if n > 0 {
        lemma_plan_order_indices(fields, n - 1);
        let before = crate::api::tag_plan::plan_order(fields, n - 1);
        match fields[n - 1].tag {
            Some(tag) => lemma_sorted_insert_members(before, (tag, n - 1)),
            None => {},
        }
    }
}

/// The length of a plan order.
pub open spec fn plan_order_len(fields: Seq<Field>, n: int) -> int {
    crate::api::tag_plan::plan_order(fields, n).len() as int
}

/// A sorted insertion holds the old entries and the new one, nothing else.
pub proof fn lemma_sorted_insert_members(s: Seq<(u32, int)>, x: (u32, int))
    ensures
        crate::api::tag_plan::sorted_insert(s, x).len() == s.len() + 1,
        forall|k: int|
            0 <= k < s.len() + 1 ==> (#[trigger] crate::api::tag_plan::sorted_insert(s, x)[k] == x || s.contains(
                crate::api::tag_plan::sorted_insert(s, x)[k],
            )),
    decreases s.len(),
{
    if s.len() > 0 && s[0].0 <= x.0 {
        let rest = s.drop_first();
        lemma_sorted_insert_members(rest, x);
        let r = crate::api::tag_plan::sorted_insert(s, x);
        assert forall|k: int| 0 <= k < s.len() + 1 implies (#[trigger] r[k] == x || s.contains(r[k])) by {
            if k == 0 {
                assert(s[0] == r[0]);
            } else {
                assert(r[k] == crate::api::tag_plan::sorted_insert(rest, x)[k - 1]);
                if rest.contains(r[k]) {
                    let j = choose|j: int| 0 <= j < rest.len() && rest[j] == r[k];
                    assert(s[j + 1] == r[k]);
                }
            }
        }
    } else if s.len() > 0 {
        let r = crate::api::tag_plan::sorted_insert(s, x);
        assert forall|k: int| 0 <= k < s.len() + 1 implies (#[trigger] r[k] == x || s.contains(r[k])) by {
            if k > 0 {
                assert(r[k] == s[k - 1]);
            }
        }
    }
}

/// The `let mut` each known tag decodes into, holding its default until read.
pub open spec fn tag_locals_text(t: Seq<char>, d: nat, fields: Seq<Field>, keys: Seq<(u32, int)>, n: int, scope: ScopeView) -> Seq<char>
    decreases n,
{
    if n <= 0 {
        t
    } else {
        let before = tag_locals_text(t, d, fields, keys, n - 1, scope);
        let index = keys[n - 1].1;
        let field = fields[index];
        emit_line(
            before,
            d,
            "let mut "@ + local_text(index) + ": "@ + field_type_text(&field, scope) + " = "@ + default_text(&field, scope)
                + ";"@,
        )
    }
}

/// One `match` arm: the tag number, its version gate, and the value it reads.
pub open spec fn tag_arm_text(t: Seq<char>, d: nat, tag: u32, index: int, field: Field, scope: ScopeView) -> Seq<char> {
    let arm = match section_gate(field, scope) {
        Some(condition) => decimal(tag as int) + " if "@ + condition + " =>"@,
        None => decimal(tag as int) + " =>"@,
    };
    let name = local_text(index);
    let t = emit_open(t, d, arm);
    let t = match field.ty {
        FieldType::Array(element) => {
            let t = emit_open(t, d + 1, name + " ="@);
            let t = array_body_text(
                t,
                d + 2,
                scope.message,
                array_length_text(&field, scope).0,
                element_text(*element, &field, scope).unwrap().0,
                nullable_somewhere(&field, scope),
            );
            emit_close(t, d + 1, ";"@)
        },
        _ => emit_line(t, d + 1, name + " = "@ + read_text(&field, scope) + ";"@),
    };
    let t = emit_line(
        t,
        d + 1,
        spelling(scope.message, S::ResultOk) + "("@ + spelling(scope.message, S::TagOutcome) + "::Decoded)"@,
    );
    emit_close(t, d, ""@)
}

/// The arms of the first `n` known tags.
pub open spec fn tag_arms_text(t: Seq<char>, d: nat, fields: Seq<Field>, keys: Seq<(u32, int)>, n: int, scope: ScopeView) -> Seq<char>
    decreases n,
{
    if n <= 0 {
        t
    } else {
        let before = tag_arms_text(t, d, fields, keys, n - 1, scope);
        tag_arm_text(before, d, keys[n - 1].0, keys[n - 1].1, fields[keys[n - 1].1], scope)
    }
}

/// Reading the tagged-field section: known tags decoded, the rest retained.
pub open spec fn tagged_decode_text(t: Seq<char>, d: nat, fields: Seq<Field>, scope: ScopeView) -> Seq<char> {
    let keys = known_order(fields);
    let message = scope.message;
    let tagged_fields = spelling(message, S::TaggedFields);
    if keys.len() == 0 {
        let t = emit_open(t, d, "let unknown_tagged_fields = if Self::is_flexible(version)"@);
        let t = emit_line(t, d + 1, "decoder.read_tagged_fields()?"@);
        let t = emit_line(t, d, "} else {"@);
        let t = emit_line(t, d + 1, tagged_fields + "::default()"@);
        emit_close(t, d, ";"@)
    } else {
        let t = tag_locals_text(t, d, fields, keys, keys.len() as int, scope);
        let t = emit_line(t, d, "let mut unknown_tagged_fields = "@ + tagged_fields + "::default();"@);
        let t = emit_open(t, d, "if Self::is_flexible(version)"@);
        let t = emit_open(t, d + 1, "unknown_tagged_fields = decoder.read_tagged_fields_with(|tag, decoder| match tag"@);
        let t = tag_arms_text(t, d + 2, fields, keys, keys.len() as int, scope);
        let t = emit_line(
            t,
            d + 2,
            "_ => "@ + spelling(message, S::ResultOk) + "("@ + spelling(message, S::TagOutcome) + "::Retained),"@,
        );
        let t = emit_close(t, d + 1, ")?;"@);
        emit_close(t, d, ""@)
    }
}

fn render_tag_arm(rust: &mut RustText, plan: &KnownTagPlan, field: &Field, scope: &Scope) -> (r: Result<(), GenerationError>)
    requires
        old(rust).room(2),
        plan.active_versions@ == active_in(*field, scope@),
    ensures
        match tagged_field_fault(*field, scope@) {
            None => r is Ok && final(rust).text() == tag_arm_text(
                old(rust).text(),
                old(rust).depth(),
                plan.tag,
                plan.field_index as int,
                *field,
                scope@,
            ) && final(rust).depth() == old(rust).depth(),
            Some(f) => r matches Err(e) && e@ == f,
        },
{
    let number = decimal_u64(plan.tag as u64);
    let arm = match plan.section_condition(field, scope) {
        Some(condition) => {
            let mut a = number;
            a.append(" if ");
            a.append(condition.as_str());
            a.append(" =>");
            a
        },
        None => crate::strings::cat2(number.as_str(), " =>"),
    };
    let name = local(plan.field_index);
    if let FieldType::Array(element) = &field.ty {
        let (read, _) = element_codec(element, field, scope)?;
        let (length, _) = array_length_codec(field, scope);
        rust.open(arm.as_str());
        let head = crate::strings::cat2(name.as_str(), " =");
        rust.open(head.as_str());
        render_array_body(rust, scope.message, length.as_str(), read.as_str(), is_nullable(field, scope));
        rust.close(";");
    } else {
        let expression = read_expression(field, scope)?;
        rust.open(arm.as_str());
        let mut l = name;
        l.append(" = ");
        l.append(expression.as_str());
        l.append(";");
        rust.line(l.as_str());
    }
    let ok = spell(scope.message, S::ResultOk);
    let outcome = spell(scope.message, S::TagOutcome);
    let mut l = ok;
    l.append("(");
    l.append(outcome.as_str());
    l.append("::Decoded)");
    rust.line(l.as_str());
    rust.close("");
    Ok(())
}

/// Reads the tagged-field section, decoding known tags and retaining the rest.
///
/// Known tags are declared before the section is read and assigned from inside
/// the dispatch: a tag is optional on the wire, so its local must exist holding
/// the default whether or not the peer sent it. A tag with no arm, or one
/// arriving at a version where its field does not exist, is kept verbatim.
pub fn render_tagged_decode(rust: &mut RustText, fields: &Vec<Field>, scope: &Scope) -> (r: Result<(), GenerationError>)
    requires
        old(rust).room(4),
    ensures
        match tags_fault(fields@, scope@) {
            None => r is Ok && final(rust).text() == tagged_decode_text(old(rust).text(), old(rust).depth(), fields@, scope@)
                && final(rust).depth() == old(rust).depth(),
            Some(f) => r matches Err(e) && e@ == f,
        },
{
    let plans = known_tag_plans(fields, scope);
    let ghost keys = known_order(fields@);
    proof {
        lemma_plan_order_indices(fields@, fields@.len() as int);
    }
    assert(forall|k: int| 0 <= k < plans@.len() ==> (#[trigger] plans@[k]).tag == keys[k].0 && plans@[k].field_index == keys[k].1) by {
        assert forall|k: int| 0 <= k < plans@.len() implies (#[trigger] plans@[k]).tag == keys[k].0 && plans@[k].field_index == keys[k].1 by {
            assert(crate::api::tag_plan::plan_keys(plans@)[k] == keys[k]);
        }
    }
    let message = scope.message;
    let tagged_fields = spell(message, S::TaggedFields);
    if plans.len() == 0 {
        rust.open("let unknown_tagged_fields = if Self::is_flexible(version)");
        rust.line("decoder.read_tagged_fields()?");
        rust.reopen("} else {");
        let l = crate::strings::cat2(tagged_fields.as_str(), "::default()");
        rust.line(l.as_str());
        rust.close(";");
        return Ok(());
    }
    let ghost start = rust.text();
    let ghost depth = rust.depth();
    let mut i: usize = 0;
    while i < plans.len()
        invariant
            is_plan_of(plans@, fields@, scope@),
            keys == known_order(fields@),
            forall|k: int| 0 <= k < plans@.len() ==> (#[trigger] plans@[k]).tag == keys[k].0 && plans@[k].field_index == keys[k].1,
            forall|k: int| 0 <= k < keys.len() ==> 0 <= (#[trigger] keys[k]).1 < fields@.len(),
            i <= plans@.len(),
            rust.depth() == depth,
            rust.text() == tag_locals_text(start, depth, fields@, keys, i as int, scope@),
        decreases plans@.len() - i,
    {
        let index = plans[i].field_index;
        let field = &fields[index];
        let ty = rust_type(field, scope);
        let fallback = default_expression(field, scope);
        let name = local(index);
        let mut l = owned("let mut ");
        l.append(name.as_str());
        l.append(": ");
        l.append(ty.as_str());
        l.append(" = ");
        l.append(fallback.as_str());
        l.append(";");
        rust.line(l.as_str());
        i = i + 1;
    }
    let mut l = owned("let mut unknown_tagged_fields = ");
    l.append(tagged_fields.as_str());
    l.append("::default();");
    rust.line(l.as_str());
    rust.open("if Self::is_flexible(version)");
    rust.open("unknown_tagged_fields = decoder.read_tagged_fields_with(|tag, decoder| match tag");
    let ghost arms = rust.text();
    let mut j: usize = 0;
    while j < plans.len()
        invariant
            is_plan_of(plans@, fields@, scope@),
            keys == known_order(fields@),
            forall|k: int| 0 <= k < plans@.len() ==> (#[trigger] plans@[k]).tag == keys[k].0 && plans@[k].field_index == keys[k].1,
            forall|k: int| 0 <= k < keys.len() ==> 0 <= (#[trigger] keys[k]).1 < fields@.len(),
            j <= plans@.len(),
            rust.depth() == depth + 2,
            depth + 4 <= usize::MAX,
            plan_fault(fields@, keys, j as int, scope@) is None,
            rust.text() == tag_arms_text(arms, depth + 2, fields@, keys, j as int, scope@),
        decreases plans@.len() - j,
    {
        let plan = &plans[j];
        assert(plans@[j as int].active_versions@ == active_in(fields@[plans@[j as int].field_index as int], scope@));
        let step = render_tag_arm(rust, plan, &fields[plan.field_index], scope);
        if let Err(e) = step {
            proof {
                lemma_plan_fault_persists(fields@, keys, j + 1, keys.len() as int, scope);
            }
            return Err(e);
        }
        j = j + 1;
    }
    let ok = spell(message, S::ResultOk);
    let outcome = spell(message, S::TagOutcome);
    let mut l = owned("_ => ");
    l.append(ok.as_str());
    l.append("(");
    l.append(outcome.as_str());
    l.append("::Retained),");
    rust.line(l.as_str());
    rust.close(")?;");
    rust.close("");
    Ok(())
}

/// Claiming one active tag, and measuring it only when it is not at its default.
pub open spec fn tag_claim_text(t: Seq<char>, d: nat, tag: u32, field: Field, scope: ScopeView) -> Seq<char> {
    let presence = section_gate(field, scope);
    let inner = if presence is Some { d + 1 } else { d };
    let t = match presence {
        Some(condition) => emit_open(t, d, "if "@ + condition),
        None => t,
    };
    let t = emit_line(t, inner, "known.claim("@ + decimal(tag as int) + ")?;"@);
    let t = emit_open(t, inner, "if "@ + non_default_text(&field, scope));
    let t = emit_line(
        t,
        inner + 1,
        "known.measure("@ + decimal(tag as int) + ", |encoder| Self::"@ + tag_helper_text(tag)
            + "(self, encoder, version))?;"@,
    );
    let t = emit_close(t, inner, ""@);
    if presence is Some {
        emit_close(t, d, ""@)
    } else {
        t
    }
}

/// The claims of the first `n` known tags.
pub open spec fn tag_claims_text(t: Seq<char>, d: nat, fields: Seq<Field>, keys: Seq<(u32, int)>, n: int, scope: ScopeView) -> Seq<char>
    decreases n,
{
    if n <= 0 {
        t
    } else {
        let before = tag_claims_text(t, d, fields, keys, n - 1, scope);
        tag_claim_text(before, d, keys[n - 1].0, fields[keys[n - 1].1], scope)
    }
}

/// The dispatch arms that write the first `n` known tags.
pub open spec fn tag_dispatch_text(t: Seq<char>, d: nat, keys: Seq<(u32, int)>, n: int) -> Seq<char>
    decreases n,
{
    if n <= 0 {
        t
    } else {
        emit_line(
            tag_dispatch_text(t, d, keys, n - 1),
            d,
            decimal(keys[n - 1].0 as int) + " => Self::"@ + tag_helper_text(keys[n - 1].0) + "(self, encoder, version),"@,
        )
    }
}

/// Writing the tagged-field section, known tags merged with retained ones.
pub open spec fn tagged_encode_text(t: Seq<char>, d: nat, fields: Seq<Field>, scope: ScopeView) -> Seq<char> {
    let keys = known_order(fields);
    let t = emit_blank(t);
    let t = emit_open(t, d, "if Self::is_flexible(version)"@);
    let t = if keys.len() == 0 {
        emit_line(t, d + 1, "encoder.write_tagged_fields(&self.unknown_tagged_fields)?;"@)
    } else {
        let t = emit_line(t, d + 1, "let mut known = "@ + spelling(scope.message, S::KnownTags) + "::new();"@);
        let t = tag_claims_text(t, d + 1, fields, keys, keys.len() as int, scope);
        let t = emit_line(t, d + 1, "encoder.write_merged_tagged_fields("@);
        let t = emit_line(t, d + 1, "    known,"@);
        let t = emit_line(t, d + 1, "    &self.unknown_tagged_fields,"@);
        let t = emit_open(t, d + 1, "    |tag, encoder| match tag"@);
        let t = tag_dispatch_text(t, d + 2, keys, keys.len() as int);
        let t = emit_line(t, d + 2, "_ => unreachable!(\"KnownTags yielded an unmeasured tag\"),"@);
        let t = emit_close(t, d + 1, ""@);
        emit_line(t, d + 1, ")?;"@)
    };
    emit_close(t, d, ""@)
}

fn render_tag_claim(rust: &mut RustText, plan: &KnownTagPlan, field: &Field, scope: &Scope)
    requires
        old(rust).room(2),
        plan.active_versions@ == active_in(*field, scope@),
    ensures
        final(rust).text() == tag_claim_text(old(rust).text(), old(rust).depth(), plan.tag, *field, scope@),
        final(rust).depth() == old(rust).depth(),
{
    let non_default = non_default_condition(field, scope);
    let presence = plan.section_condition(field, scope);
    let number = decimal_u64(plan.tag as u64);
    match &presence {
        Some(condition) => {
            let head = crate::strings::cat2("if ", condition.as_str());
            rust.open(head.as_str());
        },
        None => {},
    }
    let claim = crate::strings::cat3("known.claim(", number.as_str(), ")?;");
    rust.line(claim.as_str());
    let check = crate::strings::cat2("if ", non_default.as_str());
    rust.open(check.as_str());
    let helper = tag_helper(plan.tag);
    let mut measure = owned("known.measure(");
    measure.append(number.as_str());
    measure.append(", |encoder| Self::");
    measure.append(helper.as_str());
    measure.append("(self, encoder, version))?;");
    rust.line(measure.as_str());
    rust.close("");
    if presence.is_some() {
        rust.close("");
    }
}

/// Writes the tagged-field section, merging known tags with retained ones,
/// and reports the tags it claimed, in claim order.
///
/// A known tag is claimed whenever it is active, default or not: default
/// omission keeps the section sparse but never lets an active known tag be
/// forwarded as retained unknown state.
pub fn render_tagged_encode(rust: &mut RustText, fields: &Vec<Field>, scope: &Scope) -> (claimed: RenderedKnownTags)
    requires
        old(rust).room(3),
    ensures
        final(rust).text() == tagged_encode_text(old(rust).text(), old(rust).depth(), fields@, scope@),
        final(rust).depth() == old(rust).depth(),
        claimed@ == crate::api::tagged_proof::order_tags(known_order(fields@)),
{
    let plans = known_tag_plans(fields, scope);
    let ghost keys = known_order(fields@);
    proof {
        lemma_plan_order_indices(fields@, fields@.len() as int);
    }
    assert(forall|k: int| 0 <= k < plans@.len() ==> (#[trigger] plans@[k]).tag == keys[k].0 && plans@[k].field_index == keys[k].1) by {
        assert forall|k: int| 0 <= k < plans@.len() implies (#[trigger] plans@[k]).tag == keys[k].0 && plans@[k].field_index == keys[k].1 by {
            assert(crate::api::tag_plan::plan_keys(plans@)[k] == keys[k]);
        }
    }
    let mut claimed = RenderedKnownTags::default();
    rust.blank();
    rust.open("if Self::is_flexible(version)");
    if plans.len() == 0 {
        rust.line("encoder.write_tagged_fields(&self.unknown_tagged_fields)?;");
        rust.close("");
        assert(claimed@ =~= crate::api::tagged_proof::order_tags(keys));
        return claimed;
    }
    let known = spell(scope.message, S::KnownTags);
    let l = crate::strings::cat3("let mut known = ", known.as_str(), "::new();");
    rust.line(l.as_str());
    let ghost start = rust.text();
    let ghost depth = rust.depth();
    let mut i: usize = 0;
    while i < plans.len()
        invariant
            is_plan_of(plans@, fields@, scope@),
            keys == known_order(fields@),
            forall|k: int| 0 <= k < plans@.len() ==> (#[trigger] plans@[k]).tag == keys[k].0 && plans@[k].field_index == keys[k].1,
            forall|k: int| 0 <= k < keys.len() ==> 0 <= (#[trigger] keys[k]).1 < fields@.len(),
            i <= plans@.len(),
            rust.depth() == depth,
            depth + 2 <= usize::MAX,
            rust.text() == tag_claims_text(start, depth, fields@, keys, i as int, scope@),
            claimed@ == crate::api::tagged_proof::order_tags(keys).take(i as int),
        decreases plans@.len() - i,
    {
        let plan = &plans[i];
        assert(plans@[i as int].active_versions@ == active_in(fields@[plans@[i as int].field_index as int], scope@));
        render_tag_claim(rust, plan, &fields[plan.field_index], scope);
        claimed.record(plan.tag);
        proof {
            let all = crate::api::tagged_proof::order_tags(keys);
            assert(all.take(i + 1) =~= all.take(i as int).push(plan.tag));
        }
        i = i + 1;
    }
    proof {
        let all = crate::api::tagged_proof::order_tags(keys);
        assert(all.take(i as int) =~= all);
    }
    rust.line("encoder.write_merged_tagged_fields(");
    rust.line("    known,");
    rust.line("    &self.unknown_tagged_fields,");
    rust.open("    |tag, encoder| match tag");
    let ghost arms = rust.text();
    let mut j: usize = 0;
    while j < plans.len()
        invariant
            forall|k: int| 0 <= k < plans@.len() ==> (#[trigger] plans@[k]).tag == keys[k].0 && plans@[k].field_index == keys[k].1,
            keys.len() == plans@.len(),
            j <= plans@.len(),
            rust.depth() == depth + 1,
            rust.text() == tag_dispatch_text(arms, depth + 1, keys, j as int),
        decreases plans@.len() - j,
    {
        let tag = plans[j].tag;
        let number = decimal_u64(tag as u64);
        let helper = tag_helper(tag);
        let mut l = number;
        l.append(" => Self::");
        l.append(helper.as_str());
        l.append("(self, encoder, version),");
        rust.line(l.as_str());
        j = j + 1;
    }
    rust.line("_ => unreachable!(\"KnownTags yielded an unmeasured tag\"),");
    rust.close("");
    rust.line(")?;");
    rust.close("");
    claimed
}

} // verus!
