//! Target-generic payload writers for generated known tagged fields.
//!
//! This file owns measuring and emitting one known tag's value. Ordering and
//! merging the whole tagged-field section stay with the tagged renderer and
//! the wire kernel.

use vstd::prelude::*;

use crate::api::codec::{
    array_encode_text, nullable_array_encode_text, render_array_encode, render_nullable_array_encode,
};
use crate::api::imports::{spell, spelling};
use crate::api::symbol::ExternalSymbol as S;
use crate::api::tag_plan::{known_order, known_tag_plans};
use crate::api::tagged::{lemma_plan_fault_persists, lemma_plan_order_indices, plan_fault, tagged_field_fault, tags_fault};
use crate::field::codec::{array_length_codec, array_length_text, element_codec, element_text, write_statement, write_text};
use crate::field::regime::{is_nullable, nullable_somewhere};
use crate::field::usage::{encoded_value_uses_version, value_uses_version};
use crate::naming::field_ident;
use crate::schema::{Field, FieldType, GenerationError, Scope, ScopeView};
use crate::strings::{decimal, decimal_u64, owned};
use crate::text::{emit_blank, emit_close, emit_line, emit_open, RustText};

verus! {

/// The name of the generated writer for one known tag.
pub open spec fn tag_helper_text(tag: u32) -> Seq<char> {
    "__kw_encode_known_tag_"@ + decimal(tag as int)
}

pub fn tag_helper(tag: u32) -> (r: String)
    ensures
        r@ == tag_helper_text(tag),
{
    let number = decimal_u64(tag as u64);
    crate::strings::cat2("__kw_encode_known_tag_", number.as_str())
}

/// The statements writing one tagged value.
pub open spec fn tag_payload_text(t: Seq<char>, d: nat, field: Field, scope: ScopeView) -> Seq<char> {
    match field.ty {
        FieldType::Array(element) => {
            let write = element_text(*element, &field, scope).unwrap().1;
            let length = array_length_text(&field, scope).1;
            let name = field_ident(field.name.text@);
            if nullable_somewhere(&field, scope) {
                nullable_array_encode_text(t, d, scope.message, name, length, write)
            } else {
                array_encode_text(t, d, name, length, write)
            }
        },
        _ => emit_line(t, d, write_text(&field, scope)),
    }
}

/// One generic writer for one known tag's value.
pub open spec fn tag_writer_text(t: Seq<char>, d: nat, tag: u32, field: Field, scope: ScopeView) -> Seq<char> {
    let message = scope.message;
    let version = if value_uses_version(&field, scope) { "version"@ } else { "_version"@ };
    let t = emit_line(t, d, "fn "@ + tag_helper_text(tag) + "<T: "@ + spelling(message, S::EncodeTarget) + ">("@);
    let t = emit_line(t, d, "    &self,"@);
    let t = emit_line(t, d, "    encoder: &mut "@ + spelling(message, S::Encoder) + "<T>,"@);
    let t = emit_line(t, d, "    "@ + version + ": "@ + spelling(message, S::ApiVersion) + ","@);
    let t = emit_open(
        t,
        d,
        ") -> "@ + spelling(message, S::Result) + "<(), "@ + spelling(message, S::EncodeError) + ">"@,
    );
    let t = tag_payload_text(t, d + 1, field, scope);
    let t = emit_line(t, d + 1, spelling(message, S::ResultOk) + "(())"@);
    let t = emit_close(t, d, ""@);
    emit_blank(t)
}

/// The writers of the first `n` known tags.
pub open spec fn tag_writers_text(t: Seq<char>, d: nat, fields: Seq<Field>, keys: Seq<(u32, int)>, n: int, scope: ScopeView) -> Seq<char>
    decreases n,
{
    if n <= 0 {
        t
    } else {
        let before = tag_writers_text(t, d, fields, keys, n - 1, scope);
        tag_writer_text(before, d, keys[n - 1].0, fields[keys[n - 1].1], scope)
    }
}

fn render_tag_payload(rust: &mut RustText, field: &Field, scope: &Scope) -> (r: Result<(), GenerationError>)
    requires
        old(rust).room(2),
    ensures
        match tagged_field_fault(*field, scope@) {
            None => r is Ok && final(rust).text() == tag_payload_text(old(rust).text(), old(rust).depth(), *field, scope@)
                && final(rust).depth() == old(rust).depth(),
            Some(f) => r matches Err(e) && e@ == f,
        },
{
    if let FieldType::Array(element) = &field.ty {
        let (_, write) = element_codec(element, field, scope)?;
        let (_, length) = array_length_codec(field, scope);
        let name = field.name.rust_field();
        if is_nullable(field, scope) {
            render_nullable_array_encode(rust, scope.message, name.as_str(), length.as_str(), write.as_str());
        } else {
            render_array_encode(rust, name.as_str(), length.as_str(), write.as_str());
        }
    } else {
        let statement = write_statement(field, scope)?;
        rust.line(statement.as_str());
    }
    Ok(())
}

fn render_tag_writer(rust: &mut RustText, tag: u32, field: &Field, scope: &Scope) -> (r: Result<(), GenerationError>)
    requires
        old(rust).room(3),
    ensures
        match tagged_field_fault(*field, scope@) {
            None => r is Ok && final(rust).text() == tag_writer_text(old(rust).text(), old(rust).depth(), tag, *field, scope@)
                && final(rust).depth() == old(rust).depth(),
            Some(f) => r matches Err(e) && e@ == f,
        },
{
    let message = scope.message;
    let version = if encoded_value_uses_version(field, scope) {
        "version"
    } else {
        "_version"
    };
    let helper = tag_helper(tag);
    let target = spell(message, S::EncodeTarget);
    let mut l = owned("fn ");
    l.append(helper.as_str());
    l.append("<T: ");
    l.append(target.as_str());
    l.append(">(");
    rust.line(l.as_str());
    rust.line("    &self,");
    let encoder = spell(message, S::Encoder);
    let l = crate::strings::cat3("    encoder: &mut ", encoder.as_str(), "<T>,");
    rust.line(l.as_str());
    let api_version = spell(message, S::ApiVersion);
    let l = crate::strings::cat5("    ", version, ": ", api_version.as_str(), ",");
    rust.line(l.as_str());
    let result = spell(message, S::Result);
    let error = spell(message, S::EncodeError);
    let l = crate::strings::cat5(") -> ", result.as_str(), "<(), ", error.as_str(), ">");
    rust.open(l.as_str());
    render_tag_payload(rust, field, scope)?;
    let ok = spell(message, S::ResultOk);
    let l = crate::strings::cat2(ok.as_str(), "(())");
    rust.line(l.as_str());
    rust.close("");
    rust.blank();
    Ok(())
}

/// Emits one generic direct writer per known tagged value.
///
/// The same writer runs first against a size target and then against the
/// real one, so the value logic exists once and payload bytes are never staged
/// in an intermediate buffer.
pub fn render_known_tag_helpers(rust: &mut RustText, fields: &Vec<Field>, scope: &Scope) -> (r: Result<(), GenerationError>)
    requires
        old(rust).room(3),
    ensures
        match tags_fault(fields@, scope@) {
            None => r is Ok && final(rust).text() == tag_writers_text(
                old(rust).text(),
                old(rust).depth(),
                fields@,
                known_order(fields@),
                known_order(fields@).len() as int,
                scope@,
            ) && final(rust).depth() == old(rust).depth(),
            Some(f) => r matches Err(e) && e@ == f,
        },
{
    let plans = known_tag_plans(fields, scope);
    let ghost keys = known_order(fields@);
    proof {
        lemma_plan_order_indices(fields@, fields@.len() as int);
    }
    assert(forall|k: int| 0 <= k < plans@.len() ==> (#[trigger] plans@[k]).tag == keys[k].0 && plans@[k].field_index == keys[k].1) by {
        assert forall|k: int| 0 <= k < plans@.len() implies (#[trigger] plans@[k]).tag == keys[k].0 && plans@[k].field_index == keys[k].1 by {
            assert(crate::api::tag_plan::plan_keys(plans@)[k] == keys[k]);
        }
    }
    let message = scope.message;
    let ghost start = rust.text();
    let ghost depth = rust.depth();
    let mut i: usize = 0;
    while i < plans.len()
        invariant
            keys == known_order(fields@),
            keys.len() == plans@.len(),
            forall|k: int| 0 <= k < plans@.len() ==> (#[trigger] plans@[k]).tag == keys[k].0 && plans@[k].field_index == keys[k].1,
            forall|k: int| 0 <= k < keys.len() ==> 0 <= (#[trigger] keys[k]).1 < fields@.len(),
            i <= plans@.len(),
            rust.depth() == depth,
            depth + 3 <= usize::MAX,
            plan_fault(fields@, keys, i as int, scope@) is None,
            rust.text() == tag_writers_text(start, depth, fields@, keys, i as int, scope@),
        decreases plans@.len() - i,
    {
        let tag = plans[i].tag;
        let field = &fields[plans[i].field_index];
        assert(keys[i as int].0 == tag);
        assert(fields@[keys[i as int].1] == *field);
        let step = render_tag_writer(rust, tag, field, scope);
        if let Err(e) = step {
            proof {
                lemma_plan_fault_persists(fields@, keys, i + 1, keys.len() as int, scope);
            }
            return Err(e);
        }
        i = i + 1;
    }
    Ok(())
}

} // verus!
