//! Recursive protocol-equality and retained-size implementations for
//! generated structures.
//!
//! The handwritten traits own primitive and container semantics. These
//! emitters own only the structural descent through schema fields and the
//! synthesized tag storage.

use vstd::prelude::*;

use crate::api::imports::{spell, spelling};
use crate::api::symbol::ExternalSymbol as S;
use crate::naming::field_ident;
use crate::schema::{Field, Message};
use crate::strings::owned;
use crate::text::{emit_blank, emit_close, emit_line, emit_open, RustText};

verus! {

/// The member names a structure holds, tag storage last where it has one.
pub open spec fn members(fields: Seq<Field>, flexible: bool) -> Seq<Seq<char>> {
    let named = fields.map_values(|f: Field| field_ident(f.name.text@));
    if flexible {
        named.push("unknown_tagged_fields"@)
    } else {
        named
    }
}

fn member_names(fields: &Vec<Field>, flexible: bool) -> (r: Vec<String>)
    ensures
        r@.map_values(|s: String| s@) == members(fields@, flexible),
{
    let mut names: Vec<String> = Vec::new();
    let mut i: usize = 0;
    while i < fields.len()
        invariant
            i <= fields@.len(),
            names@.map_values(|s: String| s@) == fields@.take(i as int).map_values(|f: Field| field_ident(f.name.text@)),
        decreases fields@.len() - i,
    {
        let ghost before = names@;
        names.push(fields[i].name.rust_field());
        proof {
            assert(fields@.take(i + 1) =~= fields@.take(i as int).push(fields@[i as int]));
            assert(names@.map_values(|s: String| s@) =~= before.map_values(|s: String| s@).push(
                field_ident(fields@[i as int].name.text@),
            ));
            assert(fields@.take(i + 1).map_values(|f: Field| field_ident(f.name.text@)) =~= fields@.take(
                i as int,
            ).map_values(|f: Field| field_ident(f.name.text@)).push(field_ident(fields@[i as int].name.text@)));
        }
        i = i + 1;
    }
    assert(fields@.take(i as int) =~= fields@);
    if flexible {
        let ghost before = names@;
        names.push(owned("unknown_tagged_fields"));
        assert(names@.map_values(|s: String| s@) =~= before.map_values(|s: String| s@).push("unknown_tagged_fields"@));
    }
    names
}

/// One member's comparison, joined to the next with `&&` unless it is last.
pub open spec fn comparison(protocol_eq: Seq<char>, member: Seq<char>, last: bool) -> Seq<char> {
    protocol_eq + "::protocol_eq(&self."@ + member + ", &other."@ + member + ")"@ + if last {
        ""@
    } else {
        " &&"@
    }
}

/// The comparisons of the first `n` members.
pub open spec fn comparisons_text(t: Seq<char>, d: nat, protocol_eq: Seq<char>, names: Seq<Seq<char>>, n: int) -> Seq<char>
    decreases n,
{
    if n <= 0 {
        t
    } else {
        emit_line(
            comparisons_text(t, d, protocol_eq, names, n - 1),
            d,
            comparison(protocol_eq, names[n - 1], n == names.len()),
        )
    }
}

/// `ProtocolEq` for one structure: every member compared, tags included.
#[verifier::opaque]
pub open spec fn protocol_eq_text(t: Seq<char>, d: nat, rust_type: Seq<char>, fields: Seq<Field>, message: &Message, flexible: bool) -> Seq<char> {
    let protocol_eq = spelling(message, S::ProtocolEq);
    let names = members(fields, flexible);
    let t = emit_open(t, d, "impl "@ + protocol_eq + " for "@ + rust_type);
    let t = emit_open(t, d + 1, "fn protocol_eq(&self, other: &Self) -> bool"@);
    let t = if names.len() == 0 {
        emit_line(t, d + 2, "true"@)
    } else {
        comparisons_text(t, d + 2, protocol_eq, names, names.len() as int)
    };
    let t = emit_close(t, d + 1, ""@);
    let t = emit_close(t, d, ""@);
    emit_blank(t)
}

pub fn render_protocol_eq(rust: &mut RustText, rust_type: &str, fields: &Vec<Field>, message: &Message, flexible: bool)
    requires
        old(rust).room(2),
    ensures
        final(rust).text() == protocol_eq_text(old(rust).text(), old(rust).depth(), rust_type@, fields@, message, flexible),
        final(rust).depth() == old(rust).depth(),
{
    proof {
        reveal(protocol_eq_text);
    }
    let protocol_eq = spell(message, S::ProtocolEq);
    let names = member_names(fields, flexible);
    let ghost views = names@.map_values(|s: String| s@);
    let l = crate::strings::cat4("impl ", protocol_eq.as_str(), " for ", rust_type);
    rust.open(l.as_str());
    rust.open("fn protocol_eq(&self, other: &Self) -> bool");
    if names.len() == 0 {
        rust.line("true");
    } else {
        let ghost start = rust.text();
        let ghost depth = rust.depth();
        let mut i: usize = 0;
        while i < names.len()
            invariant
                views == names@.map_values(|s: String| s@),
                i <= names@.len(),
                rust.depth() == depth,
                rust.text() == comparisons_text(start, depth, protocol_eq@, views, i as int),
            decreases names@.len() - i,
        {
            let member = &names[i];
            assert(views[i as int] == member@);
            let mut l = owned(protocol_eq.as_str());
            l.append("::protocol_eq(&self.");
            l.append(member.as_str());
            l.append(", &other.");
            l.append(member.as_str());
            l.append(")");
            if i + 1 != names.len() {
                l.append(" &&");
            } else {
                l.append("");
            }
            rust.line(l.as_str());
            i = i + 1;
        }
    }
    rust.close("");
    rust.close("");
    rust.blank();
}

/// The footprint additions of the first `n` members.
pub open spec fn footprint_text(t: Seq<char>, d: nat, retained_size: Seq<char>, names: Seq<Seq<char>>, n: int) -> Seq<char>
    decreases n,
{
    if n <= 0 {
        t
    } else {
        emit_line(
            footprint_text(t, d, retained_size, names, n - 1),
            d,
            ".saturating_add("@ + retained_size + "::retained_size(&self."@ + names[n - 1] + "))"@,
        )
    }
}

/// `RetainedSize` for one structure: the empty footprint plus every member's.
#[verifier::opaque]
pub open spec fn retained_size_text(t: Seq<char>, d: nat, rust_type: Seq<char>, fields: Seq<Field>, message: &Message, flexible: bool) -> Seq<char> {
    let footprint = spelling(message, S::RetainedFootprint);
    let retained_size = spelling(message, S::RetainedSize);
    let names = members(fields, flexible);
    let t = emit_open(t, d, "impl "@ + retained_size + " for "@ + rust_type);
    let t = emit_open(t, d + 1, "fn retained_size(&self) -> "@ + footprint);
    let t = emit_line(t, d + 2, footprint + "::EMPTY"@);
    let t = footprint_text(t, d + 2, retained_size, names, names.len() as int);
    let t = emit_close(t, d + 1, ""@);
    let t = emit_close(t, d, ""@);
    emit_blank(t)
}

pub fn render_retained_size(rust: &mut RustText, rust_type: &str, fields: &Vec<Field>, message: &Message, flexible: bool)
    requires
        old(rust).room(2),
    ensures
        final(rust).text() == retained_size_text(old(rust).text(), old(rust).depth(), rust_type@, fields@, message, flexible),
        final(rust).depth() == old(rust).depth(),
{
    proof {
        reveal(retained_size_text);
    }
    let footprint = spell(message, S::RetainedFootprint);
    let retained_size = spell(message, S::RetainedSize);
    let names = member_names(fields, flexible);
    let ghost views = names@.map_values(|s: String| s@);
    let l = crate::strings::cat4("impl ", retained_size.as_str(), " for ", rust_type);
    rust.open(l.as_str());
    let l = crate::strings::cat2("fn retained_size(&self) -> ", footprint.as_str());
    rust.open(l.as_str());
    let l = crate::strings::cat2(footprint.as_str(), "::EMPTY");
    rust.line(l.as_str());
    let ghost start = rust.text();
    let ghost depth = rust.depth();
    let mut i: usize = 0;
    while i < names.len()
        invariant
            views == names@.map_values(|s: String| s@),
            i <= names@.len(),
            rust.depth() == depth,
            rust.text() == footprint_text(start, depth, retained_size@, views, i as int),
        decreases names@.len() - i,
    {
        let member = &names[i];
        assert(views[i as int] == member@);
        let mut l = owned(".saturating_add(");
        l.append(retained_size.as_str());
        l.append("::retained_size(&self.");
        l.append(member.as_str());
        l.append("))");
        rust.line(l.as_str());
        i = i + 1;
    }
    rust.close("");
    rust.close("");
    rust.blank();
}

} // verus!
