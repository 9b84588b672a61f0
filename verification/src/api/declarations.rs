//! Resolution of struct declarations to their field bodies, and the
//! rendering of every struct a message declares.
//!
//! The schema's ordered declaration table fixes each struct's identity and
//! order; a common struct and an inline body are two spellings of one concept
//! whose members live in different places. This walk reconnects each table
//! entry to its one body without reinterpreting its version window.

use vstd::prelude::*;

use crate::api::structs::{render_struct_with, struct_fault, struct_text, Identity};
use crate::schema::{CommonStruct, Fault, Field, FieldType, GenerationError, Message, Scope, ScopeView, StructDeclaration, StructOrigin};
use crate::strings::owned;
use crate::text::RustText;

verus! {

/// The declared name of the struct a type denotes, through an array element.
pub open spec fn declared_of(ty: FieldType) -> Option<Seq<char>>
    decreases ty,
{
    match ty {
        FieldType::Struct(reference) => Some(reference.declared@),
        FieldType::Array(element) => declared_of(*element),
        _ => None,
    }
}

fn declared_name(ty: &FieldType) -> (r: Option<&String>)
    ensures
        match declared_of(*ty) {
            Some(name) => r matches Some(s) && s@ == name,
            None => r is None,
        },
    decreases ty,
{
    match ty {
        FieldType::Struct(reference) => Some(&reference.declared),
        FieldType::Array(element) => declared_name(element),
        _ => None,
    }
}

/// The first inline body declaring `declared` among `fields`, depth first.
pub open spec fn inline_in_fields(fields: Seq<Field>, declared: Seq<char>) -> Option<Vec<Field>>
    decreases fields,
{
    if fields.len() == 0 {
        None
    } else {
        match inline_in_field(fields[0], declared) {
            Some(body) => Some(body),
            None => inline_in_fields(fields.drop_first(), declared),
        }
    }
}

/// The inline body declaring `declared` in one field or beneath it.
pub open spec fn inline_in_field(field: Field, declared: Seq<char>) -> Option<Vec<Field>>
    decreases field,
{
    if field.fields@.len() > 0 && declared_of(field.ty) == Some(declared) {
        Some(field.fields)
    } else {
        inline_in_fields(field.fields@, declared)
    }
}

/// The first inline body declaring `declared` inside the common structs.
pub open spec fn inline_in_commons(commons: Seq<CommonStruct>, declared: Seq<char>) -> Option<Vec<Field>>
    decreases commons.len(),
{
    if commons.len() == 0 {
        None
    } else {
        match inline_in_fields(commons[0].fields@, declared) {
            Some(body) => Some(body),
            None => inline_in_commons(commons.drop_first(), declared),
        }
    }
}

/// The common struct named `declared`, if any.
pub open spec fn common_named(commons: Seq<CommonStruct>, declared: Seq<char>) -> Option<Vec<Field>>
    decreases commons.len(),
{
    if commons.len() == 0 {
        None
    } else if commons[0].name.declared@ == declared {
        Some(commons[0].fields)
    } else {
        common_named(commons.drop_first(), declared)
    }
}

/// The body one declaration resolves to.
pub open spec fn body_of(message: &Message, declaration: StructDeclaration) -> Option<Vec<Field>> {
    let declared = declaration.name.declared@;
    if declaration.origin == StructOrigin::Common {
        common_named(message.common_structs@, declared)
    } else {
        match inline_in_commons(message.common_structs@, declared) {
            Some(body) => Some(body),
            None => inline_in_fields(message.fields@, declared),
        }
    }
}

fn find_inline<'a>(fields: &'a Vec<Field>, declared: &str) -> (r: Option<&'a Vec<Field>>)
    ensures
        match inline_in_fields(fields@, declared@) {
            Some(body) => r matches Some(found) && *found == body,
            None => r is None,
        },
    decreases fields@,
{
    let mut i: usize = 0;
    assert(fields@.skip(0) =~= fields@);
    while i < fields.len()
        invariant
            i <= fields@.len(),
            inline_in_fields(fields@, declared@) == inline_in_fields(fields@.skip(i as int), declared@),
        decreases fields@.len() - i,
    {
        let field = &fields[i];
        proof {
            assert(fields@.skip(i as int)[0] == *field);
            assert(fields@.skip(i as int).drop_first() =~= fields@.skip(i + 1));
        }
        let mut matched = false;
        if field.fields.len() > 0 {
            if let Some(name) = declared_name(&field.ty) {
                let wanted = owned(declared);
                matched = *name == wanted;
            }
        }
        assert(matched == (field.fields@.len() > 0 && declared_of(field.ty) == Some(declared@)));
        if matched {
            assert(inline_in_field(*field, declared@) == Some(field.fields));
            return Some(&field.fields);
        }
        assert(inline_in_field(*field, declared@) == inline_in_fields(field.fields@, declared@));
        if let Some(found) = find_inline(&field.fields, declared) {
            return Some(found);
        }
        i = i + 1;
    }
    None
}

fn find_common<'a>(commons: &'a Vec<CommonStruct>, declared: &str) -> (r: Option<&'a Vec<Field>>)
    ensures
        match common_named(commons@, declared@) {
            Some(body) => r matches Some(found) && *found == body,
            None => r is None,
        },
{
    let mut i: usize = 0;
    assert(commons@.skip(0) =~= commons@);
    while i < commons.len()
        invariant
            i <= commons@.len(),
            common_named(commons@, declared@) == common_named(commons@.skip(i as int), declared@),
        decreases commons@.len() - i,
    {
        proof {
            assert(commons@.skip(i as int)[0] == commons@[i as int]);
            assert(commons@.skip(i as int).drop_first() =~= commons@.skip(i + 1));
        }
        let wanted = owned(declared);
        if commons[i].name.declared == wanted {
            return Some(&commons[i].fields);
        }
        i = i + 1;
    }
    None
}

fn find_inline_in_commons<'a>(commons: &'a Vec<CommonStruct>, declared: &str) -> (r: Option<&'a Vec<Field>>)
    ensures
        match inline_in_commons(commons@, declared@) {
            Some(body) => r matches Some(found) && *found == body,
            None => r is None,
        },
{
    let mut i: usize = 0;
    assert(commons@.skip(0) =~= commons@);
    while i < commons.len()
        invariant
            i <= commons@.len(),
            inline_in_commons(commons@, declared@) == inline_in_commons(commons@.skip(i as int), declared@),
        decreases commons@.len() - i,
    {
        proof {
            assert(commons@.skip(i as int)[0] == commons@[i as int]);
            assert(commons@.skip(i as int).drop_first() =~= commons@.skip(i + 1));
        }
        if let Some(found) = find_inline(&commons[i].fields, declared) {
            return Some(found);
        }
        i = i + 1;
    }
    None
}

/// The body a declaration resolves to, looked up where its origin says.
pub fn declaration_fields<'a>(message: &'a Message, declaration: &StructDeclaration) -> (r: Option<&'a Vec<Field>>)
    ensures
        match body_of(message, *declaration) {
            Some(body) => r matches Some(found) && *found == body,
            None => r is None,
        },
{
    let declared = declaration.name.declared();
    if declaration.origin == StructOrigin::Common {
        return find_common(&message.common_structs, declared);
    }
    match find_inline_in_commons(&message.common_structs, declared) {
        Some(found) => Some(found),
        None => find_inline(&message.fields, declared),
    }
}

/// The origin of a declaration as `{:?}` writes it.
pub open spec fn origin_text(origin: StructOrigin) -> Seq<char> {
    match origin {
        StructOrigin::Common => "Common"@,
        StructOrigin::Inline => "Inline"@,
    }
}

/// The refusal for a declaration with no body.
pub open spec fn missing_body(message: &Message, declaration: StructDeclaration) -> Fault {
    Fault::InternalInvariant {
        message: message.name.text@,
        detail: "struct table declaration `"@ + declaration.name.declared@ + "` has no matching "@ + origin_text(
            declaration.origin,
        ) + " body"@,
    }
}

/// The first declaration among the first `n` with no body.
pub open spec fn missing_fault(message: &Message, n: int) -> Option<Fault>
    decreases n,
{
    if n <= 0 {
        None
    } else {
        match missing_fault(message, n - 1) {
            Some(f) => Some(f),
            None => {
                let declaration = message.structs.declarations@[n - 1];
                if body_of(message, declaration) is None {
                    Some(missing_body(message, declaration))
                } else {
                    None
                }
            },
        }
    }
}

/// The windows a declared struct renders against: its own versions, and
/// the part of them its message encodes flexibly.
pub open spec fn struct_scope(message: &Message, declaration: StructDeclaration) -> ScopeView {
    ScopeView {
        message,
        valid: declaration.versions@,
        flexible: message.flexible_versions@.intersect(message.valid_versions@).intersect(declaration.versions@),
    }
}

/// The struct text of declaration `i`, resolved and rendered.
#[verifier::opaque]
pub open spec fn declared_struct_text(t: Seq<char>, d: nat, message: &Message, i: int) -> Seq<char> {
    let declaration = message.structs.declarations@[i];
    let scope = struct_scope(message, declaration);
    struct_text(
        t,
        d,
        declaration.name.spelling@,
        declaration.name.declared@,
        body_of(message, declaration)->0@,
        scope,
        declaration.versions@,
        scope.flexible,
        Identity::Nested,
    )
}

/// The text of the first `n` declared structs.
pub open spec fn declared_structs_text(t: Seq<char>, d: nat, message: &Message, n: int) -> Seq<char>
    decreases n,
{
    if n <= 0 {
        t
    } else {
        declared_struct_text(declared_structs_text(t, d, message, n - 1), d, message, n - 1)
    }
}

/// The refusal declared struct `i` raises when rendered.
#[verifier::opaque]
pub open spec fn declared_struct_fault(message: &Message, i: int) -> Option<Fault> {
    let declaration = message.structs.declarations@[i];
    let scope = struct_scope(message, declaration);
    struct_fault(message, body_of(message, declaration)->0@, scope, declaration.versions@, scope.flexible, Identity::Nested)
}

/// The first refusal among the first `n` declared structs.
pub open spec fn declared_fault(message: &Message, n: int) -> Option<Fault>
    decreases n,
{
    if n <= 0 {
        None
    } else {
        match declared_fault(message, n - 1) {
            Some(f) => Some(f),
            None => declared_struct_fault(message, n - 1),
        }
    }
}

/// Every refusal rendering a message's declared structs can raise, in order.
pub open spec fn structs_fault(message: &Message) -> Option<Fault> {
    let n = message.structs.declarations@.len() as int;
    match missing_fault(message, n) {
        Some(f) => Some(f),
        None => declared_fault(message, n),
    }
}

proof fn lemma_missing_persists(message: &Message, k: int, n: int)
    requires
        0 <= k <= n,
        missing_fault(message, k) is Some,
    ensures
        missing_fault(message, n) == missing_fault(message, k),
    decreases n - k,
{
    if n > k {
        lemma_missing_persists(message, k, n - 1);
    }
}

proof fn lemma_declared_persists(message: &Message, k: int, n: int)
    requires
        0 <= k <= n,
        declared_fault(message, k) is Some,
    ensures
        declared_fault(message, n) == declared_fault(message, k),
    decreases n - k,
{
    if n > k {
        lemma_declared_persists(message, k, n - 1);
    }
}

/// Renders one declared struct against its own windows.
fn render_declared(rust: &mut RustText, message: &Message, declaration: &StructDeclaration, fields: &Vec<Field>) -> (r: Result<(), GenerationError>)
    requires
        old(rust).room(16),
    ensures
        ({
            let scope = struct_scope(message, *declaration);
            match struct_fault(message, fields@, scope, declaration.versions@, scope.flexible, Identity::Nested) {
                None => r is Ok && final(rust).text() == struct_text(
                    old(rust).text(),
                    old(rust).depth(),
                    declaration.name.spelling@,
                    declaration.name.declared@,
                    fields@,
                    scope,
                    declaration.versions@,
                    scope.flexible,
                    Identity::Nested,
                ) && final(rust).depth() == old(rust).depth(),
                Some(f) => r matches Err(e) && e@ == f,
            }
        }),
{
    let flexible = message.effective_flexible_versions();
    let scope = Scope::nested(message, &declaration.versions, &flexible);
    assert(scope@ == struct_scope(message, *declaration));
    let rust_type = declaration.name.rust_type();
    render_struct_with(
        rust,
        rust_type.as_str(),
        declaration.name.declared(),
        fields,
        &scope,
        &declaration.versions,
        &scope.flexible_versions,
        Identity::Nested,
    )
}

/// Renders every struct a message declares, in declaration order, after
/// checking that every declaration has a body.
pub fn render_declared_structs(rust: &mut RustText, message: &Message) -> (r: Result<(), GenerationError>)
    requires
        old(rust).room(16),
    ensures
        match structs_fault(message) {
            None => r is Ok && final(rust).text() == declared_structs_text(
                old(rust).text(),
                old(rust).depth(),
                message,
                message.structs.declarations@.len() as int,
            ) && final(rust).depth() == old(rust).depth(),
            Some(f) => r matches Err(e) && e@ == f,
        },
{
    let declarations = &message.structs.declarations;
    let mut i: usize = 0;
    while i < declarations.len()
        invariant
            declarations == &message.structs.declarations,
            i <= declarations@.len(),
            missing_fault(message, i as int) is None,
        decreases declarations@.len() - i,
    {
        let declaration = &declarations[i];
        if declaration_fields(message, declaration).is_none() {
            let declared = declaration.name.declared();
            let origin = match declaration.origin {
                StructOrigin::Common => "Common",
                StructOrigin::Inline => "Inline",
            };
            let mut detail = owned("struct table declaration `");
            detail.append(declared);
            detail.append("` has no matching ");
            detail.append(origin);
            detail.append(" body");
            proof {
                lemma_missing_persists(message, i + 1, declarations@.len() as int);
            }
            return Err(GenerationError::internal(message, detail.as_str()));
        }
        i = i + 1;
    }
    let ghost start = rust.text();
    let ghost depth = rust.depth();
    let mut j: usize = 0;
    while j < declarations.len()
        invariant
            declarations == &message.structs.declarations,
            j <= declarations@.len(),
            missing_fault(message, declarations@.len() as int) is None,
            declared_fault(message, j as int) is None,
            rust.depth() == depth,
            depth + 16 <= usize::MAX,
            rust.text() == declared_structs_text(start, depth, message, j as int),
        decreases declarations@.len() - j,
    {
        let step = render_declared_at(rust, message, j);
        if let Err(e) = step {
            proof {
                lemma_declared_persists(message, j + 1, declarations@.len() as int);
            }
            return Err(e);
        }
        j = j + 1;
    }
    Ok(())
}

/// Renders declaration `j`, whose body is known to exist.
fn render_declared_at(rust: &mut RustText, message: &Message, j: usize) -> (r: Result<(), GenerationError>)
    requires
        old(rust).room(16),
        j < message.structs.declarations@.len(),
        missing_fault(message, message.structs.declarations@.len() as int) is None,
    ensures
        match declared_struct_fault(message, j as int) {
            None => r is Ok && final(rust).text() == declared_struct_text(old(rust).text(), old(rust).depth(), message, j as int)
                && final(rust).depth() == old(rust).depth(),
            Some(f) => r matches Err(e) && e@ == f,
        },
{
    let declaration = &message.structs.declarations[j];
    proof {
        lemma_missing_all(message, j as int, message.structs.declarations@.len() as int);
        reveal(declared_struct_text);
        reveal(declared_struct_fault);
    }
    match declaration_fields(message, declaration) {
        Some(fields) => render_declared(rust, message, declaration, fields),
        None => Ok(()),
    }
}

/// With no missing body among `n`, every one of them has a body.
proof fn lemma_missing_all(message: &Message, i: int, n: int)
    requires
        0 <= i < n <= message.structs.declarations@.len(),
        missing_fault(message, n) is None,
    ensures
        body_of(message, message.structs.declarations@[i]) is Some,
    decreases n,
{
    if n > i + 1 {
        lemma_missing_all(message, i, n - 1);
    }
}

} // verus!
