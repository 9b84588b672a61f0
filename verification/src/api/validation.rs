//! Recursive preflight validation emitted for messages and nested structures.
//!
//! Validation owns representability, nullability, retained tags, and descent;
//! byte reads and writes stay in the codec renderer.

use vstd::prelude::*;

use crate::api::imports::{spell, spelling};
use crate::api::symbol::ExternalSymbol as S;
use crate::api::tag_plan::known_order;
use crate::api::tagged_proof::{order_tags, RenderedKnownTags};
use crate::api::tagged_validation::{ownership_text, render_known_tag_ownership};
use crate::field::regime::{is_nullable, null_forbidden_condition, null_shape, nullable_in, nullable_somewhere, present_in, NullShape};
use crate::field::types::{non_default_condition, non_default_text};
use crate::field::version::{absence_condition, as_conjunct, condition_of, conjunct, gate_over, presence_condition};
use crate::naming::field_ident;
use crate::schema::{names_struct, Field, FieldType, Scope, ScopeView};
use crate::strings::{debug_quoted, debug_string, owned};
use crate::text::{emit_blank, emit_close, emit_line, emit_open, RustText};

verus! {

/// How a structure names itself in an encode error.
#[derive(Clone, Copy)]
pub enum Owner<'a> {
    /// A message, which carries its protocol name as a constant.
    Message,
    /// A nested struct, named by its generated Rust type.
    Struct(&'a str),
}

/// An owner as contracts speak of it.
pub enum OwnerView {
    Message,
    Struct(Seq<char>),
}

impl<'a> View for Owner<'a> {
    type V = OwnerView;

    open spec fn view(&self) -> OwnerView {
        match self {
            Owner::Message => OwnerView::Message,
            Owner::Struct(rust_type) => OwnerView::Struct(rust_type@),
        }
    }
}

/// The expression naming an owner in a generated error.
pub open spec fn owner_text(owner: OwnerView) -> Seq<char> {
    match owner {
        OwnerView::Message => "Self::NAME"@,
        OwnerView::Struct(rust_type) => debug_string(rust_type),
    }
}

impl<'a> Owner<'a> {
    pub fn name(self) -> (r: String)
        ensures
            r@ == owner_text(self@),
    {
        match self {
            Owner::Message => owned("Self::NAME"),
            Owner::Struct(rust_type) => debug_quoted(rust_type),
        }
    }
}

/// Whether one field makes the generated validator read `self`.
pub open spec fn field_reads_self(field: Field, scope: ScopeView) -> bool {
    names_struct(field.ty) || null_shape(&field, scope) == NullShape::Gated || (!field.ignorable && gate_over(
        field.versions@,
        scope.valid,
    ) is Some)
}

/// Whether the generated validator reads `self` at all.
pub open spec fn validation_reads_self(fields: Seq<Field>, scope: ScopeView, flexible: bool) -> bool {
    flexible || exists|i: int| 0 <= i < fields.len() && field_reads_self(#[trigger] fields[i], scope)
}

fn validation_uses_self(fields: &Vec<Field>, scope: &Scope, flexible: bool) -> (r: bool)
    ensures
        r == validation_reads_self(fields@, scope@, flexible),
{
    if flexible {
        return true;
    }
    let mut i: usize = 0;
    while i < fields.len()
        invariant
            i <= fields@.len(),
            forall|k: int| 0 <= k < i ==> !field_reads_self(#[trigger] fields@[k], scope@),
        decreases fields@.len() - i,
    {
        let field = &fields[i];
        if field.ty.struct_reference().is_some() || null_forbidden_condition(field, scope).is_some() || (!field.ignorable
            && absence_condition(field, scope).is_some()) {
            assert(field_reads_self(fields@[i as int], scope@));
            return true;
        }
        i = i + 1;
    }
    false
}

/// The refusal of a non-default value in a version the field is absent from.
pub open spec fn representability_text(t: Seq<char>, d: nat, field: Field, scope: ScopeView, owner: OwnerView) -> Seq<char> {
    if field.ignorable || gate_over(field.versions@, scope.valid) is None {
        t
    } else {
        let message = scope.message;
        let absent = condition_of(scope.valid.difference(field.versions@), scope.valid);
        let t = emit_open(t, d, "if "@ + conjunct(absent) + " && "@ + non_default_text(&field, scope));
        let t = emit_open(
            t,
            d + 1,
            "return "@ + spelling(message, S::ResultErr) + "("@ + spelling(message, S::EncodeError) + "::FieldNotRepresentable"@,
        );
        let t = emit_line(t, d + 2, "message: "@ + owner_text(owner) + ","@);
        let t = emit_line(t, d + 2, "field: "@ + debug_string(field.name.text@) + ","@);
        let t = emit_line(t, d + 2, "version,"@);
        let t = emit_close(t, d + 1, ");"@);
        emit_close(t, d, ""@)
    }
}

/// The refusal of a null in a version the field may not be null in.
pub open spec fn null_guard_text(t: Seq<char>, d: nat, field: Field, scope: ScopeView, owner: OwnerView) -> Seq<char> {
    if null_shape(&field, scope) != NullShape::Gated {
        t
    } else {
        let message = scope.message;
        let plain = condition_of(present_in(&field, scope).difference(nullable_in(&field, scope)), scope.valid);
        let t = emit_open(t, d, "if "@ + conjunct(plain) + " && self."@ + field_ident(field.name.text@) + ".is_none()"@);
        let t = emit_open(
            t,
            d + 1,
            "return "@ + spelling(message, S::ResultErr) + "("@ + spelling(message, S::EncodeError) + "::NullNotAllowed"@,
        );
        let t = emit_line(t, d + 2, "message: "@ + owner_text(owner) + ","@);
        let t = emit_line(t, d + 2, "field: "@ + debug_string(field.name.text@) + ","@);
        let t = emit_line(t, d + 2, "version,"@);
        let t = emit_close(t, d + 1, ");"@);
        emit_close(t, d, ""@)
    }
}

/// The descent into one struct-valued field.
pub open spec fn nested_text(t: Seq<char>, d: nat, field: Field, scope: ScopeView) -> Seq<char> {
    if !names_struct(field.ty) {
        t
    } else {
        let message = scope.message;
        let gate = gate_over(field.versions@, scope.valid);
        let inner = if gate is Some { d + 1 } else { d };
        let name = field_ident(field.name.text@);
        let nullable = nullable_somewhere(&field, scope);
        let t = match gate {
            Some(condition) => emit_open(t, d, "if "@ + condition),
            None => t,
        };
        let t = match field.ty {
            FieldType::Struct(_) => if nullable {
                let t = emit_open(t, inner, "if let "@ + spelling(message, S::OptionSome) + "(value) = &self."@ + name);
                let t = emit_line(t, inner + 1, "value.validate_for_version(version)?;"@);
                emit_close(t, inner, ""@)
            } else {
                emit_line(t, inner, "self."@ + name + ".validate_for_version(version)?;"@)
            },
            _ => if nullable {
                let t = emit_open(t, inner, "if let "@ + spelling(message, S::OptionSome) + "(values) = &self."@ + name);
                let t = emit_open(t, inner + 1, "for value in values"@);
                let t = emit_line(t, inner + 2, "value.validate_for_version(version)?;"@);
                let t = emit_close(t, inner + 1, ""@);
                emit_close(t, inner, ""@)
            } else {
                let t = emit_open(t, inner, "for value in &self."@ + name);
                let t = emit_line(t, inner + 1, "value.validate_for_version(version)?;"@);
                emit_close(t, inner, ""@)
            },
        };
        if gate is Some {
            emit_close(t, d, ""@)
        } else {
            t
        }
    }
}

/// Which per-field check a pass over the fields emits.
pub enum Check {
    Representable,
    NullGuard,
    Nested,
}

/// One check for one field.
pub open spec fn check_text(t: Seq<char>, d: nat, check: Check, field: Field, scope: ScopeView, owner: OwnerView) -> Seq<char> {
    match check {
        Check::Representable => representability_text(t, d, field, scope, owner),
        Check::NullGuard => null_guard_text(t, d, field, scope, owner),
        Check::Nested => nested_text(t, d, field, scope),
    }
}

/// One check for each of the first `n` fields.
pub open spec fn checks_text(t: Seq<char>, d: nat, check: Check, fields: Seq<Field>, n: int, scope: ScopeView, owner: OwnerView) -> Seq<char>
    decreases n,
{
    if n <= 0 {
        t
    } else {
        check_text(checks_text(t, d, check, fields, n - 1, scope, owner), d, check, fields[n - 1], scope, owner)
    }
}

fn render_representability(rust: &mut RustText, field: &Field, scope: &Scope, owner: Owner)
    requires
        old(rust).room(2),
    ensures
        final(rust).text() == representability_text(old(rust).text(), old(rust).depth(), *field, scope@, owner@),
        final(rust).depth() == old(rust).depth(),
{
    if field.ignorable {
        return;
    }
    let absent = match absence_condition(field, scope) {
        Some(c) => c,
        None => return,
    };
    let message = scope.message;
    let non_default = non_default_condition(field, scope);
    let mut head = owned("if ");
    let joined = as_conjunct(absent.as_str());
    head.append(joined.as_str());
    head.append(" && ");
    head.append(non_default.as_str());
    rust.open(head.as_str());
    let err = spell(message, S::ResultErr);
    let error = spell(message, S::EncodeError);
    let l = crate::strings::cat5("return ", err.as_str(), "(", error.as_str(), "::FieldNotRepresentable");
    rust.open(l.as_str());
    let name = owner.name();
    let l = crate::strings::cat3("message: ", name.as_str(), ",");
    rust.line(l.as_str());
    let quoted = debug_quoted(field.name.protocol());
    let l = crate::strings::cat3("field: ", quoted.as_str(), ",");
    rust.line(l.as_str());
    rust.line("version,");
    rust.close(");");
    rust.close("");
}

fn render_null_guard(rust: &mut RustText, field: &Field, scope: &Scope, owner: Owner)
    requires
        old(rust).room(2),
    ensures
        final(rust).text() == null_guard_text(old(rust).text(), old(rust).depth(), *field, scope@, owner@),
        final(rust).depth() == old(rust).depth(),
{
    let condition = match null_forbidden_condition(field, scope) {
        Some(c) => c,
        None => return,
    };
    let message = scope.message;
    let name = field.name.rust_field();
    let mut head = owned("if ");
    let joined = as_conjunct(condition.as_str());
    head.append(joined.as_str());
    head.append(" && self.");
    head.append(name.as_str());
    head.append(".is_none()");
    rust.open(head.as_str());
    let err = spell(message, S::ResultErr);
    let error = spell(message, S::EncodeError);
    let l = crate::strings::cat5("return ", err.as_str(), "(", error.as_str(), "::NullNotAllowed");
    rust.open(l.as_str());
    let owner_name = owner.name();
    let l = crate::strings::cat3("message: ", owner_name.as_str(), ",");
    rust.line(l.as_str());
    let quoted = debug_quoted(field.name.protocol());
    let l = crate::strings::cat3("field: ", quoted.as_str(), ",");
    rust.line(l.as_str());
    rust.line("version,");
    rust.close(");");
    rust.close("");
}

fn render_nested(rust: &mut RustText, field: &Field, scope: &Scope)
    requires
        old(rust).room(3),
    ensures
        final(rust).text() == nested_text(old(rust).text(), old(rust).depth(), *field, scope@),
        final(rust).depth() == old(rust).depth(),
{
    if field.ty.struct_reference().is_none() {
        return;
    }
    let message = scope.message;
    let gate = presence_condition(field, scope);
    match &gate {
        Some(condition) => {
            let head = crate::strings::cat2("if ", condition.as_str());
            rust.open(head.as_str());
        },
        None => {},
    }
    let name = field.name.rust_field();
    let nullable = is_nullable(field, scope);
    match &field.ty {
        FieldType::Struct(_) => {
            if nullable {
                let some = spell(message, S::OptionSome);
                let l = crate::strings::cat4("if let ", some.as_str(), "(value) = &self.", name.as_str());
                rust.open(l.as_str());
                rust.line("value.validate_for_version(version)?;");
                rust.close("");
            } else {
                let l = crate::strings::cat3("self.", name.as_str(), ".validate_for_version(version)?;");
                rust.line(l.as_str());
            }
        },
        _ => {
            if nullable {
                let some = spell(message, S::OptionSome);
                let l = crate::strings::cat4("if let ", some.as_str(), "(values) = &self.", name.as_str());
                rust.open(l.as_str());
                rust.open("for value in values");
                rust.line("value.validate_for_version(version)?;");
                rust.close("");
                rust.close("");
            } else {
                let l = crate::strings::cat2("for value in &self.", name.as_str());
                rust.open(l.as_str());
                rust.line("value.validate_for_version(version)?;");
                rust.close("");
            }
        },
    }
    if gate.is_some() {
        rust.close("");
    }
}

/// Emits one check for every field.
fn render_checks(rust: &mut RustText, check: Check, fields: &Vec<Field>, scope: &Scope, owner: Owner)
    requires
        old(rust).room(3),
    ensures
        final(rust).text() == checks_text(old(rust).text(), old(rust).depth(), check, fields@, fields@.len() as int, scope@, owner@),
        final(rust).depth() == old(rust).depth(),
{
    let ghost start = rust.text();
    let ghost depth = rust.depth();
    let mut i: usize = 0;
    while i < fields.len()
        invariant
            i <= fields@.len(),
            rust.depth() == depth,
            depth + 3 <= usize::MAX,
            rust.text() == checks_text(start, depth, check, fields@, i as int, scope@, owner@),
        decreases fields@.len() - i,
    {
        match check {
            Check::Representable => render_representability(rust, &fields[i], scope, owner),
            Check::NullGuard => render_null_guard(rust, &fields[i], scope, owner),
            Check::Nested => render_nested(rust, &fields[i], scope),
        }
        i = i + 1;
    }
}

/// The guard a nested struct's validator opens with: its own version range.
pub open spec fn struct_guard_text(t: Seq<char>, d: nat, scope: ScopeView, owner: OwnerView) -> Seq<char> {
    let message = scope.message;
    let t = emit_open(t, d, "if !Self::SUPPORTED_VERSIONS.contains(version)"@);
    let t = emit_open(
        t,
        d + 1,
        "return "@ + spelling(message, S::ResultErr) + "("@ + spelling(message, S::EncodeError) + "::UnsupportedVersion"@,
    );
    let t = emit_line(t, d + 2, "message: "@ + owner_text(owner) + ","@);
    let t = emit_line(t, d + 2, "version,"@);
    let t = emit_line(t, d + 2, "supported: Self::SUPPORTED_VERSIONS,"@);
    let t = emit_close(t, d + 1, ");"@);
    emit_close(t, d, ""@)
}

fn render_struct_version_guard(rust: &mut RustText, scope: &Scope, owner: Owner)
    requires
        old(rust).room(2),
    ensures
        final(rust).text() == struct_guard_text(old(rust).text(), old(rust).depth(), scope@, owner@),
        final(rust).depth() == old(rust).depth(),
{
    let message = scope.message;
    rust.open("if !Self::SUPPORTED_VERSIONS.contains(version)");
    let err = spell(message, S::ResultErr);
    let error = spell(message, S::EncodeError);
    let l = crate::strings::cat5("return ", err.as_str(), "(", error.as_str(), "::UnsupportedVersion");
    rust.open(l.as_str());
    let name = owner.name();
    let l = crate::strings::cat3("message: ", name.as_str(), ",");
    rust.line(l.as_str());
    rust.line("version,");
    rust.line("supported: Self::SUPPORTED_VERSIONS,");
    rust.close(");");
    rust.close("");
}

/// The refusal of retained tags in a version without a tagged section.
pub open spec fn retained_guard_text(t: Seq<char>, d: nat, scope: ScopeView, owner: OwnerView) -> Seq<char> {
    let message = scope.message;
    let t = emit_open(t, d, "if !Self::is_flexible(version) && !self.unknown_tagged_fields.is_empty()"@);
    let t = emit_open(
        t,
        d + 1,
        "return "@ + spelling(message, S::ResultErr) + "("@ + spelling(message, S::EncodeError)
            + "::TaggedFieldsNotRepresentable"@,
    );
    let t = emit_line(t, d + 2, "message: "@ + owner_text(owner) + ","@);
    let t = emit_line(t, d + 2, "version,"@);
    let t = emit_close(t, d + 1, ");"@);
    emit_close(t, d, ""@)
}

fn render_retained_guard(rust: &mut RustText, scope: &Scope, owner: Owner)
    requires
        old(rust).room(2),
    ensures
        final(rust).text() == retained_guard_text(old(rust).text(), old(rust).depth(), scope@, owner@),
        final(rust).depth() == old(rust).depth(),
{
    let message = scope.message;
    rust.open("if !Self::is_flexible(version) && !self.unknown_tagged_fields.is_empty()");
    let err = spell(message, S::ResultErr);
    let error = spell(message, S::EncodeError);
    let l = crate::strings::cat5("return ", err.as_str(), "(", error.as_str(), "::TaggedFieldsNotRepresentable");
    rust.open(l.as_str());
    let name = owner.name();
    let l = crate::strings::cat3("message: ", name.as_str(), ",");
    rust.line(l.as_str());
    rust.line("version,");
    rust.close(");");
    rust.close("");
}

/// The signature line of the generated validator.
pub open spec fn validator_head(scope: ScopeView) -> Seq<char> {
    let message = scope.message;
    "fn validate_for_version(&self, version: "@ + spelling(message, S::ApiVersion) + ") -> "@ + spelling(message, S::Result)
        + "<(), "@ + spelling(message, S::EncodeError) + ">"@
}

fn validator_signature(scope: &Scope) -> (r: String)
    ensures
        r@ == validator_head(scope@),
{
    let message = scope.message;
    let api_version = spell(message, S::ApiVersion);
    let result = spell(message, S::Result);
    let error = spell(message, S::EncodeError);
    let mut l = owned("fn validate_for_version(&self, version: ");
    l.append(api_version.as_str());
    l.append(") -> ");
    l.append(result.as_str());
    l.append("<(), ");
    l.append(error.as_str());
    l.append(">");
    l
}

/// The body of the generated validator after its version guard.
pub open spec fn validator_body_text(t: Seq<char>, d: nat, fields: Seq<Field>, scope: ScopeView, owner: OwnerView, flexible: bool) -> Seq<char> {
    let t = if known_order(fields).len() > 0 {
        emit_line(t, d, "self.validate_known_tag_ownership(version)?;"@)
    } else {
        t
    };
    let t = checks_text(t, d, Check::Representable, fields, fields.len() as int, scope, owner);
    let t = checks_text(t, d, Check::NullGuard, fields, fields.len() as int, scope, owner);
    let t = checks_text(t, d, Check::Nested, fields, fields.len() as int, scope, owner);
    let t = if flexible {
        retained_guard_text(t, d, scope, owner)
    } else {
        t
    };
    let t = emit_blank(t);
    emit_line(t, d, spelling(scope.message, S::ResultOk) + "(())"@)
}

/// The whole generated preflight for one structure.
#[verifier::opaque]
pub open spec fn validation_text(
    t: Seq<char>,
    d: nat,
    rust_type: Seq<char>,
    fields: Seq<Field>,
    scope: ScopeView,
    owner: OwnerView,
    flexible: bool,
) -> Seq<char> {
    let t = emit_open(t, d, "impl "@ + rust_type);
    let t = ownership_text(t, d + 1, fields, scope, owner_text(owner));
    let t = if !validation_reads_self(fields, scope, flexible) {
        emit_line(t, d + 1, "#[allow(clippy::unused_self)]"@)
    } else {
        t
    };
    let t = emit_open(t, d + 1, validator_head(scope));
    let t = match owner {
        OwnerView::Message => emit_line(t, d + 2, "crate::message::ensure_encode_version::<Self>(version)?;"@),
        OwnerView::Struct(_) => struct_guard_text(t, d + 2, scope, owner),
    };
    let t = emit_blank(t);
    let t = validator_body_text(t, d + 2, fields, scope, owner, flexible);
    let t = emit_close(t, d + 1, ""@);
    let t = emit_close(t, d, ""@);
    emit_blank(t)
}

fn render_validator_body(rust: &mut RustText, fields: &Vec<Field>, scope: &Scope, owner: Owner, flexible: bool, tags: bool)
    requires
        old(rust).room(3),
        tags == (known_order(fields@).len() > 0),
    ensures
        final(rust).text() == validator_body_text(old(rust).text(), old(rust).depth(), fields@, scope@, owner@, flexible),
        final(rust).depth() == old(rust).depth(),
{
    if tags {
        rust.line("self.validate_known_tag_ownership(version)?;");
    }
    render_checks(rust, Check::Representable, fields, scope, owner);
    render_checks(rust, Check::NullGuard, fields, scope, owner);
    render_checks(rust, Check::Nested, fields, scope, owner);
    if flexible {
        render_retained_guard(rust, scope, owner);
    }
    rust.blank();
    let ok = spell(scope.message, S::ResultOk);
    let l = crate::strings::cat2(ok.as_str(), "(())");
    rust.line(l.as_str());
}

/// Emits the preflight every generated encoder runs before writing a byte,
/// and reports the known tags whose ownership it checks.
pub fn render_validation(
    rust: &mut RustText,
    rust_type: &str,
    fields: &Vec<Field>,
    scope: &Scope,
    owner: Owner,
    flexible: bool,
) -> (checked: RenderedKnownTags)
    requires
        old(rust).room(8),
    ensures
        final(rust).text() == validation_text(old(rust).text(), old(rust).depth(), rust_type@, fields@, scope@, owner@, flexible),
        final(rust).depth() == old(rust).depth(),
        checked@ == order_tags(known_order(fields@)),
{
    proof {
        reveal(validation_text);
    }
    let head = crate::strings::cat2("impl ", rust_type);
    rust.open(head.as_str());
    let owner_name = owner.name();
    let checked = render_known_tag_ownership(rust, fields, scope, owner_name.as_str());
    if !validation_uses_self(fields, scope, flexible) {
        rust.line("#[allow(clippy::unused_self)]");
    }
    let signature = validator_signature(scope);
    rust.open(signature.as_str());
    match owner {
        Owner::Message => rust.line("crate::message::ensure_encode_version::<Self>(version)?;"),
        Owner::Struct(_) => render_struct_version_guard(rust, scope, owner),
    }
    rust.blank();
    let tags = !checked.is_empty();
    render_validator_body(rust, fields, scope, owner, flexible, tags);
    rust.close("");
    rust.close("");
    rust.blank();
    checked
}

} // verus!
