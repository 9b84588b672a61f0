//! Emission for the structs a message declares.
//!
//! This file owns turning one message's common structs and inline field
//! bodies into Rust: the struct definition, its default, its identity, and its
//! codecs. A struct has no API key or descriptor; its supported range comes
//! from the schema's declaration table rather than from its owner message.

use vstd::prelude::*;

use crate::api::codec::{decode_body_text, decode_fault, kafka_encode_text, render_decode_body, render_struct_encode, validated_encode_text};
use crate::api::imports::{spell, spelling};
use crate::api::metadata::range_text;
use crate::api::prose::{sentence, sentence_text};
use crate::api::protocol_eq::{protocol_eq_text, render_protocol_eq, render_retained_size, retained_size_text};
use crate::api::symbol::ExternalSymbol as S;
use crate::api::validation::{render_validation, validation_text, Owner, OwnerView};
use crate::established::{bounded, optional_bounded, unbounded_fault};
use crate::field::types::{default_expression, default_text, derives_default, field_type_text, message_carries, rust_type, uses_rust_default, uses_type};
use crate::naming::field_ident;
use crate::schema::{api_stem_of, names_struct, CommonStruct, Fault, Field, FieldType, GenerationError, Message, Scope, StructDeclaration, StructOrigin, StructRef, ScopeView};
use crate::strings::{debug_quoted, debug_string, owned};
use crate::text::{emit_blank, emit_close, emit_line, emit_open, RustText};
use crate::versions::{single_bounded_of, VersionSet};

verus! {

/// The two lines that declare one member: its doc sentence and its type.
pub open spec fn member_lines_text(t: Seq<char>, d: nat, fields: Seq<Field>, n: int, scope: ScopeView) -> Seq<char>
    decreases n,
{
    if n <= 0 {
        t
    } else {
        let field = fields[n - 1];
        let t = member_lines_text(t, d, fields, n - 1, scope);
        let t = emit_line(t, d, "/// "@ + sentence_text(field.about@));
        emit_line(t, d, "pub "@ + field_ident(field.name.text@) + ": "@ + field_type_text(&field, scope) + ","@)
    }
}

fn render_member(rust: &mut RustText, field: &Field, scope: &Scope)
    ensures
        final(rust).text() == emit_line(
            emit_line(old(rust).text(), old(rust).depth(), "/// "@ + sentence_text(field.about@)),
            old(rust).depth(),
            "pub "@ + field_ident(field.name.text@) + ": "@ + field_type_text(field, scope@) + ","@,
        ),
        final(rust).depth() == old(rust).depth(),
{
    let about = sentence(field.about.as_str());
    let l = crate::strings::cat2("/// ", about.as_str());
    rust.line(l.as_str());
    let name = field.name.rust_field();
    let ty = rust_type(field, scope);
    let mut l = owned("pub ");
    l.append(name.as_str());
    l.append(": ");
    l.append(ty.as_str());
    l.append(",");
    rust.line(l.as_str());
}

fn render_members(rust: &mut RustText, fields: &Vec<Field>, scope: &Scope)
    ensures
        final(rust).text() == member_lines_text(old(rust).text(), old(rust).depth(), fields@, fields@.len() as int, scope@),
        final(rust).depth() == old(rust).depth(),
{
    let ghost start = rust.text();
    let ghost depth = rust.depth();
    let mut i: usize = 0;
    while i < fields.len()
        invariant
            i <= fields@.len(),
            rust.depth() == depth,
            rust.text() == member_lines_text(start, depth, fields@, i as int, scope@),
        decreases fields@.len() - i,
    {
        render_member(rust, &fields[i], scope);
        i = i + 1;
    }
}

/// One `member: default,` line for each of the first `n` fields.
pub open spec fn default_members_text(t: Seq<char>, d: nat, fields: Seq<Field>, n: int, scope: ScopeView) -> Seq<char>
    decreases n,
{
    if n <= 0 {
        t
    } else {
        let field = fields[n - 1];
        emit_line(
            default_members_text(t, d, fields, n - 1, scope),
            d,
            field_ident(field.name.text@) + ": "@ + default_text(&field, scope) + ","@,
        )
    }
}

fn render_default_members(rust: &mut RustText, fields: &Vec<Field>, scope: &Scope)
    ensures
        final(rust).text() == default_members_text(old(rust).text(), old(rust).depth(), fields@, fields@.len() as int, scope@),
        final(rust).depth() == old(rust).depth(),
{
    let ghost start = rust.text();
    let ghost depth = rust.depth();
    let mut i: usize = 0;
    while i < fields.len()
        invariant
            i <= fields@.len(),
            rust.depth() == depth,
            rust.text() == default_members_text(start, depth, fields@, i as int, scope@),
        decreases fields@.len() - i,
    {
        let field = &fields[i];
        let name = field.name.rust_field();
        let value = default_expression(field, scope);
        let mut l = name;
        l.append(": ");
        l.append(value.as_str());
        l.append(",");
        rust.line(l.as_str());
        i = i + 1;
    }
}

/// Whether every member's protocol default is Rust's, so `Default` derives.
pub open spec fn all_derive_default(fields: Seq<Field>, scope: ScopeView) -> bool {
    forall|i: int| 0 <= i < fields.len() ==> derives_default(&#[trigger] fields[i], scope)
}

pub fn derive_default(fields: &Vec<Field>, scope: &Scope) -> (r: bool)
    ensures
        r == all_derive_default(fields@, scope@),
{
    let mut i: usize = 0;
    while i < fields.len()
        invariant
            i <= fields@.len(),
            forall|k: int| 0 <= k < i ==> derives_default(&#[trigger] fields@[k], scope@),
        decreases fields@.len() - i,
    {
        if !uses_rust_default(&fields[i], scope) {
            return false;
        }
        i = i + 1;
    }
    true
}

/// The equality traits a structure derives: a float anywhere in the message
/// rules out `Eq`, for the container and everything it holds alike.
pub open spec fn equality_text(message: &Message) -> Seq<char> {
    if message_carries(message, FieldType::Float64) {
        "PartialEq"@
    } else {
        "Eq, PartialEq"@
    }
}

pub fn equality(message: &Message) -> (r: &'static str)
    ensures
        r@ == equality_text(message),
{
    if uses_type(message, &FieldType::Float64) {
        "PartialEq"
    } else {
        "Eq, PartialEq"
    }
}

/// The struct definition: derives, every member, and the retained tags.
#[verifier::opaque]
pub open spec fn definition_text(
    t: Seq<char>,
    d: nat,
    rust_type: Seq<char>,
    fields: Seq<Field>,
    scope: ScopeView,
    default_word: Seq<char>,
    flexible: bool,
) -> Seq<char> {
    let equality = equality_text(scope.message);
    let t = emit_line(t, d, "#[non_exhaustive]"@);
    let t = if all_derive_default(fields, scope) {
        emit_line(t, d, "#[derive(Clone, Debug, "@ + default_word + ", "@ + equality + ")]"@)
    } else {
        emit_line(t, d, "#[derive(Clone, Debug, "@ + equality + ")]"@)
    };
    let t = emit_open(t, d, "pub struct "@ + rust_type);
    let t = member_lines_text(t, d + 1, fields, fields.len() as int, scope);
    let t = if flexible {
        let t = emit_line(t, d + 1, "/// Unknown flexible-version tagged fields retained for forwarding."@);
        emit_line(t, d + 1, "pub unknown_tagged_fields: "@ + spelling(scope.message, S::TaggedFields) + ","@)
    } else {
        t
    };
    let t = emit_close(t, d, ""@);
    emit_blank(t)
}

pub fn render_definition(
    rust: &mut RustText,
    rust_type: &str,
    fields: &Vec<Field>,
    scope: &Scope,
    default_word: &str,
    flexible: bool,
)
    requires
        old(rust).room(1),
    ensures
        final(rust).text() == definition_text(old(rust).text(), old(rust).depth(), rust_type@, fields@, scope@, default_word@, flexible),
        final(rust).depth() == old(rust).depth(),
{
    proof {
        reveal(definition_text);
    }
    let equality = equality(scope.message);
    rust.line("#[non_exhaustive]");
    if derive_default(fields, scope) {
        let l = crate::strings::cat5("#[derive(Clone, Debug, ", default_word, ", ", equality, ")]");
        rust.line(l.as_str());
    } else {
        let l = crate::strings::cat3("#[derive(Clone, Debug, ", equality, ")]");
        rust.line(l.as_str());
    }
    let l = crate::strings::cat2("pub struct ", rust_type);
    rust.open(l.as_str());
    render_members(rust, fields, scope);
    if flexible {
        rust.line("/// Unknown flexible-version tagged fields retained for forwarding.");
        let tagged = spell(scope.message, S::TaggedFields);
        let l = crate::strings::cat3("pub unknown_tagged_fields: ", tagged.as_str(), ",");
        rust.line(l.as_str());
    }
    rust.close("");
    rust.blank();
}

/// A `Default` implementation spelling every member's protocol default.
#[verifier::opaque]
pub open spec fn default_impl_text(
    t: Seq<char>,
    d: nat,
    rust_type: Seq<char>,
    fields: Seq<Field>,
    scope: ScopeView,
    default_word: Seq<char>,
    flexible: bool,
) -> Seq<char> {
    let t = emit_open(t, d, "impl "@ + default_word + " for "@ + rust_type);
    let t = emit_open(t, d + 1, "fn default() -> Self"@);
    let t = emit_open(t, d + 2, "Self"@);
    let t = default_members_text(t, d + 3, fields, fields.len() as int, scope);
    let t = if flexible {
        emit_line(t, d + 3, "unknown_tagged_fields: "@ + spelling(scope.message, S::TaggedFields) + "::default(),"@)
    } else {
        t
    };
    let t = emit_close(t, d + 2, ""@);
    let t = emit_close(t, d + 1, ""@);
    let t = emit_close(t, d, ""@);
    emit_blank(t)
}

pub fn render_default_impl(
    rust: &mut RustText,
    rust_type: &str,
    fields: &Vec<Field>,
    scope: &Scope,
    default_word: &str,
    flexible: bool,
)
    requires
        old(rust).room(3),
    ensures
        final(rust).text() == default_impl_text(old(rust).text(), old(rust).depth(), rust_type@, fields@, scope@, default_word@, flexible),
        final(rust).depth() == old(rust).depth(),
{
    proof {
        reveal(default_impl_text);
    }
    let l = crate::strings::cat4("impl ", default_word, " for ", rust_type);
    rust.open(l.as_str());
    rust.open("fn default() -> Self");
    rust.open("Self");
    render_default_members(rust, fields, scope);
    if flexible {
        let tagged = spell(scope.message, S::TaggedFields);
        let l = crate::strings::cat3("unknown_tagged_fields: ", tagged.as_str(), "::default(),");
        rust.line(l.as_str());
    }
    rust.close("");
    rust.close("");
    rust.close("");
    rust.blank();
}

/// How a rendered structure states the windows its codecs read.
#[derive(Clone, Copy, PartialEq, Eq, Structural)]
pub enum Identity {
    /// A struct nested inside a message: both windows are inherent constants.
    Nested,
    /// A schema that stands alone, stating its windows through `KafkaMessage`.
    Message,
}

/// The `FLEXIBLE_VERSIONS` value of a structure.
pub open spec fn flexible_constant(range: Seq<char>, flexible: Set<int>) -> Seq<char> {
    if flexible == Set::<int>::empty() {
        "None"@
    } else {
        "Some("@ + range_text(range, single_bounded_of(flexible)->0) + ")"@
    }
}

/// The refusal a structure's identity raises when a window is not one interval.
pub open spec fn identity_fault(message: &Message, supported: Set<int>, flexible: Set<int>, identity: Identity) -> Option<Fault> {
    if flexible != Set::<int>::empty() && single_bounded_of(flexible) is None {
        Some(unbounded_fault(message, "effective flexible versions"@))
    } else if single_bounded_of(supported) is None {
        Some(unbounded_fault(
            message,
            if identity == Identity::Message { "valid versions"@ } else { "struct effective versions"@ },
        ))
    } else {
        None
    }
}

/// The windows a structure's codecs read, stated as its identity spells them.
pub open spec fn identity_text(
    t: Seq<char>,
    d: nat,
    rust_type: Seq<char>,
    scope: ScopeView,
    supported: Set<int>,
    flexible: Set<int>,
    identity: Identity,
) -> Seq<char> {
    let message = scope.message;
    let range = spelling(message, S::VersionRange);
    let constant = flexible_constant(range, flexible);
    let supported_line = "const SUPPORTED_VERSIONS: "@ + range + " = "@ + range_text(range, single_bounded_of(supported)->0) + ";"@;
    let flexible_line = "const FLEXIBLE_VERSIONS: Option<"@ + range + "> = "@ + constant + ";"@;
    match identity {
        Identity::Message => {
            let t = emit_open(t, d, "impl "@ + spelling(message, S::KafkaMessage) + " for "@ + rust_type);
            let t = emit_line(t, d + 1, "const NAME: &'static str = "@ + debug_string(message.name.text@) + ";"@);
            let t = emit_line(t, d + 1, supported_line);
            let t = emit_line(t, d + 1, flexible_line);
            let t = emit_close(t, d, ""@);
            emit_blank(t)
        },
        Identity::Nested => {
            let t = emit_open(t, d, "impl "@ + rust_type);
            let t = emit_line(t, d + 1, supported_line);
            let t = if flexible != Set::<int>::empty() {
                let t = emit_line(t, d + 1, flexible_line);
                let t = emit_blank(t);
                let t = emit_open(t, d + 1, "fn is_flexible(version: "@ + spelling(message, S::ApiVersion) + ") -> bool"@);
                let t = emit_line(t, d + 2, "Self::FLEXIBLE_VERSIONS.is_some_and(|range| range.contains(version))"@);
                emit_close(t, d + 1, ""@)
            } else {
                t
            };
            let t = emit_close(t, d, ""@);
            emit_blank(t)
        },
    }
}

fn render_identity(
    rust: &mut RustText,
    rust_type: &str,
    scope: &Scope,
    supported: &VersionSet,
    flexible: &VersionSet,
    identity: Identity,
) -> (r: Result<(), GenerationError>)
    requires
        old(rust).room(2),
    ensures
        match identity_fault(scope.message, supported@, flexible@, identity) {
            None => r is Ok && final(rust).text() == identity_text(
                old(rust).text(),
                old(rust).depth(),
                rust_type@,
                scope@,
                supported@,
                flexible@,
                identity,
            ) && final(rust).depth() == old(rust).depth(),
            Some(f) => r matches Err(e) && e@ == f && final(rust).text() == old(rust).text() && final(rust).depth()
                == old(rust).depth(),
        },
{
    let message = scope.message;
    let range = spell(message, S::VersionRange);
    let constant = match optional_bounded(message, flexible, "effective flexible versions")? {
        None => owned("None"),
        Some(bounds) => {
            let inner = crate::api::metadata::range_expression(range.as_str(), bounds);
            crate::strings::cat3("Some(", inner.as_str(), ")")
        },
    };
    let concept = match identity {
        Identity::Message => "valid versions",
        Identity::Nested => "struct effective versions",
    };
    let bounds = bounded(message, supported, concept)?;
    let full = crate::api::metadata::range_expression(range.as_str(), bounds);
    let mut supported_line = owned("const SUPPORTED_VERSIONS: ");
    supported_line.append(range.as_str());
    supported_line.append(" = ");
    supported_line.append(full.as_str());
    supported_line.append(";");
    let mut flexible_line = owned("const FLEXIBLE_VERSIONS: Option<");
    flexible_line.append(range.as_str());
    flexible_line.append("> = ");
    flexible_line.append(constant.as_str());
    flexible_line.append(";");
    match identity {
        Identity::Message => {
            let kafka_message = spell(message, S::KafkaMessage);
            let l = crate::strings::cat4("impl ", kafka_message.as_str(), " for ", rust_type);
            rust.open(l.as_str());
            let quoted = debug_quoted(message.name.protocol());
            let l = crate::strings::cat3("const NAME: &'static str = ", quoted.as_str(), ";");
            rust.line(l.as_str());
            rust.line(supported_line.as_str());
            rust.line(flexible_line.as_str());
            rust.close("");
            rust.blank();
        },
        Identity::Nested => {
            let l = crate::strings::cat2("impl ", rust_type);
            rust.open(l.as_str());
            rust.line(supported_line.as_str());
            if !flexible.is_empty() {
                rust.line(flexible_line.as_str());
                rust.blank();
                let api_version = spell(message, S::ApiVersion);
                let l = crate::strings::cat3("fn is_flexible(version: ", api_version.as_str(), ") -> bool");
                rust.open(l.as_str());
                rust.line("Self::FLEXIBLE_VERSIONS.is_some_and(|range| range.contains(version))");
                rust.close("");
            }
            rust.close("");
            rust.blank();
        },
    }
    Ok(())
}

/// The version guard a nested struct's decoder opens with.
pub open spec fn decode_guard_text(t: Seq<char>, d: nat, rust_type: Seq<char>, message: &Message) -> Seq<char> {
    let t = emit_open(t, d, "if !Self::SUPPORTED_VERSIONS.contains(version)"@);
    let t = emit_open(t, d + 1, "return Err("@ + spelling(message, S::DecodeError) + "::UnsupportedVersion"@);
    let t = emit_line(t, d + 2, "message: "@ + debug_string(rust_type) + ","@);
    let t = emit_line(t, d + 2, "version,"@);
    let t = emit_line(t, d + 2, "supported: Self::SUPPORTED_VERSIONS,"@);
    let t = emit_close(t, d + 1, ");"@);
    emit_close(t, d, ""@)
}

fn render_decode_guard(rust: &mut RustText, rust_type: &str, message: &Message)
    requires
        old(rust).room(2),
    ensures
        final(rust).text() == decode_guard_text(old(rust).text(), old(rust).depth(), rust_type@, message),
        final(rust).depth() == old(rust).depth(),
{
    rust.open("if !Self::SUPPORTED_VERSIONS.contains(version)");
    let error = spell(message, S::DecodeError);
    let l = crate::strings::cat3("return Err(", error.as_str(), "::UnsupportedVersion");
    rust.open(l.as_str());
    let quoted = debug_quoted(rust_type);
    let l = crate::strings::cat3("message: ", quoted.as_str(), ",");
    rust.line(l.as_str());
    rust.line("version,");
    rust.line("supported: Self::SUPPORTED_VERSIONS,");
    rust.close(");");
    rust.close("");
}

/// The signature of a structure's `decode`.
pub open spec fn struct_decode_head(message: &Message) -> Seq<char> {
    "fn decode(decoder: &mut "@ + spelling(message, S::Decoder) + ", version: "@ + spelling(message, S::ApiVersion)
        + ") -> Result<Self, "@ + spelling(message, S::DecodeError) + ">"@
}

/// A structure's `KafkaDecode` implementation.
pub open spec fn struct_decode_text(
    t: Seq<char>,
    d: nat,
    rust_type: Seq<char>,
    fields: Seq<Field>,
    scope: ScopeView,
    identity: Identity,
    flexible: bool,
) -> Seq<char> {
    let message = scope.message;
    let t = emit_open(t, d, "impl "@ + spelling(message, S::KafkaDecode) + " for "@ + rust_type);
    let t = emit_open(t, d + 1, struct_decode_head(message));
    let t = match identity {
        Identity::Message => emit_line(t, d + 2, "crate::message::ensure_decode_version::<Self>(version)?;"@),
        Identity::Nested => decode_guard_text(t, d + 2, rust_type, message),
    };
    let t = emit_blank(t);
    let t = decode_body_text(t, d + 2, fields, scope, flexible);
    let t = emit_close(t, d + 1, ""@);
    let t = emit_close(t, d, ""@);
    emit_blank(t)
}

fn render_struct_decode(
    rust: &mut RustText,
    rust_type: &str,
    fields: &Vec<Field>,
    scope: &Scope,
    identity: Identity,
    flexible: bool,
) -> (r: Result<(), GenerationError>)
    requires
        old(rust).room(8),
    ensures
        match decode_fault(fields@, scope@, flexible) {
            None => r is Ok && final(rust).text() == struct_decode_text(
                old(rust).text(),
                old(rust).depth(),
                rust_type@,
                fields@,
                scope@,
                identity,
                flexible,
            ) && final(rust).depth() == old(rust).depth(),
            Some(f) => r matches Err(e) && e@ == f,
        },
{
    let message = scope.message;
    let decode = spell(message, S::KafkaDecode);
    let l = crate::strings::cat4("impl ", decode.as_str(), " for ", rust_type);
    rust.open(l.as_str());
    let decoder = spell(message, S::Decoder);
    let api_version = spell(message, S::ApiVersion);
    let error = spell(message, S::DecodeError);
    let mut l = owned("fn decode(decoder: &mut ");
    l.append(decoder.as_str());
    l.append(", version: ");
    l.append(api_version.as_str());
    l.append(") -> Result<Self, ");
    l.append(error.as_str());
    l.append(">");
    rust.open(l.as_str());
    match identity {
        Identity::Message => rust.line("crate::message::ensure_decode_version::<Self>(version)?;"),
        Identity::Nested => render_decode_guard(rust, rust_type, message),
    }
    rust.blank();
    render_decode_body(rust, fields, scope, flexible)?;
    rust.close("");
    rust.close("");
    rust.blank();
    Ok(())
}

/// The owner an identity names in its encode errors.
pub open spec fn owner_of(identity: Identity, rust_type: Seq<char>) -> OwnerView {
    match identity {
        Identity::Message => OwnerView::Message,
        Identity::Nested => OwnerView::Struct(rust_type),
    }
}

/// Everything one structure renders to.
pub open spec fn struct_text(
    t: Seq<char>,
    d: nat,
    rust_type: Seq<char>,
    declared: Seq<char>,
    fields: Seq<Field>,
    scope: ScopeView,
    supported: Set<int>,
    flexible: Set<int>,
    identity: Identity,
) -> Seq<char> {
    let message = scope.message;
    let tagged = flexible != Set::<int>::empty();
    let t = emit_line(t, d, "/// `"@ + declared + "` as declared by the `"@ + api_stem_of(message.name.text@) + "` API."@);
    let t = definition_text(t, d, rust_type, fields, scope, "Default"@, tagged);
    let t = identity_text(t, d, rust_type, scope, supported, flexible, identity);
    let t = protocol_eq_text(t, d, rust_type, fields, message, tagged);
    let t = retained_size_text(t, d, rust_type, fields, message, tagged);
    let t = validation_text(t, d, rust_type, fields, scope, owner_of(identity, rust_type), tagged);
    let t = if !all_derive_default(fields, scope) {
        default_impl_text(t, d, rust_type, fields, scope, "Default"@, tagged)
    } else {
        t
    };
    let t = struct_decode_text(t, d, rust_type, fields, scope, identity, tagged);
    kafka_encode_text(validated_encode_text(t, d, rust_type, fields, scope, tagged), d, rust_type, message)
}

/// The refusal one structure raises.
pub open spec fn struct_fault(message: &Message, fields: Seq<Field>, scope: ScopeView, supported: Set<int>, flexible: Set<int>, identity: Identity) -> Option<Fault> {
    match identity_fault(message, supported, flexible, identity) {
        Some(f) => Some(f),
        None => decode_fault(fields, scope, flexible != Set::<int>::empty()),
    }
}

/// Renders one structure: definition, identity, equality, footprint,
/// validation, default, and codecs.
pub fn render_struct_with(
    rust: &mut RustText,
    rust_type: &str,
    declared: &str,
    fields: &Vec<Field>,
    scope: &Scope,
    supported: &VersionSet,
    flexible: &VersionSet,
    identity: Identity,
) -> (r: Result<(), GenerationError>)
    requires
        old(rust).room(16),
        scope.flexible_versions@ == flexible@,
    ensures
        match struct_fault(scope.message, fields@, scope@, supported@, flexible@, identity) {
            None => r is Ok && final(rust).text() == struct_text(
                old(rust).text(),
                old(rust).depth(),
                rust_type@,
                declared@,
                fields@,
                scope@,
                supported@,
                flexible@,
                identity,
            ) && final(rust).depth() == old(rust).depth(),
            Some(f) => r matches Err(e) && e@ == f,
        },
{
    let message = scope.message;
    let tagged = !flexible.is_empty();
    let stem = message.name.api_stem();
    let mut l = owned("/// `");
    l.append(declared);
    l.append("` as declared by the `");
    l.append(stem.as_str());
    l.append("` API.");
    rust.line(l.as_str());
    render_definition(rust, rust_type, fields, scope, "Default", tagged);
    render_identity(rust, rust_type, scope, supported, flexible, identity)?;
    render_protocol_eq(rust, rust_type, fields, message, tagged);
    render_retained_size(rust, rust_type, fields, message, tagged);
    let owner = match identity {
        Identity::Message => Owner::Message,
        Identity::Nested => Owner::Struct(rust_type),
    };
    let _checked = render_validation(rust, rust_type, fields, scope, owner, tagged);
    if !derive_default(fields, scope) {
        render_default_impl(rust, rust_type, fields, scope, "Default", tagged);
    }
    render_struct_decode(rust, rust_type, fields, scope, identity, tagged)?;
    let _claimed = render_struct_encode(rust, rust_type, fields, scope, tagged)?;
    Ok(())
}

/// A message's own windows, for a schema rendered as a standalone struct.
pub open spec fn own_scope(message: &Message) -> ScopeView {
    ScopeView {
        message,
        valid: message.valid_versions@,
        flexible: message.flexible_versions@.intersect(message.valid_versions@),
    }
}

/// Everything a standalone schema renders to.
pub open spec fn standalone_text(t: Seq<char>, d: nat, message: &Message) -> Seq<char> {
    let scope = own_scope(message);
    struct_text(
        t,
        d,
        message.name.text@,
        message.name.text@,
        message.fields@,
        scope,
        message.valid_versions@,
        scope.flexible,
        Identity::Message,
    )
}

/// The refusal a standalone schema raises.
pub open spec fn standalone_fault(message: &Message) -> Option<Fault> {
    let scope = own_scope(message);
    struct_fault(message, message.fields@, scope, message.valid_versions@, scope.flexible, Identity::Message)
}

/// Renders one whole schema as a standalone struct.
///
/// A header is versioned like a message and split on flexibility like one,
/// but nothing dispatches it, so it gets the struct treatment: definition,
/// default, its own flexible window, and codecs.
pub fn render_standalone(rust: &mut RustText, message: &Message) -> (r: Result<(), GenerationError>)
    requires
        old(rust).room(16),
    ensures
        match standalone_fault(message) {
            None => r is Ok && final(rust).text() == standalone_text(old(rust).text(), old(rust).depth(), message)
                && final(rust).depth() == old(rust).depth(),
            Some(f) => r matches Err(e) && e@ == f,
        },
{
    let scope = Scope::of(message);
    assert(scope@ == own_scope(message));
    render_struct_with(
        rust,
        message.name.rust_type(),
        message.name.protocol(),
        &message.fields,
        &scope,
        &message.valid_versions,
        &scope.flexible_versions,
        Identity::Message,
    )
}

} // verus!
