//! Primitive read and write expressions selected by field encoding mode.
//!
//! Given a field's type, its nullability, and whether the versions it appears
//! in are flexible, this file decides which `Decoder` or `Encoder` method
//! carries it. Compact and legacy are two named methods per shape because they
//! are two wire formats. Arrays and structs are rendered as statement blocks
//! elsewhere, so an aggregate reaching the scalar path is a named error.

use vstd::prelude::*;

use crate::field::regime::{
    encoding_of, encoding_over, flexible_for, is_nullable, nullability_of, nullable_in,
    nullable_somewhere, null_shape, present, present_in, regime, Encoding, NullShape, Nullability,
};
use crate::field::version::{condition_for, condition_of};
use crate::schema::{type_debug, Fault, Field, FieldType, GenerationError, Scope, ScopeView};
use crate::strings::{cat2, cat3, cat5, owned};
use crate::versions::VersionSet;

verus! {

/// The compact/legacy choice, or the one form when both agree.
pub open spec fn gate_text(compact: Seq<char>, legacy: Seq<char>) -> Seq<char> {
    if compact == legacy {
        compact
    } else {
        "if Self::is_flexible(version) { "@ + compact + " } else { "@ + legacy + " }"@
    }
}

pub open spec fn is_array(ty: FieldType) -> bool {
    ty is Array
}

/// The decode expression for a scalar or struct value.
pub open spec fn read_call(ty: FieldType, nullable: bool, compact: bool) -> Seq<char> {
    match ty {
        FieldType::String => if nullable && compact {
            "decoder.read_compact_nullable_string()?"@
        } else if nullable {
            "decoder.read_nullable_string()?"@
        } else if compact {
            "decoder.read_compact_string()?"@
        } else {
            "decoder.read_string()?"@
        },
        FieldType::Bool => "decoder.read_bool()?"@,
        FieldType::Int8 => "decoder.read_i8()?"@,
        FieldType::Int16 => "decoder.read_i16()?"@,
        FieldType::Uint16 => "decoder.read_u16()?"@,
        FieldType::Uint32 => "decoder.read_u32()?"@,
        FieldType::Int32 => "decoder.read_i32()?"@,
        FieldType::Int64 => "decoder.read_i64()?"@,
        FieldType::Uuid => "decoder.read_uuid()?"@,
        FieldType::Float64 => "decoder.read_float64()?"@,
        FieldType::Bytes | FieldType::Records => if nullable && compact {
            "decoder.read_compact_nullable_bytes()?"@
        } else if nullable {
            "decoder.read_nullable_bytes()?"@
        } else if compact {
            "decoder.read_compact_bytes()?"@
        } else {
            "decoder.read_bytes()?"@
        },
        FieldType::Struct(r) => if nullable {
            "if decoder.read_struct_presence()? { Some("@ + r.spelling@
                + "::decode(decoder, version)?) } else { None }"@
        } else {
            r.spelling@ + "::decode(decoder, version)?"@
        },
        FieldType::Array(_) => Seq::empty(),
    }
}

/// The encode statement for a scalar or struct member named `name`.
pub open spec fn write_call(ty: FieldType, name: Seq<char>, nullable: bool, compact: bool) -> Seq<char> {
    match ty {
        FieldType::String => if nullable && compact {
            "encoder.write_compact_nullable_string(self."@ + name + ".as_ref())?;"@
        } else if nullable {
            "encoder.write_nullable_string(self."@ + name + ".as_ref())?;"@
        } else if compact {
            "encoder.write_compact_string(&self."@ + name + ")?;"@
        } else {
            "encoder.write_string(&self."@ + name + ")?;"@
        },
        FieldType::Bool => "encoder.write_bool(self."@ + name + ")?;"@,
        FieldType::Int8 => "encoder.write_i8(self."@ + name + ")?;"@,
        FieldType::Int16 => "encoder.write_i16(self."@ + name + ")?;"@,
        FieldType::Uint16 => "encoder.write_u16(self."@ + name + ")?;"@,
        FieldType::Uint32 => "encoder.write_u32(self."@ + name + ")?;"@,
        FieldType::Int32 => "encoder.write_i32(self."@ + name + ")?;"@,
        FieldType::Int64 => "encoder.write_i64(self."@ + name + ")?;"@,
        FieldType::Uuid => "encoder.write_uuid(self."@ + name + ")?;"@,
        FieldType::Float64 => "encoder.write_float64(self."@ + name + ")?;"@,
        FieldType::Bytes | FieldType::Records => if nullable && compact {
            "encoder.write_compact_nullable_bytes(self."@ + name + ".as_deref())?;"@
        } else if nullable {
            "encoder.write_nullable_bytes(self."@ + name + ".as_deref())?;"@
        } else if compact {
            "encoder.write_compact_bytes(&self."@ + name + ")?;"@
        } else {
            "encoder.write_bytes(&self."@ + name + ")?;"@
        },
        FieldType::Struct(_) => if nullable {
            "if let Some(value) = &self."@ + name
                + " { encoder.write_struct_presence(true)?; value.encode(encoder, version)?; } else { encoder.write_struct_presence(false)?; }"@
        } else {
            "self."@ + name + ".encode(encoder, version)?;"@
        },
        FieldType::Array(_) => Seq::empty(),
    }
}

/// A choice between the compact and legacy forms of one call, by regime.
pub open spec fn by_regime(encoding: Encoding, compact: Seq<char>, legacy: Seq<char>) -> Seq<char> {
    match encoding {
        Encoding::Compact => compact,
        Encoding::Legacy => legacy,
        Encoding::VersionGated => gate_text(compact, legacy),
    }
}

/// The read over one window, with the regime that window implies.
pub open spec fn read_over_text(window: Set<int>, field: &Field, scope: ScopeView, nullable: bool) -> Seq<char> {
    by_regime(
        regime(window, flexible_for(field, scope)),
        read_call(field.ty, nullable, true),
        read_call(field.ty, nullable, false),
    )
}

/// The whole decode expression of a scalar or struct field.
pub open spec fn read_text(field: &Field, scope: ScopeView) -> Seq<char> {
    let present = present_in(field, scope);
    match null_shape(field, scope) {
        NullShape::Never => read_over_text(present, field, scope, false),
        NullShape::Always => read_over_text(present, field, scope, true),
        NullShape::Gated => {
            let nullable = nullable_in(field, scope);
            let plain = present.difference(nullable);
            "if "@ + condition_of(nullable, scope.valid) + " { "@ + read_over_text(
                nullable,
                field,
                scope,
                true,
            ) + " } else { Some("@ + read_over_text(plain, field, scope, false) + ") }"@
        },
    }
}

/// The whole encode statement of a scalar or struct field.
pub open spec fn write_text(field: &Field, scope: ScopeView) -> Seq<char> {
    let name = crate::naming::field_ident(field.name.text@);
    let nullable = nullable_somewhere(field, scope);
    by_regime(
        regime(present_in(field, scope), flexible_for(field, scope)),
        write_call(field.ty, name, nullable, true),
        write_call(field.ty, name, nullable, false),
    )
}

/// The refusal for an array routed into the scalar path.
pub open spec fn scalar_array_fault(field: &Field, scope: ScopeView, read: bool) -> Fault {
    Fault::Unsupported {
        message: scope.message.name.text@,
        field: field.name.text@,
        reason: if read {
            "an array is read by a structured block; the scalar read path has no expression for one"@
        } else {
            "an array is written by a structured block; the scalar write path has no statement for one"@
        },
    }
}

/// The result a scalar renderer promises: its text, or the array refusal.
pub open spec fn scalar_result(r: Result<String, GenerationError>, field: &Field, scope: ScopeView, read: bool, text: Seq<char>) -> bool {
    if is_array(field.ty) {
        r matches Err(e) && e@ == scalar_array_fault(field, scope, read)
    } else {
        r matches Ok(s) && s@ == text
    }
}

/// Emits the flexible/legacy choice, or just the one form when both agree.
///
/// A fixed-width type has one encoding on both sides of the boundary, and a
/// gate whose arms agree says a decision was made where none was.
pub fn gate(compact: &str, legacy: &str) -> (r: String)
    ensures
        r@ == gate_text(compact@, legacy@),
{
    let c = owned(compact);
    let l = owned(legacy);
    if c == l {
        return c;
    }
    cat5("if Self::is_flexible(version) { ", compact, " } else { ", legacy, " }")
}

fn regime_choice(encoding: Encoding, compact: &str, legacy: &str) -> (r: String)
    ensures
        r@ == by_regime(encoding, compact@, legacy@),
{
    match encoding {
        Encoding::Compact => owned(compact),
        Encoding::Legacy => owned(legacy),
        Encoding::VersionGated => gate(compact, legacy),
    }
}

fn unsupported_array(field: &Field, scope: &Scope, read: bool) -> (e: GenerationError)
    ensures
        e@ == scalar_array_fault(field, scope@, read),
{
    if read {
        GenerationError::unsupported(
            scope.message,
            field.name.protocol(),
            "an array is read by a structured block; the scalar read path has no expression for one",
        )
    } else {
        GenerationError::unsupported(
            scope.message,
            field.name.protocol(),
            "an array is written by a structured block; the scalar write path has no statement for one",
        )
    }
}

fn read_method(field: &Field, scope: &Scope, nullable: bool, compact: bool) -> (r: Result<String, GenerationError>)
    ensures
        scalar_result(r, field, scope@, true, read_call(field.ty, nullable, compact)),
{
    match &field.ty {
        FieldType::String => Ok(
            if nullable && compact {
                owned("decoder.read_compact_nullable_string()?")
            } else if nullable {
                owned("decoder.read_nullable_string()?")
            } else if compact {
                owned("decoder.read_compact_string()?")
            } else {
                owned("decoder.read_string()?")
            },
        ),
        FieldType::Bool => Ok(owned("decoder.read_bool()?")),
        FieldType::Int8 => Ok(owned("decoder.read_i8()?")),
        FieldType::Int16 => Ok(owned("decoder.read_i16()?")),
        FieldType::Uint16 => Ok(owned("decoder.read_u16()?")),
        FieldType::Uint32 => Ok(owned("decoder.read_u32()?")),
        FieldType::Int32 => Ok(owned("decoder.read_i32()?")),
        FieldType::Int64 => Ok(owned("decoder.read_i64()?")),
        FieldType::Uuid => Ok(owned("decoder.read_uuid()?")),
        FieldType::Float64 => Ok(owned("decoder.read_float64()?")),
        FieldType::Bytes | FieldType::Records => Ok(
            if nullable && compact {
                owned("decoder.read_compact_nullable_bytes()?")
            } else if nullable {
                owned("decoder.read_nullable_bytes()?")
            } else if compact {
                owned("decoder.read_compact_bytes()?")
            } else {
                owned("decoder.read_bytes()?")
            },
        ),
        // The presence marker is regime-independent, which is why `compact` is
        // not consulted here: it is a raw int8 in a flexible message too.
        FieldType::Struct(reference) => {
            let name = reference.rust_type();
            if nullable {
                let r = cat3(
                    "if decoder.read_struct_presence()? { Some(",
                    name.as_str(),
                    "::decode(decoder, version)?) } else { None }",
                );
                assert(r@ =~= read_call(field.ty, nullable, compact));
                Ok(r)
            } else {
                Ok(cat2(name.as_str(), "::decode(decoder, version)?"))
            }
        },
        FieldType::Array(_) => Err(unsupported_array(field, scope, true)),
    }
}

fn write_method(field: &Field, scope: &Scope, nullable: bool, compact: bool) -> (r: Result<String, GenerationError>)
    ensures
        scalar_result(
            r,
            field,
            scope@,
            false,
            write_call(field.ty, crate::naming::field_ident(field.name.text@), nullable, compact),
        ),
{
    let name = field.name.rust_field();
    let n = name.as_str();
    match &field.ty {
        FieldType::String => Ok(
            if nullable && compact {
                cat3("encoder.write_compact_nullable_string(self.", n, ".as_ref())?;")
            } else if nullable {
                cat3("encoder.write_nullable_string(self.", n, ".as_ref())?;")
            } else if compact {
                cat3("encoder.write_compact_string(&self.", n, ")?;")
            } else {
                cat3("encoder.write_string(&self.", n, ")?;")
            },
        ),
        FieldType::Bool => Ok(cat3("encoder.write_bool(self.", n, ")?;")),
        FieldType::Int8 => Ok(cat3("encoder.write_i8(self.", n, ")?;")),
        FieldType::Int16 => Ok(cat3("encoder.write_i16(self.", n, ")?;")),
        FieldType::Uint16 => Ok(cat3("encoder.write_u16(self.", n, ")?;")),
        FieldType::Uint32 => Ok(cat3("encoder.write_u32(self.", n, ")?;")),
        FieldType::Int32 => Ok(cat3("encoder.write_i32(self.", n, ")?;")),
        FieldType::Int64 => Ok(cat3("encoder.write_i64(self.", n, ")?;")),
        FieldType::Uuid => Ok(cat3("encoder.write_uuid(self.", n, ")?;")),
        FieldType::Float64 => Ok(cat3("encoder.write_float64(self.", n, ")?;")),
        // `Records` belongs beside `Bytes` in every arm: a records field is
        // read and written with the same prefix as a byte blob.
        FieldType::Bytes | FieldType::Records => Ok(
            if nullable && compact {
                cat3("encoder.write_compact_nullable_bytes(self.", n, ".as_deref())?;")
            } else if nullable {
                cat3("encoder.write_nullable_bytes(self.", n, ".as_deref())?;")
            } else if compact {
                cat3("encoder.write_compact_bytes(&self.", n, ")?;")
            } else {
                cat3("encoder.write_bytes(&self.", n, ")?;")
            },
        ),
        FieldType::Struct(_) => if nullable {
            Ok(cat3(
                "if let Some(value) = &self.",
                n,
                " { encoder.write_struct_presence(true)?; value.encode(encoder, version)?; } else { encoder.write_struct_presence(false)?; }",
            ))
        } else {
            Ok(cat3("self.", n, ".encode(encoder, version)?;"))
        },
        FieldType::Array(_) => Err(unsupported_array(field, scope, false)),
    }
}

/// The read expression over one window, with the regime that window implies.
fn read_over(window: &VersionSet, field: &Field, scope: &Scope, nullable: bool) -> (r: Result<String, GenerationError>)
    ensures
        scalar_result(r, field, scope@, true, read_over_text(window@, field, scope@, nullable)),
{
    let encoding = encoding_over(window, field, scope);
    let compact = read_method(field, scope, nullable, true)?;
    let legacy = read_method(field, scope, nullable, false)?;
    Ok(regime_choice(encoding, compact.as_str(), legacy.as_str()))
}

/// The decode expression for a scalar or struct field.
///
/// A field nullable in only some of the versions it appears in reads through
/// two methods, because the non-null reader rejects the null sentinel.
pub fn read_expression(field: &Field, scope: &Scope) -> (r: Result<String, GenerationError>)
    ensures
        scalar_result(r, field, scope@, true, read_text(field, scope@)),
{
    match nullability_of(field, scope) {
        Nullability::Never => {
            let whole = present(field, scope);
            read_over(&whole, field, scope, false)
        },
        Nullability::Always => {
            let whole = present(field, scope);
            read_over(&whole, field, scope, true)
        },
        Nullability::Gated { nullable, plain } => {
            let condition = condition_for(&nullable, scope);
            let null_read = read_over(&nullable, field, scope, true)?;
            let plain_read = read_over(&plain, field, scope, false)?;
            let mut r = owned("if ");
            r.append(condition.as_str());
            r.append(" { ");
            r.append(null_read.as_str());
            r.append(" } else { Some(");
            r.append(plain_read.as_str());
            r.append(") }");
            Ok(r)
        },
    }
}

/// The encode statement for a scalar or struct field.
pub fn write_statement(field: &Field, scope: &Scope) -> (r: Result<String, GenerationError>)
    ensures
        scalar_result(r, field, scope@, false, write_text(field, scope@)),
{
    let nullable = is_nullable(field, scope);
    let encoding = encoding_of(field, scope);
    let compact = write_method(field, scope, nullable, true)?;
    let legacy = write_method(field, scope, nullable, false)?;
    Ok(regime_choice(encoding, compact.as_str(), legacy.as_str()))
}

/// The length-prefix read of an array over one window.
pub open spec fn array_len_read_text(window: Set<int>, field: &Field, scope: ScopeView, nullable: bool) -> Seq<char> {
    if nullable {
        by_regime(
            regime(window, flexible_for(field, scope)),
            "decoder.read_compact_nullable_array_len()?"@,
            "decoder.read_nullable_array_len()?"@,
        )
    } else {
        by_regime(
            regime(window, flexible_for(field, scope)),
            "decoder.read_compact_array_len()?"@,
            "decoder.read_array_len()?"@,
        )
    }
}

/// The length-prefix write of an array over one window.
pub open spec fn array_len_write_text(window: Set<int>, field: &Field, scope: ScopeView, nullable: bool) -> Seq<char> {
    let name = crate::naming::field_ident(field.name.text@);
    if nullable {
        by_regime(
            regime(window, flexible_for(field, scope)),
            "encoder.write_compact_nullable_array_len(self."@ + name + ".as_ref().map(Vec::len))?;"@,
            "encoder.write_nullable_array_len(self."@ + name + ".as_ref().map(Vec::len))?;"@,
        )
    } else {
        by_regime(
            regime(window, flexible_for(field, scope)),
            "encoder.write_compact_array_len(self."@ + name + ".len())?;"@,
            "encoder.write_array_len(self."@ + name + ".len())?;"@,
        )
    }
}

/// The read expression and write statement of an array's own length prefix.
pub open spec fn array_length_text(field: &Field, scope: ScopeView) -> (Seq<char>, Seq<char>) {
    let whole = present_in(field, scope);
    match null_shape(field, scope) {
        NullShape::Never => (
            array_len_read_text(whole, field, scope, false),
            array_len_write_text(whole, field, scope, false),
        ),
        NullShape::Always => (
            array_len_read_text(whole, field, scope, true),
            array_len_write_text(whole, field, scope, true),
        ),
        NullShape::Gated => {
            let nullable = nullable_in(field, scope);
            let plain = whole.difference(nullable);
            (
                "if "@ + condition_of(nullable, scope.valid) + " { "@ + array_len_read_text(
                    nullable,
                    field,
                    scope,
                    true,
                ) + " } else { Some("@ + array_len_read_text(plain, field, scope, false) + ") }"@,
                array_len_write_text(whole, field, scope, true),
            )
        },
    }
}

/// The length-prefix read over one window.
///
/// The nullable readers return `Option<usize>`, which keeps an absent array
/// distinct from a present empty one.
fn array_len_read(window: &VersionSet, field: &Field, scope: &Scope, nullable: bool) -> (r: String)
    ensures
        r@ == array_len_read_text(window@, field, scope@, nullable),
{
    let encoding = encoding_over(window, field, scope);
    if nullable {
        regime_choice(encoding, "decoder.read_compact_nullable_array_len()?", "decoder.read_nullable_array_len()?")
    } else {
        regime_choice(encoding, "decoder.read_compact_array_len()?", "decoder.read_array_len()?")
    }
}

/// The length-prefix write over one window.
fn array_len_write(window: &VersionSet, field: &Field, scope: &Scope, nullable: bool) -> (r: String)
    ensures
        r@ == array_len_write_text(window@, field, scope@, nullable),
{
    let name = field.name.rust_field();
    let encoding = encoding_over(window, field, scope);
    if nullable {
        let compact = cat3("encoder.write_compact_nullable_array_len(self.", name.as_str(), ".as_ref().map(Vec::len))?;");
        let legacy = cat3("encoder.write_nullable_array_len(self.", name.as_str(), ".as_ref().map(Vec::len))?;");
        regime_choice(encoding, compact.as_str(), legacy.as_str())
    } else {
        let compact = cat3("encoder.write_compact_array_len(self.", name.as_str(), ".len())?;");
        let legacy = cat3("encoder.write_array_len(self.", name.as_str(), ".len())?;");
        regime_choice(encoding, compact.as_str(), legacy.as_str())
    }
}

/// Read expression and write statement for an array's own length prefix.
///
/// Compact arrays carry a varint of `len + 1`, legacy arrays a plain `int32`.
/// Elements are unaffected, which is why this is decided apart from them.
pub fn array_length_codec(field: &Field, scope: &Scope) -> (r: (String, String))
    ensures
        (r.0@, r.1@) == array_length_text(field, scope@),
{
    let whole = present(field, scope);
    match nullability_of(field, scope) {
        Nullability::Never => (
            array_len_read(&whole, field, scope, false),
            array_len_write(&whole, field, scope, false),
        ),
        Nullability::Always => (
            array_len_read(&whole, field, scope, true),
            array_len_write(&whole, field, scope, true),
        ),
        Nullability::Gated { nullable, plain } => {
            let condition = condition_for(&nullable, scope);
            let null_read = array_len_read(&nullable, field, scope, true);
            let plain_read = array_len_read(&plain, field, scope, false);
            let mut read = owned("if ");
            read.append(condition.as_str());
            read.append(" { ");
            read.append(null_read.as_str());
            read.append(" } else { Some(");
            read.append(plain_read.as_str());
            read.append(") }");
            // The write needs no gate: every nullable writer delegates to its
            // non-null counterpart for a present value.
            (read, array_len_write(&whole, field, scope, true))
        },
    }
}

/// The read and write of one element of an array field.
///
/// The generated loop binds `value` by reference, so a `Copy` scalar is
/// dereferenced at the call. A length-prefixed element follows its field's
/// encoding regime exactly as a top-level field does.
pub open spec fn element_text(element: FieldType, field: &Field, scope: ScopeView) -> Option<(Seq<char>, Seq<char>)> {
    let encoding = regime(present_in(field, scope), flexible_for(field, scope));
    match element {
        FieldType::String => Some((
            by_regime(encoding, "decoder.read_compact_string()?"@, "decoder.read_string()?"@),
            by_regime(encoding, "encoder.write_compact_string(value)?;"@, "encoder.write_string(value)?;"@),
        )),
        FieldType::Bytes | FieldType::Records => Some((
            by_regime(encoding, "decoder.read_compact_bytes()?"@, "decoder.read_bytes()?"@),
            by_regime(encoding, "encoder.write_compact_bytes(value)?;"@, "encoder.write_bytes(value)?;"@),
        )),
        FieldType::Bool => Some(("decoder.read_bool()?"@, "encoder.write_bool(*value)?;"@)),
        FieldType::Int8 => Some(("decoder.read_i8()?"@, "encoder.write_i8(*value)?;"@)),
        FieldType::Int16 => Some(("decoder.read_i16()?"@, "encoder.write_i16(*value)?;"@)),
        FieldType::Uint16 => Some(("decoder.read_u16()?"@, "encoder.write_u16(*value)?;"@)),
        FieldType::Uint32 => Some(("decoder.read_u32()?"@, "encoder.write_u32(*value)?;"@)),
        FieldType::Int32 => Some(("decoder.read_i32()?"@, "encoder.write_i32(*value)?;"@)),
        FieldType::Int64 => Some(("decoder.read_i64()?"@, "encoder.write_i64(*value)?;"@)),
        FieldType::Uuid => Some(("decoder.read_uuid()?"@, "encoder.write_uuid(*value)?;"@)),
        FieldType::Float64 => Some(("decoder.read_float64()?"@, "encoder.write_float64(*value)?;"@)),
        FieldType::Struct(r) => Some((
            r.spelling@ + "::decode(decoder, version)?"@,
            "value.encode(encoder, version)?;"@,
        )),
        FieldType::Array(_) => None,
    }
}

/// The refusal for an array of arrays.
pub open spec fn element_fault(element: FieldType, field: &Field, scope: ScopeView) -> Fault {
    Fault::Unsupported {
        message: scope.message.name.text@,
        field: field.name.text@,
        reason: "array element type "@ + type_debug(element) + " has no codec in this backend"@,
    }
}

/// The regime-dependent codec for an element that carries its own length.
fn length_prefixed_element(element: &FieldType, field: &Field, scope: &Scope) -> (r: Option<(String, String)>)
    ensures
        match element {
            FieldType::String | FieldType::Bytes | FieldType::Records => r matches Some(p) && element_text(
                *element,
                field,
                scope@,
            ) == Some((p.0@, p.1@)),
            _ => r is None,
        },
{
    let encoding = encoding_of(field, scope);
    match element {
        FieldType::String => Some((
            regime_choice(encoding, "decoder.read_compact_string()?", "decoder.read_string()?"),
            regime_choice(encoding, "encoder.write_compact_string(value)?;", "encoder.write_string(value)?;"),
        )),
        FieldType::Bytes | FieldType::Records => Some((
            regime_choice(encoding, "decoder.read_compact_bytes()?", "decoder.read_bytes()?"),
            regime_choice(encoding, "encoder.write_compact_bytes(value)?;", "encoder.write_bytes(value)?;"),
        )),
        _ => None,
    }
}

/// Read expression and write statement for one array element.
pub fn element_codec(element: &FieldType, field: &Field, scope: &Scope) -> (r: Result<(String, String), GenerationError>)
    ensures
        match element_text(*element, field, scope@) {
            Some(pair) => r matches Ok(p) && (p.0@, p.1@) == pair,
            None => r matches Err(e) && e@ == element_fault(*element, field, scope@),
        },
{
    if let Some(pair) = length_prefixed_element(element, field, scope) {
        return Ok(pair);
    }
    let pair = match element {
        FieldType::Bool => ("decoder.read_bool()?", "encoder.write_bool(*value)?;"),
        FieldType::Int8 => ("decoder.read_i8()?", "encoder.write_i8(*value)?;"),
        FieldType::Int16 => ("decoder.read_i16()?", "encoder.write_i16(*value)?;"),
        FieldType::Uint16 => ("decoder.read_u16()?", "encoder.write_u16(*value)?;"),
        FieldType::Uint32 => ("decoder.read_u32()?", "encoder.write_u32(*value)?;"),
        FieldType::Int32 => ("decoder.read_i32()?", "encoder.write_i32(*value)?;"),
        FieldType::Int64 => ("decoder.read_i64()?", "encoder.write_i64(*value)?;"),
        FieldType::Uuid => ("decoder.read_uuid()?", "encoder.write_uuid(*value)?;"),
        FieldType::Float64 => ("decoder.read_float64()?", "encoder.write_float64(*value)?;"),
        FieldType::Struct(reference) => {
            let name = reference.rust_type();
            return Ok((cat2(name.as_str(), "::decode(decoder, version)?"), owned("value.encode(encoder, version)?;")));
        },
        _ => {
            let described = element.describe();
            let reason = cat3("array element type ", described.as_str(), " has no codec in this backend");
            return Err(GenerationError::unsupported(scope.message, field.name.protocol(), reason.as_str()));
        },
    };
    Ok((owned(pair.0), owned(pair.1)))
}

} // verus!
