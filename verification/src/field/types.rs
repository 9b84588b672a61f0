//! Rust type, default, and value-comparison rendering for one normalized field.
//!
//! This file owns the mapping from a normalized field to the Rust text that
//! declares it, initializes it, and decides whether it still holds its
//! protocol default. It owns no version reasoning beyond nullability, which
//! decides `Option`; presence gates belong to `version`.

use vstd::prelude::*;

use crate::api::imports::{spell, spelling};
use crate::api::symbol::ExternalSymbol as S;
use crate::field::regime::{is_nullable, nullable_somewhere};
use crate::naming::field_ident;
use crate::schema::{DefaultValue, Field, FieldType, Message, Scope, ScopeView};
use crate::strings::{cat2, cat3, cat4, debug_quoted, debug_string, decimal, decimal_u64, owned, push_char};

verus! {

/// One lower-case hexadecimal digit.
pub open spec fn hex_digit(d: int) -> char {
    if d < 10 {
        ('0' as int + d) as char
    } else {
        ('a' as int + d - 10) as char
    }
}

/// A 16-bit group as four lower-case hexadecimal digits.
pub open spec fn hex4(n: int) -> Seq<char> {
    seq![hex_digit(n / 4096), hex_digit((n / 256) % 16), hex_digit((n / 16) % 16), hex_digit(n % 16)]
}

/// One exact IEEE-754 payload as a grouped `u64` literal.
pub open spec fn float_bits_text(bits: u64) -> Seq<char> {
    let b = bits as int;
    "0x"@ + hex4(b / 0x1_0000_0000_0000) + "_"@ + hex4((b / 0x1_0000_0000) % 0x1_0000) + "_"@
        + hex4((b / 0x1_0000) % 0x1_0000) + "_"@ + hex4(b % 0x1_0000) + "_u64"@
}

/// The digits `ds` from position `i` on, grouped in threes from the right.
pub open spec fn grouped_from(ds: Seq<char>, i: int) -> Seq<char>
    decreases ds.len() - i,
{
    if i < 0 || i >= ds.len() {
        Seq::empty()
    } else {
        let sep: Seq<char> = if i > 0 && (ds.len() - i) % 3 == 0 { seq!['_'] } else { Seq::empty() };
        sep + seq![ds[i]] + grouped_from(ds, i + 1)
    }
}

/// An integer literal grouped in threes, as the lints on generated code ask.
pub open spec fn separated_text(value: int) -> Seq<char> {
    let magnitude = if value < 0 { -value } else { value };
    let grouped = grouped_from(decimal(magnitude), 0);
    if value < 0 {
        "-"@ + grouped
    } else {
        grouped
    }
}

fn hex_char(d: u64) -> (r: char)
    requires
        d < 16,
    ensures
        r == hex_digit(d as int),
{
    match d {
        0 => '0',
        1 => '1',
        2 => '2',
        3 => '3',
        4 => '4',
        5 => '5',
        6 => '6',
        7 => '7',
        8 => '8',
        9 => '9',
        10 => 'a',
        11 => 'b',
        12 => 'c',
        13 => 'd',
        14 => 'e',
        _ => 'f',
    }
}

fn push_hex4(out: &mut String, n: u64)
    requires
        n < 0x1_0000,
    ensures
        final(out)@ == old(out)@ + hex4(n as int),
{
    push_char(out, hex_char(n / 4096));
    push_char(out, hex_char((n / 256) % 16));
    push_char(out, hex_char((n / 16) % 16));
    push_char(out, hex_char(n % 16));
    assert(final(out)@ =~= old(out)@ + hex4(n as int));
}

/// Renders one exact IEEE-754 payload as a grouped `u64` literal.
pub fn float_bits(bits: u64) -> (r: String)
    ensures
        r@ == float_bits_text(bits),
{
    let mut r = owned("0x");
    push_hex4(&mut r, bits / 0x1_0000_0000_0000);
    r.append("_");
    push_hex4(&mut r, (bits / 0x1_0000_0000) % 0x1_0000);
    r.append("_");
    push_hex4(&mut r, (bits / 0x1_0000) % 0x1_0000);
    r.append("_");
    push_hex4(&mut r, bits % 0x1_0000);
    r.append("_u64");
    assert(r@ =~= float_bits_text(bits));
    r
}

/// Groups an integer literal in threes, as the lints on generated code ask.
pub fn separated(value: i64) -> (r: String)
    ensures
        r@ == separated_text(value as int),
{
    let magnitude: u64 = if value == i64::MIN {
        9_223_372_036_854_775_808u64
    } else if value < 0 {
        (-value) as u64
    } else {
        value as u64
    };
    let text = decimal_u64(magnitude);
    let digits = crate::versions::chars_of(text.as_str());
    let mut grouped = String::new();
    let mut index: usize = 0;
    let ghost ds = digits@;
    while index < digits.len()
        invariant
            ds == digits@,
            index <= ds.len(),
            grouped@ + grouped_from(ds, index as int) == grouped_from(ds, 0),
        decreases ds.len() - index,
    {
        let ghost before = grouped@;
        if index > 0 && (digits.len() - index) % 3 == 0 {
            push_char(&mut grouped, '_');
        }
        push_char(&mut grouped, digits[index]);
        proof {
            let sep: Seq<char> = if index > 0 && (ds.len() - index) % 3 == 0 { seq!['_'] } else { Seq::empty() };
            assert(grouped@ =~= before + (sep + seq![ds[index as int]]));
            assert(grouped_from(ds, index as int) == sep + seq![ds[index as int]] + grouped_from(ds, index + 1));
            assert(grouped@ + grouped_from(ds, index + 1) =~= before + grouped_from(ds, index as int));
        }
        index = index + 1;
    }
    proof {
        assert(grouped_from(ds, index as int) =~= Seq::<char>::empty());
        assert(grouped@ =~= grouped_from(ds, 0));
    }
    if value < 0 {
        cat2("-", grouped.as_str())
    } else {
        grouped
    }
}

/// How a type is spelled in Rust inside `message`'s module.
pub open spec fn type_text(ty: FieldType, message: &Message) -> Seq<char>
    decreases ty,
{
    match ty {
        FieldType::String => spelling(message, S::StrBytes),
        FieldType::Bool => "bool"@,
        FieldType::Int8 => "i8"@,
        FieldType::Int16 => "i16"@,
        FieldType::Uint16 => "u16"@,
        FieldType::Uint32 => "u32"@,
        FieldType::Int32 => "i32"@,
        FieldType::Int64 => "i64"@,
        FieldType::Uuid => spelling(message, S::Uuid),
        FieldType::Float64 => "f64"@,
        FieldType::Bytes | FieldType::Records => spelling(message, S::Bytes),
        FieldType::Struct(r) => r.spelling@,
        FieldType::Array(element) => spelling(message, S::Vec) + "<"@ + type_text(*element, message) + ">"@,
    }
}

/// The declared type of a field: its type, wrapped in `Option` when nullable.
pub open spec fn field_type_text(field: &Field, scope: ScopeView) -> Seq<char> {
    let base = type_text(field.ty, scope.message);
    if nullable_somewhere(field, scope) {
        spelling(scope.message, S::Option) + "<"@ + base + ">"@
    } else {
        base
    }
}

/// Maps one type to its Rust spelling, recursing through array elements.
///
/// Total: every normalized type has a Rust spelling. Whether the backend can
/// encode it is a different question, and belongs to `validate`.
pub fn type_spelling(ty: &FieldType, message: &Message) -> (r: String)
    ensures
        r@ == type_text(*ty, message),
    decreases ty,
{
    match ty {
        FieldType::String => spell(message, S::StrBytes),
        FieldType::Bool => owned("bool"),
        FieldType::Int8 => owned("i8"),
        FieldType::Int16 => owned("i16"),
        FieldType::Uint16 => owned("u16"),
        FieldType::Uint32 => owned("u32"),
        FieldType::Int32 => owned("i32"),
        FieldType::Int64 => owned("i64"),
        FieldType::Uuid => spell(message, S::Uuid),
        FieldType::Float64 => owned("f64"),
        // A `records` field is a byte blob on the wire, carried as the bytes it is.
        FieldType::Bytes | FieldType::Records => spell(message, S::Bytes),
        FieldType::Struct(reference) => reference.rust_type(),
        FieldType::Array(element) => {
            let vec = spell(message, S::Vec);
            let inner = type_spelling(element, message);
            cat4(vec.as_str(), "<", inner.as_str(), ">")
        },
    }
}

/// The Rust type a field is declared with.
pub fn rust_type(field: &Field, scope: &Scope) -> (r: String)
    ensures
        r@ == field_type_text(field, scope@),
{
    let nullable = is_nullable(field, scope);
    let base = type_spelling(&field.ty, scope.message);
    if nullable {
        let option = spell(scope.message, S::Option);
        cat4(option.as_str(), "<", base.as_str(), ">")
    } else {
        base
    }
}

/// `[a, b, ...]`: the bytes of a UUID as `{:?}` writes an array.
pub open spec fn byte_list_from(bytes: Seq<u8>, i: int) -> Seq<char>
    decreases bytes.len() - i,
{
    if i < 0 || i >= bytes.len() {
        Seq::empty()
    } else {
        let sep: Seq<char> = if i > 0 { ", "@ } else { Seq::empty() };
        sep + decimal(bytes[i] as int) + byte_list_from(bytes, i + 1)
    }
}

pub open spec fn byte_list_text(bytes: Seq<u8>) -> Seq<char> {
    "["@ + byte_list_from(bytes, 0) + "]"@
}

fn byte_list(bytes: &[u8; 16]) -> (r: String)
    ensures
        r@ == byte_list_text(bytes@),
{
    let mut out = String::new();
    let mut i: usize = 0;
    while i < 16
        invariant
            i <= 16,
            bytes@.len() == 16,
            out@ + byte_list_from(bytes@, i as int) == byte_list_from(bytes@, 0),
        decreases 16 - i,
    {
        let ghost before = out@;
        if i > 0 {
            out.append(", ");
        }
        let number = decimal_u64(bytes[i] as u64);
        out.append(number.as_str());
        proof {
            let sep: Seq<char> = if i > 0 { ", "@ } else { Seq::empty() };
            assert(out@ =~= before + (sep + decimal(bytes@[i as int] as int)));
            assert(out@ + byte_list_from(bytes@, i + 1) =~= before + byte_list_from(bytes@, i as int));
        }
        i = i + 1;
    }
    proof {
        assert(byte_list_from(bytes@, 16) =~= Seq::<char>::empty());
        assert(out@ =~= byte_list_from(bytes@, 0));
    }
    cat3("[", out.as_str(), "]")
}

/// Whether all sixteen bytes of a UUID are zero.
pub open spec fn all_zero(bytes: Seq<u8>) -> bool {
    forall|i: int| 0 <= i < bytes.len() ==> bytes[i] == 0
}

fn is_zero_uuid(bytes: &[u8; 16]) -> (r: bool)
    ensures
        r == all_zero(bytes@),
{
    let mut i: usize = 0;
    while i < 16
        invariant
            i <= 16,
            bytes@.len() == 16,
            forall|k: int| 0 <= k < i ==> bytes@[k] == 0,
        decreases 16 - i,
    {
        if bytes[i] != 0 {
            return false;
        }
        i = i + 1;
    }
    true
}

/// The default as the underlying type spells it, before nullability wraps it.
pub open spec fn default_value_text(field: &Field, message: &Message) -> Seq<char> {
    match field.default {
        DefaultValue::Null => spelling(message, S::OptionNone),
        DefaultValue::Bool(b) => if b { "true"@ } else { "false"@ },
        DefaultValue::Integer(v) => separated_text(v as int),
        DefaultValue::String(s) => if s@.len() == 0 {
            spelling(message, S::StrBytes) + "::default()"@
        } else {
            spelling(message, S::StrBytes) + "::from("@ + debug_string(s@) + ")"@
        },
        DefaultValue::Uuid(bytes) => if all_zero(bytes@) {
            spelling(message, S::Uuid) + "::ZERO"@
        } else {
            spelling(message, S::Uuid) + "::from_bytes("@ + byte_list_text(bytes@) + ")"@
        },
        DefaultValue::StructDefaults => type_text(field.ty, message) + "::default()"@,
        DefaultValue::Empty => match field.ty {
            FieldType::Array(_) => spelling(message, S::Vec) + "::new()"@,
            FieldType::Bytes | FieldType::Records => spelling(message, S::Bytes) + "::default()"@,
            FieldType::String => spelling(message, S::StrBytes) + "::default()"@,
            _ => spelling(message, S::Default) + "::default()"@,
        },
        DefaultValue::Float(f) => "f64::from_bits("@ + float_bits_text(f.bits) + ")"@,
    }
}

/// The initializer used where a field is absent from a version.
pub open spec fn default_text(field: &Field, scope: ScopeView) -> Seq<char> {
    if field.default is Null {
        spelling(scope.message, S::OptionNone)
    } else if nullable_somewhere(field, scope) {
        spelling(scope.message, S::OptionSome) + "("@ + default_value_text(field, scope.message) + ")"@
    } else {
        default_value_text(field, scope.message)
    }
}

fn default_value(field: &Field, message: &Message) -> (r: String)
    ensures
        r@ == default_value_text(field, message),
{
    match &field.default {
        DefaultValue::Null => spell(message, S::OptionNone),
        DefaultValue::Bool(value) => if *value {
            owned("true")
        } else {
            owned("false")
        },
        DefaultValue::Integer(value) => separated(*value),
        DefaultValue::String(value) => {
            let str_bytes = spell(message, S::StrBytes);
            if value.as_str().unicode_len() == 0 {
                cat2(str_bytes.as_str(), "::default()")
            } else {
                let quoted = debug_quoted(value.as_str());
                cat4(str_bytes.as_str(), "::from(", quoted.as_str(), ")")
            }
        },
        DefaultValue::Uuid(bytes) => {
            let uuid = spell(message, S::Uuid);
            if is_zero_uuid(bytes) {
                cat2(uuid.as_str(), "::ZERO")
            } else {
                let list = byte_list(bytes);
                cat4(uuid.as_str(), "::from_bytes(", list.as_str(), ")")
            }
        },
        // A non-nullable struct field is absent from a version as every member
        // at its own default, which is what the generated struct derives.
        DefaultValue::StructDefaults => {
            let name = type_spelling(&field.ty, message);
            cat2(name.as_str(), "::default()")
        },
        // Named by type rather than inferred: `Default::default()` in an
        // initializer position is correct but says less than the type does.
        DefaultValue::Empty => match &field.ty {
            FieldType::Array(_) => {
                let vec = spell(message, S::Vec);
                cat2(vec.as_str(), "::new()")
            },
            FieldType::Bytes | FieldType::Records => {
                let bytes = spell(message, S::Bytes);
                cat2(bytes.as_str(), "::default()")
            },
            FieldType::String => {
                let str_bytes = spell(message, S::StrBytes);
                cat2(str_bytes.as_str(), "::default()")
            },
            _ => {
                let default = spell(message, S::Default);
                cat2(default.as_str(), "::default()")
            },
        },
        DefaultValue::Float(value) => {
            let bits = float_bits(value.bits);
            cat3("f64::from_bits(", bits.as_str(), ")")
        },
    }
}

/// The initializer used where a field is absent from a version.
///
/// A nullable field declaring a real default is `Option<T>` holding that
/// value, not `None`: collapsing them would encode an absent field where the
/// protocol says a present one.
pub fn default_expression(field: &Field, scope: &Scope) -> (r: String)
    ensures
        r@ == default_text(field, scope@),
{
    if let DefaultValue::Null = &field.default {
        return spell(scope.message, S::OptionNone);
    }
    let value = default_value(field, scope.message);
    if is_nullable(field, scope) {
        let some = spell(scope.message, S::OptionSome);
        return cat4(some.as_str(), "(", value.as_str(), ")");
    }
    value
}

/// The condition that is true when a field no longer holds its default.
pub open spec fn non_default_text(field: &Field, scope: ScopeView) -> Seq<char> {
    let name = field_ident(field.name.text@);
    let message = scope.message;
    if !(field.default is Null) && nullable_somewhere(field, scope) {
        let value = default_value_text(field, message);
        if field.default is StructDefaults {
            "!"@ + spelling(message, S::ProtocolEq) + "::protocol_eq(&self."@ + name + ", &"@ + spelling(
                message,
                S::OptionSome,
            ) + "("@ + value + "))"@
        } else {
            "self."@ + name + " != "@ + spelling(message, S::OptionSome) + "("@ + value + ")"@
        }
    } else {
        match field.default {
            DefaultValue::Null => "self."@ + name + ".is_some()"@,
            DefaultValue::Bool(b) => if b {
                "!self."@ + name
            } else {
                "self."@ + name
            },
            DefaultValue::Integer(v) => "self."@ + name + " != "@ + separated_text(v as int),
            DefaultValue::String(s) => if s@.len() == 0 {
                "!self."@ + name + ".is_empty()"@
            } else {
                "self."@ + name + ".as_str() != "@ + debug_string(s@)
            },
            DefaultValue::Uuid(bytes) => if all_zero(bytes@) {
                "self."@ + name + " != "@ + spelling(message, S::Uuid) + "::ZERO"@
            } else {
                "self."@ + name + " != "@ + spelling(message, S::Uuid) + "::from_bytes("@ + byte_list_text(
                    bytes@,
                ) + ")"@
            },
            DefaultValue::StructDefaults => "!"@ + spelling(message, S::ProtocolEq) + "::is_protocol_default(&self."@
                + name + ")"@,
            DefaultValue::Empty => "!self."@ + name + ".is_empty()"@,
            DefaultValue::Float(f) => "self."@ + name + ".to_bits() != "@ + float_bits_text(f.bits),
        }
    }
}

/// The condition that is true when a field no longer holds its default.
pub fn non_default_condition(field: &Field, scope: &Scope) -> (r: String)
    ensures
        r@ == non_default_text(field, scope@),
{
    let name = field.name.rust_field();
    let n = name.as_str();
    let message = scope.message;
    let is_null = match &field.default {
        DefaultValue::Null => true,
        _ => false,
    };
    if !is_null && is_nullable(field, scope) {
        let value = default_value(field, message);
        let some = spell(message, S::OptionSome);
        if let DefaultValue::StructDefaults = &field.default {
            let protocol_eq = spell(message, S::ProtocolEq);
            let mut r = cat3("!", protocol_eq.as_str(), "::protocol_eq(&self.");
            r.append(n);
            r.append(", &");
            r.append(some.as_str());
            r.append("(");
            r.append(value.as_str());
            r.append("))");
            return r;
        }
        let mut r = cat4("self.", n, " != ", some.as_str());
        r.append("(");
        r.append(value.as_str());
        r.append(")");
        return r;
    }
    match &field.default {
        DefaultValue::Null => cat3("self.", n, ".is_some()"),
        // `self.x != false` and `self.x != true` are a negation and an
        // identity; the lints on generated code reject both spellings.
        DefaultValue::Bool(value) => if *value {
            cat2("!self.", n)
        } else {
            cat2("self.", n)
        },
        DefaultValue::Integer(value) => {
            let number = separated(*value);
            cat4("self.", n, " != ", number.as_str())
        },
        DefaultValue::String(value) => if value.as_str().unicode_len() == 0 {
            cat3("!self.", n, ".is_empty()")
        } else {
            let quoted = debug_quoted(value.as_str());
            cat4("self.", n, ".as_str() != ", quoted.as_str())
        },
        DefaultValue::Uuid(bytes) => {
            let uuid = spell(message, S::Uuid);
            if is_zero_uuid(bytes) {
                let mut r = cat4("self.", n, " != ", uuid.as_str());
                r.append("::ZERO");
                r
            } else {
                let list = byte_list(bytes);
                let mut r = cat4("self.", n, " != ", uuid.as_str());
                r.append("::from_bytes(");
                r.append(list.as_str());
                r.append(")");
                r
            }
        },
        DefaultValue::StructDefaults => {
            let protocol_eq = spell(message, S::ProtocolEq);
            let mut r = cat3("!", protocol_eq.as_str(), "::is_protocol_default(&self.");
            r.append(n);
            r.append(")");
            r
        },
        DefaultValue::Empty => cat3("!self.", n, ".is_empty()"),
        // A float default compares by bits: the protocol question is whether
        // the value was left alone, and NaN is not equal to itself.
        DefaultValue::Float(value) => {
            let bits = float_bits(value.bits);
            cat4("self.", n, ".to_bits() != ", bits.as_str())
        },
    }
}

/// Whether a field's protocol default is also Rust's, so `Default` derives.
pub open spec fn derives_default(field: &Field, scope: ScopeView) -> bool {
    if nullable_somewhere(field, scope) {
        field.default is Null
    } else {
        match (field.ty, field.default) {
            (FieldType::String, DefaultValue::String(s)) => s@.len() == 0,
            (FieldType::Int8, DefaultValue::Integer(v)) => v == 0,
            (FieldType::Int16, DefaultValue::Integer(v)) => v == 0,
            (FieldType::Uint16, DefaultValue::Integer(v)) => v == 0,
            (FieldType::Int32, DefaultValue::Integer(v)) => v == 0,
            (FieldType::Uint32, DefaultValue::Integer(v)) => v == 0,
            (FieldType::Int64, DefaultValue::Integer(v)) => v == 0,
            (FieldType::Bool, DefaultValue::Bool(b)) => !b,
            (FieldType::Uuid, DefaultValue::Uuid(bytes)) => all_zero(bytes@),
            (FieldType::Array(_), DefaultValue::Empty) => true,
            (FieldType::Bytes, DefaultValue::Empty) => true,
            (FieldType::Records, DefaultValue::Empty) => true,
            (FieldType::String, DefaultValue::Empty) => true,
            (FieldType::Struct(_), DefaultValue::StructDefaults) => true,
            (_, DefaultValue::Null) => true,
            _ => false,
        }
    }
}

/// Whether this field's protocol default is also Rust's, so `Default` derives.
///
/// A nullable field is asked about its wrapped default: `Option`'s Rust
/// default is `None`, so a nullable field with a real default does not derive.
pub fn uses_rust_default(field: &Field, scope: &Scope) -> (r: bool)
    ensures
        r == derives_default(field, scope@),
{
    if is_nullable(field, scope) {
        return match &field.default {
            DefaultValue::Null => true,
            _ => false,
        };
    }
    match (&field.ty, &field.default) {
        (FieldType::String, DefaultValue::String(value)) => value.as_str().unicode_len() == 0,
        (FieldType::Int8, DefaultValue::Integer(value)) => *value == 0,
        (FieldType::Int16, DefaultValue::Integer(value)) => *value == 0,
        (FieldType::Uint16, DefaultValue::Integer(value)) => *value == 0,
        (FieldType::Int32, DefaultValue::Integer(value)) => *value == 0,
        (FieldType::Uint32, DefaultValue::Integer(value)) => *value == 0,
        (FieldType::Int64, DefaultValue::Integer(value)) => *value == 0,
        (FieldType::Bool, DefaultValue::Bool(value)) => !*value,
        (FieldType::Uuid, DefaultValue::Uuid(bytes)) => is_zero_uuid(bytes),
        (FieldType::Array(_), DefaultValue::Empty) => true,
        // `Records` renders as `Bytes`, so its empty default derives too.
        (FieldType::Bytes, DefaultValue::Empty) => true,
        (FieldType::Records, DefaultValue::Empty) => true,
        (FieldType::String, DefaultValue::Empty) => true,
        (FieldType::Struct(_), DefaultValue::StructDefaults) => true,
        (_, DefaultValue::Null) => true,
        _ => false,
    }
}

/// Whether two types are the same variant, ignoring what they carry.
pub open spec fn same_variant(a: FieldType, b: FieldType) -> bool {
    match (a, b) {
        (FieldType::String, FieldType::String) => true,
        (FieldType::Bool, FieldType::Bool) => true,
        (FieldType::Int8, FieldType::Int8) => true,
        (FieldType::Int16, FieldType::Int16) => true,
        (FieldType::Uint16, FieldType::Uint16) => true,
        (FieldType::Uint32, FieldType::Uint32) => true,
        (FieldType::Int32, FieldType::Int32) => true,
        (FieldType::Int64, FieldType::Int64) => true,
        (FieldType::Uuid, FieldType::Uuid) => true,
        (FieldType::Float64, FieldType::Float64) => true,
        (FieldType::Bytes, FieldType::Bytes) => true,
        (FieldType::Records, FieldType::Records) => true,
        (FieldType::Struct(_), FieldType::Struct(_)) => true,
        (FieldType::Array(_), FieldType::Array(_)) => true,
        _ => false,
    }
}

/// Whether a type carries `wanted`, directly or as an array element.
pub open spec fn ty_carries(ty: FieldType, wanted: FieldType) -> bool
    decreases ty,
{
    match ty {
        FieldType::Array(element) => ty_carries(*element, wanted),
        other => same_variant(other, wanted),
    }
}

/// Whether any of `fields`, or any member they declare, carries `wanted`.
pub open spec fn fields_carry(fields: Seq<Field>, wanted: FieldType) -> bool
    decreases fields,
{
    if fields.len() == 0 {
        false
    } else {
        field_carries(fields[0], wanted) || fields_carry(fields.drop_first(), wanted)
    }
}

/// Whether one field, or any member it declares, carries `wanted`.
pub open spec fn field_carries(field: Field, wanted: FieldType) -> bool
    decreases field,
{
    ty_carries(field.ty, wanted) || fields_carry(field.fields@, wanted)
}

/// Whether anything a message emits carries `wanted`.
pub open spec fn message_carries(message: &Message, wanted: FieldType) -> bool {
    fields_carry(message.fields@, wanted) || exists|i: int|
        0 <= i < message.common_structs@.len() && fields_carry(
            #[trigger] message.common_structs@[i].fields@,
            wanted,
        )
}

fn variant_matches(a: &FieldType, b: &FieldType) -> (r: bool)
    ensures
        r == same_variant(*a, *b),
{
    match (a, b) {
        (FieldType::String, FieldType::String) => true,
        (FieldType::Bool, FieldType::Bool) => true,
        (FieldType::Int8, FieldType::Int8) => true,
        (FieldType::Int16, FieldType::Int16) => true,
        (FieldType::Uint16, FieldType::Uint16) => true,
        (FieldType::Uint32, FieldType::Uint32) => true,
        (FieldType::Int32, FieldType::Int32) => true,
        (FieldType::Int64, FieldType::Int64) => true,
        (FieldType::Uuid, FieldType::Uuid) => true,
        (FieldType::Float64, FieldType::Float64) => true,
        (FieldType::Bytes, FieldType::Bytes) => true,
        (FieldType::Records, FieldType::Records) => true,
        (FieldType::Struct(_), FieldType::Struct(_)) => true,
        (FieldType::Array(_), FieldType::Array(_)) => true,
        _ => false,
    }
}

fn ty_uses_type(ty: &FieldType, wanted: &FieldType) -> (r: bool)
    ensures
        r == ty_carries(*ty, *wanted),
    decreases ty,
{
    match ty {
        FieldType::Array(element) => ty_uses_type(element, wanted),
        other => variant_matches(other, wanted),
    }
}

fn fields_use_type(fields: &Vec<Field>, wanted: &FieldType) -> (r: bool)
    ensures
        r == fields_carry(fields@, *wanted),
    decreases fields@,
{
    let mut i = fields.len();
    let mut found = false;
    // Walk from the back so the answer for `fields[i..]` is known at each step.
    while i > 0
        invariant
            i <= fields@.len(),
            found == fields_carry(fields@.skip(i as int), *wanted),
        decreases i,
    {
        i = i - 1;
        let field = &fields[i];
        proof {
            assert(fields@.skip(i as int)[0] == *field);
            assert(fields@.skip(i as int).drop_first() =~= fields@.skip(i + 1));
        }
        let here = ty_uses_type(&field.ty, wanted) || fields_use_type(&field.fields, wanted);
        proof {
            assert(here == field_carries(*field, *wanted));
            assert(fields_carry(fields@.skip(i as int), *wanted) == (field_carries(fields@.skip(i as int)[0], *wanted)
                || fields_carry(fields@.skip(i as int).drop_first(), *wanted)));
        }
        found = here || found;
    }
    assert(fields@.skip(0) =~= fields@);
    found
}

/// Whether any field a message emits carries the named wire type, directly,
/// as an array element, or inside a struct it declares.
pub fn uses_type(message: &Message, wanted: &FieldType) -> (r: bool)
    ensures
        r == message_carries(message, *wanted),
{
    if fields_use_type(&message.fields, wanted) {
        return true;
    }
    let commons = &message.common_structs;
    let mut i: usize = 0;
    while i < commons.len()
        invariant
            i <= commons@.len(),
            commons == &message.common_structs,
            forall|k: int| 0 <= k < i ==> !fields_carry(#[trigger] commons@[k].fields@, *wanted),
        decreases commons@.len() - i,
    {
        if fields_use_type(&commons[i].fields, wanted) {
            return true;
        }
        i = i + 1;
    }
    false
}

/// Whether any field a message emits is declared as the `Bytes` wire type:
/// both `bytes` and `records` become it.
pub fn uses_bytes(message: &Message) -> (r: bool)
    ensures
        r == (message_carries(message, FieldType::Bytes) || message_carries(message, FieldType::Records)),
{
    uses_type(message, &FieldType::Bytes) || uses_type(message, &FieldType::Records)
}

} // verus!
