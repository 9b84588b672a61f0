//! Explicit capability boundary for the Rust rendering backend.
//!
//! Every shape the emission table covers is accepted here and every other
//! shape is refused by name, so no construct reaches an emitter with no rule
//! for it.

use vstd::prelude::*;

use crate::schema::{type_debug, Fault, Field, FieldType, GenerationError, Message, Scope};
use crate::strings::cat3;
use crate::versions::single_bounded_of;

verus! {

/// The refusal of one field of a message.
pub open spec fn refusal(message: &Message, field: Seq<char>, reason: Seq<char>) -> Fault {
    Fault::Unsupported { message: message.name.text@, field, reason }
}

/// Whether the array backend has an element codec for this type.
///
/// Nested arrays are absent: an array of arrays needs a second length prefix
/// the element path does not emit.
pub open spec fn supported_element(ty: FieldType) -> bool {
    !(ty is Array || ty is Records)
}

/// The first rule one field breaks, ignoring the members it declares.
pub open spec fn own_fault(field: Field, message: &Message, valid: Set<int>, flexible: Set<int>) -> Option<Fault> {
    let present = field.versions@.intersect(valid);
    let nullable = field.nullable_versions@.intersect(valid);
    let tagged = field.tagged_versions@.intersect(valid);
    let name = field.name.text@;
    if present == Set::<int>::empty() {
        Some(refusal(message, name, "the field is declared in no version this message supports"@))
    } else if single_bounded_of(present) is None {
        Some(refusal(message, name, "the initial backend requires one bounded field-presence interval"@))
    } else if field.tag is None && field.tagged_versions@ != Set::<int>::empty() {
        Some(refusal(message, name, "taggedVersions without a tag number"@))
    } else if field.tag is Some && tagged != present {
        Some(refusal(message, name, "the field is tagged in only some of the versions it appears in"@))
    } else if field.tag is Some && !present.subset_of(flexible) {
        Some(refusal(message, name, "a tagged field is present in versions the message is not flexible in"@))
    } else if field.tag is Some && nullable != Set::<int>::empty() && field.ty is Struct {
        Some(refusal(message, name, "nullable tagged struct fields are not implemented yet"@))
    } else if nullable != Set::<int>::empty() && nullable != present {
        Some(refusal(message, name, "partial-version nullability is not implemented yet"@))
    } else {
        match field.ty {
            FieldType::Array(element) => if supported_element(*element) {
                None
            } else {
                Some(refusal(message, name, "field type "@ + type_debug(field.ty) + " is outside the initial backend slice"@))
            },
            _ => None,
        }
    }
}

/// The first rule a field or any member it declares breaks, depth first.
pub open spec fn field_fault(field: Field, message: &Message, valid: Set<int>, flexible: Set<int>) -> Option<Fault>
    decreases field,
{
    match own_fault(field, message, valid, flexible) {
        Some(f) => Some(f),
        None => fields_fault(field.fields@, message, valid, flexible),
    }
}

/// The first rule any of `fields` breaks, in declaration order.
pub open spec fn fields_fault(fields: Seq<Field>, message: &Message, valid: Set<int>, flexible: Set<int>) -> Option<Fault>
    decreases fields,
{
    if fields.len() == 0 {
        None
    } else {
        match field_fault(fields[0], message, valid, flexible) {
            Some(f) => Some(f),
            None => fields_fault(fields.drop_first(), message, valid, flexible),
        }
    }
}

/// The first rule a message breaks: its own windows first, then its fields.
pub open spec fn message_fault(message: &Message) -> Option<Fault> {
    let valid = message.valid_versions@;
    let flexible = message.flexible_versions@.intersect(valid);
    if single_bounded_of(valid) is None {
        Some(refusal(message, "<message>"@, "the initial backend requires one bounded valid version interval"@))
    } else if flexible != Set::<int>::empty() && single_bounded_of(flexible) is None {
        Some(refusal(message, "<message>"@, "the initial backend requires one bounded flexible version interval"@))
    } else {
        fields_fault(message.fields@, message, valid, flexible)
    }
}

fn supported_element_type(ty: &FieldType) -> (r: bool)
    ensures
        r == supported_element(*ty),
{
    match ty {
        FieldType::Array(_) | FieldType::Records => false,
        _ => true,
    }
}

fn refuse(scope: &Scope, field: &Field, reason: &str) -> (r: Result<(), GenerationError>)
    ensures
        r matches Err(e) && e@ == refusal(scope.message, field.name.text@, reason@),
{
    Err(GenerationError::unsupported(scope.message, field.name.protocol(), reason))
}

fn check_field(field: &Field, scope: &Scope) -> (r: Result<(), GenerationError>)
    ensures
        match own_fault(*field, scope.message, scope.valid_versions@, scope.flexible_versions@) {
            None => r is Ok,
            Some(f) => r matches Err(e) && e@ == f,
        },
{
    let present = field.versions.intersection(&scope.valid_versions);
    // Named before the shape check, which would otherwise report a field that
    // exists nowhere as merely having the wrong number of intervals.
    if present.is_empty() {
        return refuse(scope, field, "the field is declared in no version this message supports");
    }
    if present.single_bounded().is_none() {
        return refuse(scope, field, "the initial backend requires one bounded field-presence interval");
    }
    let nullable = field.nullable_versions.intersection(&scope.valid_versions);
    match field.tag {
        None => {
            // Upstream spells one construct with two keys and the emitter keys
            // on the number, so a window with no number has no slot to write to.
            if !field.tagged_versions.is_empty() {
                return refuse(scope, field, "taggedVersions without a tag number");
            }
        },
        Some(_) => {
            let tagged = field.tagged_versions.intersection(&scope.valid_versions);
            if !tagged.same_as(&present) {
                return refuse(scope, field, "the field is tagged in only some of the versions it appears in");
            }
            // The tagged section exists only in flexible versions.
            if !present.is_subset_of(&scope.flexible_versions) {
                return refuse(scope, field, "a tagged field is present in versions the message is not flexible in");
            }
            let is_struct = match &field.ty {
                FieldType::Struct(_) => true,
                _ => false,
            };
            if !nullable.is_empty() && is_struct {
                return refuse(scope, field, "nullable tagged struct fields are not implemented yet");
            }
        },
    }
    if !nullable.is_empty() && !nullable.same_as(&present) {
        return refuse(scope, field, "partial-version nullability is not implemented yet");
    }
    match &field.ty {
        FieldType::Array(element) => {
            if supported_element_type(element) {
                Ok(())
            } else {
                let described = field.ty.describe();
                let reason = cat3("field type ", described.as_str(), " is outside the initial backend slice");
                refuse(scope, field, reason.as_str())
            }
        },
        _ => Ok(()),
    }
}

/// Checks one field list, recursing into the members of any struct it declares.
///
/// Struct members are versioned against the same message, so they face
/// exactly the same presence, nullability, and type rules as a root field.
fn validate_fields(fields: &Vec<Field>, scope: &Scope) -> (r: Result<(), GenerationError>)
    ensures
        match fields_fault(fields@, scope.message, scope.valid_versions@, scope.flexible_versions@) {
            None => r is Ok,
            Some(f) => r matches Err(e) && e@ == f,
        },
    decreases fields@,
{
    let ghost valid = scope.valid_versions@;
    let ghost flexible = scope.flexible_versions@;
    let mut i: usize = 0;
    assert(fields@.skip(0) =~= fields@);
    while i < fields.len()
        invariant
            i <= fields@.len(),
            valid == scope.valid_versions@,
            flexible == scope.flexible_versions@,
            fields_fault(fields@, scope.message, valid, flexible) == fields_fault(fields@.skip(i as int), scope.message, valid, flexible),
        decreases fields@.len() - i,
    {
        let field = &fields[i];
        proof {
            assert(fields@.skip(i as int)[0] == *field);
            assert(fields@.skip(i as int).drop_first() =~= fields@.skip(i + 1));
            assert(fields_fault(fields@.skip(i as int), scope.message, valid, flexible) == match field_fault(*field, scope.message, valid, flexible) {
                Some(f) => Some(f),
                None => fields_fault(fields@.skip(i + 1), scope.message, valid, flexible),
            });
        }
        check_field(field, scope)?;
        validate_fields(&field.fields, scope)?;
        i = i + 1;
    }
    proof {
        assert(fields@.skip(i as int).len() == 0);
    }
    Ok(())
}

/// Checks that the backend can render every construct of a message.
pub fn validate_supported(message: &Message) -> (r: Result<(), GenerationError>)
    ensures
        match message_fault(message) {
            None => r is Ok,
            Some(f) => r matches Err(e) && e@ == f,
        },
{
    if message.valid_versions.single_bounded().is_none() {
        return Err(GenerationError::unsupported(
            message,
            "<message>",
            "the initial backend requires one bounded valid version interval",
        ));
    }
    let flexible = message.effective_flexible_versions();
    if !flexible.is_empty() && flexible.single_bounded().is_none() {
        return Err(GenerationError::unsupported(
            message,
            "<message>",
            "the initial backend requires one bounded flexible version interval",
        ));
    }
    let scope = crate::schema::Scope::of(message);
    validate_fields(&message.fields, &scope)
}

} // verus!
