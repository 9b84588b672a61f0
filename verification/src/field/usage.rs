//! Semantic version-parameter usage for generated field writers.
//!
//! This file answers, before source text exists, whether an emitted writer
//! consults the negotiated version, so formatting cannot change whether a
//! parameter is named `version` or `_version`.

use vstd::prelude::*;

use crate::field::regime::{encoding_of, flexible_for, present_in, regime, Encoding};
use crate::field::version::{gate_over, presence_condition};
use crate::schema::{names_struct, Field, FieldType, Scope, ScopeView};

verus! {

/// Whether a type's length prefix changes with the encoding regime.
pub open spec fn regime_dependent(ty: FieldType) -> bool {
    ty is String || ty is Bytes || ty is Records || ty is Array
}

/// Whether encoding a field's value itself consults the version.
pub open spec fn value_uses_version(field: &Field, scope: ScopeView) -> bool {
    names_struct(field.ty) || (regime_dependent(field.ty) && regime(
        present_in(field, scope),
        flexible_for(field, scope),
    ) == Encoding::VersionGated)
}

fn contains_struct(ty: &FieldType) -> (r: bool)
    ensures
        r == names_struct(*ty),
{
    ty.struct_reference().is_some()
}

fn has_regime_dependent_prefix(ty: &FieldType) -> (r: bool)
    ensures
        r == regime_dependent(*ty),
{
    match ty {
        FieldType::String | FieldType::Bytes | FieldType::Records | FieldType::Array(_) => true,
        _ => false,
    }
}

/// Whether encoding the field's value itself consults the negotiated version.
pub fn encoded_value_uses_version(field: &Field, scope: &Scope) -> (r: bool)
    ensures
        r == value_uses_version(field, scope@),
{
    contains_struct(&field.ty) || (has_regime_dependent_prefix(&field.ty) && encoding_of(field, scope)
        == Encoding::VersionGated)
}

/// Whether one inline field writer consults the negotiated version.
pub fn inline_write_uses_version(field: &Field, scope: &Scope) -> (r: bool)
    ensures
        r == (gate_over(field.versions@, scope.valid_versions@) is Some || value_uses_version(field, scope@)),
{
    presence_condition(field, scope).is_some() || encoded_value_uses_version(field, scope)
}

} // verus!
