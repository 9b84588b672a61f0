//! Which encoding and nullability regime a field uses over which versions.
//!
//! Across the versions a field actually appears in, where is it compact rather
//! than legacy, and where is it nullable rather than not? Both answers are
//! windows rather than booleans, and the two windows are independent, so a
//! codec has to be chosen per intersection rather than once per field. This
//! file owns those windows and no emission.

use vstd::prelude::*;

use crate::field::version::{condition_for, condition_of};
use crate::schema::{Field, Scope, ScopeView};
use crate::versions::VersionSet;

verus! {

/// The versions a field is present in, within what its scope supports.
pub open spec fn present_in(field: &Field, scope: ScopeView) -> Set<int> {
    field.versions@.intersect(scope.valid)
}

/// The versions of its presence in which a field may be null.
pub open spec fn nullable_in(field: &Field, scope: ScopeView) -> Set<int> {
    field.nullable_versions@.intersect(present_in(field, scope))
}

/// The versions a field is present in.
pub fn present(field: &Field, scope: &Scope) -> (r: VersionSet)
    ensures
        r@ == present_in(field, scope@),
{
    field.versions.intersection(&scope.valid_versions)
}

/// Which of the versions a field appears in declare it nullable.
pub enum Nullability {
    /// Never nullable anywhere the scope supports it.
    Never,
    /// Nullable in every version it appears in.
    Always,
    /// Nullable in some of them; the two windows partition its presence.
    Gated {
        /// Versions where the field is nullable.
        nullable: VersionSet,
        /// Versions where it appears and is not.
        plain: VersionSet,
    },
}

/// The three nullability shapes, as contracts name them.
pub enum NullShape {
    Never,
    Always,
    Gated,
}

/// The nullability shape of a field within a scope.
pub open spec fn null_shape(field: &Field, scope: ScopeView) -> NullShape {
    let nullable = nullable_in(field, scope);
    if nullable == Set::<int>::empty() {
        NullShape::Never
    } else if nullable == present_in(field, scope) {
        NullShape::Always
    } else {
        NullShape::Gated
    }
}

/// What a computed nullability answer says, checked against the shape.
pub open spec fn nullability_matches(n: Nullability, field: &Field, scope: ScopeView) -> bool {
    match n {
        Nullability::Never => null_shape(field, scope) is Never,
        Nullability::Always => null_shape(field, scope) is Always,
        Nullability::Gated { nullable, plain } => {
            &&& null_shape(field, scope) is Gated
            &&& nullable@ == nullable_in(field, scope)
            &&& plain@ == present_in(field, scope).difference(nullable_in(field, scope))
        },
    }
}

pub fn nullability_of(field: &Field, scope: &Scope) -> (r: Nullability)
    ensures
        nullability_matches(r, field, scope@),
{
    let present = present(field, scope);
    let nullable = field.nullable_versions.intersection(&present);
    if nullable.is_empty() {
        return Nullability::Never;
    }
    if nullable.same_as(&present) {
        return Nullability::Always;
    }
    Nullability::Gated { plain: present.difference(&nullable), nullable }
}

/// Which length prefix a field uses across the versions it is present in.
#[derive(Clone, Copy, Debug, PartialEq, Eq, Structural)]
pub enum Encoding {
    /// Present only in flexible versions, so the compact form is unconditional.
    Compact,
    /// Present only in pre-flexible versions, so the legacy form is unconditional.
    Legacy,
    /// Present on both sides of the flexible boundary, so a version check decides.
    VersionGated,
}

/// The flexible window a field is encoded against: its own, where it pins one.
pub open spec fn flexible_for(field: &Field, scope: ScopeView) -> Set<int> {
    match field.flexible_versions {
        Some(own) => own@,
        None => scope.flexible,
    }
}

/// The regime of a window of presence against a flexible window.
pub open spec fn regime(window: Set<int>, flexible: Set<int>) -> Encoding {
    if window.subset_of(flexible) {
        Encoding::Compact
    } else if window.intersect(flexible) == Set::<int>::empty() {
        Encoding::Legacy
    } else {
        Encoding::VersionGated
    }
}

/// The regime a field uses across one window of its presence.
pub fn encoding_over(window: &VersionSet, field: &Field, scope: &Scope) -> (r: Encoding)
    ensures
        r == regime(window@, flexible_for(field, scope@)),
{
    // A field may pin itself to an encoding its message would not otherwise
    // use. `RequestHeader.ClientId` declares `flexibleVersions: "none"` and so
    // keeps the legacy two-byte prefix even in a flexible header.
    let flexible = match &field.flexible_versions {
        Some(own) => own,
        None => &scope.flexible_versions,
    };
    if window.is_subset_of(flexible) {
        Encoding::Compact
    } else if window.intersection(flexible).is_empty() {
        Encoding::Legacy
    } else {
        Encoding::VersionGated
    }
}

/// The regime a field uses across its whole presence.
pub fn encoding_of(field: &Field, scope: &Scope) -> (r: Encoding)
    ensures
        r == regime(present_in(field, scope@), flexible_for(field, scope@)),
{
    let window = present(field, scope);
    encoding_over(&window, field, scope)
}

/// Whether a field may be null in any version its scope supports.
pub open spec fn nullable_somewhere(field: &Field, scope: ScopeView) -> bool {
    field.nullable_versions@.intersect(scope.valid) != Set::<int>::empty()
}

pub fn is_nullable(field: &Field, scope: &Scope) -> (r: bool)
    ensures
        r == nullable_somewhere(field, scope@),
{
    !field.nullable_versions.intersection(&scope.valid_versions).is_empty()
}

/// The predicate under which a field is present but must not be null: `None`
/// unless it is nullable in only some of the versions it appears in.
pub fn null_forbidden_condition(field: &Field, scope: &Scope) -> (r: Option<String>)
    ensures
        match null_shape(field, scope@) {
            NullShape::Gated => r matches Some(c) && c@ == condition_of(
                present_in(field, scope@).difference(nullable_in(field, scope@)),
                scope.valid_versions@,
            ),
            _ => r is None,
        },
{
    match nullability_of(field, scope) {
        Nullability::Gated { plain, .. } => Some(condition_for(&plain, scope)),
        Nullability::Never | Nullability::Always => None,
    }
}

} // verus!
