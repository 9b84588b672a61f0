//! Typed rendering plan for one owner's known tagged fields.
//!
//! Tag identity, field binding, and active versions are derived once from
//! validated schema and every emitter consumes the same ascending plan.

use vstd::prelude::*;

use crate::field::version::{condition_for, condition_of};
use crate::schema::{Field, Scope, ScopeView};
use crate::versions::VersionSet;

verus! {

/// `x` placed after every entry whose tag is not above its own: the step of a
/// stable insertion sort by tag.
pub open spec fn sorted_insert(s: Seq<(u32, int)>, x: (u32, int)) -> Seq<(u32, int)>
    decreases s.len(),
{
    if s.len() == 0 {
        seq![x]
    } else if s[0].0 > x.0 {
        seq![x] + s
    } else {
        seq![s[0]] + sorted_insert(s.drop_first(), x)
    }
}

/// The known tags of the first `n` fields as `(tag, field index)`, ascending
/// by tag, fields with equal tags in declaration order.
pub open spec fn plan_order(fields: Seq<Field>, n: int) -> Seq<(u32, int)>
    decreases n,
{
    if n <= 0 {
        Seq::empty()
    } else {
        let before = plan_order(fields, n - 1);
        match fields[n - 1].tag {
            Some(tag) => sorted_insert(before, (tag, n - 1)),
            None => before,
        }
    }
}

/// The known tags of a whole field list, in the order every phase emits them.
pub open spec fn known_order(fields: Seq<Field>) -> Seq<(u32, int)> {
    plan_order(fields, fields.len() as int)
}

/// The versions in which a tagged field is active for its owner.
pub open spec fn active_in(field: Field, scope: ScopeView) -> Set<int> {
    field.tagged_versions@.intersect(scope.valid)
}

/// The version condition for one tag in code that spans the whole owner range.
pub open spec fn owner_gate(field: Field, scope: ScopeView) -> Option<Seq<char>> {
    if active_in(field, scope) == scope.valid {
        None
    } else {
        Some(condition_of(active_in(field, scope), scope.valid))
    }
}

/// The version condition for one tag inside the owner's flexible section.
pub open spec fn section_gate(field: Field, scope: ScopeView) -> Option<Seq<char>> {
    if scope.flexible.subset_of(active_in(field, scope)) {
        None
    } else {
        Some(condition_of(active_in(field, scope), scope.valid))
    }
}

/// One known tagged field as every generated phase must understand it.
pub struct KnownTagPlan {
    pub tag: u32,
    pub field_index: usize,
    pub active_versions: VersionSet,
}

/// The `(tag, field index)` keys of a plan list.
pub open spec fn plan_keys(plans: Seq<KnownTagPlan>) -> Seq<(u32, int)> {
    plans.map_values(|p: KnownTagPlan| (p.tag, p.field_index as int))
}

/// Whether `plans` is the plan of `fields` under `scope`.
pub open spec fn is_plan_of(plans: Seq<KnownTagPlan>, fields: Seq<Field>, scope: ScopeView) -> bool {
    &&& plan_keys(plans) == known_order(fields)
    &&& forall|k: int|
        0 <= k < plans.len() ==> (#[trigger] plans[k]).active_versions@ == active_in(
            fields[plans[k].field_index as int],
            scope,
        )
}

impl KnownTagPlan {
    /// The version gate for a phase that runs across the whole owner range.
    pub fn owner_condition(&self, field: &Field, scope: &Scope) -> (r: Option<String>)
        requires
            self.active_versions@ == active_in(*field, scope@),
        ensures
            match owner_gate(*field, scope@) {
                None => r is None,
                Some(c) => r matches Some(s) && s@ == c,
            },
    {
        if self.active_versions.same_as(&scope.valid_versions) {
            None
        } else {
            Some(condition_for(&self.active_versions, scope))
        }
    }

    /// The version gate inside the owner's already-established flexible section.
    pub fn section_condition(&self, field: &Field, scope: &Scope) -> (r: Option<String>)
        requires
            self.active_versions@ == active_in(*field, scope@),
        ensures
            match section_gate(*field, scope@) {
                None => r is None,
                Some(c) => r matches Some(s) && s@ == c,
            },
    {
        if scope.flexible_versions.is_subset_of(&self.active_versions) {
            None
        } else {
            Some(condition_for(&self.active_versions, scope))
        }
    }
}

/// Inserting at the first entry with a greater tag is the sorted insertion.
proof fn lemma_insert_at(s: Seq<(u32, int)>, x: (u32, int), p: int)
    requires
        0 <= p <= s.len(),
        forall|j: int| 0 <= j < p ==> (#[trigger] s[j]).0 <= x.0,
        p < s.len() ==> s[p].0 > x.0,
    ensures
        sorted_insert(s, x) == s.take(p) + seq![x] + s.skip(p),
    decreases s.len(),
{
    if s.len() == 0 {
        assert(s.take(p) + seq![x] + s.skip(p) =~= seq![x]);
    } else if s[0].0 > x.0 {
        assert(p == 0);
        assert(s.take(p) + seq![x] + s.skip(p) =~= seq![x] + s);
    } else {
        assert(p >= 1);
        let rest = s.drop_first();
        assert forall|j: int| 0 <= j < p - 1 implies (#[trigger] rest[j]).0 <= x.0 by {
            assert(rest[j] == s[j + 1]);
        }
        lemma_insert_at(rest, x, p - 1);
        assert(s.take(p) + seq![x] + s.skip(p) =~= seq![s[0]] + (rest.take(p - 1) + seq![x] + rest.skip(p - 1)));
    }
}

/// Derives one ascending plan from the tag declarations of `fields`.
pub fn known_tag_plans(fields: &Vec<Field>, scope: &Scope) -> (r: Vec<KnownTagPlan>)
    ensures
        is_plan_of(r@, fields@, scope@),
{
    let mut plans: Vec<KnownTagPlan> = Vec::new();
    let mut i: usize = 0;
    while i < fields.len()
        invariant
            i <= fields@.len(),
            plan_keys(plans@) == plan_order(fields@, i as int),
            forall|k: int|
                0 <= k < plans@.len() ==> (#[trigger] plans@[k]).field_index < i && plans@[k].active_versions@
                    == active_in(fields@[plans@[k].field_index as int], scope@),
        decreases fields@.len() - i,
    {
        if let Some(tag) = fields[i].tag {
            let mut p: usize = 0;
            while p < plans.len() && plans[p].tag <= tag
                invariant
                    p <= plans@.len(),
                    forall|j: int| 0 <= j < p ==> (#[trigger] plans@[j]).tag <= tag,
                decreases plans@.len() - p,
            {
                p = p + 1;
            }
            let active = fields[i].tagged_versions.intersection(&scope.valid_versions);
            let ghost before = plans@;
            let ghost keys = plan_keys(before);
            proof {
                assert forall|j: int| 0 <= j < p implies (#[trigger] keys[j]).0 <= tag by {
                    assert(keys[j].0 == before[j].tag);
                }
                lemma_insert_at(keys, (tag, i as int), p as int);
            }
            plans.insert(p, KnownTagPlan { tag, field_index: i, active_versions: active });
            proof {
                assert(plans@ =~= before.take(p as int) + seq![plans@[p as int]] + before.skip(p as int));
                assert(plan_keys(plans@) =~= keys.take(p as int) + seq![(tag, i as int)] + keys.skip(p as int));
                assert forall|k: int| 0 <= k < plans@.len() implies (#[trigger] plans@[k]).field_index < i + 1
                    && plans@[k].active_versions@ == active_in(fields@[plans@[k].field_index as int], scope@) by {
                    if k < p {
                        assert(plans@[k] == before[k]);
                    } else if k > p {
                        assert(plans@[k] == before[k - 1]);
                    }
                }
            }
        }
        i = i + 1;
    }
    plans
}

} // verus!
