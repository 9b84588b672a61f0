//! The census of known tags across a whole corpus: which owner claims which
//! tag from which version, and which tags activate only after an owner's
//! flexible encoding begins.
//!
//! Runtime assertions over every entry are rendered from it, each one
//! constructing the invalid dual representation and exercising the
//! crate-private ownership check that ordinary decode paths cannot reach.

use vstd::prelude::*;

use crate::api::declarations::{body_of, declaration_fields, missing_body, missing_fault, struct_scope};
use crate::api::message::message_scope;
use crate::api::tag_plan::{active_in, is_plan_of, known_order, known_tag_plans, KnownTagPlan};
use crate::api::tagged::lemma_plan_order_indices;
use crate::established::{bounded, optional_bounded, unbounded_fault};
use crate::field::validate::{message_fault, validate_supported};
use crate::fuzz_dispatch::corpus_messages;
use crate::group::{ApiGroup, MessageSource};
use crate::naming::snake;
use crate::order::{lex_less, text_less};
use crate::schema::{Fault, Field, GenerationError, Message, Scope, ScopeView, StructOrigin};
use crate::strings::owned;
use crate::versions::{single_bounded_of, VersionSet};

verus! {

/// One census entry: the owning type's path, its error name, the version the
/// assertion is about, and the tag.
pub struct TagEntry {
    pub rust_type: String,
    pub owner: String,
    pub version: i16,
    pub tag: u32,
}

/// A census entry as contracts see it.
pub open spec fn entry_of(e: TagEntry) -> (Seq<char>, Seq<char>, i16, u32) {
    (e.rust_type@, e.owner@, e.version, e.tag)
}

/// The views of a list of entries.
pub open spec fn entry_views(v: Seq<TagEntry>) -> Seq<(Seq<char>, Seq<char>, i16, u32)> {
    v.map_values(|e: TagEntry| entry_of(e))
}

/// Which census is being taken.
#[derive(Clone, Copy, PartialEq, Eq, Structural)]
pub enum Census {
    /// Every active known tag, at the first version it is active in.
    Claims,
    /// Every known tag that activates after its owner's flexible encoding
    /// begins, at the version it activates in.
    Boundaries,
}

/// The entries one owner contributes from the first `n` of its known tags,
/// or the first refusal.
pub open spec fn plan_entries(
    rust_type: Seq<char>,
    owner: Seq<char>,
    fields: Seq<Field>,
    scope: ScopeView,
    census: Census,
    flexible_start: int,
    n: int,
) -> Result<Seq<(Seq<char>, Seq<char>, i16, u32)>, Fault>
    decreases n,
{
    if n <= 0 {
        Ok(Seq::empty())
    } else {
        match plan_entries(rust_type, owner, fields, scope, census, flexible_start, n - 1) {
            Err(f) => Err(f),
            Ok(before) => {
                let key = known_order(fields)[n - 1];
                let active = active_in(fields[key.1], scope);
                match single_bounded_of(active) {
                    None => Err(unbounded_fault(scope.message, "known tag versions"@)),
                    Some(bounds) => if census == Census::Claims || bounds.0 > flexible_start {
                        Ok(before.push((rust_type, owner, bounds.0, key.0)))
                    } else {
                        Ok(before)
                    },
                }
            },
        }
    }
}

/// The entries one owner contributes, or the first refusal.
pub open spec fn owner_entries(rust_type: Seq<char>, owner: Seq<char>, fields: Seq<Field>, scope: ScopeView, census: Census) -> Result<
    Seq<(Seq<char>, Seq<char>, i16, u32)>,
    Fault,
> {
    let n = known_order(fields).len() as int;
    if census == Census::Claims {
        plan_entries(rust_type, owner, fields, scope, census, 0, n)
    } else if scope.flexible == Set::<int>::empty() {
        Ok(Seq::empty())
    } else {
        match single_bounded_of(scope.flexible) {
            None => Err(unbounded_fault(scope.message, "flexible tag boundary"@)),
            Some(bounds) => plan_entries(rust_type, owner, fields, scope, census, bounds.0 as int, n),
        }
    }
}

fn collect_owner(
    entries: &mut Vec<TagEntry>,
    rust_type: &str,
    owner: &str,
    fields: &Vec<Field>,
    scope: &Scope,
    census: Census,
) -> (r: Result<(), GenerationError>)
    ensures
        match owner_entries(rust_type@, owner@, fields@, scope@, census) {
            Ok(found) => r is Ok && entry_views(final(entries)@) == entry_views(old(entries)@) + found,
            Err(f) => r matches Err(e) && e@ == f,
        },
{
    let flexible_start: i16 = match census {
        Census::Claims => 0,
        Census::Boundaries => match optional_bounded(scope.message, &scope.flexible_versions, "flexible tag boundary")? {
            None => {
                assert(entry_views(entries@) =~= entry_views(entries@) + Seq::empty());
                return Ok(());
            },
            Some((start, _)) => start,
        },
    };
    let plans = known_tag_plans(fields, scope);
    let ghost keys = known_order(fields@);
    proof {
        lemma_plan_order_indices(fields@, fields@.len() as int);
    }
    assert(forall|k: int| 0 <= k < plans@.len() ==> (#[trigger] plans@[k]).tag == keys[k].0 && plans@[k].field_index == keys[k].1) by {
        assert forall|k: int| 0 <= k < plans@.len() implies (#[trigger] plans@[k]).tag == keys[k].0 && plans@[k].field_index == keys[k].1 by {
            assert(crate::api::tag_plan::plan_keys(plans@)[k] == keys[k]);
        }
    }
    let ghost start = entry_views(entries@);
    let mut i: usize = 0;
    while i < plans.len()
        invariant
            is_plan_of(plans@, fields@, scope@),
            keys == known_order(fields@),
            keys.len() == plans@.len(),
            forall|k: int| 0 <= k < plans@.len() ==> (#[trigger] plans@[k]).tag == keys[k].0 && plans@[k].field_index == keys[k].1,
            forall|k: int| 0 <= k < keys.len() ==> 0 <= (#[trigger] keys[k]).1 < fields@.len(),
            i <= plans@.len(),
            census == Census::Claims ==> flexible_start == 0,
            owner_entries(rust_type@, owner@, fields@, scope@, census) == plan_entries(
                rust_type@,
                owner@,
                fields@,
                scope@,
                census,
                flexible_start as int,
                keys.len() as int,
            ),
            plan_entries(rust_type@, owner@, fields@, scope@, census, flexible_start as int, i as int) matches Ok(found)
                && entry_views(entries@) == start + found,
        decreases plans@.len() - i,
    {
        let plan = &plans[i];
        assert(plan.active_versions@ == active_in(fields@[keys[i as int].1], scope@));
        let bounds = bounded(scope.message, &plan.active_versions, "known tag versions");
        let (version, _) = match bounds {
            Ok(b) => b,
            Err(e) => {
                proof {
                    assert(plan_entries(rust_type@, owner@, fields@, scope@, census, flexible_start as int, i + 1) == Err::<
                        Seq<(Seq<char>, Seq<char>, i16, u32)>,
                        Fault,
                    >(unbounded_fault(scope.message, "known tag versions"@)));
                    lemma_plan_entries_err(rust_type@, owner@, fields@, scope@, census, flexible_start as int, i + 1, keys.len() as int);
                }
                return Err(e);
            },
        };
        let keep = match census {
            Census::Claims => true,
            Census::Boundaries => version > flexible_start,
        };
        if keep {
            let ghost before = entry_views(entries@);
            entries.push(TagEntry { rust_type: owned(rust_type), owner: owned(owner), version, tag: plan.tag });
            assert(entry_views(entries@) =~= before.push((rust_type@, owner@, version, plan.tag)));
        }
        i = i + 1;
    }
    Ok(())
}

proof fn lemma_plan_entries_err(
    rust_type: Seq<char>,
    owner: Seq<char>,
    fields: Seq<Field>,
    scope: ScopeView,
    census: Census,
    flexible_start: int,
    k: int,
    n: int,
)
    requires
        0 <= k <= n,
        plan_entries(rust_type, owner, fields, scope, census, flexible_start, k) is Err,
    ensures
        plan_entries(rust_type, owner, fields, scope, census, flexible_start, n) == plan_entries(
            rust_type,
            owner,
            fields,
            scope,
            census,
            flexible_start,
            k,
        ),
    decreases n - k,
{
    if n > k {
        lemma_plan_entries_err(rust_type, owner, fields, scope, census, flexible_start, k, n - 1);
    }
}

/// The entries of the first `n` structs a message declares, after `before`.
pub open spec fn struct_entries(
    message: &Message,
    census: Census,
    before: Result<Seq<(Seq<char>, Seq<char>, i16, u32)>, Fault>,
    n: int,
) -> Result<Seq<(Seq<char>, Seq<char>, i16, u32)>, Fault>
    decreases n,
{
    if n <= 0 {
        before
    } else {
        match struct_entries(message, census, before, n - 1) {
            Err(f) => Err(f),
            Ok(found) => {
                let declaration = message.structs.declarations@[n - 1];
                let rust_type = declaration.name.spelling@;
                match owner_entries(
                    "crate::"@ + snake(message.name.text@) + "::"@ + rust_type,
                    rust_type,
                    body_of(message, declaration)->0@,
                    struct_scope(message, declaration),
                    census,
                ) {
                    Err(f) => Err(f),
                    Ok(more) => Ok(found + more),
                }
            },
        }
    }
}

/// Every entry one message contributes: the message's own known tags, then
/// each declared struct's, after validation and body resolution.
pub open spec fn message_entries(message: &Message, census: Census) -> Result<Seq<(Seq<char>, Seq<char>, i16, u32)>, Fault> {
    let n = message.structs.declarations@.len() as int;
    match message_fault(message) {
        Some(f) => Err(f),
        None => match owner_entries(
            "crate::"@ + message.name.text@,
            message.name.text@,
            message.fields@,
            message_scope(message),
            census,
        ) {
            Err(f) => Err(f),
            Ok(own) => match missing_fault(message, n) {
                Some(f) => Err(f),
                None => struct_entries(message, census, Ok(own), n),
            },
        },
    }
}

proof fn lemma_struct_entries_err(
    message: &Message,
    census: Census,
    before: Result<Seq<(Seq<char>, Seq<char>, i16, u32)>, Fault>,
    k: int,
    n: int,
)
    requires
        0 <= k <= n,
        struct_entries(message, census, before, k) is Err,
    ensures
        struct_entries(message, census, before, n) == struct_entries(message, census, before, k),
    decreases n - k,
{
    if n > k {
        lemma_struct_entries_err(message, census, before, k, n - 1);
    }
}

/// With no missing body among `n`, every one of them has a body.
proof fn lemma_bodies_present(message: &Message, i: int, n: int)
    requires
        0 <= i < n <= message.structs.declarations@.len(),
        missing_fault(message, n) is None,
    ensures
        body_of(message, message.structs.declarations@[i]) is Some,
    decreases n,
{
    if n > i + 1 {
        lemma_bodies_present(message, i, n - 1);
    }
}

/// Checks that every declaration of a message has a body.
fn check_bodies(message: &Message) -> (r: Result<(), GenerationError>)
    ensures
        match missing_fault(message, message.structs.declarations@.len() as int) {
            None => r is Ok,
            Some(f) => r matches Err(e) && e@ == f,
        },
{
    let declarations = &message.structs.declarations;
    let mut i: usize = 0;
    while i < declarations.len()
        invariant
            declarations == &message.structs.declarations,
            i <= declarations@.len(),
            missing_fault(message, i as int) is None,
        decreases declarations@.len() - i,
    {
        if declaration_fields(message, &declarations[i]).is_none() {
            let declaration = &declarations[i];
            let origin = match declaration.origin {
                StructOrigin::Common => "Common",
                StructOrigin::Inline => "Inline",
            };
            let mut detail = owned("struct table declaration `");
            detail.append(declaration.name.declared());
            detail.append("` has no matching ");
            detail.append(origin);
            detail.append(" body");
            proof {
                lemma_missing_fault_persists(message, i + 1, declarations@.len() as int);
            }
            return Err(GenerationError::internal(message, detail.as_str()));
        }
        i = i + 1;
    }
    Ok(())
}

/// Collects the entries of every struct a message declares.
fn collect_structs(
    entries: &mut Vec<TagEntry>,
    message: &Message,
    census: Census,
    own: Ghost<Seq<(Seq<char>, Seq<char>, i16, u32)>>,
) -> (r: Result<(), GenerationError>)
    requires
        missing_fault(message, message.structs.declarations@.len() as int) is None,
    ensures
        match struct_entries(message, census, Ok(own@), message.structs.declarations@.len() as int) {
            Ok(found) => r is Ok && entry_views(final(entries)@) == entry_views(old(entries)@) + found.skip(
                own@.len() as int,
            ),
            Err(f) => r matches Err(e) && e@ == f,
        },
{
    let declarations = &message.structs.declarations;
    let flexible = message.effective_flexible_versions();
    let module = message.name.rust_module();
    let ghost base = entry_views(entries@);
    let mut j: usize = 0;
    assert(own@ + entry_views(entries@).skip(base.len() as int) =~= own@);
    while j < declarations.len()
        invariant
            declarations == &message.structs.declarations,
            j <= declarations@.len(),
            flexible@ == message.flexible_versions@.intersect(message.valid_versions@),
            module@ == snake(message.name.text@),
            missing_fault(message, declarations@.len() as int) is None,
            base.len() <= entry_views(entries@).len(),
            entry_views(entries@).take(base.len() as int) == base,
            struct_entries(message, census, Ok(own@), j as int) == Ok::<Seq<(Seq<char>, Seq<char>, i16, u32)>, Fault>(
                own@ + entry_views(entries@).skip(base.len() as int),
            ),
        decreases declarations@.len() - j,
    {
        let declaration = &declarations[j];
        proof {
            lemma_bodies_present(message, j as int, declarations@.len() as int);
        }
        let fields = match declaration_fields(message, declaration) {
            Some(found) => found,
            None => return Ok(()),
        };
        let nested = Scope::nested(message, &declaration.versions, &flexible);
        assert(nested@ == struct_scope(message, *declaration));
        let owner = declaration.name.rust_type();
        let mut path = owned("crate::");
        path.append(module.as_str());
        path.append("::");
        path.append(owner.as_str());
        let ghost before = entry_views(entries@);
        let step = collect_owner(entries, path.as_str(), owner.as_str(), fields, &nested, census);
        if let Err(e) = step {
            proof {
                lemma_struct_entries_err(message, census, Ok(own@), j + 1, declarations@.len() as int);
            }
            return Err(e);
        }
        proof {
            let more_spec = owner_entries(path@, owner@, fields@, nested@, census)->Ok_0;
            let more = entry_views(entries@).skip(before.len() as int);
            assert(entry_views(entries@) =~= before + more);
            assert(more =~= more_spec);
            assert(body_of(message, *declaration)->0@ == fields@);
            assert(path@ == "crate::"@ + snake(message.name.text@) + "::"@ + (declaration.name.spelling@));
            assert(entry_views(entries@).take(base.len() as int) =~= base);
            assert(entry_views(entries@).skip(base.len() as int) =~= before.skip(base.len() as int) + more);
            assert(own@ + entry_views(entries@).skip(base.len() as int) =~= (own@ + before.skip(base.len() as int)) + more);
        }
        j = j + 1;
    }
    proof {
        let all = own@ + entry_views(entries@).skip(base.len() as int);
        assert(all.skip(own@.len() as int) =~= entry_views(entries@).skip(base.len() as int));
        assert(entry_views(entries@) =~= base + entry_views(entries@).skip(base.len() as int));
    }
    Ok(())
}

fn collect_message(entries: &mut Vec<TagEntry>, message: &Message, census: Census) -> (r: Result<(), GenerationError>)
    ensures
        match message_entries(message, census) {
            Ok(found) => r is Ok && entry_views(final(entries)@) == entry_views(old(entries)@) + found,
            Err(f) => r matches Err(e) && e@ == f,
        },
{
    validate_supported(message)?;
    let scope = Scope::of(message);
    assert(scope@ == message_scope(message));
    let rust_type = crate::strings::cat2("crate::", message.name.rust_type());
    let ghost start = entry_views(entries@);
    collect_owner(entries, rust_type.as_str(), message.name.protocol(), &message.fields, &scope, census)?;
    let ghost own = entry_views(entries@).skip(start.len() as int);
    assert(entry_views(entries@) =~= start + own);
    proof {
        let spec_own = owner_entries(
            "crate::"@ + message.name.text@,
            message.name.text@,
            message.fields@,
            message_scope(message),
            census,
        )->Ok_0;
        assert(own =~= spec_own);
    }
    check_bodies(message)?;
    let ghost middle = entry_views(entries@);
    collect_structs(entries, message, census, Ghost(own))?;
    proof {
        let n = message.structs.declarations@.len() as int;
        lemma_struct_entries_extend(message, census, own, n);
        let found = struct_entries(message, census, Ok(own), n)->Ok_0;
        assert(found =~= own + found.skip(own.len() as int));
        assert(entry_views(entries@) =~= start + found);
    }
    Ok(())
}

/// The struct entries only ever extend what came before them.
proof fn lemma_struct_entries_extend(message: &Message, census: Census, own: Seq<(Seq<char>, Seq<char>, i16, u32)>, n: int)
    ensures
        struct_entries(message, census, Ok(own), n) matches Ok(found) ==> found.len() >= own.len() && found.take(
            own.len() as int,
        ) == own,
    decreases n,
{
    if n > 0 {
        lemma_struct_entries_extend(message, census, own, n - 1);
        if let Ok(found) = struct_entries(message, census, Ok(own), n) {
            let before = struct_entries(message, census, Ok(own), n - 1)->Ok_0;
            assert(found.take(own.len() as int) =~= before.take(own.len() as int));
        }
    } else {
        assert(own.take(own.len() as int) =~= own);
    }
}

proof fn lemma_missing_fault_persists(message: &Message, k: int, n: int)
    requires
        0 <= k <= n,
        missing_fault(message, k) is Some,
    ensures
        missing_fault(message, n) == missing_fault(message, k),
    decreases n - k,
{
    if n > k {
        lemma_missing_fault_persists(message, k, n - 1);
    }
}

/// The entries of the first `n` messages of `ms`, or the first refusal.
pub open spec fn messages_entries(ms: Seq<Message>, census: Census, n: int) -> Result<Seq<(Seq<char>, Seq<char>, i16, u32)>, Fault>
    decreases n,
{
    if n <= 0 {
        Ok(Seq::empty())
    } else {
        match messages_entries(ms, census, n - 1) {
            Err(f) => Err(f),
            Ok(before) => match message_entries(&ms[n - 1], census) {
                Err(f) => Err(f),
                Ok(more) => Ok(before + more),
            },
        }
    }
}

/// The census of a whole corpus, in collection order, or the first refusal.
pub open spec fn corpus_entries(groups: Seq<ApiGroup>, unkeyed: Seq<MessageSource>, census: Census) -> Result<
    Seq<(Seq<char>, Seq<char>, i16, u32)>,
    Fault,
> {
    let ms = corpus_messages(groups, unkeyed);
    messages_entries(ms, census, ms.len() as int)
}

proof fn lemma_messages_entries_err(ms: Seq<Message>, census: Census, k: int, n: int)
    requires
        0 <= k <= n,
        messages_entries(ms, census, k) is Err,
    ensures
        messages_entries(ms, census, n) == messages_entries(ms, census, k),
    decreases n - k,
{
    if n > k {
        lemma_messages_entries_err(ms, census, k, n - 1);
    }
}

fn collect_into(
    entries: &mut Vec<TagEntry>,
    message: &Message,
    census: Census,
    ms: Ghost<Seq<Message>>,
    n: Ghost<int>,
) -> (r: Result<(), GenerationError>)
    requires
        0 < n@ <= ms@.len(),
        ms@[n@ - 1] == *message,
        messages_entries(ms@, census, n@ - 1) == Ok::<Seq<(Seq<char>, Seq<char>, i16, u32)>, Fault>(entry_views(old(entries)@)),
    ensures
        match messages_entries(ms@, census, n@) {
            Ok(found) => r is Ok && entry_views(final(entries)@) == found,
            Err(f) => r matches Err(e) && e@ == f,
        },
{
    collect_message(entries, message, census)
}

/// Collects the census of a whole corpus, in collection order.
pub fn collect_corpus(groups: &Vec<ApiGroup>, unkeyed: &Vec<MessageSource>, census: Census) -> (r: Result<Vec<TagEntry>, GenerationError>)
    ensures
        match corpus_entries(groups@, unkeyed@, census) {
            Ok(found) => r matches Ok(v) && entry_views(v@) == found,
            Err(f) => r matches Err(e) && e@ == f,
        },
{
    let ghost ms = corpus_messages(groups@, unkeyed@);
    proof {
        crate::fuzz_dispatch::lemma_group_messages_shape(groups@, groups@.len() as int);
    }
    let mut entries: Vec<TagEntry> = Vec::new();
    assert(entry_views(entries@) =~= Seq::empty());
    let mut i: usize = 0;
    while i < groups.len()
        invariant
            i <= groups@.len(),
            ms == corpus_messages(groups@, unkeyed@),
            ms.len() == 2 * groups@.len() + unkeyed@.len(),
            forall|k: int|
                0 <= k < groups@.len() ==> ms[2 * k] == (#[trigger] groups@[k]).request.message && ms[2 * k + 1]
                    == groups@[k].response.message,
            messages_entries(ms, census, 2 * i) == Ok::<Seq<(Seq<char>, Seq<char>, i16, u32)>, Fault>(entry_views(entries@)),
        decreases groups@.len() - i,
    {
        assert(ms[2 * i] == groups@[i as int].request.message);
        let step = collect_into(&mut entries, &groups[i].request.message, census, Ghost(ms), Ghost(2 * i + 1));
        if let Err(e) = step {
            proof {
                lemma_messages_entries_err(ms, census, 2 * i + 1, ms.len() as int);
            }
            return Err(e);
        }
        let step = collect_into(&mut entries, &groups[i].response.message, census, Ghost(ms), Ghost(2 * i + 2));
        if let Err(e) = step {
            proof {
                lemma_messages_entries_err(ms, census, 2 * i + 2, ms.len() as int);
            }
            return Err(e);
        }
        i = i + 1;
    }
    let ghost base: int = (2 * groups@.len()) as int;
    let mut j: usize = 0;
    while j < unkeyed.len()
        invariant
            j <= unkeyed@.len(),
            ms == corpus_messages(groups@, unkeyed@),
            ms.len() == base + unkeyed@.len(),
            base == 2 * groups@.len(),
            forall|k: int| 0 <= k < unkeyed@.len() ==> ms[base + k] == #[trigger] unkeyed@[k].message,
            messages_entries(ms, census, base + j) == Ok::<Seq<(Seq<char>, Seq<char>, i16, u32)>, Fault>(entry_views(entries@)),
        decreases unkeyed@.len() - j,
    {
        let step = collect_into(&mut entries, &unkeyed[j].message, census, Ghost(ms), Ghost(base + j + 1));
        if let Err(e) = step {
            proof {
                lemma_messages_entries_err(ms, census, base + j + 1, ms.len() as int);
            }
            return Err(e);
        }
        j = j + 1;
    }
    Ok(entries)
}

/// Whether entry `x` sorts strictly before `y`: by owning type, then
/// version, then tag.
pub open spec fn entry_less(x: (Seq<char>, Seq<char>, i16, u32), y: (Seq<char>, Seq<char>, i16, u32)) -> bool {
    lex_less(x.0, y.0) || (x.0 == y.0 && (x.2 < y.2 || (x.2 == y.2 && x.3 < y.3)))
}

/// `x` placed after every entry that does not sort after it.
pub open spec fn insert_census(s: Seq<(Seq<char>, Seq<char>, i16, u32)>, x: (Seq<char>, Seq<char>, i16, u32)) -> Seq<
    (Seq<char>, Seq<char>, i16, u32),
>
    decreases s.len(),
{
    if s.len() == 0 {
        seq![x]
    } else if entry_less(x, s[0]) {
        seq![x] + s
    } else {
        seq![s[0]] + insert_census(s.drop_first(), x)
    }
}

/// The first `n` entries of `s`, sorted stably.
pub open spec fn sorted_census(s: Seq<(Seq<char>, Seq<char>, i16, u32)>, n: int) -> Seq<(Seq<char>, Seq<char>, i16, u32)>
    decreases n,
{
    if n <= 0 {
        Seq::empty()
    } else {
        insert_census(sorted_census(s, n - 1), s[n - 1])
    }
}

proof fn lemma_insert_census_at(s: Seq<(Seq<char>, Seq<char>, i16, u32)>, x: (Seq<char>, Seq<char>, i16, u32), p: int)
    requires
        0 <= p <= s.len(),
        forall|j: int| 0 <= j < p ==> !entry_less(x, #[trigger] s[j]),
        p < s.len() ==> entry_less(x, s[p]),
    ensures
        insert_census(s, x) == s.take(p) + seq![x] + s.skip(p),
    decreases s.len(),
{
    if s.len() == 0 {
        assert(s.take(p) + seq![x] + s.skip(p) =~= seq![x]);
    } else if entry_less(x, s[0]) {
        assert(p == 0);
        assert(s.take(p) + seq![x] + s.skip(p) =~= seq![x] + s);
    } else {
        let rest = s.drop_first();
        assert forall|j: int| 0 <= j < p - 1 implies !entry_less(x, #[trigger] rest[j]) by {
            assert(rest[j] == s[j + 1]);
        }
        lemma_insert_census_at(rest, x, p - 1);
        assert(s.take(p) + seq![x] + s.skip(p) =~= seq![s[0]] + (rest.take(p - 1) + seq![x] + rest.skip(p - 1)));
    }
}

fn sorts_before(x: &TagEntry, y: &TagEntry) -> (r: bool)
    ensures
        r == entry_less(entry_of(*x), entry_of(*y)),
{
    if text_less(x.rust_type.as_str(), y.rust_type.as_str()) {
        return true;
    }
    x.rust_type == y.rust_type && (x.version < y.version || (x.version == y.version && x.tag < y.tag))
}

/// The census entries sorted by owning type, version and tag.
pub fn sort_census(entries: Vec<TagEntry>) -> (r: Vec<TagEntry>)
    ensures
        entry_views(r@) == sorted_census(entry_views(entries@), entries@.len() as int),
{
    let ghost all = entry_views(entries@);
    let count = entries.len();
    let ghost n = count as nat;
    let mut rest = entries;
    let mut taken: Vec<TagEntry> = Vec::new();
    // Pop from the back into `taken`, which then yields them front to back.
    while rest.len() > 0
        invariant
            entry_views(rest@) + entry_views(taken@).reverse() == all,
        decreases rest@.len(),
    {
        let ghost before_rest = entry_views(rest@);
        let ghost before_taken = entry_views(taken@);
        let last = rest.pop().unwrap();
        taken.push(last);
        proof {
            assert(entry_views(rest@) =~= before_rest.drop_last());
            assert(entry_views(taken@) =~= before_taken.push(entry_of(last)));
            assert(entry_views(taken@).reverse() =~= seq![entry_of(last)] + before_taken.reverse());
            assert(before_rest =~= before_rest.drop_last().push(entry_of(last)));
        }
    }
    assert(entry_views(taken@).reverse() =~= all);
    let mut sorted: Vec<TagEntry> = Vec::new();
    let mut k: usize = 0;
    while taken.len() > 0
        invariant
            k + taken@.len() == n,
            n <= usize::MAX,
            all.len() == n,
            entry_views(taken@).reverse() == all.skip(k as int),
            entry_views(sorted@) == sorted_census(all, k as int),
        decreases taken@.len(),
    {
        let ghost before_taken = entry_views(taken@);
        let next = taken.pop().unwrap();
        proof {
            assert(entry_views(taken@) =~= before_taken.drop_last());
            assert(before_taken.reverse()[0] == before_taken.last());
            assert(all.skip(k as int)[0] == all[k as int]);
            assert(before_taken.drop_last().reverse() =~= before_taken.reverse().drop_first());
            assert(all.skip(k as int).drop_first() =~= all.skip(k + 1));
            assert(entry_views(taken@).reverse() =~= all.skip(k + 1));
        }
        let mut p: usize = 0;
        while p < sorted.len() && !sorts_before(&next, &sorted[p])
            invariant
                p <= sorted@.len(),
                forall|j: int| 0 <= j < p ==> !entry_less(entry_of(next), #[trigger] entry_views(sorted@)[j]),
            decreases sorted@.len() - p,
        {
            p = p + 1;
        }
        let ghost before = entry_views(sorted@);
        let ghost x = entry_of(next);
        proof {
            lemma_insert_census_at(before, x, p as int);
        }
        sorted.insert(p, next);
        assert(entry_views(sorted@) =~= before.take(p as int) + seq![x] + before.skip(p as int));
        k = k + 1;
    }
    sorted
}

} // verus!
