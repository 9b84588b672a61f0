//! Static fuzz-dispatch rendering across every rendered protocol message.
//!
//! This output belongs only to the fuzz harness: it adds no erased decoder and
//! no fuzz-specific entry point to the public runtime crate.

use vstd::prelude::*;

use crate::established::{bounded, unbounded_fault};
use crate::group::{ApiGroup, MessageSource};
use crate::provenance::{banner_text, generated_banner};
use crate::schema::{Fault, GenerationError, Message};
use crate::strings::{decimal, decimal_i64, decimal_u64, owned};
use crate::text::{emit_blank, emit_close, emit_line, emit_open, trimmed, RustText};
use crate::versions::single_bounded_of;

verus! {

/// Every message of the first `n` groups, request before response.
pub open spec fn group_messages(groups: Seq<ApiGroup>, n: int) -> Seq<Message>
    decreases n,
{
    if n <= 0 {
        Seq::empty()
    } else {
        group_messages(groups, n - 1).push(groups[n - 1].request.message).push(groups[n - 1].response.message)
    }
}

/// Every message the corpus renders: the keyed pairs, then the unkeyed schemas.
pub open spec fn corpus_messages(groups: Seq<ApiGroup>, unkeyed: Seq<MessageSource>) -> Seq<Message> {
    group_messages(groups, groups.len() as int) + unkeyed.map_values(|s: MessageSource| s.message)
}

/// Whether the fuzz harness dispatches to a schema: every one with a version,
/// keyed or not.
pub open spec fn dispatched(m: Message) -> bool {
    m.valid_versions@ != Set::<int>::empty()
}

/// The dispatched messages among the first `n` of `ms`, in order.
pub open spec fn targets(ms: Seq<Message>, n: int) -> Seq<Message>
    decreases n,
{
    if n <= 0 {
        Seq::empty()
    } else if dispatched(ms[n - 1]) {
        targets(ms, n - 1).push(ms[n - 1])
    } else {
        targets(ms, n - 1)
    }
}

/// The dispatch targets of a corpus.
pub open spec fn fuzz_targets(groups: Seq<ApiGroup>, unkeyed: Seq<MessageSource>) -> Seq<Message> {
    let ms = corpus_messages(groups, unkeyed);
    targets(ms, ms.len() as int)
}

/// One dispatch arm.
pub open spec fn arm_text(t: Seq<char>, selector: int, message: Message) -> Seq<char> {
    let bounds = single_bounded_of(message.valid_versions@)->0;
    let t = emit_open(t, 2, decimal(selector) + " =>"@);
    let t = emit_open(
        t,
        3,
        "if let Some(version) = select_version(version_selector, "@ + decimal(bounds.0 as int) + ", "@ + decimal(
            bounds.1 as int,
        ) + ")"@,
    );
    let t = emit_line(t, 4, "round_trip::<kafka_wire::"@ + message.name.text@ + ">(body, version);"@);
    let t = emit_close(t, 3, ""@);
    emit_close(t, 2, ""@)
}

/// The arms of the first `n` targets.
pub open spec fn arms_text(t: Seq<char>, ms: Seq<Message>, n: int) -> Seq<char>
    decreases n,
{
    if n <= 0 {
        t
    } else {
        arm_text(arms_text(t, ms, n - 1), n - 1, ms[n - 1])
    }
}

/// The first target among the first `n` whose valid versions are not one interval.
pub open spec fn arms_fault(ms: Seq<Message>, n: int) -> Option<Fault>
    decreases n,
{
    if n <= 0 {
        None
    } else {
        match arms_fault(ms, n - 1) {
            Some(f) => Some(f),
            None => if single_bounded_of(ms[n - 1].valid_versions@) is None {
                Some(unbounded_fault(&ms[n - 1], "valid versions"@))
            } else {
                None
            },
        }
    }
}

/// The refusal for a corpus with nothing to dispatch to.
pub open spec fn empty_corpus_fault() -> Fault {
    Fault::InternalInvariant {
        message: "<fuzz dispatch>"@,
        detail: "enabled corpus contains no versioned request or response"@,
    }
}

/// The refusal rendering the dispatch raises, if any.
pub open spec fn dispatch_fault(groups: Seq<ApiGroup>, unkeyed: Seq<MessageSource>) -> Option<Fault> {
    let ms = fuzz_targets(groups, unkeyed);
    if ms.len() == 0 {
        Some(empty_corpus_fault())
    } else {
        arms_fault(ms, ms.len() as int)
    }
}

/// The dispatch file, before trailing blank lines are folded.
pub open spec fn dispatch_text(groups: Seq<ApiGroup>, unkeyed: Seq<MessageSource>, commit: Seq<char>) -> Seq<char> {
    let ms = fuzz_targets(groups, unkeyed);
    let t = emit_line(Seq::empty(), 0, banner_text());
    let t = emit_line(t, 0, "//!"@);
    let t = emit_line(t, 0, "//! Fuzz-only message dispatch for Apache Kafka commit"@);
    let t = emit_line(t, 0, "//! `"@ + commit + "`."@);
    let t = emit_blank(t);
    let t = emit_line(t, 0, "use kafka_wire_core::ApiVersion;"@);
    let t = emit_blank(t);
    let t = emit_line(t, 0, "use super::round_trip;"@);
    let t = emit_blank(t);
    let t = emit_open(t, 0, "pub(super) fn dispatch(message_selector: u16, version_selector: u16, body: &[u8])"@);
    let t = emit_open(t, 1, "match usize::from(message_selector) % "@ + decimal(ms.len() as int));
    let t = arms_text(t, ms, ms.len() as int);
    let t = emit_line(t, 2, "_ => unreachable!(\"modulo result exceeded the generated dispatch table\"),"@);
    let t = emit_close(t, 1, ""@);
    let t = emit_close(t, 0, ""@);
    let t = emit_blank(t);
    let t = emit_open(t, 0, "fn select_version(selector: u16, first: i16, last: i16) -> Option<ApiVersion>"@);
    let t = emit_line(t, 1, "let width = i32::from(last).checked_sub(i32::from(first))?.checked_add(1)?;"@);
    let t = emit_line(t, 1, "let offset = i32::from(selector).checked_rem(width)?;"@);
    let t = emit_line(t, 1, "let selected = i32::from(first).checked_add(offset)?;"@);
    let t = emit_line(t, 1, "Some(ApiVersion::new(i16::try_from(selected).ok()?))"@);
    emit_close(t, 0, ""@)
}

/// The messages of a list of references.
pub open spec fn derefs(ms: Seq<&Message>) -> Seq<Message> {
    ms.map_values(|m: &Message| *m)
}

fn keep<'a>(list: &mut Vec<&'a Message>, message: &'a Message, ghost_all: Ghost<Seq<Message>>, ghost_n: Ghost<int>)
    requires
        0 < ghost_n@ <= ghost_all@.len(),
        ghost_all@[ghost_n@ - 1] == *message,
        derefs(old(list)@) == targets(ghost_all@, ghost_n@ - 1),
    ensures
        derefs(final(list)@) == targets(ghost_all@, ghost_n@),
{
    if !message.valid_versions.is_empty() {
        let ghost before = list@;
        list.push(message);
        assert(derefs(list@) =~= derefs(before).push(*message));
    }
}

/// The dispatch targets of a corpus, as references into it.
fn collect_targets<'a>(groups: &'a Vec<ApiGroup>, unkeyed: &'a Vec<MessageSource>) -> (r: Vec<&'a Message>)
    ensures
        derefs(r@) == fuzz_targets(groups@, unkeyed@),
{
    let ghost all = corpus_messages(groups@, unkeyed@);
    proof {
        lemma_group_messages_shape(groups@, groups@.len() as int);
    }
    let mut list: Vec<&Message> = Vec::new();
    let mut i: usize = 0;
    while i < groups.len()
        invariant
            i <= groups@.len(),
            all == corpus_messages(groups@, unkeyed@),
            all.len() == 2 * groups@.len() + unkeyed@.len(),
            forall|k: int|
                0 <= k < groups@.len() ==> all[2 * k] == (#[trigger] groups@[k]).request.message && all[2 * k + 1]
                    == groups@[k].response.message,
            derefs(list@) == targets(all, 2 * i),
        decreases groups@.len() - i,
    {
        assert(all[2 * i] == groups@[i as int].request.message);
        keep(&mut list, &groups[i].request.message, Ghost(all), Ghost(2 * i + 1));
        keep(&mut list, &groups[i].response.message, Ghost(all), Ghost(2 * i + 2));
        i = i + 1;
    }
    let ghost base: int = (2 * groups@.len()) as int;
    let mut j: usize = 0;
    while j < unkeyed.len()
        invariant
            j <= unkeyed@.len(),
            all == corpus_messages(groups@, unkeyed@),
            all.len() == base + unkeyed@.len(),
            base == 2 * groups@.len(),
            forall|k: int| 0 <= k < unkeyed@.len() ==> all[base + k] == #[trigger] unkeyed@[k].message,
            derefs(list@) == targets(all, base + j),
        decreases unkeyed@.len() - j,
    {
        keep(&mut list, &unkeyed[j].message, Ghost(all), Ghost(base + j + 1));
        j = j + 1;
    }
    assert(all.len() == base + j);
    list
}

/// Group `i`'s request and response sit at `2i` and `2i + 1`.
pub proof fn lemma_group_messages_shape(groups: Seq<ApiGroup>, n: int)
    requires
        0 <= n <= groups.len(),
    ensures
        group_messages(groups, n).len() == 2 * n,
        forall|k: int|
            0 <= k < n ==> #[trigger] group_messages(groups, n)[2 * k] == groups[k].request.message
                && group_messages(groups, n)[2 * k + 1] == groups[k].response.message,
    decreases n,
{
    if n > 0 {
        lemma_group_messages_shape(groups, n - 1);
        let before = group_messages(groups, n - 1);
        let after = group_messages(groups, n);
        assert forall|k: int| 0 <= k < n implies #[trigger] after[2 * k] == groups[k].request.message && after[2 * k
            + 1] == groups[k].response.message by {
            if k < n - 1 {
                assert(after[2 * k] == before[2 * k]);
                assert(after[2 * k + 1] == before[2 * k + 1]);
            }
        }
    }
}

fn render_arm(rust: &mut RustText, selector: usize, message: &Message) -> (r: Result<(), GenerationError>)
    requires
        old(rust).depth() == 2,
    ensures
        match single_bounded_of(message.valid_versions@) {
            Some(_) => r is Ok && final(rust).text() == arm_text(old(rust).text(), selector as int, *message)
                && final(rust).depth() == 2,
            None => r matches Err(e) && e@ == unbounded_fault(message, "valid versions"@),
        },
{
    let (first, last) = bounded(message, &message.valid_versions, "valid versions")?;
    let number = decimal_u64(selector as u64);
    let l = crate::strings::cat2(number.as_str(), " =>");
    rust.open(l.as_str());
    let low = decimal_i64(first as i64);
    let high = decimal_i64(last as i64);
    let l = crate::strings::cat5("if let Some(version) = select_version(version_selector, ", low.as_str(), ", ", high.as_str(), ")");
    rust.open(l.as_str());
    let l = crate::strings::cat3("round_trip::<kafka_wire::", message.name.rust_type(), ">(body, version);");
    rust.line(l.as_str());
    rust.close("");
    rust.close("");
    Ok(())
}

proof fn lemma_arms_fault_persists(ms: Seq<Message>, k: int, n: int)
    requires
        0 <= k <= n,
        arms_fault(ms, k) is Some,
    ensures
        arms_fault(ms, n) == arms_fault(ms, k),
    decreases n - k,
{
    if n > k {
        lemma_arms_fault_persists(ms, k, n - 1);
    }
}

/// Renders the fuzz harness's dispatch: one arm per versioned schema, the
/// keyed pairs first and then the unkeyed schemas, each arm selecting a
/// version inside the schema's supported range. A schema with no version is
/// skipped; one whose versions are not one bounded interval is refused.
pub fn render_fuzz_dispatch(groups: &Vec<ApiGroup>, unkeyed: &Vec<MessageSource>, commit: &str) -> (r: Result<String, GenerationError>)
    ensures
        match dispatch_fault(groups@, unkeyed@) {
            None => r matches Ok(s) && s@ == trimmed(dispatch_text(groups@, unkeyed@, commit@)),
            Some(f) => r matches Err(e) && e@ == f,
        },
{
    let messages = collect_targets(groups, unkeyed);
    let ghost ms = fuzz_targets(groups@, unkeyed@);
    if messages.len() == 0 {
        return Err(GenerationError::InternalInvariant {
            message: owned("<fuzz dispatch>"),
            detail: owned("enabled corpus contains no versioned request or response"),
        });
    }
    let mut rust = RustText::default();
    let banner = generated_banner();
    rust.line(banner.as_str());
    rust.line("//!");
    rust.line("//! Fuzz-only message dispatch for Apache Kafka commit");
    let l = crate::strings::cat3("//! `", commit, "`.");
    rust.line(l.as_str());
    rust.blank();
    rust.line("use kafka_wire_core::ApiVersion;");
    rust.blank();
    rust.line("use super::round_trip;");
    rust.blank();
    rust.open("pub(super) fn dispatch(message_selector: u16, version_selector: u16, body: &[u8])");
    let count = decimal_u64(messages.len() as u64);
    let l = crate::strings::cat2("match usize::from(message_selector) % ", count.as_str());
    rust.open(l.as_str());
    let ghost start = rust.text();
    let mut k: usize = 0;
    while k < messages.len()
        invariant
            derefs(messages@) == ms,
            ms == fuzz_targets(groups@, unkeyed@),
            k <= messages@.len(),
            rust.depth() == 2,
            arms_fault(ms, k as int) is None,
            rust.text() == arms_text(start, ms, k as int),
        decreases messages@.len() - k,
    {
        assert(ms[k as int] == *messages@[k as int]);
        let step = render_arm(&mut rust, k, messages[k]);
        if let Err(e) = step {
            proof {
                assert(single_bounded_of(ms[k as int].valid_versions@) is None);
                assert(arms_fault(ms, k + 1) == Some(unbounded_fault(&ms[k as int], "valid versions"@)));
                lemma_arms_fault_persists(ms, k + 1, ms.len() as int);
                assert(ms.len() == messages@.len());
                assert(e@ == unbounded_fault(&ms[k as int], "valid versions"@));
                assert(dispatch_fault(groups@, unkeyed@) == arms_fault(ms, ms.len() as int));
            }
            return Err(e);
        }
        k = k + 1;
    }
    rust.line("_ => unreachable!(\"modulo result exceeded the generated dispatch table\"),");
    rust.close("");
    rust.close("");
    rust.blank();
    rust.open("fn select_version(selector: u16, first: i16, last: i16) -> Option<ApiVersion>");
    rust.line("let width = i32::from(last).checked_sub(i32::from(first))?.checked_add(1)?;");
    rust.line("let offset = i32::from(selector).checked_rem(width)?;");
    rust.line("let selected = i32::from(first).checked_add(offset)?;");
    rust.line("Some(ApiVersion::new(i16::try_from(selected).ok()?))");
    rust.close("");
    Ok(rust.finish())
}

} // verus!
