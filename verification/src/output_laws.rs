//! What the generated files must say, stated as literal text over every
//! input: the request-header rule, the direction each descriptor carries,
//! the API table of the registry, the version selector of the fuzz harness,
//! and the version each known-tag census entry is taken at.

use vstd::prelude::*;

use crate::field::version::contains_text;
use crate::header_version::{exception_text, exceptions_text, header_version_text, render_header_version, HeaderOverrides};
use crate::api::metadata::{api_descriptor_text, descriptor_decl_text, descriptor_text, flexible_range_text, range_text};
use crate::fuzz_dispatch::{arms_text, dispatch_text, fuzz_targets};
use crate::api::tag_plan::{active_in, known_order};
use crate::group::{ApiGroup, MessageSource};
use crate::schema::{Field, ScopeView};
use crate::tag_census::{owner_entries, plan_entries, Census};
use crate::versions::{canonical, contents, lemma_canon_of, range_has, VersionRange};
use crate::provenance::banner_text;
use crate::registry::{api_entries_text, message_entries_text, registry_text};
use crate::schema::{Message, MessageKind};
use crate::strings::{debug_string, decimal};
use crate::versions::single_bounded_of;
use crate::text::{emit_blank, emit_close, emit_line, emit_open, line_text, pad, trimmed};

verus! {

/// Appending keeps what was there.
pub proof fn lemma_prefix_append(t: Seq<char>, x: Seq<char>)
    ensures
        t.is_prefix_of(t + x),
{
    assert(t =~= (t + x).subrange(0, t.len() as int));
}

/// A prefix of a prefix is a prefix.
pub proof fn lemma_prefix_trans(a: Seq<char>, b: Seq<char>, c: Seq<char>)
    requires
        a.is_prefix_of(b),
        b.is_prefix_of(c),
    ensures
        a.is_prefix_of(c),
{
    assert(a =~= c.subrange(0, a.len() as int)) by {
        assert forall|i: int| 0 <= i < a.len() implies a[i] == c.subrange(0, a.len() as int)[i] by {
            assert(a[i] == b.subrange(0, a.len() as int)[i]);
            assert(b[i] == c.subrange(0, b.len() as int)[i]);
        }
    }
}

/// Folding trailing blank lines keeps a needle that ends before some
/// character other than a newline.
pub proof fn lemma_trimmed_keeps(s: Seq<char>, needle: Seq<char>, i: int, k: int)
    requires
        0 <= i,
        i + needle.len() <= k < s.len(),
        s.subrange(i, i + needle.len()) == needle,
        s[k] != '\n',
    ensures
        contains_text(trimmed(s), needle),
    decreases s.len(),
{
    if s.len() >= 2 && s[s.len() - 1] == '\n' && s[s.len() - 2] == '\n' {
        let d = s.drop_last();
        assert(d.subrange(i, i + needle.len()) =~= s.subrange(i, i + needle.len()));
        assert(d[k] == s[k]);
        lemma_trimmed_keeps(d, needle, i, k);
    } else {
        assert(trimmed(s) == s);
        assert(s.subrange(i, i + needle.len()) == needle);
    }
}

/// A needle found in a prefix is found in the whole.
pub proof fn lemma_prefix_contains(p: Seq<char>, s: Seq<char>, needle: Seq<char>, i: int)
    requires
        p.is_prefix_of(s),
        0 <= i,
        i + needle.len() <= p.len(),
        p.subrange(i, i + needle.len()) == needle,
    ensures
        s.subrange(i, i + needle.len()) == needle,
{
    let a = s.subrange(i, i + needle.len());
    let b = p.subrange(i, i + needle.len());
    assert(a =~= b) by {
        assert forall|j: int| 0 <= j < needle.len() implies #[trigger] a[j] == b[j] by {
            assert(p[i + j] == s.subrange(0, p.len() as int)[i + j]);
        }
    }
}

proof fn lemma_exceptions_extend(t: Seq<char>, exceptions: Seq<crate::header_version::ResponseHeaderException>, n: int)
    ensures
        t.is_prefix_of(exceptions_text(t, exceptions, n)),
    decreases n,
{
    if n > 0 {
        let before = exceptions_text(t, exceptions, n - 1);
        lemma_exceptions_extend(t, exceptions, n - 1);
        let e = exceptions[n - 1];
        let t1 = emit_line(before, 1, "// "@ + e.reason@);
        let t2 = emit_open(
            t1,
            1,
            "if api_key.value() == "@ + crate::strings::decimal(e.api_key as int) + " && version.value() >= "@
                + crate::strings::decimal(e.since as int),
        );
        let t3 = emit_line(t2, 2, "return "@ + crate::strings::decimal(e.header_version as int) + ";"@);
        lemma_prefix_append(before, line_text(1, "// "@ + e.reason@));
        lemma_prefix_append(t1, t2.subrange(t1.len() as int, t2.len() as int));
        assert(t2 =~= t1 + t2.subrange(t1.len() as int, t2.len() as int));
        lemma_prefix_append(t2, t3.subrange(t2.len() as int, t3.len() as int));
        assert(t3 =~= t2 + t3.subrange(t2.len() as int, t3.len() as int));
        let t4 = exception_text(before, e);
        assert(t4 =~= t3 + t4.subrange(t3.len() as int, t4.len() as int));
        lemma_prefix_append(t3, t4.subrange(t3.len() as int, t4.len() as int));
        lemma_prefix_trans(before, t1, t2);
        lemma_prefix_trans(before, t2, t3);
        lemma_prefix_trans(before, t3, t4);
        lemma_prefix_trans(t, before, t4);
    }
}

/// The request-header function of the policy file, exactly.
pub open spec fn request_header_rule() -> Seq<char> {
    "pub const fn request_header_version(flexible: bool) -> i16 {\n    if flexible { 2 } else { 1 }\n}\n"@
}

/// Whatever the reviewed exceptions, the rendered policy frames a flexible
/// request with request header v2 and every other request with v1: the file
/// holds the function `request_header_version` whose whole body is
/// `if flexible { 2 } else { 1 }`.
pub proof fn lemma_request_header_rule(overrides: &HeaderOverrides, commit: Seq<char>)
    ensures
        contains_text(trimmed(header_version_text(overrides, commit)), request_header_rule()),
{
    let exceptions = overrides.response_header_exceptions@;
    let t = emit_line(Seq::empty(), 0, banner_text());
    let t = emit_line(t, 0, "//!"@);
    let t = emit_line(t, 0, "//! Header-version policy for Apache Kafka commit"@);
    let t = emit_line(t, 0, "//! `"@ + commit + "`."@);
    let t = emit_blank(t);
    let t = emit_line(t, 0, "use kafka_wire_core::{ApiKey, ApiVersion};"@);
    let t = emit_blank(t);
    let t = emit_line(t, 0, "/// The request header version that frames a request."@);
    let t = emit_line(t, 0, "///"@);
    let t = emit_line(t, 0, "/// Flexible requests take v2, which carries a tagged-field section; every"@);
    let t = emit_line(t, 0, "/// other request takes v1. There is no v0 here: v0 omits the client id, and"@);
    let before = emit_line(t, 0, "/// no supported request predates it."@);
    let t = emit_open(before, 0, "pub const fn request_header_version(flexible: bool) -> i16"@);
    let t = emit_line(t, 1, "if flexible { 2 } else { 1 }"@);
    let rule_end = emit_close(t, 0, ""@);
    reveal_strlit("pub const fn request_header_version(flexible: bool) -> i16");
    reveal_strlit(" {");
    reveal_strlit("if flexible { 2 } else { 1 }");
    reveal_strlit("}");
    reveal_strlit("");
    reveal_strlit("pub const fn request_header_version(flexible: bool) -> i16 {\n    if flexible { 2 } else { 1 }\n}\n");
    assert(pad(0) =~= Seq::<char>::empty());
    assert(pad(1) =~= seq![' ', ' ', ' ', ' ']);
    assert(rule_end =~= before + request_header_rule());
    let t = emit_blank(rule_end);
    let doc = emit_line(t, 0, "/// The response header version that frames a response."@);
    reveal_strlit("/// The response header version that frames a response.");
    let k: int = rule_end.len() as int + 1;
    assert(doc[k] == '/');
    let t = emit_line(doc, 0, "///"@);
    let t = emit_line(t, 0, "/// The rule is that a flexible response takes v1 and every other response"@);
    let t = emit_line(t, 0, "/// takes v0. The exceptions below are reviewed protocol quirks carried as"@);
    let t = emit_line(t, 0, "/// data rather than decided by name."@);
    let opened = emit_open(
        t,
        0,
        "pub fn response_header_version(api_key: ApiKey, version: ApiVersion, flexible: bool) -> i16"@,
    );
    let listed = exceptions_text(opened, exceptions, exceptions.len() as int);
    let t = emit_line(listed, 1, "i16::from(flexible)"@);
    let whole = emit_close(t, 0, ""@);
    assert(whole == header_version_text(overrides, commit));
    // Everything after the rule only appends.
    lemma_prefix_append(doc, opened.subrange(doc.len() as int, opened.len() as int));
    assert(opened =~= doc + opened.subrange(doc.len() as int, opened.len() as int));
    lemma_exceptions_extend(opened, exceptions, exceptions.len() as int);
    lemma_prefix_trans(doc, opened, listed);
    lemma_prefix_append(listed, whole.subrange(listed.len() as int, whole.len() as int));
    assert(whole =~= listed + whole.subrange(listed.len() as int, whole.len() as int));
    lemma_prefix_trans(doc, listed, whole);
    let i = before.len() as int;
    assert(doc.subrange(i, i + request_header_rule().len()) =~= request_header_rule());
    lemma_prefix_contains(doc, whole, request_header_rule(), i);
    assert(whole[k] == doc.subrange(0, doc.len() as int)[k]);
    lemma_trimmed_keeps(whole, request_header_rule(), i, k);
}


/// The direction line a descriptor of a message of kind `kind` carries.
pub open spec fn direction_line(kind: MessageKind) -> Seq<char> {
    if kind == MessageKind::Request {
        "    MessageDirection::Request,"@
    } else {
        "    MessageDirection::Response,"@
    }
}

/// A request's descriptor says `MessageDirection::Request` and a response's
/// says `MessageDirection::Response`, on the line after the message's name.
pub proof fn lemma_descriptor_direction(t: Seq<char>, d: nat, message: &Message, api_key: i16)
    requires
        message.kind == MessageKind::Request || message.kind == MessageKind::Response,
    ensures
        contains_text(
            descriptor_decl_text(t, d, message, api_key),
            line_text(d, "    "@ + debug_string(message.name.text@) + ","@) + line_text(d, direction_line(message.kind)),
        ),
        message.kind == MessageKind::Request ==> contains_text(
            descriptor_decl_text(t, d, message, api_key),
            line_text(d, "    MessageDirection::Request,"@),
        ),
        message.kind == MessageKind::Response ==> contains_text(
            descriptor_decl_text(t, d, message, api_key),
            line_text(d, "    MessageDirection::Response,"@),
        ),
{
    reveal_strlit("MessageDirection::");
    reveal_strlit("    MessageDirection::");
    reveal_strlit("Request");
    reveal_strlit("Response");
    reveal_strlit(",");
    reveal_strlit("    MessageDirection::Request,");
    reveal_strlit("    MessageDirection::Response,");
    let direction = if message.kind == MessageKind::Request { "Request"@ } else { "Response"@ };
    assert("    MessageDirection::"@ + direction + ","@ =~= direction_line(message.kind));
    let t1 = emit_line(t, d, "/// Static metadata for [`"@ + message.name.text@ + "`]."@);
    let t2 = emit_line(t1, d, "pub const "@ + descriptor_text(message) + ": MessageDescriptor = MessageDescriptor::new("@);
    let t3 = emit_line(t2, d, "    "@ + decimal(api_key as int) + ","@);
    let named = line_text(d, "    "@ + debug_string(message.name.text@) + ","@);
    let t4 = t3 + named;
    let t5 = t4 + line_text(d, direction_line(message.kind));
    let needle = named + line_text(d, direction_line(message.kind));
    assert(t5.subrange(t3.len() as int, t3.len() as int + needle.len() as int) =~= needle);
    let whole = descriptor_decl_text(t, d, message, api_key);
    assert(t5.is_prefix_of(whole));
    lemma_prefix_contains(t5, whole, needle, t3.len() as int);
    let line = line_text(d, direction_line(message.kind));
    assert(t5.subrange(t4.len() as int, t4.len() as int + line.len() as int) =~= line);
    lemma_prefix_contains(t5, whole, line, t4.len() as int);
}

/// The API descriptor table for `groups`: one `super::` line per group, in order.
pub open spec fn api_table(groups: Seq<ApiGroup>) -> Seq<char>
    decreases groups.len(),
{
    if groups.len() == 0 {
        Seq::empty()
    } else {
        api_table(groups.drop_last()) + "    super::"@ + api_descriptor_text(&groups.last()) + ",\n"@
    }
}

proof fn lemma_api_entries(t: Seq<char>, groups: Seq<ApiGroup>, n: int)
    requires
        0 <= n <= groups.len(),
    ensures
        api_entries_text(t, groups, n) == t + api_table(groups.take(n)),
    decreases n,
{
    reveal_strlit(",\n");
    reveal_strlit(",");
    if n == 0 {
        assert(groups.take(0) =~= Seq::<ApiGroup>::empty());
        assert(t + api_table(groups.take(0)) =~= t);
    } else {
        lemma_api_entries(t, groups, n - 1);
        assert(groups.take(n).drop_last() =~= groups.take(n - 1));
        assert(groups.take(n).last() == groups[n - 1]);
        assert(pad(0) =~= Seq::<char>::empty());
        assert(api_entries_text(t, groups, n) =~= t + api_table(groups.take(n)));
    }
}

/// The registry's API table registers every group, and nothing else, in the
/// groups' order: it opens, lists `super::<descriptor>,` once per group,
/// and closes.
pub proof fn lemma_registry_lists_every_pair(groups: Seq<ApiGroup>, commit: Seq<char>)
    ensures
        contains_text(
            trimmed(registry_text(groups, commit)),
            "pub const API_DESCRIPTORS: &[ApiDescriptor] = &[\n"@ + api_table(groups) + "];\n"@,
        ),
{
    let t = emit_line(Seq::empty(), 0, banner_text());
    let t = emit_line(t, 0, "//!"@);
    let t = emit_line(t, 0, "//! Static message registry for Apache Kafka commit"@);
    let t = emit_line(t, 0, "//! `"@ + commit + "`."@);
    let t = emit_blank(t);
    let t = emit_line(t, 0, "use crate::{ApiDescriptor, MessageDescriptor};"@);
    let t = emit_blank(t);
    let t = emit_line(
        t,
        0,
        "/// All messages emitted by this pinned protocol slice, sorted by API key and direction."@,
    );
    let t = emit_line(t, 0, "pub const MESSAGE_DESCRIPTORS: &[MessageDescriptor] = &["@);
    let t = message_entries_text(t, groups, groups.len() as int);
    let t = emit_line(t, 0, "];"@);
    let t = emit_blank(t);
    let before = emit_line(t, 0, "/// All validated API pairs, sorted by API key."@);
    let opened = emit_line(before, 0, "pub const API_DESCRIPTORS: &[ApiDescriptor] = &["@);
    lemma_api_entries(opened, groups, groups.len() as int);
    assert(groups.take(groups.len() as int) =~= groups);
    let whole = emit_line(api_entries_text(opened, groups, groups.len() as int), 0, "];"@);
    assert(whole == registry_text(groups, commit));
    reveal_strlit("pub const API_DESCRIPTORS: &[ApiDescriptor] = &[");
    reveal_strlit("pub const API_DESCRIPTORS: &[ApiDescriptor] = &[\n");
    reveal_strlit("];");
    reveal_strlit("];\n");
    assert(pad(0) =~= Seq::<char>::empty());
    let needle = "pub const API_DESCRIPTORS: &[ApiDescriptor] = &[\n"@ + api_table(groups) + "];\n"@;
    assert(whole =~= before + needle);
    assert(whole[whole.len() - 2] == ';');
    assert(trimmed(whole) == whole);
    assert(whole.subrange(before.len() as int, before.len() as int + needle.len() as int) =~= needle);
}


/// The version selector the fuzz harness is rendered with, exactly.
pub open spec fn select_version_text() -> Seq<char> {
    "fn select_version(selector: u16, first: i16, last: i16) -> Option<ApiVersion> {\n    let width = i32::from(last).checked_sub(i32::from(first))?.checked_add(1)?;\n    let offset = i32::from(selector).checked_rem(width)?;\n    let selected = i32::from(first).checked_add(offset)?;\n    Some(ApiVersion::new(i16::try_from(selected).ok()?))\n}\n"@
}

/// Every rendered dispatch file closes with exactly that selector.
pub proof fn lemma_dispatch_selects_with_the_full_width(groups: Seq<ApiGroup>, unkeyed: Seq<MessageSource>, commit: Seq<char>)
    ensures
        contains_text(trimmed(dispatch_text(groups, unkeyed, commit)), select_version_text()),
{
    let ms = fuzz_targets(groups, unkeyed);
    let t = emit_line(Seq::empty(), 0, banner_text());
    let t = emit_line(t, 0, "//!"@);
    let t = emit_line(t, 0, "//! Fuzz-only message dispatch for Apache Kafka commit"@);
    let t = emit_line(t, 0, "//! `"@ + commit + "`."@);
    let t = emit_blank(t);
    let t = emit_line(t, 0, "use kafka_wire_core::ApiVersion;"@);
    let t = emit_blank(t);
    let t = emit_line(t, 0, "use super::round_trip;"@);
    let t = emit_blank(t);
    let t = emit_open(t, 0, "pub(super) fn dispatch(message_selector: u16, version_selector: u16, body: &[u8])"@);
    let t = emit_open(t, 1, "match usize::from(message_selector) % "@ + decimal(ms.len() as int));
    let t = arms_text(t, ms, ms.len() as int);
    let t = emit_line(t, 2, "_ => unreachable!(\"modulo result exceeded the generated dispatch table\"),"@);
    let t = emit_close(t, 1, ""@);
    let t = emit_close(t, 0, ""@);
    let before = emit_blank(t);
    let t = emit_open(before, 0, "fn select_version(selector: u16, first: i16, last: i16) -> Option<ApiVersion>"@);
    let t = emit_line(t, 1, "let width = i32::from(last).checked_sub(i32::from(first))?.checked_add(1)?;"@);
    let t = emit_line(t, 1, "let offset = i32::from(selector).checked_rem(width)?;"@);
    let t = emit_line(t, 1, "let selected = i32::from(first).checked_add(offset)?;"@);
    let t = emit_line(t, 1, "Some(ApiVersion::new(i16::try_from(selected).ok()?))"@);
    let whole = emit_close(t, 0, ""@);
    assert(whole == dispatch_text(groups, unkeyed, commit));
    reveal_strlit("fn select_version(selector: u16, first: i16, last: i16) -> Option<ApiVersion>");
    reveal_strlit(" {");
    reveal_strlit("let width = i32::from(last).checked_sub(i32::from(first))?.checked_add(1)?;");
    reveal_strlit("let offset = i32::from(selector).checked_rem(width)?;");
    reveal_strlit("let selected = i32::from(first).checked_add(offset)?;");
    reveal_strlit("Some(ApiVersion::new(i16::try_from(selected).ok()?))");
    reveal_strlit("}");
    reveal_strlit("");
    reveal_strlit("fn select_version(selector: u16, first: i16, last: i16) -> Option<ApiVersion> {\n    let width = i32::from(last).checked_sub(i32::from(first))?.checked_add(1)?;\n    let offset = i32::from(selector).checked_rem(width)?;\n    let selected = i32::from(first).checked_add(offset)?;\n    Some(ApiVersion::new(i16::try_from(selected).ok()?))\n}\n");
    assert(pad(0) =~= Seq::<char>::empty());
    assert(pad(1) =~= seq![' ', ' ', ' ', ' ']);
    let needle = select_version_text();
    assert(whole =~= before + needle);
    assert(whole[whole.len() - 2] == '}');
    assert(trimmed(whole) == whole);
    assert(whole.subrange(before.len() as int, before.len() as int + needle.len() as int) =~= needle);
}

/// What the rendered selector computes, line by line, for a selector and a
/// version interval: `None` wherever one of its checked steps gives `None`.
pub open spec fn selected_version(selector: u16, first: i16, last: i16) -> Option<int> {
    let width = (last as int - first as int) + 1;
    if width == 0 {
        None
    } else {
        let offset = if width > 0 { selector as int % width } else { selector as int % (-width) };
        let selected = first as int + offset;
        if i16::MIN <= selected <= i16::MAX {
            Some(selected)
        } else {
            None
        }
    }
}

/// Whether some `u16` selector makes the rendered selector choose version `v`.
pub open spec fn reached(first: i16, last: i16, v: int) -> bool {
    exists|selector: u16| #[trigger] selected_version(selector, first, last) == Some(v)
}

/// Over every `u16` selector, the rendered selector reaches exactly the
/// versions `first..=last`: nothing outside the interval, and every version
/// inside it, the last one included.
pub proof fn lemma_selector_covers_exactly_the_interval(first: i16, last: i16)
    requires
        first <= last,
    ensures
        forall|selector: u16| #[trigger] selected_version(selector, first, last) is Some ==> first <= selected_version(
            selector,
            first,
            last,
        )->0 <= last,
        forall|v: int| first <= v <= last ==> #[trigger] reached(first, last, v),
{
    assert forall|selector: u16| #[trigger] selected_version(selector, first, last) is Some implies first <= selected_version(
        selector,
        first,
        last,
    )->0 <= last by {
        let width = (last as int - first as int) + 1;
        assert(0 <= selector as int % width < width) by (nonlinear_arith)
            requires width > 0;
    }
    assert forall|v: int| first <= v <= last implies #[trigger] reached(first, last, v) by {
        let width = (last as int - first as int) + 1;
        let selector = (v - first) as u16;
        assert(selector as int == v - first);
        assert((v - first) % width == v - first) by (nonlinear_arith)
            requires 0 <= v - first < width;
        assert(selected_version(selector, first, last) == Some(v));
    }
}


/// Whether a set of versions has a spelling as maximal intervals, as every
/// version set the library builds does.
pub open spec fn spelled(s: Set<int>) -> bool {
    exists|rs: Seq<VersionRange>| canonical(rs) && contents(rs) == s
}

/// Whether `v` is the least version of `s`.
pub open spec fn least_of(v: int, s: Set<int>) -> bool {
    s.contains(v) && forall|w: int| s.contains(w) ==> v <= w
}

/// The one bounded interval a spelled set is starts at its least version.
pub proof fn lemma_interval_starts_at_least(s: Set<int>)
    requires
        spelled(s),
        single_bounded_of(s) is Some,
    ensures
        least_of((single_bounded_of(s)->0).0 as int, s),
{
    let rs = choose|rs: Seq<VersionRange>| canonical(rs) && contents(rs) == s;
    lemma_canon_of(rs);
    let r = rs[0];
    assert(range_has(r, r.start as int));
    assert(s.contains(r.start as int));
    assert forall|w: int| s.contains(w) implies r.start <= w by {
        let i = choose|i: int| 0 <= i < rs.len() && range_has(#[trigger] rs[i], w);
        assert(i == 0);
    }
}

/// Tag `k` of `fields` (in known order) first becomes active at version `v`.
pub open spec fn tag_starts_at(fields: Seq<Field>, scope: ScopeView, k: int, v: int) -> bool {
    least_of(v, active_in(fields[known_order(fields)[k].1], scope))
}

/// Whether entry `e` is owned by `rust_type`/`owner` and names one of the
/// first `n` known tags of `fields` at the first version it is active in.
pub open spec fn entry_at_activation(
    e: (Seq<char>, Seq<char>, i16, u32),
    fields: Seq<Field>,
    scope: ScopeView,
    n: int,
    rust_type: Seq<char>,
    owner: Seq<char>,
) -> bool {
    exists|k: int|
        0 <= k < n && e.3 == known_order(fields)[k].0 && e.0 == rust_type && e.1 == owner && #[trigger] tag_starts_at(
            fields,
            scope,
            k,
            e.2 as int,
        )
}

/// Whether `found` holds an entry for `tag` at version `v`.
pub open spec fn listed(found: Seq<(Seq<char>, Seq<char>, i16, u32)>, v: int, tag: u32) -> bool {
    exists|j: int| 0 <= j < found.len() && #[trigger] found[j].2 == v && found[j].3 == tag
}

/// Whether `v` comes after the first flexible version of the scope.
pub open spec fn after_flexible_start(scope: ScopeView, v: int) -> bool {
    exists|f: int| least_of(f, scope.flexible) && v > f
}

proof fn lemma_plan_entries_start_at_activation(
    rust_type: Seq<char>,
    owner: Seq<char>,
    fields: Seq<Field>,
    scope: ScopeView,
    census: Census,
    flexible_start: int,
    n: int,
)
    requires
        0 <= n <= known_order(fields).len(),
        forall|k: int| 0 <= k < known_order(fields).len() ==> spelled(#[trigger] active_in(fields[known_order(fields)[k].1], scope)),
        plan_entries(rust_type, owner, fields, scope, census, flexible_start, n) is Ok,
    ensures
        ({
            let found = plan_entries(rust_type, owner, fields, scope, census, flexible_start, n)->Ok_0;
            &&& forall|j: int|
                0 <= j < found.len() ==> entry_at_activation(#[trigger] found[j], fields, scope, n, rust_type, owner) && (
                census == Census::Claims || found[j].2 > flexible_start)
            &&& forall|k: int, v: int|
                0 <= k < n && #[trigger] tag_starts_at(fields, scope, k, v) && (census == Census::Claims || v > flexible_start)
                    ==> listed(found, v, known_order(fields)[k].0)
        }),
    decreases n,
{
    if n > 0 {
        lemma_plan_entries_start_at_activation(rust_type, owner, fields, scope, census, flexible_start, n - 1);
        let before = plan_entries(rust_type, owner, fields, scope, census, flexible_start, n - 1)->Ok_0;
        let found = plan_entries(rust_type, owner, fields, scope, census, flexible_start, n)->Ok_0;
        let key = known_order(fields)[n - 1];
        let active = active_in(fields[key.1], scope);
        assert(spelled(active));
        lemma_interval_starts_at_least(active);
        let start = (single_bounded_of(active)->0).0 as int;
        assert(tag_starts_at(fields, scope, n - 1, start));
        assert forall|j: int| 0 <= j < found.len() implies entry_at_activation(#[trigger] found[j], fields, scope, n, rust_type, owner) && (
            census == Census::Claims || found[j].2 > flexible_start) by {
            if j < before.len() {
                assert(found[j] == before[j]);
                assert(entry_at_activation(before[j], fields, scope, n - 1, rust_type, owner));
                let k = choose|k: int|
                    0 <= k < n - 1 && before[j].3 == known_order(fields)[k].0 && before[j].0 == rust_type
                        && before[j].1 == owner && #[trigger] tag_starts_at(fields, scope, k, before[j].2 as int);
                assert(tag_starts_at(fields, scope, k, found[j].2 as int));
            } else {
                assert(found[j].2 == start && found[j].3 == key.0);
                assert(tag_starts_at(fields, scope, n - 1, found[j].2 as int));
            }
        }
        assert forall|k: int, v: int|
            0 <= k < n && #[trigger] tag_starts_at(fields, scope, k, v) && (census == Census::Claims || v > flexible_start)
                implies listed(found, v, known_order(fields)[k].0) by {
            if k < n - 1 {
                let j = choose|j: int| 0 <= j < before.len() && #[trigger] before[j].2 == v && before[j].3 == known_order(fields)[k].0;
                assert(found[j] == before[j]);
            } else {
                assert(v == start);
                let j = found.len() - 1;
                assert(found[j].2 == v && found[j].3 == key.0);
            }
        }
    }
}

/// Every census entry an owner contributes is taken at the first version its
/// tag is active in; the claims census lists every known tag there, and the
/// boundaries census lists exactly the tags whose first active version comes
/// after the owner's first flexible version.
pub proof fn lemma_census_entries_start_at_activation(
    rust_type: Seq<char>,
    owner: Seq<char>,
    fields: Seq<Field>,
    scope: ScopeView,
    census: Census,
)
    requires
        forall|k: int| 0 <= k < known_order(fields).len() ==> spelled(#[trigger] active_in(fields[known_order(fields)[k].1], scope)),
        spelled(scope.flexible),
        owner_entries(rust_type, owner, fields, scope, census) is Ok,
    ensures
        ({
            let found = owner_entries(rust_type, owner, fields, scope, census)->Ok_0;
            let keys = known_order(fields);
            &&& forall|j: int|
                0 <= j < found.len() ==> entry_at_activation(#[trigger] found[j], fields, scope, keys.len() as int, rust_type, owner)
                    && (census == Census::Claims || after_flexible_start(scope, found[j].2 as int))
            &&& forall|k: int, v: int|
                0 <= k < keys.len() && #[trigger] tag_starts_at(fields, scope, k, v) && (census == Census::Claims
                    || after_flexible_start(scope, v)) ==> listed(found, v, keys[k].0)
        }),
{
    let n = known_order(fields).len() as int;
    let found = owner_entries(rust_type, owner, fields, scope, census)->Ok_0;
    if census == Census::Claims {
        lemma_plan_entries_start_at_activation(rust_type, owner, fields, scope, census, 0, n);
    } else if scope.flexible == Set::<int>::empty() {
        assert forall|k: int, v: int| #[trigger] tag_starts_at(fields, scope, k, v) && after_flexible_start(scope, v) implies false by {
            let f = choose|f: int| least_of(f, scope.flexible) && v > f;
        }
    } else {
        lemma_interval_starts_at_least(scope.flexible);
        let fs = (single_bounded_of(scope.flexible)->0).0 as int;
        lemma_plan_entries_start_at_activation(rust_type, owner, fields, scope, census, fs, n);
        assert forall|v: int| after_flexible_start(scope, v) <==> v > fs by {
            if after_flexible_start(scope, v) {
                let f = choose|f: int| least_of(f, scope.flexible) && v > f;
                assert(f <= fs && fs <= f);
            }
        }
    }
}

} // verus!

