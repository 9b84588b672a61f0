//! Facade rendering for every API-pair module, and the export list it shares
//! with the crate root.

use vstd::prelude::*;

use crate::api::file::comma_joined;
use crate::api::metadata::{api_descriptor_name, api_descriptor_text, descriptor_name, descriptor_text};
use crate::group::{module_name_text, ApiGroup, MessageSource};
use crate::naming::snake;
use crate::order::{insert_sorted, insert_text, lex_less, sort_texts, sorted_texts, text_less, texts};
use crate::provenance::{banner_text, generated_banner};
use crate::strings::owned;
use crate::text::{emit_blank, emit_line, trimmed, RustText};

verus! {

/// One module and the names the facade re-exports from it, as contracts see it.
pub open spec fn entry_view(e: (String, Vec<String>)) -> (Seq<char>, Seq<Seq<char>>) {
    (e.0@, texts(e.1@))
}

/// The views of an export list.
pub open spec fn entries(v: Seq<(String, Vec<String>)>) -> Seq<(Seq<char>, Seq<Seq<char>>)> {
    v.map_values(|e: (String, Vec<String>)| entry_view(e))
}

/// An entry placed after every entry whose module does not sort after its own.
pub open spec fn insert_entry(s: Seq<(Seq<char>, Seq<Seq<char>>)>, x: (Seq<char>, Seq<Seq<char>>)) -> Seq<(Seq<char>, Seq<Seq<char>>)>
    decreases s.len(),
{
    if s.len() == 0 {
        seq![x]
    } else if lex_less(x.0, s[0].0) {
        seq![x] + s
    } else {
        seq![s[0]] + insert_entry(s.drop_first(), x)
    }
}

/// The first `n` entries of `s`, sorted stably by module.
pub open spec fn sorted_entries(s: Seq<(Seq<char>, Seq<Seq<char>>)>, n: int) -> Seq<(Seq<char>, Seq<Seq<char>>)>
    decreases n,
{
    if n <= 0 {
        Seq::empty()
    } else {
        insert_entry(sorted_entries(s, n - 1), s[n - 1])
    }
}

/// The names one API group exports, before sorting: each direction's
/// descriptor, type and module, then the pair's descriptor.
pub open spec fn group_items(g: ApiGroup) -> Seq<Seq<char>> {
    let request = g.request.message;
    let response = g.response.message;
    seq![
        descriptor_text(&request),
        request.name.text@,
        snake(request.name.text@),
        descriptor_text(&response),
        response.name.text@,
        snake(response.name.text@),
        api_descriptor_text(&g),
    ]
}

/// The names the framing module exports, before sorting: each schema's type
/// and module.
pub open spec fn framing_items(unkeyed: Seq<MessageSource>, n: int) -> Seq<Seq<char>>
    decreases n,
{
    if n <= 0 {
        Seq::empty()
    } else {
        let m = unkeyed[n - 1].message;
        framing_items(unkeyed, n - 1).push(m.name.text@).push(snake(m.name.text@))
    }
}

/// The group entries of the first `n` groups, each with its names sorted.
pub open spec fn group_entries(groups: Seq<ApiGroup>, n: int) -> Seq<(Seq<char>, Seq<Seq<char>>)>
    decreases n,
{
    if n <= 0 {
        Seq::empty()
    } else {
        group_entries(groups, n - 1).push((module_name_text(&groups[n - 1]), sorted_texts(group_items(groups[n - 1]), 7)))
    }
}

/// Every export entry, before sorting by module.
pub open spec fn unsorted_exports(groups: Seq<ApiGroup>, unkeyed: Seq<MessageSource>) -> Seq<(Seq<char>, Seq<Seq<char>>)> {
    let keyed = group_entries(groups, groups.len() as int).push(
        ("registry"@, seq!["API_DESCRIPTORS"@, "MESSAGE_DESCRIPTORS"@]),
    ).push(("header_version"@, seq!["request_header_version"@, "response_header_version"@]));
    if unkeyed.len() == 0 {
        keyed
    } else {
        let items = framing_items(unkeyed, unkeyed.len() as int);
        keyed.push(("framing"@, sorted_texts(items, items.len() as int)))
    }
}

/// Every name the facade re-exports, grouped by declaring module, sorted.
pub open spec fn exports_of(groups: Seq<ApiGroup>, unkeyed: Seq<MessageSource>) -> Seq<(Seq<char>, Seq<Seq<char>>)> {
    let all = unsorted_exports(groups, unkeyed);
    sorted_entries(all, all.len() as int)
}

proof fn lemma_insert_entry_at(s: Seq<(Seq<char>, Seq<Seq<char>>)>, x: (Seq<char>, Seq<Seq<char>>), p: int)
    requires
        0 <= p <= s.len(),
        forall|j: int| 0 <= j < p ==> !lex_less(x.0, (#[trigger] s[j]).0),
        p < s.len() ==> lex_less(x.0, s[p].0),
    ensures
        insert_entry(s, x) == s.take(p) + seq![x] + s.skip(p),
    decreases s.len(),
{
    if s.len() == 0 {
        assert(s.take(p) + seq![x] + s.skip(p) =~= seq![x]);
    } else if lex_less(x.0, s[0].0) {
        assert(p == 0);
        assert(s.take(p) + seq![x] + s.skip(p) =~= seq![x] + s);
    } else {
        let rest = s.drop_first();
        assert forall|j: int| 0 <= j < p - 1 implies !lex_less(x.0, (#[trigger] rest[j]).0) by {
            assert(rest[j] == s[j + 1]);
        }
        lemma_insert_entry_at(rest, x, p - 1);
        assert(s.take(p) + seq![x] + s.skip(p) =~= seq![s[0]] + (rest.take(p - 1) + seq![x] + rest.skip(p - 1)));
    }
}

fn insert_export(list: &mut Vec<(String, Vec<String>)>, x: (String, Vec<String>))
    ensures
        entries(final(list)@) == insert_entry(entries(old(list)@), entry_view(x)),
{
    let mut p: usize = 0;
    while p < list.len() && !text_less(x.0.as_str(), list[p].0.as_str())
        invariant
            p <= list@.len(),
            forall|j: int| 0 <= j < p ==> !lex_less(x.0@, (#[trigger] entries(list@)[j]).0),
        decreases list@.len() - p,
    {
        p = p + 1;
    }
    let ghost before = entries(list@);
    let ghost xv = entry_view(x);
    proof {
        lemma_insert_entry_at(before, xv, p as int);
    }
    list.insert(p, x);
    assert(entries(list@) =~= before.take(p as int) + seq![xv] + before.skip(p as int));
}

fn owned_list(items: &[&str]) -> (r: Vec<String>)
    ensures
        texts(r@) == items@.map_values(|s: &str| s@),
{
    let mut r: Vec<String> = Vec::new();
    let mut i: usize = 0;
    while i < items.len()
        invariant
            i <= items@.len(),
            texts(r@) == items@.take(i as int).map_values(|s: &str| s@),
        decreases items@.len() - i,
    {
        let ghost before = texts(r@);
        r.push(owned(items[i]));
        assert(texts(r@) =~= before.push(items@[i as int]@));
        assert(items@.take(i + 1).map_values(|s: &str| s@) =~= items@.take(i as int).map_values(|s: &str| s@).push(
            items@[i as int]@,
        ));
        i = i + 1;
    }
    assert(items@.take(i as int) =~= items@);
    r
}

fn group_entry(group: &ApiGroup) -> (r: (String, Vec<String>))
    ensures
        entry_view(r) == (module_name_text(group), sorted_texts(group_items(*group), 7)),
{
    let request = &group.request.message;
    let response = &group.response.message;
    let items = vec![
        descriptor_name(request),
        owned(request.name.rust_type()),
        request.name.rust_module(),
        descriptor_name(response),
        owned(response.name.rust_type()),
        response.name.rust_module(),
        api_descriptor_name(group),
    ];
    assert(texts(items@) =~= group_items(*group));
    let sorted = sort_texts(&items);
    (group.module_name(), sorted)
}

/// Every name the facade re-exports, grouped by the module that declares it.
///
/// Shared with the crate-root export list rather than recomputed there: the
/// two files must name exactly the same set, and a second traversal is a
/// second chance to disagree. Each message contributes its descriptor, its
/// type, and the module its nested structs are scoped to; each group adds its
/// pair descriptor.
pub fn module_exports(groups: &Vec<ApiGroup>, unkeyed: &Vec<MessageSource>) -> (r: Vec<(String, Vec<String>)>)
    ensures
        entries(r@) == exports_of(groups@, unkeyed@),
{
    let ghost all = unsorted_exports(groups@, unkeyed@);
    proof {
        lemma_group_entries(groups@, groups@.len() as int);
    }
    let mut exports: Vec<(String, Vec<String>)> = Vec::new();
    let mut i: usize = 0;
    while i < groups.len()
        invariant
            i <= groups@.len(),
            all == unsorted_exports(groups@, unkeyed@),
            forall|k: int|
                0 <= k < groups@.len() ==> all[k] == (module_name_text(&#[trigger] groups@[k]), sorted_texts(
                    group_items(groups@[k]),
                    7,
                )),
            all.len() >= groups@.len() + 2,
            entries(exports@) == sorted_entries(all, i as int),
        decreases groups@.len() - i,
    {
        let entry = group_entry(&groups[i]);
        insert_export(&mut exports, entry);
        i = i + 1;
    }
    let base = groups.len();
    proof {
        let keyed = group_entries(groups@, groups@.len() as int);
        assert(all[base as int] == ("registry"@, seq!["API_DESCRIPTORS"@, "MESSAGE_DESCRIPTORS"@]));
        assert(all[base + 1] == ("header_version"@, seq!["request_header_version"@, "response_header_version"@]));
        if unkeyed@.len() == 0 {
            assert(all.len() == base + 2);
        } else {
            assert(all.len() == base + 3);
        }
    }
    let registry: [&str; 2] = ["API_DESCRIPTORS", "MESSAGE_DESCRIPTORS"];
    let registry_items = owned_list(&registry);
    assert(texts(registry_items@) =~= seq!["API_DESCRIPTORS"@, "MESSAGE_DESCRIPTORS"@]);
    let registry_entry = (owned("registry"), registry_items);
    assert(entry_view(registry_entry) == all[base as int]);
    insert_export(&mut exports, registry_entry);
    assert(entries(exports@) == sorted_entries(all, base + 1));
    let header: [&str; 2] = ["request_header_version", "response_header_version"];
    let header_items = owned_list(&header);
    assert(texts(header_items@) =~= seq!["request_header_version"@, "response_header_version"@]);
    let header_entry = (owned("header_version"), header_items);
    assert(entry_view(header_entry) == all[base + 1]);
    insert_export(&mut exports, header_entry);
    assert(entries(exports@) == sorted_entries(all, base + 2));
    if unkeyed.len() > 0 {
        let mut items: Vec<String> = Vec::new();
        let mut j: usize = 0;
        while j < unkeyed.len()
            invariant
                j <= unkeyed@.len(),
                texts(items@) == framing_items(unkeyed@, j as int),
            decreases unkeyed@.len() - j,
        {
            let message = &unkeyed[j].message;
            let ghost before = texts(items@);
            items.push(owned(message.name.rust_type()));
            items.push(message.name.rust_module());
            assert(texts(items@) =~= before.push(message.name.text@).push(snake(message.name.text@)));
            j = j + 1;
        }
        proof {
            lemma_framing_items_len(unkeyed@, unkeyed@.len() as int);
        }
        let sorted = sort_texts(&items);
        proof {
            let framing = framing_items(unkeyed@, unkeyed@.len() as int);
            assert(all[base + 2] == ("framing"@, sorted_texts(framing, framing.len() as int)));
        }
        let framing_entry = (owned("framing"), sorted);
        assert(entry_view(framing_entry) == all[base + 2]);
        insert_export(&mut exports, framing_entry);
    }
    exports
}

/// Group `k`'s entry sits at position `k` of the group entries.
proof fn lemma_group_entries(groups: Seq<ApiGroup>, n: int)
    requires
        0 <= n <= groups.len(),
    ensures
        group_entries(groups, n).len() == n,
        forall|k: int|
            0 <= k < n ==> #[trigger] group_entries(groups, n)[k] == (module_name_text(&groups[k]), sorted_texts(
                group_items(groups[k]),
                7,
            )),
    decreases n,
{
    if n > 0 {
        lemma_group_entries(groups, n - 1);
        let before = group_entries(groups, n - 1);
        assert forall|k: int| 0 <= k < n - 1 implies #[trigger] group_entries(groups, n)[k] == before[k] by {}
    }
}

/// Two names per framing schema.
proof fn lemma_framing_items_len(unkeyed: Seq<MessageSource>, n: int)
    requires
        0 <= n,
    ensures
        framing_items(unkeyed, n).len() == 2 * n,
    decreases n,
{
    if n > 0 {
        lemma_framing_items_len(unkeyed, n - 1);
    }
}

/// The modules of the first `n` groups, in group order.
pub open spec fn group_modules(groups: Seq<ApiGroup>, n: int) -> Seq<Seq<char>>
    decreases n,
{
    if n <= 0 {
        Seq::empty()
    } else {
        group_modules(groups, n - 1).push(module_name_text(&groups[n - 1]))
    }
}

/// Every module the facade declares, before sorting.
pub open spec fn facade_modules(groups: Seq<ApiGroup>, unkeyed: Seq<MessageSource>) -> Seq<Seq<char>> {
    let keyed = group_modules(groups, groups.len() as int).push("registry"@).push("header_version"@);
    if unkeyed.len() == 0 {
        keyed
    } else {
        keyed.push("framing"@)
    }
}

/// One `mod` line per module.
pub open spec fn mod_lines_text(t: Seq<char>, modules: Seq<Seq<char>>, n: int) -> Seq<char>
    decreases n,
{
    if n <= 0 {
        t
    } else {
        emit_line(mod_lines_text(t, modules, n - 1), 0, "mod "@ + modules[n - 1] + ";"@)
    }
}

/// One `pub use` line per export entry.
pub open spec fn use_lines_text(t: Seq<char>, exports: Seq<(Seq<char>, Seq<Seq<char>>)>, n: int) -> Seq<char>
    decreases n,
{
    if n <= 0 {
        t
    } else {
        emit_line(
            use_lines_text(t, exports, n - 1),
            0,
            "pub use "@ + exports[n - 1].0 + "::{"@ + comma_joined(exports[n - 1].1) + "};"@,
        )
    }
}

/// The facade file, before trailing blank lines are folded.
pub open spec fn module_file_text(groups: Seq<ApiGroup>, unkeyed: Seq<MessageSource>, commit: Seq<char>) -> Seq<char> {
    let modules = facade_modules(groups, unkeyed);
    let sorted = sorted_texts(modules, modules.len() as int);
    let exports = exports_of(groups, unkeyed);
    let t = emit_line(Seq::empty(), 0, banner_text());
    let t = emit_line(t, 0, "//!"@);
    let t = emit_line(t, 0, "//! Generated module facade for Apache Kafka commit"@);
    let t = emit_line(t, 0, "//! `"@ + commit + "`."@);
    let t = emit_blank(t);
    let t = emit_line(t, 0, "#![allow(clippy::too_many_lines)]"@);
    let t = emit_blank(t);
    let t = mod_lines_text(t, sorted, sorted.len() as int);
    let t = emit_blank(t);
    use_lines_text(t, exports, exports.len() as int)
}

fn joined(items: &Vec<String>) -> (r: String)
    ensures
        r@ == comma_joined(texts(items@)),
{
    let ghost views = texts(items@);
    let mut out = String::new();
    let mut i: usize = 0;
    while i < items.len()
        invariant
            views == texts(items@),
            i <= items@.len(),
            out@ == comma_joined(views.take(i as int)),
        decreases items@.len() - i,
    {
        proof {
            assert(views.take(i + 1).drop_last() =~= views.take(i as int));
            assert(views.take(i + 1).last() == items@[i as int]@);
            if i == 0 {
                assert(views.take(1) =~= seq![items@[0]@]);
            }
        }
        if i > 0 {
            out.append(", ");
        }
        out.append(items[i].as_str());
        i = i + 1;
    }
    assert(views.take(i as int) =~= views);
    out
}

/// Renders the facade: one `mod` per module in name order, then every
/// re-export grouped by module.
///
/// A decode body is one `let` per declared field, so its length is the
/// message's field count; the facade scopes `too_many_lines` to the rendered
/// modules so the lint keeps its force everywhere a person writes code.
pub fn render_module_file(groups: &Vec<ApiGroup>, unkeyed: &Vec<MessageSource>, commit: &str) -> (r: String)
    ensures
        r@ == trimmed(module_file_text(groups@, unkeyed@, commit@)),
{
    let mut rust = RustText::default();
    let banner = generated_banner();
    rust.line(banner.as_str());
    rust.line("//!");
    rust.line("//! Generated module facade for Apache Kafka commit");
    let l = crate::strings::cat3("//! `", commit, "`.");
    rust.line(l.as_str());
    rust.blank();
    rust.line("#![allow(clippy::too_many_lines)]");
    rust.blank();
    let mut modules: Vec<String> = Vec::new();
    let mut i: usize = 0;
    while i < groups.len()
        invariant
            i <= groups@.len(),
            texts(modules@) == group_modules(groups@, i as int),
        decreases groups@.len() - i,
    {
        let ghost before = texts(modules@);
        modules.push(groups[i].module_name());
        assert(texts(modules@) =~= before.push(module_name_text(&groups@[i as int])));
        i = i + 1;
    }
    let ghost before = texts(modules@);
    modules.push(owned("registry"));
    modules.push(owned("header_version"));
    assert(texts(modules@) =~= before.push("registry"@).push("header_version"@));
    if unkeyed.len() > 0 {
        let ghost before = texts(modules@);
        modules.push(owned("framing"));
        assert(texts(modules@) =~= before.push("framing"@));
    }
    let sorted = sort_texts(&modules);
    let ghost start = rust.text();
    let mut j: usize = 0;
    while j < sorted.len()
        invariant
            j <= sorted@.len(),
            rust.depth() == 0,
            rust.text() == mod_lines_text(start, texts(sorted@), j as int),
        decreases sorted@.len() - j,
    {
        let l = crate::strings::cat3("mod ", sorted[j].as_str(), ";");
        rust.line(l.as_str());
        j = j + 1;
    }
    rust.blank();
    let exports = module_exports(groups, unkeyed);
    let ghost middle = rust.text();
    let mut k: usize = 0;
    while k < exports.len()
        invariant
            k <= exports@.len(),
            rust.depth() == 0,
            rust.text() == use_lines_text(middle, entries(exports@), k as int),
        decreases exports@.len() - k,
    {
        let items = joined(&exports[k].1);
        let mut l = owned("pub use ");
        l.append(exports[k].0.as_str());
        l.append("::{");
        l.append(items.as_str());
        l.append("};");
        rust.line(l.as_str());
        k = k + 1;
    }
    rust.finish()
}

} // verus!
