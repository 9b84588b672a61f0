//! Runtime assertions rendered from the known-tag census: one file asserting
//! that every active known tag is claimed, one asserting that a tag
//! introduced after flexible encoding is claimed exactly from its activation
//! version on.
//!
//! Assertions are grouped into one function per owning type, so a failure
//! names the owner and no function grows with the corpus.

use vstd::prelude::*;

use crate::group::{ApiGroup, MessageSource};
use crate::provenance::{banner_text, generated_banner};
use crate::schema::{Fault, GenerationError};
use crate::strings::{debug_quoted, debug_string, decimal, decimal_i64, decimal_u64, owned};
use crate::tag_census::{collect_corpus, corpus_entries, entry_of, entry_views, sort_census, sorted_census, Census, TagEntry};
use crate::text::{emit_blank, emit_close, emit_line, emit_open, trimmed, RustText};

verus! {

/// An entry as contracts see it.
pub type EntryView = (Seq<char>, Seq<char>, i16, u32);

/// Whether entry `i` opens a new owner group.
pub open spec fn starts_group(cs: Seq<EntryView>, i: int) -> bool {
    i == 0 || cs[i].0 != cs[i - 1].0
}

/// How many owner groups begin among the first `n` entries.
pub open spec fn groups_before(cs: Seq<EntryView>, n: int) -> int
    decreases n,
{
    if n <= 0 {
        0
    } else {
        groups_before(cs, n - 1) + if starts_group(cs, n - 1) { 1int } else { 0int }
    }
}

/// The entry point every rendered census file defines.
pub open spec fn entry_point(census: Census) -> Seq<char> {
    if census == Census::Claims {
        "pub(super) fn assert_all_active_tag_claims()"@
    } else {
        "pub(super) fn assert_all_tag_activation_boundaries()"@
    }
}

/// The name stem of one owner group's function.
pub open spec fn group_stem(census: Census) -> Seq<char> {
    if census == Census::Claims {
        "assert_claim_group_"@
    } else {
        "assert_boundary_group_"@
    }
}

/// The helpers every non-empty census file opens with.
pub open spec fn helpers_text(t: Seq<char>, census: Census) -> Seq<char> {
    let t = emit_open(t, 0, "fn retained_tag(tag: u32) -> TaggedFields"@);
    let t = emit_line(t, 1, "TaggedFields::from_sorted(vec![TaggedField::new(tag, Bytes::from_static(&[0xaa]))])"@);
    let t = emit_line(t, 1, "    .unwrap_or_else(|error| panic!(\"one retained tag must be valid: {error}\"))"@);
    let t = emit_close(t, 0, ""@);
    let t = emit_blank(t);
    let t = if census == Census::Claims {
        let t = emit_open(
            t,
            0,
            "fn assert_claim(outcome: &Result<(), EncodeError>, expected: (&'static str, ApiVersion, u32))"@,
        );
        let t = emit_line(t, 1, "let (owner, version, tag) = expected;"@);
        let t = emit_line(t, 1, "assert_eq!("@);
        let t = emit_line(t, 1, "    outcome,"@);
        let t = emit_line(t, 1, "    &Err(EncodeError::KnownTagConflict { message: owner, tag, version }),"@);
        let t = emit_line(t, 1, "    \"{owner} did not validate active tag {tag} in version {version}\","@);
        emit_line(t, 1, ");"@)
    } else {
        let t = emit_open(
            t,
            0,
            "fn assert_boundary(before_outcome: &Result<(), EncodeError>, active_outcome: &Result<(), EncodeError>, owner: &'static str, before: ApiVersion, active: ApiVersion, tag: u32)"@,
        );
        let t = emit_line(t, 1, "assert_eq!(before_outcome, &Ok(()), \"{owner} claimed tag {tag} in {before}\");"@);
        let t = emit_line(t, 1, "assert_eq!("@);
        let t = emit_line(t, 1, "    active_outcome,"@);
        let t = emit_line(t, 1, "    &Err(EncodeError::KnownTagConflict {"@);
        let t = emit_line(t, 1, "        message: owner,"@);
        let t = emit_line(t, 1, "        tag,"@);
        let t = emit_line(t, 1, "        version: active,"@);
        let t = emit_line(t, 1, "    }),"@);
        let t = emit_line(t, 1, "    \"{owner} did not claim tag {tag} at activation version {active}\","@);
        emit_line(t, 1, ");"@)
    };
    let t = emit_close(t, 0, ""@);
    emit_blank(t)
}

fn render_helpers(rust: &mut RustText, census: Census)
    requires
        old(rust).depth() == 0,
    ensures
        final(rust).text() == helpers_text(old(rust).text(), census),
        final(rust).depth() == 0,
{
    rust.open("fn retained_tag(tag: u32) -> TaggedFields");
    rust.line("TaggedFields::from_sorted(vec![TaggedField::new(tag, Bytes::from_static(&[0xaa]))])");
    rust.line("    .unwrap_or_else(|error| panic!(\"one retained tag must be valid: {error}\"))");
    rust.close("");
    rust.blank();
    match census {
        Census::Claims => {
            rust.open("fn assert_claim(outcome: &Result<(), EncodeError>, expected: (&'static str, ApiVersion, u32))");
            rust.line("let (owner, version, tag) = expected;");
            rust.line("assert_eq!(");
            rust.line("    outcome,");
            rust.line("    &Err(EncodeError::KnownTagConflict { message: owner, tag, version }),");
            rust.line("    \"{owner} did not validate active tag {tag} in version {version}\",");
            rust.line(");");
        },
        Census::Boundaries => {
            rust.open(
                "fn assert_boundary(before_outcome: &Result<(), EncodeError>, active_outcome: &Result<(), EncodeError>, owner: &'static str, before: ApiVersion, active: ApiVersion, tag: u32)",
            );
            rust.line("assert_eq!(before_outcome, &Ok(()), \"{owner} claimed tag {tag} in {before}\");");
            rust.line("assert_eq!(");
            rust.line("    active_outcome,");
            rust.line("    &Err(EncodeError::KnownTagConflict {");
            rust.line("        message: owner,");
            rust.line("        tag,");
            rust.line("        version: active,");
            rust.line("    }),");
            rust.line("    \"{owner} did not claim tag {tag} at activation version {active}\",");
            rust.line(");");
        },
    }
    rust.close("");
    rust.blank();
}

/// The assertion for one census entry.
pub open spec fn assertion_text(t: Seq<char>, census: Census, e: EntryView) -> Seq<char> {
    let tag = decimal(e.3 as int);
    let version = decimal(e.2 as int);
    let t = emit_open(t, 1, "let value = "@ + e.0);
    let t = emit_line(t, 2, "unknown_tagged_fields: retained_tag("@ + tag + "),"@);
    let t = emit_line(t, 2, "..Default::default()"@);
    let t = emit_close(t, 1, ";"@);
    if census == Census::Claims {
        let t = emit_line(t, 1, "assert_claim("@);
        let t = emit_line(t, 1, "    &value.validate_known_tag_ownership(ApiVersion::new("@ + version + ")),"@);
        let t = emit_line(
            t,
            1,
            "    ("@ + debug_string(e.1) + ", ApiVersion::new("@ + version + "), "@ + tag + "),"@,
        );
        emit_line(t, 1, ");"@)
    } else {
        let before = decimal(e.2 as int - 1);
        let t = emit_line(t, 1, "assert_boundary("@);
        let t = emit_line(t, 1, "    &value.validate_known_tag_ownership(ApiVersion::new("@ + before + ")),"@);
        let t = emit_line(t, 1, "    &value.validate_known_tag_ownership(ApiVersion::new("@ + version + ")),"@);
        let t = emit_line(t, 1, "    "@ + debug_string(e.1) + ","@);
        let t = emit_line(t, 1, "    ApiVersion::new("@ + before + "),"@);
        let t = emit_line(t, 1, "    ApiVersion::new("@ + version + "),"@);
        let t = emit_line(t, 1, "    "@ + tag + ","@);
        emit_line(t, 1, ");"@)
    }
}

fn render_assertion(rust: &mut RustText, census: Census, e: &TagEntry)
    requires
        old(rust).depth() == 1,
    ensures
        final(rust).text() == assertion_text(old(rust).text(), census, entry_of(*e)),
        final(rust).depth() == 1,
{
    let tag = decimal_u64(e.tag as u64);
    let version = decimal_i64(e.version as i64);
    let l = crate::strings::cat2("let value = ", e.rust_type.as_str());
    rust.open(l.as_str());
    let l = crate::strings::cat3("unknown_tagged_fields: retained_tag(", tag.as_str(), "),");
    rust.line(l.as_str());
    rust.line("..Default::default()");
    rust.close(";");
    let owner = debug_quoted(e.owner.as_str());
    match census {
        Census::Claims => {
            rust.line("assert_claim(");
            let l = crate::strings::cat3("    &value.validate_known_tag_ownership(ApiVersion::new(", version.as_str(), ")),");
            rust.line(l.as_str());
            let mut l = owned("    (");
            l.append(owner.as_str());
            l.append(", ApiVersion::new(");
            l.append(version.as_str());
            l.append("), ");
            l.append(tag.as_str());
            l.append("),");
            rust.line(l.as_str());
            rust.line(");");
        },
        Census::Boundaries => {
            let before = decimal_i64(e.version as i64 - 1);
            rust.line("assert_boundary(");
            let l = crate::strings::cat3("    &value.validate_known_tag_ownership(ApiVersion::new(", before.as_str(), ")),");
            rust.line(l.as_str());
            let l = crate::strings::cat3("    &value.validate_known_tag_ownership(ApiVersion::new(", version.as_str(), ")),");
            rust.line(l.as_str());
            let l = crate::strings::cat3("    ", owner.as_str(), ",");
            rust.line(l.as_str());
            let l = crate::strings::cat3("    ApiVersion::new(", before.as_str(), "),");
            rust.line(l.as_str());
            let l = crate::strings::cat3("    ApiVersion::new(", version.as_str(), "),");
            rust.line(l.as_str());
            let l = crate::strings::cat3("    ", tag.as_str(), ",");
            rust.line(l.as_str());
            rust.line(");");
        },
    }
}

/// The calls of the first `n` group functions from the entry point.
pub open spec fn group_calls_text(t: Seq<char>, census: Census, n: int) -> Seq<char>
    decreases n,
{
    if n <= 0 {
        t
    } else {
        emit_line(group_calls_text(t, census, n - 1), 1, group_stem(census) + decimal(n - 1) + "();"@)
    }
}

/// The group functions' text for the first `n` entries: a new function at
/// each owner change, closing the one before it.
pub open spec fn groups_text(t: Seq<char>, census: Census, cs: Seq<EntryView>, n: int) -> Seq<char>
    decreases n,
{
    if n <= 0 {
        t
    } else {
        let t = groups_text(t, census, cs, n - 1);
        let i = n - 1;
        let t = if starts_group(cs, i) {
            let t = if i > 0 { emit_close(t, 0, ""@) } else { t };
            let t = emit_blank(t);
            let t = emit_line(t, 0, "// "@ + cs[i].0);
            emit_open(t, 0, "fn "@ + group_stem(census) + decimal(groups_before(cs, i)) + "()"@)
        } else {
            t
        };
        assertion_text(t, census, cs[i])
    }
}

/// A census file, before trailing blank lines are folded.
pub open spec fn census_text(census: Census, cs: Seq<EntryView>, commit: Seq<char>) -> Seq<char> {
    let t = emit_line(Seq::empty(), 0, banner_text());
    let t = emit_line(t, 0, "//!"@);
    let t = if census == Census::Claims {
        emit_line(t, 0, "//! Runtime ownership assertions for every known tagged field at"@)
    } else {
        emit_line(t, 0, "//! Ownership boundaries for tags introduced after flexible encoding at"@)
    };
    let t = emit_line(t, 0, "//! Apache Kafka commit "@ + commit + "."@);
    let t = emit_blank(t);
    if cs.len() == 0 {
        let t = emit_open(t, 0, entry_point(census));
        emit_close(t, 0, ""@)
    } else {
        let t = emit_line(t, 0, "use kafka_wire_core::{ApiVersion, Bytes, EncodeError, TaggedField, TaggedFields};"@);
        let t = emit_blank(t);
        let t = helpers_text(t, census);
        let t = emit_open(t, 0, entry_point(census));
        let t = group_calls_text(t, census, groups_before(cs, cs.len() as int));
        let t = emit_close(t, 0, ""@);
        let t = groups_text(t, census, cs, cs.len() as int);
        emit_close(t, 0, ""@)
    }
}

proof fn lemma_groups_before_bounded(cs: Seq<EntryView>, n: int)
    requires
        0 <= n,
    ensures
        0 <= groups_before(cs, n) <= n,
    decreases n,
{
    if n > 0 {
        lemma_groups_before_bounded(cs, n - 1);
    }
}

/// Renders one census file from entries already sorted by owner.
fn render_census(census: Census, entries: &Vec<TagEntry>, commit: &str) -> (r: String)
    ensures
        r@ == trimmed(census_text(census, entry_views(entries@), commit@)),
{
    let ghost cs = entry_views(entries@);
    let mut rust = RustText::default();
    let banner = generated_banner();
    rust.line(banner.as_str());
    rust.line("//!");
    match census {
        Census::Claims => rust.line("//! Runtime ownership assertions for every known tagged field at"),
        Census::Boundaries => rust.line("//! Ownership boundaries for tags introduced after flexible encoding at"),
    }
    let l = crate::strings::cat3("//! Apache Kafka commit ", commit, ".");
    rust.line(l.as_str());
    rust.blank();
    let entry = match census {
        Census::Claims => "pub(super) fn assert_all_active_tag_claims()",
        Census::Boundaries => "pub(super) fn assert_all_tag_activation_boundaries()",
    };
    let stem = match census {
        Census::Claims => "assert_claim_group_",
        Census::Boundaries => "assert_boundary_group_",
    };
    if entries.len() == 0 {
        rust.open(entry);
        rust.close("");
        return rust.finish();
    }
    rust.line("use kafka_wire_core::{ApiVersion, Bytes, EncodeError, TaggedField, TaggedFields};");
    rust.blank();
    render_helpers(&mut rust, census);
    rust.open(entry);
    let mut count: usize = 0;
    let mut i: usize = 0;
    while i < entries.len()
        invariant
            cs == entry_views(entries@),
            i <= entries@.len(),
            count == groups_before(cs, i as int),
        decreases entries@.len() - i,
    {
        proof {
            lemma_groups_before_bounded(cs, i as int);
        }
        if i == 0 || entries[i].rust_type != entries[i - 1].rust_type {
            count = count + 1;
        }
        i = i + 1;
    }
    let ghost calls = rust.text();
    let mut g: usize = 0;
    while g < count
        invariant
            g <= count,
            rust.depth() == 1,
            stem@ == group_stem(census),
            rust.text() == group_calls_text(calls, census, g as int),
        decreases count - g,
    {
        let number = decimal_u64(g as u64);
        let l = crate::strings::cat3(stem, number.as_str(), "();");
        rust.line(l.as_str());
        g = g + 1;
    }
    rust.close("");
    let ghost start = rust.text();
    let mut index: usize = 0;
    let mut k: usize = 0;
    while k < entries.len()
        invariant
            cs == entry_views(entries@),
            k <= entries@.len(),
            stem@ == group_stem(census),
            index == groups_before(cs, k as int),
            k == 0 ==> rust.depth() == 0,
            k > 0 ==> rust.depth() == 1,
            rust.text() == groups_text(start, census, cs, k as int),
        decreases entries@.len() - k,
    {
        proof {
            lemma_groups_before_bounded(cs, k as int);
        }
        let opens = k == 0 || entries[k].rust_type != entries[k - 1].rust_type;
        if opens {
            if k > 0 {
                rust.close("");
            }
            rust.blank();
            let l = crate::strings::cat2("// ", entries[k].rust_type.as_str());
            rust.line(l.as_str());
            let number = decimal_u64(index as u64);
            let l = crate::strings::cat4("fn ", stem, number.as_str(), "()");
            rust.open(l.as_str());
            index = index + 1;
        }
        render_assertion(&mut rust, census, &entries[k]);
        k = k + 1;
    }
    rust.close("");
    rust.finish()
}

/// The refusal, or the sorted census, of a corpus.
pub open spec fn sorted_outcome(groups: Seq<ApiGroup>, unkeyed: Seq<MessageSource>, census: Census) -> Result<Seq<EntryView>, Fault> {
    match corpus_entries(groups, unkeyed, census) {
        Err(f) => Err(f),
        Ok(found) => Ok(sorted_census(found, found.len() as int)),
    }
}

fn render_corpus_census(groups: &Vec<ApiGroup>, unkeyed: &Vec<MessageSource>, commit: &str, census: Census) -> (r: Result<String, GenerationError>)
    ensures
        match sorted_outcome(groups@, unkeyed@, census) {
            Ok(cs) => r matches Ok(s) && s@ == trimmed(census_text(census, cs, commit@)),
            Err(f) => r matches Err(e) && e@ == f,
        },
{
    let entries = collect_corpus(groups, unkeyed, census)?;
    let sorted = sort_census(entries);
    Ok(render_census(census, &sorted, commit))
}

/// Renders the assertions that every active known tag is claimed by its
/// owner from the first version it is active in.
pub fn render_tag_claims(groups: &Vec<ApiGroup>, unkeyed: &Vec<MessageSource>, commit: &str) -> (r: Result<String, GenerationError>)
    ensures
        match sorted_outcome(groups@, unkeyed@, Census::Claims) {
            Ok(cs) => r matches Ok(s) && s@ == trimmed(census_text(Census::Claims, cs, commit@)),
            Err(f) => r matches Err(e) && e@ == f,
        },
{
    render_corpus_census(groups, unkeyed, commit, Census::Claims)
}

/// Renders the assertions that a tag introduced after its owner's flexible
/// encoding begins is free one version before activation and claimed at it.
pub fn render_tag_boundaries(groups: &Vec<ApiGroup>, unkeyed: &Vec<MessageSource>, commit: &str) -> (r: Result<String, GenerationError>)
    ensures
        match sorted_outcome(groups@, unkeyed@, Census::Boundaries) {
            Ok(cs) => r matches Ok(s) && s@ == trimmed(census_text(Census::Boundaries, cs, commit@)),
            Err(f) => r matches Err(e) && e@ == f,
        },
{
    render_corpus_census(groups, unkeyed, commit, Census::Boundaries)
}

} // verus!
