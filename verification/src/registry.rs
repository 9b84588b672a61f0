//! Static protocol registry rendering: every message descriptor and every API
//! descriptor, in API-key order.

use vstd::prelude::*;

use crate::api::metadata::{api_descriptor_name, api_descriptor_text, descriptor_name, descriptor_text};
use crate::group::ApiGroup;
use crate::provenance::{banner_text, generated_banner};
use crate::text::{emit_blank, emit_line, trimmed, RustText};

verus! {

/// The descriptor entries of the first `n` groups: request, then response.
pub open spec fn message_entries_text(t: Seq<char>, groups: Seq<ApiGroup>, n: int) -> Seq<char>
    decreases n,
{
    if n <= 0 {
        t
    } else {
        let g = groups[n - 1];
        let t = message_entries_text(t, groups, n - 1);
        let t = emit_line(t, 0, "    super::"@ + descriptor_text(&g.request.message) + ","@);
        emit_line(t, 0, "    super::"@ + descriptor_text(&g.response.message) + ","@)
    }
}

/// The API descriptor entries of the first `n` groups.
pub open spec fn api_entries_text(t: Seq<char>, groups: Seq<ApiGroup>, n: int) -> Seq<char>
    decreases n,
{
    if n <= 0 {
        t
    } else {
        emit_line(api_entries_text(t, groups, n - 1), 0, "    super::"@ + api_descriptor_text(&groups[n - 1]) + ","@)
    }
}

/// The registry file, before trailing blank lines are folded.
pub open spec fn registry_text(groups: Seq<ApiGroup>, commit: Seq<char>) -> Seq<char> {
    let t = emit_line(Seq::empty(), 0, banner_text());
    let t = emit_line(t, 0, "//!"@);
    let t = emit_line(t, 0, "//! Static message registry for Apache Kafka commit"@);
    let t = emit_line(t, 0, "//! `"@ + commit + "`."@);
    let t = emit_blank(t);
    let t = emit_line(t, 0, "use crate::{ApiDescriptor, MessageDescriptor};"@);
    let t = emit_blank(t);
    let t = emit_line(
        t,
        0,
        "/// All messages emitted by this pinned protocol slice, sorted by API key and direction."@,
    );
    let t = emit_line(t, 0, "pub const MESSAGE_DESCRIPTORS: &[MessageDescriptor] = &["@);
    let t = message_entries_text(t, groups, groups.len() as int);
    let t = emit_line(t, 0, "];"@);
    let t = emit_blank(t);
    let t = emit_line(t, 0, "/// All validated API pairs, sorted by API key."@);
    let t = emit_line(t, 0, "pub const API_DESCRIPTORS: &[ApiDescriptor] = &["@);
    let t = api_entries_text(t, groups, groups.len() as int);
    emit_line(t, 0, "];"@)
}

fn render_entry(rust: &mut RustText, name: &str)
    ensures
        final(rust).text() == emit_line(old(rust).text(), old(rust).depth(), "    super::"@ + name@ + ","@),
        final(rust).depth() == old(rust).depth(),
{
    let l = crate::strings::cat3("    super::", name, ",");
    rust.line(l.as_str());
}

/// Renders the registry: each descriptor named where it is used, so the
/// table says where a descriptor comes from at the point a reader asks.
pub fn render_registry(groups: &Vec<ApiGroup>, commit: &str) -> (r: String)
    ensures
        r@ == trimmed(registry_text(groups@, commit@)),
{
    let mut rust = RustText::default();
    let banner = generated_banner();
    rust.line(banner.as_str());
    rust.line("//!");
    rust.line("//! Static message registry for Apache Kafka commit");
    let l = crate::strings::cat3("//! `", commit, "`.");
    rust.line(l.as_str());
    rust.blank();
    rust.line("use crate::{ApiDescriptor, MessageDescriptor};");
    rust.blank();
    rust.line("/// All messages emitted by this pinned protocol slice, sorted by API key and direction.");
    rust.line("pub const MESSAGE_DESCRIPTORS: &[MessageDescriptor] = &[");
    let ghost start = rust.text();
    let mut i: usize = 0;
    while i < groups.len()
        invariant
            i <= groups@.len(),
            rust.depth() == 0,
            rust.text() == message_entries_text(start, groups@, i as int),
        decreases groups@.len() - i,
    {
        let request = descriptor_name(&groups[i].request.message);
        render_entry(&mut rust, request.as_str());
        let response = descriptor_name(&groups[i].response.message);
        render_entry(&mut rust, response.as_str());
        i = i + 1;
    }
    rust.line("];");
    rust.blank();
    rust.line("/// All validated API pairs, sorted by API key.");
    rust.line("pub const API_DESCRIPTORS: &[ApiDescriptor] = &[");
    let ghost middle = rust.text();
    let mut j: usize = 0;
    while j < groups.len()
        invariant
            j <= groups@.len(),
            rust.depth() == 0,
            rust.text() == api_entries_text(middle, groups@, j as int),
        decreases groups@.len() - j,
    {
        let name = api_descriptor_name(&groups[j]);
        render_entry(&mut rust, name.as_str());
        j = j + 1;
    }
    rust.line("];");
    rust.finish()
}

} // verus!
