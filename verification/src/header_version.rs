//! Header-version policy rendering.
//!
//! Which header version frames a message follows one rule with reviewed
//! exceptions, and both are emitted as a function over the API key and
//! version. The exceptions arrive as data; nothing here names a message.

use vstd::prelude::*;

use crate::provenance::{banner_text, generated_banner};
use crate::strings::{decimal, decimal_i64};
use crate::text::{emit_blank, emit_close, emit_line, emit_open, trimmed, RustText};

verus! {

/// One reviewed protocol quirk: from `since` on, responses of `api_key` are
/// framed by `header_version` whatever their flexibility says.
pub struct ResponseHeaderException {
    pub api_key: i16,
    pub since: i16,
    pub header_version: i16,
    pub reason: String,
}

impl ResponseHeaderException {
    /// The first version the exception applies to.
    pub fn first_version(&self) -> (r: i16)
        ensures
            r == self.since,
    {
        self.since
    }
}

/// The reviewed exceptions to the header-version rule.
pub struct HeaderOverrides {
    pub response_header_exceptions: Vec<ResponseHeaderException>,
}

/// The early return for one exception.
pub open spec fn exception_text(t: Seq<char>, exception: ResponseHeaderException) -> Seq<char> {
    let t = emit_line(t, 1, "// "@ + exception.reason@);
    let t = emit_open(
        t,
        1,
        "if api_key.value() == "@ + decimal(exception.api_key as int) + " && version.value() >= "@ + decimal(
            exception.since as int,
        ),
    );
    let t = emit_line(t, 2, "return "@ + decimal(exception.header_version as int) + ";"@);
    emit_close(t, 1, ""@)
}

/// The early returns of the first `n` exceptions.
pub open spec fn exceptions_text(t: Seq<char>, exceptions: Seq<ResponseHeaderException>, n: int) -> Seq<char>
    decreases n,
{
    if n <= 0 {
        t
    } else {
        exception_text(exceptions_text(t, exceptions, n - 1), exceptions[n - 1])
    }
}

/// The policy file, before trailing blank lines are folded.
pub open spec fn header_version_text(overrides: &HeaderOverrides, commit: Seq<char>) -> Seq<char> {
    let exceptions = overrides.response_header_exceptions@;
    let t = emit_line(Seq::empty(), 0, banner_text());
    let t = emit_line(t, 0, "//!"@);
    let t = emit_line(t, 0, "//! Header-version policy for Apache Kafka commit"@);
    let t = emit_line(t, 0, "//! `"@ + commit + "`."@);
    let t = emit_blank(t);
    let t = emit_line(t, 0, "use kafka_wire_core::{ApiKey, ApiVersion};"@);
    let t = emit_blank(t);
    let t = emit_line(t, 0, "/// The request header version that frames a request."@);
    let t = emit_line(t, 0, "///"@);
    let t = emit_line(t, 0, "/// Flexible requests take v2, which carries a tagged-field section; every"@);
    let t = emit_line(t, 0, "/// other request takes v1. There is no v0 here: v0 omits the client id, and"@);
    let t = emit_line(t, 0, "/// no supported request predates it."@);
    let t = emit_open(t, 0, "pub const fn request_header_version(flexible: bool) -> i16"@);
    let t = emit_line(t, 1, "if flexible { 2 } else { 1 }"@);
    let t = emit_close(t, 0, ""@);
    let t = emit_blank(t);
    let t = emit_line(t, 0, "/// The response header version that frames a response."@);
    let t = emit_line(t, 0, "///"@);
    let t = emit_line(t, 0, "/// The rule is that a flexible response takes v1 and every other response"@);
    let t = emit_line(t, 0, "/// takes v0. The exceptions below are reviewed protocol quirks carried as"@);
    let t = emit_line(t, 0, "/// data rather than decided by name."@);
    let t = emit_open(
        t,
        0,
        "pub fn response_header_version(api_key: ApiKey, version: ApiVersion, flexible: bool) -> i16"@,
    );
    let t = exceptions_text(t, exceptions, exceptions.len() as int);
    let t = emit_line(t, 1, "i16::from(flexible)"@);
    emit_close(t, 0, ""@)
}

fn render_exception(rust: &mut RustText, exception: &ResponseHeaderException)
    requires
        old(rust).depth() == 1,
    ensures
        final(rust).text() == exception_text(old(rust).text(), *exception),
        final(rust).depth() == 1,
{
    let l = crate::strings::cat2("// ", exception.reason.as_str());
    rust.line(l.as_str());
    let key = decimal_i64(exception.api_key as i64);
    let first = decimal_i64(exception.first_version() as i64);
    let l = crate::strings::cat4("if api_key.value() == ", key.as_str(), " && version.value() >= ", first.as_str());
    rust.open(l.as_str());
    let header = decimal_i64(exception.header_version as i64);
    let l = crate::strings::cat3("return ", header.as_str(), ";");
    rust.line(l.as_str());
    rust.close("");
}

/// Renders the header-version policy: the rule, then every exception as an
/// early return ahead of it.
pub fn render_header_version(overrides: &HeaderOverrides, commit: &str) -> (r: String)
    ensures
        r@ == trimmed(header_version_text(overrides, commit@)),
{
    let mut rust = RustText::default();
    let banner = generated_banner();
    rust.line(banner.as_str());
    rust.line("//!");
    rust.line("//! Header-version policy for Apache Kafka commit");
    let l = crate::strings::cat3("//! `", commit, "`.");
    rust.line(l.as_str());
    rust.blank();
    rust.line("use kafka_wire_core::{ApiKey, ApiVersion};");
    rust.blank();
    rust.line("/// The request header version that frames a request.");
    rust.line("///");
    rust.line("/// Flexible requests take v2, which carries a tagged-field section; every");
    rust.line("/// other request takes v1. There is no v0 here: v0 omits the client id, and");
    rust.line("/// no supported request predates it.");
    rust.open("pub const fn request_header_version(flexible: bool) -> i16");
    rust.line("if flexible { 2 } else { 1 }");
    rust.close("");
    rust.blank();
    rust.line("/// The response header version that frames a response.");
    rust.line("///");
    rust.line("/// The rule is that a flexible response takes v1 and every other response");
    rust.line("/// takes v0. The exceptions below are reviewed protocol quirks carried as");
    rust.line("/// data rather than decided by name.");
    rust.open("pub fn response_header_version(api_key: ApiKey, version: ApiVersion, flexible: bool) -> i16");
    let exceptions = &overrides.response_header_exceptions;
    let ghost start = rust.text();
    let mut i: usize = 0;
    while i < exceptions.len()
        invariant
            exceptions == &overrides.response_header_exceptions,
            i <= exceptions@.len(),
            rust.depth() == 1,
            rust.text() == exceptions_text(start, exceptions@, i as int),
        decreases exceptions@.len() - i,
    {
        render_exception(&mut rust, &exceptions[i]);
        i = i + 1;
    }
    rust.line("i16::from(flexible)");
    rust.close("");
    rust.finish()
}

} // verus!
