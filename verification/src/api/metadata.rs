//! Direction traits, version metadata, and static descriptors for one message.

use vstd::prelude::*;

use crate::api::imports::{spell, spelling};
use crate::api::symbol::ExternalSymbol as S;
use crate::established::{bounded, optional_bounded, unbounded_fault};
use crate::group::ApiGroup;
use crate::naming::screaming;
use crate::schema::{api_stem_of, Fault, GenerationError, Message, MessageKind, Scope};
use crate::strings::{debug_quoted, debug_string, decimal, decimal_i64, owned};
use crate::text::{emit_blank, emit_close, emit_line, emit_open, RustText};
use crate::versions::single_bounded_of;

verus! {

/// `Type::new(start, end)` for one version range type spelling.
pub open spec fn range_text(range: Seq<char>, bounds: (i16, i16)) -> Seq<char> {
    range + "::new("@ + decimal(bounds.0 as int) + ", "@ + decimal(bounds.1 as int) + ")"@
}

pub fn range_expression(range: &str, bounds: (i16, i16)) -> (r: String)
    ensures
        r@ == range_text(range@, bounds),
{
    let start = decimal_i64(bounds.0 as i64);
    let end = decimal_i64(bounds.1 as i64);
    let mut r = owned(range);
    r.append("::new(");
    r.append(start.as_str());
    r.append(", ");
    r.append(end.as_str());
    r.append(")");
    r
}

/// The refusal when a message's windows are not single intervals.
pub open spec fn windows_fault(message: &Message) -> Option<Fault> {
    if single_bounded_of(message.valid_versions@) is None {
        Some(unbounded_fault(message, "valid versions"@))
    } else if message.flexible_versions@.intersect(message.valid_versions@) != Set::<int>::empty() && single_bounded_of(
        message.flexible_versions@.intersect(message.valid_versions@),
    ) is None {
        Some(unbounded_fault(message, "effective flexible versions"@))
    } else {
        None
    }
}

/// The flexible window of a message as an `Option` of its range type.
pub open spec fn flexible_range_text(message: &Message, none: Seq<char>, some: Seq<char>, range: Seq<char>) -> Seq<char> {
    let flexible = message.flexible_versions@.intersect(message.valid_versions@);
    if flexible == Set::<int>::empty() {
        none
    } else {
        some + "("@ + range_text(range, single_bounded_of(flexible)->0) + ")"@
    }
}

/// The name of the descriptor constant for the whole API key.
pub open spec fn api_descriptor_text(group: &ApiGroup) -> Seq<char> {
    screaming(api_stem_of(group.request.message.name.text@)) + "_API"@
}

pub fn api_descriptor_name(group: &ApiGroup) -> (r: String)
    ensures
        r@ == api_descriptor_text(group),
{
    let stem = group.request.message.name.api_stem();
    let mut r = crate::naming::screaming_snake_case(stem.as_str());
    r.append("_API");
    r
}

/// The direction trait of a request, and its pairing with the response.
pub open spec fn request_metadata_text(t: Seq<char>, d: nat, message: &Message, group: &ApiGroup) -> Seq<char> {
    let api_key = spelling(message, S::ApiKey);
    let t = emit_open(t, d, "impl "@ + spelling(message, S::KafkaRequest) + " for "@ + message.name.text@);
    let t = emit_line(t, d + 1, "const API_KEY: "@ + api_key + " = "@ + api_key + "::new("@ + decimal(group.api_key as int) + ");"@);
    let t = emit_line(
        t,
        d + 1,
        "const API_DESCRIPTOR: &'static "@ + spelling(message, S::ApiDescriptor) + " = &super::"@ + api_descriptor_text(group)
            + ";"@,
    );
    let t = emit_close(t, d, ""@);
    let t = emit_blank(t);
    let t = emit_open(t, d, "impl "@ + spelling(message, S::RequestResponsePair) + " for "@ + message.name.text@);
    let t = emit_line(t, d + 1, "type Response = super::"@ + group.response.message.name.text@ + ";"@);
    let t = emit_close(t, d, ""@);
    emit_blank(t)
}

/// The direction trait of a response.
pub open spec fn response_metadata_text(t: Seq<char>, d: nat, message: &Message, group: &ApiGroup) -> Seq<char> {
    let api_key = spelling(message, S::ApiKey);
    let t = emit_open(t, d, "impl "@ + spelling(message, S::KafkaResponse) + " for "@ + message.name.text@);
    let t = emit_line(t, d + 1, "const API_KEY: "@ + api_key + " = "@ + api_key + "::new("@ + decimal(group.api_key as int) + ");"@);
    let t = emit_close(t, d, ""@);
    emit_blank(t)
}

/// `KafkaMessage` for a message, then its direction traits.
#[verifier::opaque]
pub open spec fn metadata_text(t: Seq<char>, d: nat, message: &Message, group: &ApiGroup) -> Seq<char> {
    let range = spelling(message, S::VersionRange);
    let flexible = flexible_range_text(message, spelling(message, S::OptionNone), spelling(message, S::OptionSome), range);
    let t = emit_open(t, d, "impl "@ + spelling(message, S::KafkaMessage) + " for "@ + message.name.text@);
    let t = emit_line(t, d + 1, "const NAME: &'static str = "@ + debug_string(message.name.text@) + ";"@);
    let t = emit_line(
        t,
        d + 1,
        "const SUPPORTED_VERSIONS: "@ + range + " = "@ + range_text(range, single_bounded_of(message.valid_versions@)->0) + ";"@,
    );
    let t = emit_line(
        t,
        d + 1,
        "const FLEXIBLE_VERSIONS: "@ + spelling(message, S::Option) + "<"@ + range + "> = "@ + flexible + ";"@,
    );
    let t = emit_close(t, d, ""@);
    let t = emit_blank(t);
    match message.kind {
        MessageKind::Request => request_metadata_text(t, d, message, group),
        MessageKind::Response => response_metadata_text(t, d, message, group),
        _ => t,
    }
}

fn render_request_metadata(rust: &mut RustText, message: &Message, group: &ApiGroup)
    requires
        old(rust).room(1),
    ensures
        final(rust).text() == request_metadata_text(old(rust).text(), old(rust).depth(), message, group),
        final(rust).depth() == old(rust).depth(),
{
    let api_key = spell(message, S::ApiKey);
    let request = spell(message, S::KafkaRequest);
    let l = crate::strings::cat4("impl ", request.as_str(), " for ", message.name.rust_type());
    rust.open(l.as_str());
    let key = decimal_i64(group.api_key as i64);
    let mut l = owned("const API_KEY: ");
    l.append(api_key.as_str());
    l.append(" = ");
    l.append(api_key.as_str());
    l.append("::new(");
    l.append(key.as_str());
    l.append(");");
    rust.line(l.as_str());
    let descriptor = spell(message, S::ApiDescriptor);
    let name = api_descriptor_name(group);
    let mut l = owned("const API_DESCRIPTOR: &'static ");
    l.append(descriptor.as_str());
    l.append(" = &super::");
    l.append(name.as_str());
    l.append(";");
    rust.line(l.as_str());
    rust.close("");
    rust.blank();
    let pair = spell(message, S::RequestResponsePair);
    let l = crate::strings::cat4("impl ", pair.as_str(), " for ", message.name.rust_type());
    rust.open(l.as_str());
    let l = crate::strings::cat3("type Response = super::", group.response.message.name.rust_type(), ";");
    rust.line(l.as_str());
    rust.close("");
    rust.blank();
}

fn render_response_metadata(rust: &mut RustText, message: &Message, group: &ApiGroup)
    requires
        old(rust).room(1),
    ensures
        final(rust).text() == response_metadata_text(old(rust).text(), old(rust).depth(), message, group),
        final(rust).depth() == old(rust).depth(),
{
    let api_key = spell(message, S::ApiKey);
    let response = spell(message, S::KafkaResponse);
    let l = crate::strings::cat4("impl ", response.as_str(), " for ", message.name.rust_type());
    rust.open(l.as_str());
    let key = decimal_i64(group.api_key as i64);
    let mut l = owned("const API_KEY: ");
    l.append(api_key.as_str());
    l.append(" = ");
    l.append(api_key.as_str());
    l.append("::new(");
    l.append(key.as_str());
    l.append(");");
    rust.line(l.as_str());
    rust.close("");
    rust.blank();
}

/// Emits a message's `KafkaMessage` implementation and its direction traits.
pub fn render_metadata(rust: &mut RustText, message: &Message, group: &ApiGroup) -> (r: Result<(), GenerationError>)
    requires
        old(rust).room(1),
    ensures
        match windows_fault(message) {
            None => r is Ok && final(rust).text() == metadata_text(old(rust).text(), old(rust).depth(), message, group)
                && final(rust).depth() == old(rust).depth(),
            Some(f) => r matches Err(e) && e@ == f,
        },
{
    proof {
        reveal(metadata_text);
    }
    let valid = bounded(message, &message.valid_versions, "valid versions")?;
    let range = spell(message, S::VersionRange);
    let effective = message.effective_flexible_versions();
    let flexible = match optional_bounded(message, &effective, "effective flexible versions")? {
        None => spell(message, S::OptionNone),
        Some(bounds) => {
            let some = spell(message, S::OptionSome);
            let inner = range_expression(range.as_str(), bounds);
            crate::strings::cat4(some.as_str(), "(", inner.as_str(), ")")
        },
    };
    let kafka_message = spell(message, S::KafkaMessage);
    let l = crate::strings::cat4("impl ", kafka_message.as_str(), " for ", message.name.rust_type());
    rust.open(l.as_str());
    let quoted = debug_quoted(message.name.protocol());
    let l = crate::strings::cat3("const NAME: &'static str = ", quoted.as_str(), ";");
    rust.line(l.as_str());
    let supported = range_expression(range.as_str(), valid);
    let mut l = owned("const SUPPORTED_VERSIONS: ");
    l.append(range.as_str());
    l.append(" = ");
    l.append(supported.as_str());
    l.append(";");
    rust.line(l.as_str());
    let option = spell(message, S::Option);
    let mut l = owned("const FLEXIBLE_VERSIONS: ");
    l.append(option.as_str());
    l.append("<");
    l.append(range.as_str());
    l.append("> = ");
    l.append(flexible.as_str());
    l.append(";");
    rust.line(l.as_str());
    rust.close("");
    rust.blank();
    match message.kind {
        MessageKind::Request => render_request_metadata(rust, message, group),
        MessageKind::Response => render_response_metadata(rust, message, group),
        MessageKind::Header | MessageKind::Data => {},
    }
    Ok(())
}

/// The name of a message's descriptor constant.
pub open spec fn descriptor_text(message: &Message) -> Seq<char> {
    screaming(message.name.text@) + "_DESCRIPTOR"@
}

pub fn descriptor_name(message: &Message) -> (r: String)
    ensures
        r@ == descriptor_text(message),
{
    let mut r = message.name.descriptor_symbol();
    r.append("_DESCRIPTOR");
    r
}

/// The static descriptor of one request or response.
pub open spec fn descriptor_decl_text(t: Seq<char>, d: nat, message: &Message, api_key: i16) -> Seq<char> {
    let direction = if message.kind == MessageKind::Request { "Request"@ } else { "Response"@ };
    if message.kind != MessageKind::Request && message.kind != MessageKind::Response {
        t
    } else {
        let flexible = flexible_range_text(message, "None"@, "Some"@, "VersionRange"@);
        let t = emit_line(t, d, "/// Static metadata for [`"@ + message.name.text@ + "`]."@);
        let t = emit_line(t, d, "pub const "@ + descriptor_text(message) + ": MessageDescriptor = MessageDescriptor::new("@);
        let t = emit_line(t, d, "    "@ + decimal(api_key as int) + ","@);
        let t = emit_line(t, d, "    "@ + debug_string(message.name.text@) + ","@);
        let t = emit_line(t, d, "    MessageDirection::"@ + direction + ","@);
        let t = emit_line(t, d, "    "@ + range_text("VersionRange"@, single_bounded_of(message.valid_versions@)->0) + ","@);
        let t = emit_line(t, d, "    "@ + flexible + ","@);
        let t = emit_line(t, d, ");"@);
        emit_blank(t)
    }
}

/// The refusal a descriptor raises: only a request or response has one.
pub open spec fn descriptor_fault(message: &Message) -> Option<Fault> {
    if message.kind != MessageKind::Request && message.kind != MessageKind::Response {
        None
    } else {
        windows_fault(message)
    }
}

/// Emits the static descriptor of one request or response.
pub fn render_descriptor(rust: &mut RustText, message: &Message, api_key: i16) -> (r: Result<(), GenerationError>)
    ensures
        match descriptor_fault(message) {
            None => r is Ok && final(rust).text() == descriptor_decl_text(old(rust).text(), old(rust).depth(), message, api_key)
                && final(rust).depth() == old(rust).depth(),
            Some(f) => r matches Err(e) && e@ == f,
        },
{
    let direction = match message.kind {
        MessageKind::Request => "Request",
        MessageKind::Response => "Response",
        MessageKind::Header | MessageKind::Data => return Ok(()),
    };
    let constant = descriptor_name(message);
    let valid = bounded(message, &message.valid_versions, "valid versions")?;
    let l = crate::strings::cat3("/// Static metadata for [`", message.name.rust_type(), "`].");
    rust.line(l.as_str());
    let l = crate::strings::cat3("pub const ", constant.as_str(), ": MessageDescriptor = MessageDescriptor::new(");
    rust.line(l.as_str());
    let key = decimal_i64(api_key as i64);
    let l = crate::strings::cat3("    ", key.as_str(), ",");
    rust.line(l.as_str());
    let quoted = debug_quoted(message.name.protocol());
    let l = crate::strings::cat3("    ", quoted.as_str(), ",");
    rust.line(l.as_str());
    let l = crate::strings::cat3("    MessageDirection::", direction, ",");
    rust.line(l.as_str());
    let supported = range_expression("VersionRange", valid);
    let l = crate::strings::cat3("    ", supported.as_str(), ",");
    rust.line(l.as_str());
    let effective = message.effective_flexible_versions();
    let flexible = match optional_bounded(message, &effective, "effective flexible versions")? {
        None => owned("None"),
        Some(bounds) => {
            let inner = range_expression("VersionRange", bounds);
            crate::strings::cat4("Some", "(", inner.as_str(), ")")
        },
    };
    let l = crate::strings::cat3("    ", flexible.as_str(), ",");
    rust.line(l.as_str());
    rust.line(");");
    rust.blank();
    Ok(())
}

/// The descriptor of the whole API key, naming both directions.
pub open spec fn api_descriptor_decl_text(t: Seq<char>, d: nat, group: &ApiGroup) -> Seq<char> {
    let t = emit_line(
        t,
        d,
        "/// Static metadata for the `"@ + api_stem_of(group.request.message.name.text@) + "` API."@,
    );
    let t = emit_line(t, d, "pub const "@ + api_descriptor_text(group) + ": ApiDescriptor = ApiDescriptor::new("@);
    let t = emit_line(t, d, "    &"@ + descriptor_text(&group.request.message) + ","@);
    let t = emit_line(t, d, "    &"@ + descriptor_text(&group.response.message) + ","@);
    let t = emit_line(
        t,
        d,
        "    "@ + if group.request.message.latest_version_unstable { "true"@ } else { "false"@ } + ","@,
    );
    let t = emit_line(t, d, ");"@);
    emit_blank(t)
}

/// Emits the descriptor of the whole API key: both directions, and whether
/// its newest version is still unstable.
pub fn render_api_descriptor(rust: &mut RustText, group: &ApiGroup)
    ensures
        final(rust).text() == api_descriptor_decl_text(old(rust).text(), old(rust).depth(), group),
        final(rust).depth() == old(rust).depth(),
{
    let stem = group.request.message.name.api_stem();
    let l = crate::strings::cat3("/// Static metadata for the `", stem.as_str(), "` API.");
    rust.line(l.as_str());
    let name = api_descriptor_name(group);
    let l = crate::strings::cat3("pub const ", name.as_str(), ": ApiDescriptor = ApiDescriptor::new(");
    rust.line(l.as_str());
    let request = descriptor_name(&group.request.message);
    let l = crate::strings::cat3("    &", request.as_str(), ",");
    rust.line(l.as_str());
    let response = descriptor_name(&group.response.message);
    let l = crate::strings::cat3("    &", response.as_str(), ",");
    rust.line(l.as_str());
    let unstable = if group.request.message.latest_version_unstable {
        "true"
    } else {
        "false"
    };
    let l = crate::strings::cat3("    ", unstable, ",");
    rust.line(l.as_str());
    rust.line(");");
    rust.blank();
}

} // verus!
