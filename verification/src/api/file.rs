//! Complete-file orchestration, provenance, and import rendering for one API key.
//!
//! Each message becomes a `pub mod` holding its own imports, its own type, and
//! every struct it declares under upstream's spelling: the module is the scope
//! a nested struct name is unique in. The file level holds only what has to
//! see both directions at once: the flat re-export of each message type, and
//! the descriptors, which name those types.

use vstd::prelude::*;

use crate::api::imports::{bindable, importable};
use crate::api::message::{is_flexible, message_render_fault, message_text, render_message};
use crate::api::metadata::{api_descriptor_decl_text, descriptor_decl_text, descriptor_fault, render_api_descriptor, render_descriptor};
use crate::api::symbol::{symbol_name, ExternalSymbol as S};
use crate::api::tagged::{declares_a_tag, message_tagged};
use crate::field::types::{message_carries, uses_bytes, uses_type};
use crate::field::validate::{message_fault, validate_supported};
use crate::group::{ApiGroup, MessageSource};
use crate::naming::snake;
use crate::provenance::{banner_text, generated_banner};
use crate::schema::{Fault, FieldType, GenerationError, Message, MessageKind};
use crate::strings::{decimal, decimal_i64, owned};
use crate::text::{doc_text, emit_blank, emit_close, emit_line, emit_open, prose_lines, trimmed, RustText};

verus! {

/// Items joined by `, `.
pub open spec fn comma_joined(items: Seq<Seq<char>>) -> Seq<char>
    decreases items.len(),
{
    if items.len() == 0 {
        Seq::empty()
    } else if items.len() == 1 {
        items[0]
    } else {
        comma_joined(items.drop_last()) + ", "@ + items.last()
    }
}

/// One `use path::{a, b};` line, or nothing for no items.
pub open spec fn braced_use_text(t: Seq<char>, d: nat, path: Seq<char>, items: Seq<Seq<char>>) -> Seq<char> {
    if items.len() == 0 {
        t
    } else {
        emit_line(t, d, "use "@ + path + "::{"@ + comma_joined(items) + "};"@)
    }
}

/// Emits one braced `use` of `items` from `path`; brace collapsing and line
/// breaking are left to rustfmt.
pub fn render_braced_use(rust: &mut RustText, path: &str, items: &[&str])
    ensures
        final(rust).text() == braced_use_text(old(rust).text(), old(rust).depth(), path@, items@.map_values(|s: &str| s@)),
        final(rust).depth() == old(rust).depth(),
{
    let ghost views = items@.map_values(|s: &str| s@);
    if items.len() == 0 {
        return;
    }
    let mut joined = String::new();
    let mut i: usize = 0;
    while i < items.len()
        invariant
            views == items@.map_values(|s: &str| s@),
            i <= items@.len(),
            joined@ == comma_joined(views.take(i as int)),
        decreases items@.len() - i,
    {
        proof {
            assert(views.take(i + 1).drop_last() =~= views.take(i as int));
            assert(views.take(i + 1).last() == items@[i as int]@);
        }
        if i > 0 {
            joined.append(", ");
        }
        joined.append(items[i]);
        i = i + 1;
        proof {
            if i == 1 {
                assert(views.take(1) =~= seq![items@[0]@]);
            }
        }
    }
    assert(views.take(i as int) =~= views);
    let mut l = owned("use ");
    l.append(path);
    l.append("::{");
    l.append(joined.as_str());
    l.append("};");
    rust.line(l.as_str());
}

/// The `kafka_wire_core` symbols a message module imports, before filtering
/// out names its own structs take.
pub open spec fn wire_symbols(message: &Message) -> Seq<S> {
    let base = seq![
        S::ApiKey,
        S::ApiVersion,
        S::BytesMut,
        S::DecodeError,
        S::Decoder,
        S::EncodeError,
        S::EncodeTarget,
        S::Encoder,
        S::KafkaDecode,
        S::KafkaEncode,
        S::EncodeIntoWith,
        S::EncodedLenWith,
    ];
    let a = if message_carries(message, FieldType::String) { base.push(S::StrBytes) } else { base };
    let b = if is_flexible(message) { a.push(S::TaggedFields) } else { a };
    let c = if message_tagged(message) { b.push(S::KnownTags).push(S::TagOutcome) } else { b };
    let e = if message_carries(message, FieldType::Bytes) || message_carries(message, FieldType::Records) {
        c.push(S::Bytes)
    } else {
        c
    };
    let f = if message_carries(message, FieldType::Uuid) { e.push(S::Uuid) } else { e };
    f.push(S::VersionRange)
}

/// The crate-local symbols a message module imports, sorted by name.
pub open spec fn local_symbols(message: &Message) -> Seq<S> {
    match message.kind {
        MessageKind::Request => seq![S::ApiDescriptor, S::KafkaMessage, S::KafkaRequest, S::RequestResponsePair],
        MessageKind::Response => seq![S::KafkaMessage, S::KafkaResponse],
        _ => seq![S::KafkaMessage],
    }
}

/// A message module's two import blocks.
pub open spec fn imports_text(t: Seq<char>, d: nat, message: &Message) -> Seq<char> {
    let t = braced_use_text(t, d, "kafka_wire_core"@, bindable(message, wire_symbols(message)));
    let t = emit_blank(t);
    let t = braced_use_text(t, d, "crate"@, bindable(message, local_symbols(message)));
    emit_blank(t)
}

/// Renders the import blocks of one message's module.
///
/// Asked of the message alone: each module binds names into a scope that also
/// holds upstream's own struct spellings, so a name imported without being
/// used is a name that can collide for no reason.
pub fn render_imports(rust: &mut RustText, message: &Message)
    ensures
        final(rust).text() == imports_text(old(rust).text(), old(rust).depth(), message),
        final(rust).depth() == old(rust).depth(),
{
    let flexible = !message.effective_flexible_versions().is_empty();
    let mut wire: Vec<S> = vec![
        S::ApiKey,
        S::ApiVersion,
        S::BytesMut,
        S::DecodeError,
        S::Decoder,
        S::EncodeError,
        S::EncodeTarget,
        S::Encoder,
        S::KafkaDecode,
        S::KafkaEncode,
        S::EncodeIntoWith,
        S::EncodedLenWith,
    ];
    if uses_type(message, &FieldType::String) {
        wire.push(S::StrBytes);
    }
    if flexible {
        wire.push(S::TaggedFields);
    }
    if declares_a_tag(message) {
        wire.push(S::KnownTags);
        wire.push(S::TagOutcome);
    }
    if uses_bytes(message) {
        wire.push(S::Bytes);
    }
    if uses_type(message, &FieldType::Uuid) {
        wire.push(S::Uuid);
    }
    wire.push(S::VersionRange);
    assert(wire@ =~= wire_symbols(message));
    let names = importable(message, wire.as_slice());
    assert(names@.map_values(|s: &str| s@) =~= names@.map_values(|s: &'static str| s@));
    render_braced_use(rust, "kafka_wire_core", names.as_slice());
    rust.blank();
    let local: Vec<S> = match message.kind {
        MessageKind::Request => vec![S::ApiDescriptor, S::KafkaMessage, S::KafkaRequest, S::RequestResponsePair],
        MessageKind::Response => vec![S::KafkaMessage, S::KafkaResponse],
        MessageKind::Header | MessageKind::Data => vec![S::KafkaMessage],
    };
    assert(local@ =~= local_symbols(message));
    let names = importable(message, local.as_slice());
    assert(names@.map_values(|s: &str| s@) =~= names@.map_values(|s: &'static str| s@));
    render_braced_use(rust, "crate", names.as_slice());
    rust.blank();
}

/// The doc of one message module: what it holds, and why it is a module.
pub open spec fn module_doc_text(t: Seq<char>, d: nat, message: &Message) -> Seq<char> {
    let name = message.name.text@;
    let t = t + doc_text(d, prose_lines("`"@ + name + "` and every struct it declares, under upstream's own names."@));
    let t = emit_line(t, d, "///"@);
    let t = emit_line(
        t,
        d,
        "/// [`"@ + name + "`](crate::"@ + name + ") is re-exported flat, so this path never has to be"@,
    );
    emit_line(t, d, "/// written to name the message itself."@)
}

/// Documents one message module. A nested struct here is spelled as upstream
/// spells it, unique in this module and deliberately not across the crate, so
/// the module path is part of the type's identity.
pub fn render_module_doc(rust: &mut RustText, message: &Message)
    ensures
        final(rust).text() == module_doc_text(old(rust).text(), old(rust).depth(), message),
        final(rust).depth() == old(rust).depth(),
{
    let name = message.name.protocol();
    let doc = crate::strings::cat3("`", name, "` and every struct it declares, under upstream's own names.");
    rust.doc_line(doc.as_str());
    rust.line("///");
    let mut l = owned("/// [`");
    l.append(name);
    l.append("`](crate::");
    l.append(name);
    l.append(") is re-exported flat, so this path never has to be");
    rust.line(l.as_str());
    rust.line("/// written to name the message itself.");
}

/// The provenance header of one file.
pub open spec fn header_text(t: Seq<char>, group: &ApiGroup, commit: Seq<char>) -> Seq<char> {
    let t = emit_line(t, 0, banner_text());
    let t = emit_line(t, 0, "//!"@);
    let t = emit_line(
        t,
        0,
        "//! API key "@ + decimal(group.api_key as int) + " from `"@ + group.request.filename@ + "` and `"@
            + group.response.filename@ + "`"@,
    );
    let t = emit_line(t, 0, "//! at Apache Kafka commit `"@ + commit + "`."@);
    let t = emit_line(t, 0, "//! Request SHA-256: `"@ + group.request.sha256@ + "`."@);
    let t = emit_line(t, 0, "//! Response SHA-256: `"@ + group.response.sha256@ + "`."@);
    emit_blank(t)
}

fn render_header(rust: &mut RustText, group: &ApiGroup, commit: &str)
    requires
        old(rust).depth() == 0,
    ensures
        final(rust).text() == header_text(old(rust).text(), group, commit@),
        final(rust).depth() == 0,
{
    let banner = generated_banner();
    rust.line(banner.as_str());
    rust.line("//!");
    let key = decimal_i64(group.api_key as i64);
    let mut l = owned("//! API key ");
    l.append(key.as_str());
    l.append(" from `");
    l.append(group.request.filename.as_str());
    l.append("` and `");
    l.append(group.response.filename.as_str());
    l.append("`");
    rust.line(l.as_str());
    let l = crate::strings::cat3("//! at Apache Kafka commit `", commit, "`.");
    rust.line(l.as_str());
    let l = crate::strings::cat3("//! Request SHA-256: `", group.request.sha256.as_str(), "`.");
    rust.line(l.as_str());
    let l = crate::strings::cat3("//! Response SHA-256: `", group.response.sha256.as_str(), "`.");
    rust.line(l.as_str());
    rust.blank();
}

/// One message's module: its doc, its imports, and everything it renders.
#[verifier::opaque]
pub open spec fn module_text(t: Seq<char>, message: &Message, group: &ApiGroup) -> Seq<char> {
    let t = module_doc_text(t, 0, message);
    let t = emit_open(t, 0, "pub mod "@ + snake(message.name.text@));
    let t = imports_text(t, 1, message);
    let t = message_text(t, 1, message, group);
    let t = emit_close(t, 0, ""@);
    emit_blank(t)
}

fn render_module(rust: &mut RustText, message: &Message, group: &ApiGroup) -> (r: Result<(), GenerationError>)
    requires
        old(rust).depth() == 0,
    ensures
        match message_render_fault(message) {
            None => r is Ok && final(rust).text() == module_text(old(rust).text(), message, group) && final(rust).depth()
                == 0,
            Some(f) => r matches Err(e) && e@ == f,
        },
{
    proof {
        reveal(module_text);
    }
    render_module_doc(rust, message);
    let module = message.name.rust_module();
    let l = crate::strings::cat2("pub mod ", module.as_str());
    rust.open(l.as_str());
    render_imports(rust, message);
    render_message(rust, message, group)?;
    rust.close("");
    rust.blank();
    Ok(())
}

/// What follows the two modules: the flat re-exports and the descriptors.
#[verifier::opaque]
pub open spec fn exports_text(t: Seq<char>, group: &ApiGroup) -> Seq<char> {
    let request = &group.request.message;
    let response = &group.response.message;
    let t = braced_use_text(t, 0, "kafka_wire_core"@, seq!["VersionRange"@]);
    let t = emit_blank(t);
    let t = braced_use_text(
        t,
        0,
        "crate"@,
        seq![symbol_name(S::ApiDescriptor), symbol_name(S::MessageDescriptor), symbol_name(S::MessageDirection)],
    );
    let t = emit_blank(t);
    let t = emit_line(t, 0, "pub use "@ + snake(request.name.text@) + "::"@ + request.name.text@ + ";"@);
    let t = emit_line(t, 0, "pub use "@ + snake(response.name.text@) + "::"@ + response.name.text@ + ";"@);
    let t = emit_blank(t);
    let t = descriptor_decl_text(t, 0, request, group.api_key);
    let t = descriptor_decl_text(t, 0, response, group.api_key);
    api_descriptor_decl_text(t, 0, group)
}

fn render_reexport(rust: &mut RustText, message: &Message)
    ensures
        final(rust).text() == emit_line(
            old(rust).text(),
            old(rust).depth(),
            "pub use "@ + snake(message.name.text@) + "::"@ + message.name.text@ + ";"@,
        ),
        final(rust).depth() == old(rust).depth(),
{
    let module = message.name.rust_module();
    let l = crate::strings::cat5("pub use ", module.as_str(), "::", message.name.rust_type(), ";");
    rust.line(l.as_str());
}

fn render_exports(rust: &mut RustText, group: &ApiGroup) -> (r: Result<(), GenerationError>)
    requires
        old(rust).depth() == 0,
    ensures
        match descriptor_fault(&group.request.message) {
            Some(f) => r matches Err(e) && e@ == f,
            None => match descriptor_fault(&group.response.message) {
                Some(f) => r matches Err(e) && e@ == f,
                None => r is Ok && final(rust).text() == exports_text(old(rust).text(), group) && final(rust).depth() == 0,
            },
        },
{
    proof {
        reveal(exports_text);
    }
    let core: [&str; 1] = ["VersionRange"];
    assert(core@.map_values(|s: &str| s@) =~= seq!["VersionRange"@]);
    render_braced_use(rust, "kafka_wire_core", &core);
    rust.blank();
    let local: [&str; 3] = [S::ApiDescriptor.name(), S::MessageDescriptor.name(), S::MessageDirection.name()];
    assert(local@.map_values(|s: &str| s@) =~= seq![
        symbol_name(S::ApiDescriptor),
        symbol_name(S::MessageDescriptor),
        symbol_name(S::MessageDirection),
    ]);
    render_braced_use(rust, "crate", &local);
    rust.blank();
    render_reexport(rust, &group.request.message);
    render_reexport(rust, &group.response.message);
    rust.blank();
    render_descriptor(rust, &group.request.message, group.api_key)?;
    render_descriptor(rust, &group.response.message, group.api_key)?;
    render_api_descriptor(rust, group);
    Ok(())
}

/// The whole file of one API key, before trailing blank lines are folded.
pub open spec fn api_text(group: &ApiGroup, commit: Seq<char>) -> Seq<char> {
    let t = header_text(Seq::empty(), group, commit);
    let t = module_text(t, &group.request.message, group);
    let t = module_text(t, &group.response.message, group);
    exports_text(t, group)
}

/// The first refusal rendering one API key raises: validation of both
/// directions first, then each module, then the descriptors.
pub open spec fn api_fault(group: &ApiGroup) -> Option<Fault> {
    let request = &group.request.message;
    let response = &group.response.message;
    if message_fault(request) is Some {
        message_fault(request)
    } else if message_fault(response) is Some {
        message_fault(response)
    } else if message_render_fault(request) is Some {
        message_render_fault(request)
    } else if message_render_fault(response) is Some {
        message_render_fault(response)
    } else if descriptor_fault(request) is Some {
        descriptor_fault(request)
    } else {
        descriptor_fault(response)
    }
}

/// Renders the complete Rust source file for one API key.
///
/// Both directions are validated before a line is written; each becomes a
/// module of its own, and the file ends with the flat re-exports and the
/// descriptors that name both.
pub fn render_api(group: &ApiGroup, commit: &str) -> (r: Result<String, GenerationError>)
    ensures
        match api_fault(group) {
            None => r matches Ok(s) && s@ == trimmed(api_text(group, commit@)),
            Some(f) => r matches Err(e) && e@ == f,
        },
{
    validate_supported(&group.request.message)?;
    validate_supported(&group.response.message)?;
    let mut rust = RustText::default();
    render_header(&mut rust, group, commit);
    render_module(&mut rust, &group.request.message, group)?;
    render_module(&mut rust, &group.response.message, group)?;
    render_exports(&mut rust, group)?;
    Ok(rust.finish())
}

} // verus!
