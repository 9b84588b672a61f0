//! Emission for the schemas that answer to no API key.
//!
//! Kafka's request and response headers are the frame around a message rather
//! than a message: they carry no API key, no descriptor, and no pairing. What
//! they do carry is a version range and a flexible window of their own, which
//! makes each one exactly the standalone struct the struct renderer knows how
//! to emit; this file owns the module around them. Each schema gets a module
//! of its own, because two framing schemas may declare structs of one name.

use vstd::prelude::*;

use crate::api::declarations::{declared_structs_text, render_declared_structs, structs_fault};
use crate::api::file::{braced_use_text, module_doc_text, render_braced_use, render_module_doc};
use crate::api::imports::{bindable, importable};
use crate::api::message::is_flexible;
use crate::api::structs::{render_standalone, standalone_fault, standalone_text};
use crate::api::symbol::ExternalSymbol as S;
use crate::api::tagged::{declares_a_tag, message_tagged};
use crate::field::types::{message_carries, uses_bytes, uses_type};
use crate::group::MessageSource;
use crate::naming::snake;
use crate::provenance::{banner_text, generated_banner};
use crate::schema::{Fault, FieldType, GenerationError, Message};
use crate::strings::owned;
use crate::text::{emit_blank, emit_close, emit_line, emit_open, trimmed, RustText};

verus! {

/// The `kafka_wire_core` symbols a framing module imports before filtering.
pub open spec fn framing_wire_symbols(message: &Message) -> Seq<S> {
    let base = seq![
        S::ApiVersion,
        S::BytesMut,
        S::DecodeError,
        S::Decoder,
        S::EncodeError,
        S::EncodeTarget,
        S::Encoder,
        S::KafkaDecode,
        S::KafkaEncode,
        S::EncodeIntoWith,
        S::EncodedLenWith,
    ];
    let a = if message_carries(message, FieldType::Bytes) || message_carries(message, FieldType::Records) {
        base.push(S::Bytes)
    } else {
        base
    };
    let b = if message_carries(message, FieldType::String) { a.push(S::StrBytes) } else { a };
    let c = if is_flexible(message) { b.push(S::TaggedFields) } else { b };
    let e = if message_tagged(message) {
        c.push(S::KnownTags).push(S::TagOutcome).push(S::TaggedFieldsError)
    } else {
        c
    };
    let f = if message_carries(message, FieldType::Uuid) { e.push(S::Uuid) } else { e };
    f.push(S::VersionRange)
}

/// A framing module's two import blocks.
pub open spec fn framing_imports_text(t: Seq<char>, d: nat, message: &Message) -> Seq<char> {
    let t = braced_use_text(t, d, "kafka_wire_core"@, bindable(message, framing_wire_symbols(message)));
    let t = emit_blank(t);
    let t = braced_use_text(t, d, "crate"@, bindable(message, seq![S::KafkaMessage, S::ProtocolEq]));
    emit_blank(t)
}

fn render_imports(rust: &mut RustText, message: &Message)
    ensures
        final(rust).text() == framing_imports_text(old(rust).text(), old(rust).depth(), message),
        final(rust).depth() == old(rust).depth(),
{
    let flexible = !message.effective_flexible_versions().is_empty();
    let mut wire: Vec<S> = vec![
        S::ApiVersion,
        S::BytesMut,
        S::DecodeError,
        S::Decoder,
        S::EncodeError,
        S::EncodeTarget,
        S::Encoder,
        S::KafkaDecode,
        S::KafkaEncode,
        S::EncodeIntoWith,
        S::EncodedLenWith,
    ];
    if uses_bytes(message) {
        wire.push(S::Bytes);
    }
    if uses_type(message, &FieldType::String) {
        wire.push(S::StrBytes);
    }
    if flexible {
        wire.push(S::TaggedFields);
    }
    if declares_a_tag(message) {
        wire.push(S::KnownTags);
        wire.push(S::TagOutcome);
        wire.push(S::TaggedFieldsError);
    }
    if uses_type(message, &FieldType::Uuid) {
        wire.push(S::Uuid);
    }
    wire.push(S::VersionRange);
    assert(wire@ =~= framing_wire_symbols(message));
    let names = importable(message, wire.as_slice());
    assert(names@.map_values(|s: &str| s@) =~= names@.map_values(|s: &'static str| s@));
    render_braced_use(rust, "kafka_wire_core", names.as_slice());
    rust.blank();
    let local: [S; 2] = [S::KafkaMessage, S::ProtocolEq];
    assert(local@ =~= seq![S::KafkaMessage, S::ProtocolEq]);
    let names = importable(message, &local);
    assert(names@.map_values(|s: &str| s@) =~= names@.map_values(|s: &'static str| s@));
    render_braced_use(rust, "crate", names.as_slice());
    rust.blank();
}

/// The opening lines of the framing file.
pub open spec fn framing_header_text(commit: Seq<char>) -> Seq<char> {
    let t = emit_line(Seq::empty(), 0, banner_text());
    let t = emit_line(t, 0, "//!"@);
    let t = emit_line(t, 0, "//! Framing and data schemas from Apache Kafka commit"@);
    let t = emit_line(t, 0, "//! `"@ + commit + "`."@);
    let t = emit_line(t, 0, "//!"@);
    let t = emit_line(t, 0, "//! These answer to no API key: a header frames a message rather than being"@);
    let t = emit_line(t, 0, "//! one, so nothing here carries a descriptor or a request/response pair."@);
    emit_blank(t)
}

/// The module of one framing schema.
#[verifier::opaque]
pub open spec fn framing_module_text(t: Seq<char>, message: &Message) -> Seq<char> {
    let t = module_doc_text(t, 0, message);
    let t = emit_open(t, 0, "pub mod "@ + snake(message.name.text@));
    let t = framing_imports_text(t, 1, message);
    let t = declared_structs_text(t, 1, message, message.structs.declarations@.len() as int);
    let t = standalone_text(t, 1, message);
    let t = emit_close(t, 0, ""@);
    emit_blank(t)
}

/// The refusal rendering one framing schema raises.
pub open spec fn framing_fault(message: &Message) -> Option<Fault> {
    match structs_fault(message) {
        Some(f) => Some(f),
        None => standalone_fault(message),
    }
}

fn render_framing_module(rust: &mut RustText, message: &Message) -> (r: Result<(), GenerationError>)
    requires
        old(rust).depth() == 0,
    ensures
        match framing_fault(message) {
            None => r is Ok && final(rust).text() == framing_module_text(old(rust).text(), message) && final(rust).depth()
                == 0,
            Some(f) => r matches Err(e) && e@ == f,
        },
{
    proof {
        reveal(framing_module_text);
    }
    render_module_doc(rust, message);
    let module = message.name.rust_module();
    let l = crate::strings::cat2("pub mod ", module.as_str());
    rust.open(l.as_str());
    render_imports(rust, message);
    render_declared_structs(rust, message)?;
    render_standalone(rust, message)?;
    rust.close("");
    rust.blank();
    Ok(())
}

/// The modules of the first `n` framing schemas.
pub open spec fn framing_modules_text(t: Seq<char>, sources: Seq<MessageSource>, n: int) -> Seq<char>
    decreases n,
{
    if n <= 0 {
        t
    } else {
        framing_module_text(framing_modules_text(t, sources, n - 1), &sources[n - 1].message)
    }
}

/// The first refusal among the first `n` framing schemas.
pub open spec fn framing_modules_fault(sources: Seq<MessageSource>, n: int) -> Option<Fault>
    decreases n,
{
    if n <= 0 {
        None
    } else {
        match framing_modules_fault(sources, n - 1) {
            Some(f) => Some(f),
            None => framing_fault(&sources[n - 1].message),
        }
    }
}

proof fn lemma_framing_fault_persists(sources: Seq<MessageSource>, k: int, n: int)
    requires
        0 <= k <= n,
        framing_modules_fault(sources, k) is Some,
    ensures
        framing_modules_fault(sources, n) == framing_modules_fault(sources, k),
    decreases n - k,
{
    if n > k {
        lemma_framing_fault_persists(sources, k, n - 1);
    }
}

/// The flat re-exports of the first `n` framing types.
pub open spec fn framing_exports_text(t: Seq<char>, sources: Seq<MessageSource>, n: int) -> Seq<char>
    decreases n,
{
    if n <= 0 {
        t
    } else {
        let message = sources[n - 1].message;
        emit_line(
            framing_exports_text(t, sources, n - 1),
            0,
            "pub use "@ + snake(message.name.text@) + "::"@ + message.name.text@ + ";"@,
        )
    }
}

/// The whole framing file, before trailing blank lines are folded.
pub open spec fn unkeyed_text(sources: Seq<MessageSource>, commit: Seq<char>) -> Seq<char> {
    let t = framing_modules_text(framing_header_text(commit), sources, sources.len() as int);
    framing_exports_text(t, sources, sources.len() as int)
}

/// Renders every unkeyed schema into one file, one module each, followed by
/// the flat re-export of each schema's type.
pub fn render_unkeyed(sources: &Vec<MessageSource>, commit: &str) -> (r: Result<String, GenerationError>)
    ensures
        match framing_modules_fault(sources@, sources@.len() as int) {
            None => r matches Ok(s) && s@ == trimmed(unkeyed_text(sources@, commit@)),
            Some(f) => r matches Err(e) && e@ == f,
        },
{
    let mut rust = RustText::default();
    let banner = generated_banner();
    rust.line(banner.as_str());
    rust.line("//!");
    rust.line("//! Framing and data schemas from Apache Kafka commit");
    let l = crate::strings::cat3("//! `", commit, "`.");
    rust.line(l.as_str());
    rust.line("//!");
    rust.line("//! These answer to no API key: a header frames a message rather than being");
    rust.line("//! one, so nothing here carries a descriptor or a request/response pair.");
    rust.blank();
    let ghost start = rust.text();
    assert(start == framing_header_text(commit@));
    let mut i: usize = 0;
    while i < sources.len()
        invariant
            i <= sources@.len(),
            rust.depth() == 0,
            framing_modules_fault(sources@, i as int) is None,
            rust.text() == framing_modules_text(start, sources@, i as int),
        decreases sources@.len() - i,
    {
        let step = render_framing_module(&mut rust, &sources[i].message);
        if let Err(e) = step {
            proof {
                lemma_framing_fault_persists(sources@, i + 1, sources@.len() as int);
            }
            return Err(e);
        }
        i = i + 1;
    }
    let ghost modules = rust.text();
    let mut j: usize = 0;
    while j < sources.len()
        invariant
            j <= sources@.len(),
            rust.depth() == 0,
            rust.text() == framing_exports_text(modules, sources@, j as int),
        decreases sources@.len() - j,
    {
        let message = &sources[j].message;
        let module = message.name.rust_module();
        let l = crate::strings::cat5("pub use ", module.as_str(), "::", message.name.rust_type(), ";");
        rust.line(l.as_str());
        j = j + 1;
    }
    Ok(rust.finish())
}

} // verus!
