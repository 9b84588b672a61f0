//! The struct, default, equality, metadata, validation and codecs of one
//! request or response.

use vstd::prelude::*;

use crate::api::codec::{decode_fault, decode_text, kafka_encode_text, render_decode, render_struct_encode, validated_encode_text};
use crate::api::declarations::{declared_structs_text, render_declared_structs, structs_fault};
use crate::api::imports::{spell, spelling};
use crate::api::metadata::{metadata_text, render_metadata, windows_fault};
use crate::api::protocol_eq::{protocol_eq_text, render_protocol_eq, render_retained_size, retained_size_text};
use crate::api::structs::{all_derive_default, default_impl_text, definition_text, derive_default, render_default_impl, render_definition};
use crate::api::symbol::ExternalSymbol as S;
use crate::api::tag_plan::known_order;
use crate::api::tagged_proof::{divergence, order_tags, verify_known_tag_rendering};
use crate::api::validation::{render_validation, validation_text, Owner, OwnerView};
use crate::group::ApiGroup;
use crate::schema::{api_stem_of, Fault, GenerationError, Message, MessageKind, Scope, ScopeView};
use crate::text::{doc_text, prose_lines, RustText};

verus! {

/// A message's own windows.
pub open spec fn message_scope(message: &Message) -> ScopeView {
    ScopeView {
        message,
        valid: message.valid_versions@,
        flexible: message.flexible_versions@.intersect(message.valid_versions@),
    }
}

/// Whether a message uses the flexible encoding in any version it supports.
pub open spec fn is_flexible(message: &Message) -> bool {
    message.flexible_versions@.intersect(message.valid_versions@) != Set::<int>::empty()
}

/// The direction word a message's doc names.
pub open spec fn direction_text(kind: MessageKind) -> Seq<char> {
    if kind == MessageKind::Request {
        "Request"@
    } else {
        "Response"@
    }
}

/// Everything one request or response renders to.
#[verifier::opaque]
pub open spec fn message_text(t: Seq<char>, d: nat, message: &Message, group: &ApiGroup) -> Seq<char> {
    if message.kind != MessageKind::Request && message.kind != MessageKind::Response {
        t
    } else {
        let scope = message_scope(message);
        let name = message.name.text@;
        let fields = message.fields@;
        let flexible = is_flexible(message);
        let default_word = spelling(message, S::Default);
        let t = declared_structs_text(t, d, message, message.structs.declarations@.len() as int);
        let t = t + doc_text(
            d,
            prose_lines(direction_text(message.kind) + " body for the `"@ + api_stem_of(name) + "` API."@),
        );
        let t = definition_text(t, d, name, fields, scope, default_word, flexible);
        let t = if !all_derive_default(fields, scope) {
            default_impl_text(t, d, name, fields, scope, default_word, flexible)
        } else {
            t
        };
        let t = protocol_eq_text(t, d, name, fields, message, flexible);
        let t = retained_size_text(t, d, name, fields, message, flexible);
        let t = metadata_text(t, d, message, group);
        let t = validation_text(t, d, name, fields, scope, OwnerView::Message, flexible);
        let t = decode_text(t, d, scope, flexible);
        kafka_encode_text(validated_encode_text(t, d, name, fields, scope, flexible), d, name, message)
    }
}

/// The refusal rendering one request or response raises.
#[verifier::opaque]
pub open spec fn message_render_fault(message: &Message) -> Option<Fault> {
    if message.kind != MessageKind::Request && message.kind != MessageKind::Response {
        None
    } else {
        let expected = order_tags(known_order(message.fields@));
        match structs_fault(message) {
            Some(f) => Some(f),
            None => match windows_fault(message) {
                Some(f) => Some(f),
                None => match decode_fault(message.fields@, message_scope(message), is_flexible(message)) {
                    Some(f) => Some(f),
                    None => if !is_flexible(message) && expected.len() > 0 {
                        Some(
                            Fault::InternalInvariant {
                                message: message.name.text@,
                                detail: divergence(message.name.text@, expected, expected, Seq::empty()),
                            },
                        )
                    } else {
                        None
                    },
                },
            },
        }
    }
}

fn render_message_doc(rust: &mut RustText, message: &Message, direction: &str)
    ensures
        final(rust).text() == old(rust).text() + doc_text(
            old(rust).depth(),
            prose_lines(direction@ + " body for the `"@ + api_stem_of(message.name.text@) + "` API."@),
        ),
        final(rust).depth() == old(rust).depth(),
{
    let stem = message.name.api_stem();
    let mut doc = crate::strings::owned(direction);
    doc.append(" body for the `");
    doc.append(stem.as_str());
    doc.append("` API.");
    rust.doc_line(doc.as_str());
}

/// Renders one request or response: the structs it declares, its own
/// struct, default, equality, footprint, metadata, validation and codecs,
/// and then checks that validation and encoding owned the same tags.
pub fn render_message(rust: &mut RustText, message: &Message, group: &ApiGroup) -> (r: Result<(), GenerationError>)
    requires
        old(rust).room(16),
    ensures
        match message_render_fault(message) {
            None => r is Ok && final(rust).text() == message_text(old(rust).text(), old(rust).depth(), message, group)
                && final(rust).depth() == old(rust).depth(),
            Some(f) => r matches Err(e) && e@ == f,
        },
{
    proof {
        reveal(message_text);
        reveal(message_render_fault);
    }
    let direction = match message.kind {
        MessageKind::Request => "Request",
        MessageKind::Response => "Response",
        MessageKind::Header | MessageKind::Data => return Ok(()),
    };
    let scope = Scope::of(message);
    assert(scope@ == message_scope(message));
    let flexible = !scope.flexible_versions.is_empty();
    let name = message.name.rust_type();
    render_declared_structs(rust, message)?;
    render_message_doc(rust, message, direction);
    let default_word = spell(message, S::Default);
    render_definition(rust, name, &message.fields, &scope, default_word.as_str(), flexible);
    if !derive_default(&message.fields, &scope) {
        render_default_impl(rust, name, &message.fields, &scope, default_word.as_str(), flexible);
    }
    render_protocol_eq(rust, name, &message.fields, message, flexible);
    render_retained_size(rust, name, &message.fields, message, flexible);
    render_metadata(rust, message, group)?;
    let validated = render_validation(rust, name, &message.fields, &scope, Owner::Message, flexible);
    render_decode(rust, &scope, flexible)?;
    let claimed = render_struct_encode(rust, name, &message.fields, &scope, flexible)?;
    proof {
        let expected = order_tags(known_order(message.fields@));
        assert(flexible == is_flexible(message));
        assert(validated@ == expected);
        if !flexible {
            assert(claimed@ == Seq::<u32>::empty());
        }
    }
    let checked = verify_known_tag_rendering(&message.fields, &scope, name, &validated, &claimed);
    if let Err(e) = checked {
        proof {
            let expected = order_tags(known_order(message.fields@));
            if expected.len() == 0 {
                assert(expected =~= Seq::<u32>::empty());
            }
            assert(!flexible && expected.len() > 0);
            assert(structs_fault(message) is None);
            assert(windows_fault(message) is None);
            assert(decode_fault(message.fields@, message_scope(message), is_flexible(message)) is None);
            assert(e@ == Fault::InternalInvariant {
                message: message.name.text@,
                detail: divergence(message.name.text@, expected, expected, Seq::empty()),
            });
        }
        return Err(e);
    }
    Ok(())
}

} // verus!
