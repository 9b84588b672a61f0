//! Properties that hold across the renderers and the provenance framing:
//! what validation establishes for rendering, that every validated field is
//! read with the wire method it is written with, that a version predicate
//! selects exactly its versions, that prose stays inside its doc comment,
//! that identifier marking only wraps protocol runs, that grouped literals
//! read back as their digits, that canonical bytes are unambiguous and
//! independent of walk order, and that every sorted listing comes out in order.

use vstd::prelude::*;

use crate::api::codec::{codec_fault, decode_fault, field_codec_fault};
use crate::api::declarations::structs_fault;
use crate::api::message::{is_flexible, message_render_fault, message_scope};
use crate::api::metadata::windows_fault;
use crate::api::tag_plan::{known_order, plan_order, sorted_insert};
use crate::api::tagged::{lemma_plan_order_indices, lemma_sorted_insert_members, plan_fault, tagged_field_fault, tags_fault};
use crate::api::tagged_proof::order_tags;
use crate::field::codec::{by_regime, element_text, gate_text, read_call, read_text, write_call, write_text};
use crate::field::regime::{flexible_for, null_shape, nullable_in, nullable_somewhere, present_in, regime};
use crate::naming::field_ident;
use crate::field::validate::{field_fault, fields_fault, message_fault, own_fault, supported_element};
use crate::order::{ascending, insert_text, lemma_lex_irreflexive, lemma_lex_total, lemma_lex_transitive, lex_less, sorted_texts};
use crate::schema::{Field, FieldType, Message, ScopeView};
use crate::text::{is_line_break, prose_lines};
use crate::field::version::{condition_of, condition_predicate, holds, joined_predicate, joined_tests, range_predicate, range_test, spelled};
use crate::api::prose::{flush_run, identifier_char, mark_from, marked, protocol_identifier};
use crate::field::types::{grouped_from, separated_text};
use crate::strings::{decimal, digits};
use crate::group::MessageSource;
use crate::versions::{canonical, contents, lemma_canon_of, lemma_in_domain, range_has, single_bounded_of, VersionRange, TOP_VERSION};
use crate::tag_census::{entry_less, insert_census, sorted_census};
use crate::source::{insert_source, key_less, sorted_sources, source_key, be_bytes, component, insert_labelled, lemma_sorted_labelled_len, sorted_labelled, stream, utf8_of};

verus! {

/// Every field of a list that passes validation passes it on its own.
proof fn lemma_fields_pass(fields: Seq<Field>, message: &Message, valid: Set<int>, flexible: Set<int>)
    requires
        fields_fault(fields, message, valid, flexible) is None,
    ensures
        forall|i: int| 0 <= i < fields.len() ==> own_fault(#[trigger] fields[i], message, valid, flexible) is None,
    decreases fields.len(),
{
    if fields.len() > 0 {
        lemma_fields_pass(fields.drop_first(), message, valid, flexible);
        assert forall|i: int| 0 <= i < fields.len() implies own_fault(#[trigger] fields[i], message, valid, flexible)
            is None by {
            if i > 0 {
                assert(fields[i] == fields.drop_first()[i - 1]);
            } else {
                assert(field_fault(fields[0], message, valid, flexible) is None);
            }
        }
    }
}

/// A validated field has a codec, whether it travels inline or tagged.
proof fn lemma_field_has_codec(field: Field, message: &Message, scope: ScopeView)
    requires
        own_fault(field, message, scope.valid, scope.flexible) is None,
    ensures
        field_codec_fault(field, scope) is None,
        tagged_field_fault(field, scope) is None,
{
    match field.ty {
        FieldType::Array(element) => {
            assert(supported_element(*element));
            assert(element_text(*element, &field, scope) is Some);
        },
        _ => {},
    }
}

proof fn lemma_codec_clean(fields: Seq<Field>, n: int, scope: ScopeView)
    requires
        0 <= n <= fields.len(),
        forall|i: int| 0 <= i < fields.len() ==> field_codec_fault(#[trigger] fields[i], scope) is None,
    ensures
        codec_fault(fields, n, scope) is None,
    decreases n,
{
    if n > 0 {
        lemma_codec_clean(fields, n - 1, scope);
    }
}

proof fn lemma_tags_clean(fields: Seq<Field>, keys: Seq<(u32, int)>, n: int, scope: ScopeView)
    requires
        0 <= n <= keys.len(),
        forall|k: int| 0 <= k < keys.len() ==> 0 <= (#[trigger] keys[k]).1 < fields.len(),
        forall|i: int| 0 <= i < fields.len() ==> tagged_field_fault(#[trigger] fields[i], scope) is None,
    ensures
        plan_fault(fields, keys, n, scope) is None,
    decreases n,
{
    if n > 0 {
        lemma_tags_clean(fields, keys, n - 1, scope);
        assert(tagged_field_fault(fields[keys[n - 1].1], scope) is None);
    }
}

/// Validation establishes every window fact that rendering a message's
/// metadata extracts: a message that validates has one bounded supported
/// interval and, where it is flexible at all, one bounded flexible interval.
pub proof fn lemma_validated_windows(message: &Message)
    requires
        message_fault(message) is None,
    ensures
        windows_fault(message) is None,
{
}

/// A message that validates decodes and encodes without a codec refusal:
/// every array it declares, inline or tagged, has an element codec.
pub proof fn lemma_validated_codecs(message: &Message)
    requires
        message_fault(message) is None,
    ensures
        decode_fault(message.fields@, message_scope(message), is_flexible(message)) is None,
{
    let scope = message_scope(message);
    let fields = message.fields@;
    lemma_fields_pass(fields, message, scope.valid, scope.flexible);
    assert forall|i: int| 0 <= i < fields.len() implies field_codec_fault(#[trigger] fields[i], scope) is None
        && tagged_field_fault(fields[i], scope) is None by {
        lemma_field_has_codec(fields[i], message, scope);
    }
    lemma_codec_clean(fields, fields.len() as int, scope);
    lemma_plan_order_indices(fields, fields.len() as int);
    let keys = known_order(fields);
    lemma_tags_clean(fields, keys, keys.len() as int, scope);
}

/// In a message that validates, the generated validator and the generated
/// encoder own exactly the same tags: a known tag implies a flexible window,
/// so the encoder's tagged section exists to claim it.
pub proof fn lemma_validated_tags_agree(message: &Message)
    requires
        message_fault(message) is None,
    ensures
        order_tags(known_order(message.fields@)).len() > 0 ==> is_flexible(message),
{
    let scope = message_scope(message);
    let fields = message.fields@;
    let keys = known_order(fields);
    if keys.len() > 0 {
        lemma_plan_order_indices(fields, fields.len() as int);
        lemma_fields_pass(fields, message, scope.valid, scope.flexible);
        let field = fields[keys[0].1];
        assert(own_fault(field, message, scope.valid, scope.flexible) is None);
        let present = field.versions@.intersect(scope.valid);
        assert(present != Set::<int>::empty());
        if forall|a: int| !present.contains(a) {
            assert(present =~= Set::<int>::empty());
        }
        let v = choose|a: int| present.contains(a);
        assert(present.contains(v));
        assert(present.subset_of(scope.flexible));
        assert(scope.flexible.contains(v));
        assert(message.flexible_versions@.intersect(message.valid_versions@) != Set::<int>::empty());
    }
}

/// Once its declared structs render, a message that validates renders with
/// no refusal at all: every fact its own rendering extracts, and the
/// agreement of validation and encoding on its tags, follow from validation.
pub proof fn lemma_validated_message_renders(message: &Message)
    requires
        message_fault(message) is None,
        structs_fault(message) is None,
    ensures
        message_render_fault(message) is None,
{
    reveal(message_render_fault);
    lemma_validated_windows(message);
    lemma_validated_codecs(message);
    lemma_validated_tags_agree(message);
}

/// The known tags of a field list are in ascending tag order.
pub proof fn lemma_known_order_ascending(fields: Seq<Field>)
    ensures
        forall|i: int, j: int|
            0 <= i < j < known_order(fields).len() ==> (#[trigger] known_order(fields)[i]).0 <= (#[trigger] known_order(
                fields,
            )[j]).0,
{
    lemma_plan_order_sorted(fields, fields.len() as int);
}

proof fn lemma_plan_order_sorted(fields: Seq<Field>, n: int)
    ensures
        forall|i: int, j: int|
            0 <= i < j < plan_order(fields, n).len() ==> (#[trigger] plan_order(fields, n)[i]).0 <= (#[trigger] plan_order(
                fields,
                n,
            )[j]).0,
    decreases n,
{
    if n > 0 {
        lemma_plan_order_sorted(fields, n - 1);
        match fields[n - 1].tag {
            Some(tag) => {
                lemma_sorted_insert_sorted(plan_order(fields, n - 1), (tag, n - 1));
                assert(plan_order(fields, n) == sorted_insert(plan_order(fields, n - 1), (tag, n - 1)));
            },
            None => {
                assert(plan_order(fields, n) == plan_order(fields, n - 1));
            },
        }
    }
}

proof fn lemma_sorted_insert_sorted(s: Seq<(u32, int)>, x: (u32, int))
    requires
        forall|i: int, j: int| 0 <= i < j < s.len() ==> (#[trigger] s[i]).0 <= (#[trigger] s[j]).0,
    ensures
        forall|i: int, j: int|
            0 <= i < j < sorted_insert(s, x).len() ==> (#[trigger] sorted_insert(s, x)[i]).0 <= (#[trigger] sorted_insert(
                s,
                x,
            )[j]).0,
    decreases s.len(),
{
    lemma_sorted_insert_members(s, x);
    let r = sorted_insert(s, x);
    if s.len() == 0 {
    } else if s[0].0 > x.0 {
        assert forall|i: int, j: int| 0 <= i < j < r.len() implies (#[trigger] r[i]).0 <= (#[trigger] r[j]).0 by {
            if i > 0 {
                assert(r[i] == s[i - 1]);
                assert(r[j] == s[j - 1]);
            } else {
                assert(r[j] == s[j - 1]);
                if j - 1 > 0 {
                    assert(s[0].0 <= s[j - 1].0);
                }
            }
        }
    } else {
        let rest = s.drop_first();
        assert forall|i: int, j: int| 0 <= i < j < rest.len() implies (#[trigger] rest[i]).0 <= (#[trigger] rest[j]).0 by {
            assert(rest[i] == s[i + 1]);
            assert(rest[j] == s[j + 1]);
        }
        lemma_sorted_insert_sorted(rest, x);
        lemma_sorted_insert_members(rest, x);
        let tail = sorted_insert(rest, x);
        assert forall|i: int, j: int| 0 <= i < j < r.len() implies (#[trigger] r[i]).0 <= (#[trigger] r[j]).0 by {
            if i == 0 {
                assert(r[j] == tail[j - 1]);
                if tail[j - 1] != x {
                    let k = choose|k: int| 0 <= k < rest.len() && rest[k] == tail[j - 1];
                    assert(rest[k] == s[k + 1]);
                }
            } else {
                assert(r[i] == tail[i - 1]);
                assert(r[j] == tail[j - 1]);
            }
        }
    }
}

/// A gate whose two arms agree is no gate: the one form is emitted alone.
pub proof fn lemma_gate_collapses(form: Seq<char>)
    ensures
        gate_text(form, form) == form,
{
}

/// A stably sorted listing of texts is in non-decreasing order.
pub proof fn lemma_sorted_texts_ascending(s: Seq<Seq<char>>, n: int)
    requires
        0 <= n <= s.len(),
    ensures
        ascending(sorted_texts(s, n)),
    decreases n,
{
    if n > 0 {
        lemma_sorted_texts_ascending(s, n - 1);
        lemma_insert_text_ascending(sorted_texts(s, n - 1), s[n - 1]);
    }
}

proof fn lemma_insert_text_members(s: Seq<Seq<char>>, x: Seq<char>)
    ensures
        insert_text(s, x).len() == s.len() + 1,
        forall|k: int| 0 <= k < s.len() + 1 ==> (#[trigger] insert_text(s, x)[k] == x || s.contains(insert_text(s, x)[k])),
    decreases s.len(),
{
    if s.len() > 0 && !lex_less(x, s[0]) {
        let rest = s.drop_first();
        lemma_insert_text_members(rest, x);
        let r = insert_text(s, x);
        assert forall|k: int| 0 <= k < s.len() + 1 implies (#[trigger] r[k] == x || s.contains(r[k])) by {
            if k == 0 {
                assert(s[0] == r[0]);
            } else {
                assert(r[k] == insert_text(rest, x)[k - 1]);
                if rest.contains(r[k]) {
                    let j = choose|j: int| 0 <= j < rest.len() && rest[j] == r[k];
                    assert(s[j + 1] == r[k]);
                }
            }
        }
    } else if s.len() > 0 {
        let r = insert_text(s, x);
        assert forall|k: int| 0 <= k < s.len() + 1 implies (#[trigger] r[k] == x || s.contains(r[k])) by {
            if k > 0 {
                assert(r[k] == s[k - 1]);
            }
        }
    }
}

proof fn lemma_insert_text_ascending(s: Seq<Seq<char>>, x: Seq<char>)
    requires
        ascending(s),
    ensures
        ascending(insert_text(s, x)),
    decreases s.len(),
{
    let r = insert_text(s, x);
    lemma_insert_text_members(s, x);
    if s.len() == 0 {
    } else if lex_less(x, s[0]) {
        assert forall|i: int, j: int| 0 <= i < j < r.len() implies !lex_less(#[trigger] r[j], #[trigger] r[i]) by {
            if i > 0 {
                assert(r[i] == s[i - 1]);
                assert(r[j] == s[j - 1]);
            } else {
                assert(r[j] == s[j - 1]);
                if lex_less(s[j - 1], x) {
                    if j - 1 > 0 {
                        assert(!lex_less(s[j - 1], s[0]));
                        lemma_lex_transitive(s[j - 1], x, s[0]);
                    } else {
                        lemma_lex_transitive(x, s[0], x);
                        lemma_lex_irreflexive(x);
                    }
                }
            }
        }
    } else {
        let rest = s.drop_first();
        assert forall|i: int, j: int| 0 <= i < j < rest.len() implies !lex_less(#[trigger] rest[j], #[trigger] rest[i]) by {
            assert(rest[i] == s[i + 1]);
            assert(rest[j] == s[j + 1]);
        }
        lemma_insert_text_ascending(rest, x);
        lemma_insert_text_members(rest, x);
        let tail = insert_text(rest, x);
        assert forall|i: int, j: int| 0 <= i < j < r.len() implies !lex_less(#[trigger] r[j], #[trigger] r[i]) by {
            if i == 0 {
                assert(r[0] == s[0]);
                assert(r[j] == tail[j - 1]);
                if tail[j - 1] == x {
                    assert(!lex_less(x, s[0]));
                } else {
                    let k = choose|k: int| 0 <= k < rest.len() && rest[k] == tail[j - 1];
                    assert(rest[k] == s[k + 1]);
                }
            } else {
                assert(r[i] == tail[i - 1]);
                assert(r[j] == tail[j - 1]);
            }
        }
    }
}

/// The wire method a scalar value of `ty` is carried by: the decoder reads it
/// with `read_` and this name, the encoder writes it with `write_` and this name.
pub open spec fn wire_method(ty: FieldType, nullable: bool, compact: bool) -> Seq<char> {
    let family: Seq<char> = match ty {
        FieldType::String => "string"@,
        FieldType::Bool => "bool"@,
        FieldType::Int8 => "i8"@,
        FieldType::Int16 => "i16"@,
        FieldType::Uint16 => "u16"@,
        FieldType::Uint32 => "u32"@,
        FieldType::Int32 => "i32"@,
        FieldType::Int64 => "i64"@,
        FieldType::Uuid => "uuid"@,
        FieldType::Float64 => "float64"@,
        _ => "bytes"@,
    };
    if ty is String || ty is Bytes || ty is Records {
        (if compact { "compact_"@ } else { Seq::empty() }) + (if nullable { "nullable_"@ } else { Seq::empty() }) + family
    } else {
        family
    }
}

/// The argument an encoder call hands over for a scalar member `name`.
pub open spec fn write_argument(ty: FieldType, name: Seq<char>, nullable: bool) -> Seq<char> {
    if ty is String && nullable {
        "self."@ + name + ".as_ref()"@
    } else if (ty is Bytes || ty is Records) && nullable {
        "self."@ + name + ".as_deref()"@
    } else if ty is String || ty is Bytes || ty is Records {
        "&self."@ + name
    } else {
        "self."@ + name
    }
}

/// Whether a type is carried by one scalar wire method.
pub open spec fn is_scalar(ty: FieldType) -> bool {
    !(ty is Struct || ty is Array)
}

/// A field that passes validation is read with exactly the wire method it is
/// written with: one regime decides compact against legacy for both
/// directions, one nullability decides the null-capable form for both, and
/// the two calls name the same method.
pub proof fn lemma_validated_field_reads_what_it_writes(field: Field, scope: ScopeView)
    requires
        own_fault(field, scope.message, scope.valid, scope.flexible) is None,
        is_scalar(field.ty),
    ensures
        ({
            let encoding = regime(present_in(&field, scope), flexible_for(&field, scope));
            let nullable = nullable_somewhere(&field, scope);
            let name = field_ident(field.name.text@);
            &&& read_text(&field, scope) == by_regime(
                encoding,
                "decoder.read_"@ + wire_method(field.ty, nullable, true) + "()?"@,
                "decoder.read_"@ + wire_method(field.ty, nullable, false) + "()?"@,
            )
            &&& write_text(&field, scope) == by_regime(
                encoding,
                "encoder.write_"@ + wire_method(field.ty, nullable, true) + "("@ + write_argument(field.ty, name, nullable)
                    + ")?;"@,
                "encoder.write_"@ + wire_method(field.ty, nullable, false) + "("@ + write_argument(field.ty, name, nullable)
                    + ")?;"@,
            )
        }),
{
    let present = present_in(&field, scope);
    let nullable = field.nullable_versions@.intersect(scope.valid);
    assert(nullable == Set::<int>::empty() || nullable == present);
    if nullable == Set::<int>::empty() {
        assert(nullable_in(&field, scope) =~= Set::<int>::empty());
        assert(null_shape(&field, scope) is Never);
    } else {
        assert(nullable_in(&field, scope) =~= present);
        assert(null_shape(&field, scope) is Always);
    }
    let name = field_ident(field.name.text@);
    let n = nullable_somewhere(&field, scope);
    lemma_methods_agree(field.ty, name, n, true);
    lemma_methods_agree(field.ty, name, n, false);
}

/// One call of each direction names the same wire method.
proof fn lemma_methods_agree(ty: FieldType, name: Seq<char>, n: bool, c: bool)
    requires
        is_scalar(ty),
    ensures
        read_call(ty, n, c) == "decoder.read_"@ + wire_method(ty, n, c) + "()?"@,
        write_call(ty, name, n, c) == "encoder.write_"@ + wire_method(ty, n, c) + "("@ + write_argument(ty, name, n) + ")?;"@,
{
    reveal_strlit("decoder.read_");
    reveal_strlit("encoder.write_");
    reveal_strlit("()?");
    reveal_strlit("(");
    reveal_strlit(")?;");
    reveal_strlit("self.");
    reveal_strlit("&self.");
    match ty {
        FieldType::String | FieldType::Bytes | FieldType::Records => lemma_prefixed_methods_agree(ty, name, n, c),
        _ => lemma_fixed_methods_agree(ty, name, n, c),
    }
}

proof fn lemma_prefixed_methods_agree(ty: FieldType, name: Seq<char>, n: bool, c: bool)
    requires
        ty is String || ty is Bytes || ty is Records,
    ensures
        read_call(ty, n, c) =~= "decoder.read_"@ + wire_method(ty, n, c) + "()?"@,
        write_call(ty, name, n, c) =~= "encoder.write_"@ + wire_method(ty, n, c) + "("@ + write_argument(ty, name, n) + ")?;"@,
{
    reveal_strlit("decoder.read_");
    reveal_strlit("encoder.write_");
    reveal_strlit("()?");
    reveal_strlit("(");
    reveal_strlit(")?;");
    reveal_strlit("self.");
    reveal_strlit("&self.");
    reveal_strlit("compact_");
    reveal_strlit("nullable_");
    reveal_strlit(".as_ref()");
    reveal_strlit(".as_deref()");
    reveal_strlit(".as_ref())?;");
    reveal_strlit(".as_deref())?;");
    reveal_strlit("string");
    reveal_strlit("bytes");
    reveal_strlit("decoder.read_compact_nullable_string()?");
    reveal_strlit("decoder.read_nullable_string()?");
    reveal_strlit("decoder.read_compact_string()?");
    reveal_strlit("decoder.read_string()?");
    reveal_strlit("decoder.read_compact_nullable_bytes()?");
    reveal_strlit("decoder.read_nullable_bytes()?");
    reveal_strlit("decoder.read_compact_bytes()?");
    reveal_strlit("decoder.read_bytes()?");
    reveal_strlit("encoder.write_compact_nullable_string(self.");
    reveal_strlit("encoder.write_nullable_string(self.");
    reveal_strlit("encoder.write_compact_string(&self.");
    reveal_strlit("encoder.write_string(&self.");
    reveal_strlit("encoder.write_compact_nullable_bytes(self.");
    reveal_strlit("encoder.write_nullable_bytes(self.");
    reveal_strlit("encoder.write_compact_bytes(&self.");
    reveal_strlit("encoder.write_bytes(&self.");
}

proof fn lemma_fixed_methods_agree(ty: FieldType, name: Seq<char>, n: bool, c: bool)
    requires
        is_scalar(ty),
        !(ty is String || ty is Bytes || ty is Records),
    ensures
        read_call(ty, n, c) =~= "decoder.read_"@ + wire_method(ty, n, c) + "()?"@,
        write_call(ty, name, n, c) =~= "encoder.write_"@ + wire_method(ty, n, c) + "("@ + write_argument(ty, name, n) + ")?;"@,
{
    reveal_strlit("decoder.read_");
    reveal_strlit("encoder.write_");
    reveal_strlit("()?");
    reveal_strlit("(");
    reveal_strlit(")?;");
    reveal_strlit("self.");
    reveal_strlit("bool");
    reveal_strlit("i8");
    reveal_strlit("i16");
    reveal_strlit("u16");
    reveal_strlit("u32");
    reveal_strlit("i32");
    reveal_strlit("i64");
    reveal_strlit("uuid");
    reveal_strlit("float64");
    reveal_strlit("decoder.read_bool()?");
    reveal_strlit("decoder.read_i8()?");
    reveal_strlit("decoder.read_i16()?");
    reveal_strlit("decoder.read_u16()?");
    reveal_strlit("decoder.read_u32()?");
    reveal_strlit("decoder.read_i32()?");
    reveal_strlit("decoder.read_i64()?");
    reveal_strlit("decoder.read_uuid()?");
    reveal_strlit("decoder.read_float64()?");
    reveal_strlit("encoder.write_bool(self.");
    reveal_strlit("encoder.write_i8(self.");
    reveal_strlit("encoder.write_i16(self.");
    reveal_strlit("encoder.write_u16(self.");
    reveal_strlit("encoder.write_u32(self.");
    reveal_strlit("encoder.write_i32(self.");
    reveal_strlit("encoder.write_i64(self.");
    reveal_strlit("encoder.write_uuid(self.");
    reveal_strlit("encoder.write_float64(self.");
}

/// Prose handed to `doc_line` cannot escape its doc comment: no physical
/// line it is split into holds a line break, so every line the doc text
/// emits begins with the `/// ` prefix at its depth.
pub proof fn lemma_prose_cannot_escape_doc(s: Seq<char>)
    ensures
        prose_lines(s).len() > 0,
        forall|i: int, j: int|
            0 <= i < prose_lines(s).len() && 0 <= j < prose_lines(s)[i].len() ==> !is_line_break(
                #[trigger] prose_lines(s)[i][j],
            ),
    decreases s.len(),
{
    if s.len() == 0 {
    } else if is_line_break(s[0]) {
        let skip = if s[0] == '\r' && s.len() > 1 && s[1] == '\n' { 2int } else { 1int };
        let rest = prose_lines(s.skip(skip));
        lemma_prose_cannot_escape_doc(s.skip(skip));
        assert forall|i: int, j: int| 0 <= i < prose_lines(s).len() && 0 <= j < prose_lines(s)[i].len() implies !is_line_break(
            #[trigger] prose_lines(s)[i][j],
        ) by {
            assert(prose_lines(s)[i] == (seq![Seq::<char>::empty()] + rest)[i]);
            if i > 0 {
                assert(prose_lines(s)[i] == rest[i - 1]);
            }
        }
    } else {
        let rest = prose_lines(s.drop_first());
        lemma_prose_cannot_escape_doc(s.drop_first());
        assert forall|i: int, j: int| 0 <= i < prose_lines(s).len() && 0 <= j < prose_lines(s)[i].len() implies !is_line_break(
            #[trigger] prose_lines(s)[i][j],
        ) by {
            if i == 0 {
                assert(prose_lines(s)[0] == seq![s[0]] + rest[0]);
                if j > 0 {
                    assert(prose_lines(s)[0][j] == rest[0][j - 1]);
                }
            } else {
                assert(prose_lines(s)[i] == rest[i]);
            }
        }
    }
}

/// Whether no two components share a label.
pub open spec fn distinct_labels(s: Seq<(Seq<char>, Seq<u8>)>) -> bool {
    forall|i: int, j: int| 0 <= i < s.len() && 0 <= j < s.len() && i != j ==> (#[trigger] s[i]).0 != (#[trigger] s[j]).0
}

/// Whether labels strictly ascend.
pub open spec fn strictly_ascending(s: Seq<(Seq<char>, Seq<u8>)>) -> bool {
    forall|i: int, j: int| 0 <= i < j < s.len() ==> lex_less((#[trigger] s[i]).0, (#[trigger] s[j]).0)
}

proof fn lemma_insert_labelled_contains(s: Seq<(Seq<char>, Seq<u8>)>, x: (Seq<char>, Seq<u8>))
    ensures
        forall|y: (Seq<char>, Seq<u8>)| #[trigger] insert_labelled(s, x).contains(y) <==> (s.contains(y) || y == x),
    decreases s.len(),
{
    let r = insert_labelled(s, x);
    if s.len() == 0 {
        assert(r =~= seq![x]);
        assert(r[0] == x);
    } else if lex_less(x.0, s[0].0) {
        assert forall|y: (Seq<char>, Seq<u8>)| #[trigger] r.contains(y) <==> (s.contains(y) || y == x) by {
            if r.contains(y) {
                let k = choose|k: int| 0 <= k < r.len() && r[k] == y;
                if k > 0 {
                    assert(s[k - 1] == y);
                }
            }
            if s.contains(y) {
                let k = choose|k: int| 0 <= k < s.len() && s[k] == y;
                assert(r[k + 1] == y);
            }
            if y == x {
                assert(r[0] == x);
            }
        }
    } else {
        let rest = s.drop_first();
        lemma_insert_labelled_contains(rest, x);
        let tail = insert_labelled(rest, x);
        assert forall|y: (Seq<char>, Seq<u8>)| #[trigger] r.contains(y) <==> (s.contains(y) || y == x) by {
            if r.contains(y) {
                let k = choose|k: int| 0 <= k < r.len() && r[k] == y;
                if k == 0 {
                    assert(s[0] == y);
                } else {
                    assert(tail[k - 1] == y);
                    assert(tail.contains(y));
                    if rest.contains(y) {
                        let m = choose|m: int| 0 <= m < rest.len() && rest[m] == y;
                        assert(s[m + 1] == y);
                    }
                }
            }
            if s.contains(y) {
                let k = choose|k: int| 0 <= k < s.len() && s[k] == y;
                if k == 0 {
                    assert(r[0] == y);
                } else {
                    assert(rest[k - 1] == y);
                    assert(tail.contains(y));
                    let m = choose|m: int| 0 <= m < tail.len() && tail[m] == y;
                    assert(r[m + 1] == y);
                }
            }
            if y == x {
                assert(tail.contains(x));
                let m = choose|m: int| 0 <= m < tail.len() && tail[m] == x;
                assert(r[m + 1] == x);
            }
        }
    }
}

proof fn lemma_insert_labelled_strict(s: Seq<(Seq<char>, Seq<u8>)>, x: (Seq<char>, Seq<u8>))
    requires
        strictly_ascending(s),
        forall|i: int| 0 <= i < s.len() ==> (#[trigger] s[i]).0 != x.0,
    ensures
        strictly_ascending(insert_labelled(s, x)),
    decreases s.len(),
{
    let r = insert_labelled(s, x);
    if s.len() == 0 {
        assert(r =~= seq![x]);
    } else if lex_less(x.0, s[0].0) {
        assert forall|i: int, j: int| 0 <= i < j < r.len() implies lex_less((#[trigger] r[i]).0, (#[trigger] r[j]).0) by {
            assert(r[j] == s[j - 1]);
            if i > 0 {
                assert(r[i] == s[i - 1]);
            } else if j - 1 > 0 {
                lemma_lex_transitive(x.0, s[0].0, s[j - 1].0);
            }
        }
    } else {
        let rest = s.drop_first();
        assert forall|i: int, j: int| 0 <= i < j < rest.len() implies lex_less((#[trigger] rest[i]).0, (#[trigger] rest[j]).0) by {
            assert(rest[i] == s[i + 1] && rest[j] == s[j + 1]);
        }
        assert forall|i: int| 0 <= i < rest.len() implies (#[trigger] rest[i]).0 != x.0 by {
            assert(rest[i] == s[i + 1]);
        }
        lemma_insert_labelled_strict(rest, x);
        lemma_insert_labelled_contains(rest, x);
        let tail = insert_labelled(rest, x);
        lemma_lex_total(x.0, s[0].0);
        assert forall|i: int, j: int| 0 <= i < j < r.len() implies lex_less((#[trigger] r[i]).0, (#[trigger] r[j]).0) by {
            assert(r[j] == tail[j - 1]);
            if i > 0 {
                assert(r[i] == tail[i - 1]);
            } else {
                assert(r[0] == s[0]);
                assert(tail.contains(tail[j - 1]));
                let y = tail[j - 1];
                if y == x {
                } else {
                    assert(rest.contains(y));
                    let m = choose|m: int| 0 <= m < rest.len() && rest[m] == y;
                    assert(s[m + 1] == y);
                }
            }
        }
    }
}

proof fn lemma_sorted_labelled_facts(s: Seq<(Seq<char>, Seq<u8>)>, n: int)
    requires
        0 <= n <= s.len(),
        distinct_labels(s),
    ensures
        strictly_ascending(sorted_labelled(s, n)),
        forall|y: (Seq<char>, Seq<u8>)| #[trigger] sorted_labelled(s, n).contains(y) <==> s.take(n).contains(y),
    decreases n,
{
    if n == 0 {
        assert(sorted_labelled(s, 0) =~= Seq::<(Seq<char>, Seq<u8>)>::empty());
        assert(s.take(0) =~= Seq::<(Seq<char>, Seq<u8>)>::empty());
    } else {
        lemma_sorted_labelled_facts(s, n - 1);
        let before = sorted_labelled(s, n - 1);
        let x = s[n - 1];
        assert forall|i: int| 0 <= i < before.len() implies (#[trigger] before[i]).0 != x.0 by {
            assert(before.contains(before[i]));
            let prefix = s.take(n - 1);
            assert(prefix.contains(before[i]));
            let k = choose|k: int| 0 <= k < prefix.len() && prefix[k] == before[i];
            assert(s[k] == before[i]);
        }
        lemma_insert_labelled_strict(before, x);
        lemma_insert_labelled_contains(before, x);
        assert(s.take(n) =~= s.take(n - 1).push(x));
        assert forall|y: (Seq<char>, Seq<u8>)| #[trigger] sorted_labelled(s, n).contains(y) <==> s.take(n).contains(y) by {
            let whole = s.take(n);
            let prefix = s.take(n - 1);
            if whole.contains(y) {
                let k = choose|k: int| 0 <= k < whole.len() && whole[k] == y;
                if k < n - 1 {
                    assert(prefix[k] == y);
                }
            }
            if prefix.contains(y) {
                let k = choose|k: int| 0 <= k < prefix.len() && prefix[k] == y;
                assert(whole[k] == y);
            }
            if y == x {
                assert(whole[n - 1] == x);
            }
        }
    }
}

proof fn lemma_strict_sequences_equal(a: Seq<(Seq<char>, Seq<u8>)>, b: Seq<(Seq<char>, Seq<u8>)>)
    requires
        strictly_ascending(a),
        strictly_ascending(b),
        forall|y: (Seq<char>, Seq<u8>)| #[trigger] a.contains(y) <==> b.contains(y),
    ensures
        a == b,
    decreases a.len(),
{
    if a.len() == 0 {
        if b.len() > 0 {
            assert(b.contains(b[0]));
            assert(a.contains(b[0]));
        }
        assert(a =~= b);
    } else {
        assert(a.contains(a[0]));
        assert(b.contains(a[0]));
        let k = choose|k: int| 0 <= k < b.len() && b[k] == a[0];
        assert(b.contains(b[0]));
        assert(a.contains(b[0]));
        let m = choose|m: int| 0 <= m < a.len() && a[m] == b[0];
        if k > 0 {
            assert(lex_less(b[0].0, b[k].0));
            if m > 0 {
                assert(lex_less(a[0].0, a[m].0));
                lemma_lex_transitive(a[0].0, a[m].0, a[0].0);
            }
            lemma_lex_irreflexive(a[0].0);
        }
        assert(a[0] == b[0]);
        let ta = a.drop_first();
        let tb = b.drop_first();
        assert forall|i: int, j: int| 0 <= i < j < ta.len() implies lex_less((#[trigger] ta[i]).0, (#[trigger] ta[j]).0) by {
            assert(ta[i] == a[i + 1] && ta[j] == a[j + 1]);
        }
        assert forall|i: int, j: int| 0 <= i < j < tb.len() implies lex_less((#[trigger] tb[i]).0, (#[trigger] tb[j]).0) by {
            assert(tb[i] == b[i + 1] && tb[j] == b[j + 1]);
        }
        assert forall|y: (Seq<char>, Seq<u8>)| #[trigger] ta.contains(y) <==> tb.contains(y) by {
            if ta.contains(y) {
                let i = choose|i: int| 0 <= i < ta.len() && ta[i] == y;
                assert(a[i + 1] == y);
                assert(a.contains(y));
                assert(b.contains(y));
                assert(lex_less(a[0].0, y.0));
                lemma_lex_irreflexive(y.0);
                let j = choose|j: int| 0 <= j < b.len() && b[j] == y;
                assert(j != 0);
                assert(tb[j - 1] == y);
            }
            if tb.contains(y) {
                let i = choose|i: int| 0 <= i < tb.len() && tb[i] == y;
                assert(b[i + 1] == y);
                assert(b.contains(y));
                assert(a.contains(y));
                assert(lex_less(b[0].0, y.0));
                lemma_lex_irreflexive(y.0);
                let j = choose|j: int| 0 <= j < a.len() && a[j] == y;
                assert(j != 0);
                assert(ta[j - 1] == y);
            }
        }
        lemma_strict_sequences_equal(ta, tb);
        assert(a =~= seq![a[0]] + ta);
        assert(b =~= seq![b[0]] + tb);
    }
}

/// The canonical bytes of a set of files do not depend on the order a
/// directory walk listed them in: any two listings of the same components,
/// with no label listed twice, frame to the same stream.
pub proof fn lemma_canonical_bytes_ignore_walk_order(a: Seq<(Seq<char>, Seq<u8>)>, b: Seq<(Seq<char>, Seq<u8>)>)
    requires
        distinct_labels(a),
        distinct_labels(b),
        a.to_set() == b.to_set(),
    ensures
        stream(sorted_labelled(a, a.len() as int), a.len() as int) == stream(sorted_labelled(b, b.len() as int), b.len() as int),
{
    lemma_sorted_labelled_facts(a, a.len() as int);
    lemma_sorted_labelled_facts(b, b.len() as int);
    assert(a.take(a.len() as int) =~= a);
    assert(b.take(b.len() as int) =~= b);
    assert forall|y: (Seq<char>, Seq<u8>)| #[trigger] sorted_labelled(a, a.len() as int).contains(y)
        <==> sorted_labelled(b, b.len() as int).contains(y) by {
        assert(a.to_set().contains(y) == a.contains(y));
        assert(b.to_set().contains(y) == b.contains(y));
    }
    lemma_strict_sequences_equal(sorted_labelled(a, a.len() as int), sorted_labelled(b, b.len() as int));
    lemma_sorted_labelled_len(a, a.len() as int);
    lemma_sorted_labelled_len(b, b.len() as int);
}

/// The stream of `cs` read from its first component on.
proof fn lemma_stream_front(cs: Seq<(Seq<char>, Seq<u8>)>, n: int)
    requires
        1 <= n <= cs.len(),
    ensures
        stream(cs, n) == component(utf8_of(cs[0].0), cs[0].1) + stream(cs.drop_first(), n - 1),
    decreases n,
{
    if n > 1 {
        lemma_stream_front(cs, n - 1);
        assert(cs.drop_first()[n - 2] == cs[n - 1]);
        assert(stream(cs, n) =~= component(utf8_of(cs[0].0), cs[0].1) + stream(cs.drop_first(), n - 1));
    } else {
        assert(stream(cs.drop_first(), 0) =~= Seq::<u8>::empty());
        assert(stream(cs, 0) =~= Seq::<u8>::empty());
        assert(stream(cs, 1) =~= component(utf8_of(cs[0].0), cs[0].1));
    }
}

/// Eight big-endian bytes name one `u64`.
proof fn lemma_be_bytes_injective(n: u64, m: u64)
    requires
        be_bytes(n) == be_bytes(m),
    ensures
        n == m,
{
    assert(be_bytes(n)[0] == be_bytes(m)[0]);
    assert(be_bytes(n)[0] == ((n >> 56u64) & 0xffu64) as u8);
    assert(be_bytes(m)[0] == ((m >> 56u64) & 0xffu64) as u8);
    assert(be_bytes(n)[1] == be_bytes(m)[1]);
    assert(be_bytes(n)[1] == ((n >> 48u64) & 0xffu64) as u8);
    assert(be_bytes(m)[1] == ((m >> 48u64) & 0xffu64) as u8);
    assert(be_bytes(n)[2] == be_bytes(m)[2]);
    assert(be_bytes(n)[2] == ((n >> 40u64) & 0xffu64) as u8);
    assert(be_bytes(m)[2] == ((m >> 40u64) & 0xffu64) as u8);
    assert(be_bytes(n)[3] == be_bytes(m)[3]);
    assert(be_bytes(n)[3] == ((n >> 32u64) & 0xffu64) as u8);
    assert(be_bytes(m)[3] == ((m >> 32u64) & 0xffu64) as u8);
    assert(be_bytes(n)[4] == be_bytes(m)[4]);
    assert(be_bytes(n)[4] == ((n >> 24u64) & 0xffu64) as u8);
    assert(be_bytes(m)[4] == ((m >> 24u64) & 0xffu64) as u8);
    assert(be_bytes(n)[5] == be_bytes(m)[5]);
    assert(be_bytes(n)[5] == ((n >> 16u64) & 0xffu64) as u8);
    assert(be_bytes(m)[5] == ((m >> 16u64) & 0xffu64) as u8);
    assert(be_bytes(n)[6] == be_bytes(m)[6]);
    assert(be_bytes(n)[6] == ((n >> 8u64) & 0xffu64) as u8);
    assert(be_bytes(m)[6] == ((m >> 8u64) & 0xffu64) as u8);
    assert(be_bytes(n)[7] == be_bytes(m)[7]);
    assert(be_bytes(n)[7] == ((n >> 0u64) & 0xffu64) as u8);
    assert(be_bytes(m)[7] == ((m >> 0u64) & 0xffu64) as u8);
    assert(n == m) by (bit_vector)
        requires
            ((n >> 56u64) & 0xffu64) as u8 == ((m >> 56u64) & 0xffu64) as u8,
            ((n >> 48u64) & 0xffu64) as u8 == ((m >> 48u64) & 0xffu64) as u8,
            ((n >> 40u64) & 0xffu64) as u8 == ((m >> 40u64) & 0xffu64) as u8,
            ((n >> 32u64) & 0xffu64) as u8 == ((m >> 32u64) & 0xffu64) as u8,
            ((n >> 24u64) & 0xffu64) as u8 == ((m >> 24u64) & 0xffu64) as u8,
            ((n >> 16u64) & 0xffu64) as u8 == ((m >> 16u64) & 0xffu64) as u8,
            ((n >> 8u64) & 0xffu64) as u8 == ((m >> 8u64) & 0xffu64) as u8,
            ((n >> 0u64) & 0xffu64) as u8 == ((m >> 0u64) & 0xffu64) as u8,
    ;
}

/// Whether every length a component frames fits the `u64` prefix.
pub open spec fn framable(cs: Seq<(Seq<char>, Seq<u8>)>) -> bool {
    forall|i: int| 0 <= i < cs.len() ==> utf8_of((#[trigger] cs[i]).0).len() <= u64::MAX && cs[i].1.len() <= u64::MAX
}

/// Two framed components followed by anything agree only when both
/// components and both remainders agree.
proof fn lemma_component_prefix(l1: Seq<u8>, b1: Seq<u8>, r1: Seq<u8>, l2: Seq<u8>, b2: Seq<u8>, r2: Seq<u8>)
    requires
        l1.len() <= u64::MAX,
        b1.len() <= u64::MAX,
        l2.len() <= u64::MAX,
        b2.len() <= u64::MAX,
        component(l1, b1) + r1 == component(l2, b2) + r2,
    ensures
        l1 == l2,
        b1 == b2,
        r1 == r2,
{
    let x = component(l1, b1) + r1;
    let y = component(l2, b2) + r2;
    assert(x.subrange(0, 8) =~= be_bytes(l1.len() as u64));
    assert(y.subrange(0, 8) =~= be_bytes(l2.len() as u64));
    lemma_be_bytes_injective(l1.len() as u64, l2.len() as u64);
    let a: int = 8 + l1.len() as int;
    assert(x.subrange(8, a) =~= l1);
    assert(y.subrange(8, a) =~= l2);
    assert(x.subrange(a, a + 8) =~= be_bytes(b1.len() as u64));
    assert(y.subrange(a, a + 8) =~= be_bytes(b2.len() as u64));
    lemma_be_bytes_injective(b1.len() as u64, b2.len() as u64);
    let c: int = a + 8 + b1.len();
    assert(x.subrange(a + 8, c) =~= b1);
    assert(y.subrange(a + 8, c) =~= b2);
    assert(x.subrange(c, x.len() as int) =~= r1);
    assert(y.subrange(c, y.len() as int) =~= r2);
}

/// The canonical framing is unambiguous: a byte stream names exactly one
/// list of components, so no two different lists of files hash alike.
pub proof fn lemma_framing_is_unambiguous(a: Seq<(Seq<char>, Seq<u8>)>, b: Seq<(Seq<char>, Seq<u8>)>)
    requires
        framable(a),
        framable(b),
        stream(a, a.len() as int) == stream(b, b.len() as int),
    ensures
        a == b,
    decreases a.len(),
{
    if a.len() == 0 || b.len() == 0 {
        if a.len() > 0 {
            lemma_stream_front(a, a.len() as int);
            assert(stream(a, a.len() as int).len() >= 16);
        }
        if b.len() > 0 {
            lemma_stream_front(b, b.len() as int);
            assert(stream(b, b.len() as int).len() >= 16);
        }
        assert(a =~= b);
    } else {
        lemma_stream_front(a, a.len() as int);
        lemma_stream_front(b, b.len() as int);
        let ra = stream(a.drop_first(), a.len() - 1);
        let rb = stream(b.drop_first(), b.len() - 1);
        assert(framable(a.drop_first())) by {
            assert forall|i: int| 0 <= i < a.drop_first().len() implies utf8_of((#[trigger] a.drop_first()[i]).0).len()
                <= u64::MAX && a.drop_first()[i].1.len() <= u64::MAX by {
                assert(a.drop_first()[i] == a[i + 1]);
            }
        }
        assert(framable(b.drop_first())) by {
            assert forall|i: int| 0 <= i < b.drop_first().len() implies utf8_of((#[trigger] b.drop_first()[i]).0).len()
                <= u64::MAX && b.drop_first()[i].1.len() <= u64::MAX by {
                assert(b.drop_first()[i] == b[i + 1]);
            }
        }
        assert(utf8_of(a[0].0).len() <= u64::MAX && a[0].1.len() <= u64::MAX);
        assert(utf8_of(b[0].0).len() <= u64::MAX && b[0].1.len() <= u64::MAX);
        lemma_component_prefix(utf8_of(a[0].0), a[0].1, ra, utf8_of(b[0].0), b[0].1, rb);
        vstd::utf8::encode_utf8_decode_utf8(a[0].0);
        vstd::utf8::encode_utf8_decode_utf8(b[0].0);
        lemma_framing_is_unambiguous(a.drop_first(), b.drop_first());
        assert(a =~= seq![a[0]] + a.drop_first());
        assert(b =~= seq![b[0]] + b.drop_first());
    }
}

proof fn lemma_key_irreflexive(a: (Option<i16>, Seq<char>))
    ensures
        !key_less(a, a),
{
    lemma_lex_irreflexive(a.1);
}

proof fn lemma_key_transitive(a: (Option<i16>, Seq<char>), b: (Option<i16>, Seq<char>), c: (Option<i16>, Seq<char>))
    requires
        key_less(a, b),
        key_less(b, c),
    ensures
        key_less(a, c),
{
    if lex_less(a.1, b.1) && lex_less(b.1, c.1) {
        lemma_lex_transitive(a.1, b.1, c.1);
    }
}

proof fn lemma_insert_source_members(s: Seq<MessageSource>, x: MessageSource)
    ensures
        insert_source(s, x).len() == s.len() + 1,
        forall|k: int| 0 <= k < s.len() + 1 ==> (#[trigger] insert_source(s, x)[k] == x || s.contains(insert_source(s, x)[k])),
    decreases s.len(),
{
    let r = insert_source(s, x);
    if s.len() > 0 && !key_less(source_key(x), source_key(s[0])) {
        let rest = s.drop_first();
        lemma_insert_source_members(rest, x);
        assert forall|k: int| 0 <= k < s.len() + 1 implies (#[trigger] r[k] == x || s.contains(r[k])) by {
            if k == 0 {
                assert(s[0] == r[0]);
            } else {
                assert(r[k] == insert_source(rest, x)[k - 1]);
                if rest.contains(r[k]) {
                    let j = choose|j: int| 0 <= j < rest.len() && rest[j] == r[k];
                    assert(s[j + 1] == r[k]);
                }
            }
        }
    } else if s.len() > 0 {
        assert forall|k: int| 0 <= k < s.len() + 1 implies (#[trigger] r[k] == x || s.contains(r[k])) by {
            if k > 0 {
                assert(r[k] == s[k - 1]);
            }
        }
    }
}

/// Whether sources come in key order: none sorts strictly before one ahead of it.
pub open spec fn sources_ascending(s: Seq<MessageSource>) -> bool {
    forall|i: int, j: int| 0 <= i < j < s.len() ==> !key_less(source_key(#[trigger] s[j]), source_key(#[trigger] s[i]))
}

proof fn lemma_insert_source_ascending(s: Seq<MessageSource>, x: MessageSource)
    requires
        sources_ascending(s),
    ensures
        sources_ascending(insert_source(s, x)),
    decreases s.len(),
{
    let r = insert_source(s, x);
    lemma_insert_source_members(s, x);
    if s.len() == 0 {
    } else if key_less(source_key(x), source_key(s[0])) {
        assert forall|i: int, j: int| 0 <= i < j < r.len() implies !key_less(source_key(#[trigger] r[j]), source_key(#[trigger] r[i])) by {
            assert(r[j] == s[j - 1]);
            if i > 0 {
                assert(r[i] == s[i - 1]);
            } else if key_less(source_key(s[j - 1]), source_key(x)) {
                if j - 1 > 0 {
                    lemma_key_transitive(source_key(s[j - 1]), source_key(x), source_key(s[0]));
                } else {
                    lemma_key_transitive(source_key(x), source_key(s[0]), source_key(x));
                    lemma_key_irreflexive(source_key(x));
                }
            }
        }
    } else {
        let rest = s.drop_first();
        assert forall|i: int, j: int| 0 <= i < j < rest.len() implies !key_less(source_key(#[trigger] rest[j]), source_key(#[trigger] rest[i])) by {
            assert(rest[i] == s[i + 1]);
            assert(rest[j] == s[j + 1]);
        }
        lemma_insert_source_ascending(rest, x);
        lemma_insert_source_members(rest, x);
        let tail = insert_source(rest, x);
        assert forall|i: int, j: int| 0 <= i < j < r.len() implies !key_less(source_key(#[trigger] r[j]), source_key(#[trigger] r[i])) by {
            assert(r[j] == tail[j - 1]);
            if i == 0 {
                assert(r[0] == s[0]);
                if tail[j - 1] != x {
                    let k = choose|k: int| 0 <= k < rest.len() && rest[k] == tail[j - 1];
                    assert(rest[k] == s[k + 1]);
                }
            } else {
                assert(r[i] == tail[i - 1]);
            }
        }
    }
}

/// Loaded sources come out in key order, API key first (unkeyed schemas
/// ahead of keyed ones) and then protocol name, each drawn from the input
/// and none lost.
pub proof fn lemma_sources_come_out_ordered(s: Seq<MessageSource>, n: int)
    requires
        0 <= n <= s.len(),
    ensures
        sorted_sources(s, n).len() == n,
        sources_ascending(sorted_sources(s, n)),
        forall|k: int| 0 <= k < n ==> s.take(n).contains(#[trigger] sorted_sources(s, n)[k]),
    decreases n,
{
    if n > 0 {
        lemma_sources_come_out_ordered(s, n - 1);
        let before = sorted_sources(s, n - 1);
        lemma_insert_source_ascending(before, s[n - 1]);
        lemma_insert_source_members(before, s[n - 1]);
        let r = sorted_sources(s, n);
        assert forall|k: int| 0 <= k < n implies s.take(n).contains(#[trigger] r[k]) by {
            if r[k] == s[n - 1] {
                assert(s.take(n)[n - 1] == s[n - 1]);
            } else {
                let m = choose|m: int| 0 <= m < before.len() && before[m] == r[k];
                let prefix = s.take(n - 1);
                assert(prefix.contains(before[m]));
                let p = choose|p: int| 0 <= p < prefix.len() && prefix[p] == before[m];
                assert(s.take(n)[p] == r[k]);
            }
        }
    }
}

proof fn lemma_entry_irreflexive(a: (Seq<char>, Seq<char>, i16, u32))
    ensures
        !entry_less(a, a),
{
    lemma_lex_irreflexive(a.0);
}

proof fn lemma_entry_transitive(a: (Seq<char>, Seq<char>, i16, u32), b: (Seq<char>, Seq<char>, i16, u32), c: (Seq<char>, Seq<char>, i16, u32))
    requires
        entry_less(a, b),
        entry_less(b, c),
    ensures
        entry_less(a, c),
{
    if lex_less(a.0, b.0) && lex_less(b.0, c.0) {
        lemma_lex_transitive(a.0, b.0, c.0);
    }
}

proof fn lemma_insert_census_members(s: Seq<(Seq<char>, Seq<char>, i16, u32)>, x: (Seq<char>, Seq<char>, i16, u32))
    ensures
        insert_census(s, x).len() == s.len() + 1,
        forall|k: int| 0 <= k < s.len() + 1 ==> (#[trigger] insert_census(s, x)[k] == x || s.contains(insert_census(s, x)[k])),
    decreases s.len(),
{
    let r = insert_census(s, x);
    if s.len() > 0 && !entry_less(x, s[0]) {
        let rest = s.drop_first();
        lemma_insert_census_members(rest, x);
        assert forall|k: int| 0 <= k < s.len() + 1 implies (#[trigger] r[k] == x || s.contains(r[k])) by {
            if k == 0 {
                assert(s[0] == r[0]);
            } else {
                assert(r[k] == insert_census(rest, x)[k - 1]);
                if rest.contains(r[k]) {
                    let j = choose|j: int| 0 <= j < rest.len() && rest[j] == r[k];
                    assert(s[j + 1] == r[k]);
                }
            }
        }
    } else if s.len() > 0 {
        assert forall|k: int| 0 <= k < s.len() + 1 implies (#[trigger] r[k] == x || s.contains(r[k])) by {
            if k > 0 {
                assert(r[k] == s[k - 1]);
            }
        }
    }
}

/// Whether census entries come in order: none sorts strictly before one ahead of it.
pub open spec fn census_ascending(s: Seq<(Seq<char>, Seq<char>, i16, u32)>) -> bool {
    forall|i: int, j: int| 0 <= i < j < s.len() ==> !entry_less(#[trigger] s[j], #[trigger] s[i])
}

proof fn lemma_insert_census_ascending(s: Seq<(Seq<char>, Seq<char>, i16, u32)>, x: (Seq<char>, Seq<char>, i16, u32))
    requires
        census_ascending(s),
    ensures
        census_ascending(insert_census(s, x)),
    decreases s.len(),
{
    let r = insert_census(s, x);
    lemma_insert_census_members(s, x);
    if s.len() == 0 {
    } else if entry_less(x, s[0]) {
        assert forall|i: int, j: int| 0 <= i < j < r.len() implies !entry_less(#[trigger] r[j], #[trigger] r[i]) by {
            assert(r[j] == s[j - 1]);
            if i > 0 {
                assert(r[i] == s[i - 1]);
            } else if entry_less(s[j - 1], x) {
                if j - 1 > 0 {
                    lemma_entry_transitive(s[j - 1], x, s[0]);
                } else {
                    lemma_entry_transitive(x, s[0], x);
                    lemma_entry_irreflexive(x);
                }
            }
        }
    } else {
        let rest = s.drop_first();
        assert forall|i: int, j: int| 0 <= i < j < rest.len() implies !entry_less(#[trigger] rest[j], #[trigger] rest[i]) by {
            assert(rest[i] == s[i + 1]);
            assert(rest[j] == s[j + 1]);
        }
        lemma_insert_census_ascending(rest, x);
        lemma_insert_census_members(rest, x);
        let tail = insert_census(rest, x);
        assert forall|i: int, j: int| 0 <= i < j < r.len() implies !entry_less(#[trigger] r[j], #[trigger] r[i]) by {
            assert(r[j] == tail[j - 1]);
            if i == 0 {
                assert(r[0] == s[0]);
                if tail[j - 1] != x {
                    let k = choose|k: int| 0 <= k < rest.len() && rest[k] == tail[j - 1];
                    assert(rest[k] == s[k + 1]);
                }
            } else {
                assert(r[i] == tail[i - 1]);
            }
        }
    }
}

/// The tag census is emitted in order of owning type, then version, then
/// tag, each entry drawn from what was collected and none lost.
pub proof fn lemma_census_comes_out_ordered(s: Seq<(Seq<char>, Seq<char>, i16, u32)>, n: int)
    requires
        0 <= n <= s.len(),
    ensures
        sorted_census(s, n).len() == n,
        census_ascending(sorted_census(s, n)),
        forall|k: int| 0 <= k < n ==> s.take(n).contains(#[trigger] sorted_census(s, n)[k]),
    decreases n,
{
    if n > 0 {
        lemma_census_comes_out_ordered(s, n - 1);
        let before = sorted_census(s, n - 1);
        lemma_insert_census_ascending(before, s[n - 1]);
        lemma_insert_census_members(before, s[n - 1]);
        let r = sorted_census(s, n);
        assert forall|k: int| 0 <= k < n implies s.take(n).contains(#[trigger] r[k]) by {
            if r[k] == s[n - 1] {
                assert(s.take(n)[n - 1] == s[n - 1]);
            } else {
                let m = choose|m: int| 0 <= m < before.len() && before[m] == r[k];
                let prefix = s.take(n - 1);
                assert(prefix.contains(before[m]));
                let p = choose|p: int| 0 <= p < prefix.len() && prefix[p] == before[m];
                assert(s.take(n)[p] == r[k]);
            }
        }
    }
}

proof fn lemma_range_predicate(r: VersionRange, v: int)
    requires
        0 <= v <= TOP_VERSION,
    ensures
        spelled(range_predicate(r)) == range_test(r),
        holds(range_predicate(r), v) == range_has(r, v),
{
    reveal_with_fuel(holds, 3);
    reveal_with_fuel(spelled, 3);
    match r.end {
        Some(e) => if e != r.start {
            assert(spelled(range_predicate(r)) =~= range_test(r));
        },
        None => {},
    }
}

proof fn lemma_joined_predicate(rs: Seq<VersionRange>, v: int)
    requires
        rs.len() > 0,
        0 <= v <= TOP_VERSION,
    ensures
        spelled(joined_predicate(rs)) == joined_tests(rs),
        holds(joined_predicate(rs), v) == contents(rs).contains(v),
    decreases rs.len(),
{
    lemma_range_predicate(rs[0], v);
    if rs.len() == 1 {
        assert(contents(rs).contains(v) == range_has(rs[0], v));
    } else {
        let rest = rs.drop_first();
        lemma_joined_predicate(rest, v);
        assert(spelled(joined_predicate(rs)) =~= joined_tests(rs));
        assert(contents(rs).contains(v) == (range_has(rs[0], v) || contents(rest).contains(v))) by {
            if contents(rs).contains(v) && !range_has(rs[0], v) {
                let i = choose|i: int| 0 <= i < rs.len() && range_has(#[trigger] rs[i], v);
                assert(rest[i - 1] == rs[i]);
            }
            if contents(rest).contains(v) {
                let i = choose|i: int| 0 <= i < rest.len() && range_has(#[trigger] rest[i], v);
                assert(rs[i + 1] == rest[i]);
            }
        }
    }
}

/// The version predicate emitted for a set of versions holds at exactly the
/// versions in the set: for every version the owner supports, the generated
/// test is true precisely when that version is one of `rs`'s. Its text is the
/// spelling of that predicate.
pub proof fn lemma_version_predicate_selects_exactly(rs: Seq<VersionRange>, valid: Seq<VersionRange>, v: int)
    requires
        canonical(rs),
        rs.len() > 0,
        canonical(valid),
        contents(valid).contains(v),
    ensures
        condition_of(contents(rs), contents(valid)) == spelled(condition_predicate(rs, single_bounded_of(contents(valid)))),
        holds(condition_predicate(rs, single_bounded_of(contents(valid))), v) == contents(rs).contains(v),
{
    lemma_canon_of(rs);
    lemma_canon_of(valid);
    lemma_in_domain(valid, v);
    lemma_joined_predicate(rs, v);
    reveal_with_fuel(holds, 2);
    reveal_with_fuel(spelled, 2);
    let bounds = single_bounded_of(contents(valid));
    match bounds {
        Some((valid_start, valid_end)) => {
            assert(valid.len() == 1 && valid[0].start == valid_start && valid[0].end == Some(valid_end));
            assert(range_has(valid[0], v));
            if rs.len() == 1 {
                assert(contents(rs).contains(v) == range_has(rs[0], v));
                assert(condition_of(contents(rs), contents(valid)) =~= spelled(condition_predicate(rs, bounds)));
            }
        },
        None => {},
    }
}

/// `s` with every `c` taken out.
pub open spec fn without(s: Seq<char>, c: char) -> Seq<char>
    decreases s.len(),
{
    if s.len() == 0 {
        Seq::empty()
    } else {
        (if s[0] == c { Seq::empty() } else { seq![s[0]] }) + without(s.drop_first(), c)
    }
}

proof fn lemma_without_add(a: Seq<char>, b: Seq<char>, c: char)
    ensures
        without(a + b, c) == without(a, c) + without(b, c),
    decreases a.len(),
{
    if a.len() == 0 {
        assert(a + b =~= b);
    } else {
        lemma_without_add(a.drop_first(), b, c);
        assert((a + b).drop_first() =~= a.drop_first() + b);
        assert(without(a + b, c) =~= without(a, c) + without(b, c));
    }
}

proof fn lemma_without_absent(s: Seq<char>, c: char)
    requires
        !s.contains(c),
    ensures
        without(s, c) == s,
    decreases s.len(),
{
    if s.len() > 0 {
        assert(s[0] != c);
        assert forall|i: int| 0 <= i < s.drop_first().len() implies s.drop_first()[i] != c by {
            assert(s.drop_first()[i] == s[i + 1]);
        }
        lemma_without_absent(s.drop_first(), c);
        assert(without(s, c) =~= s);
    }
}

proof fn lemma_flush_run_erases(run: Seq<char>)
    requires
        !run.contains('`'),
    ensures
        without(flush_run(run), '`') == run,
{
    lemma_without_absent(run, '`');
    if run.len() > 0 && protocol_identifier(run) {
        reveal_strlit("`");
        lemma_without_add("`"@ + run, "`"@, '`');
        lemma_without_add("`"@, run, '`');
        assert(without("`"@, '`') =~= Seq::<char>::empty()) by {
            assert(without("`"@.drop_first(), '`') =~= Seq::<char>::empty());
        }
        assert("`"@ + run + "`"@ == ("`"@ + run) + "`"@);
    }
}

proof fn lemma_mark_from_erases(t: Seq<char>, run: Seq<char>)
    requires
        !t.contains('`'),
        !run.contains('`'),
    ensures
        without(mark_from(t, run), '`') == run + t,
    decreases t.len(),
{
    if t.len() == 0 {
        lemma_flush_run_erases(run);
        assert(run + t =~= run);
    } else {
        assert(t[0] != '`');
        assert(!t.drop_first().contains('`')) by {
            assert forall|i: int| 0 <= i < t.drop_first().len() implies t.drop_first()[i] != '`' by {
                assert(t.drop_first()[i] == t[i + 1]);
            }
        }
        if identifier_char(t[0]) {
            assert(!run.push(t[0]).contains('`')) by {
                assert forall|i: int| 0 <= i < run.push(t[0]).len() implies run.push(t[0])[i] != '`' by {
                    if i < run.len() {
                        assert(run.push(t[0])[i] == run[i]);
                    }
                }
            }
            lemma_mark_from_erases(t.drop_first(), run.push(t[0]));
            assert(run.push(t[0]) + t.drop_first() =~= run + t);
        } else {
            lemma_mark_from_erases(t.drop_first(), Seq::empty());
            lemma_flush_run_erases(run);
            lemma_without_add(flush_run(run) + seq![t[0]], mark_from(t.drop_first(), Seq::empty()), '`');
            lemma_without_add(flush_run(run), seq![t[0]], '`');
            assert(without(seq![t[0]], '`') =~= seq![t[0]]) by {
                assert(without(seq![t[0]].drop_first(), '`') =~= Seq::<char>::empty());
            }
            assert(Seq::<char>::empty() + t.drop_first() =~= t.drop_first());
            assert(run + seq![t[0]] + t.drop_first() =~= run + t);
        }
    }
}

/// Marking protocol identifiers only adds backticks: a token with none of
/// its own reads back as itself once the added backticks are taken out.
pub proof fn lemma_marking_erases_to_token(token: Seq<char>)
    requires
        !token.contains('`'),
    ensures
        without(marked(token), '`') == token,
{
    lemma_mark_from_erases(token, Seq::empty());
    assert(Seq::<char>::empty() + token =~= token);
}

proof fn lemma_mark_run(run: Seq<char>, acc: Seq<char>, rest: Seq<char>)
    requires
        forall|i: int| 0 <= i < run.len() ==> identifier_char(#[trigger] run[i]),
    ensures
        mark_from(run + rest, acc) == mark_from(rest, acc + run),
    decreases run.len(),
{
    if run.len() == 0 {
        assert(run + rest =~= rest);
        assert(acc + run =~= acc);
    } else {
        assert((run + rest)[0] == run[0]);
        assert((run + rest).drop_first() =~= run.drop_first() + rest);
        assert forall|i: int| 0 <= i < run.drop_first().len() implies identifier_char(#[trigger] run.drop_first()[i]) by {
            assert(run.drop_first()[i] == run[i + 1]);
        }
        lemma_mark_run(run.drop_first(), acc.push(run[0]), rest);
        assert(acc.push(run[0]) + run.drop_first() =~= acc + run);
    }
}

/// Marking works run by run: a maximal run of identifier characters is
/// wrapped in backticks exactly when it is a protocol identifier, the
/// character that ends it is kept, and what follows is marked on its own.
pub proof fn lemma_marking_wraps_exactly_protocol_runs(run: Seq<char>, stop: char, rest: Seq<char>)
    requires
        forall|i: int| 0 <= i < run.len() ==> identifier_char(#[trigger] run[i]),
        !identifier_char(stop),
        !(run + seq![stop] + rest).contains('`'),
    ensures
        marked(run + seq![stop] + rest) == (if run.len() > 0 && protocol_identifier(run) {
            "`"@ + run + "`"@
        } else {
            run
        }) + seq![stop] + marked(rest),
        marked(run) == (if run.len() > 0 && protocol_identifier(run) {
            "`"@ + run + "`"@
        } else {
            run
        }),
{
    let whole = run + seq![stop] + rest;
    lemma_mark_run(run, Seq::empty(), seq![stop] + rest);
    assert(whole =~= run + (seq![stop] + rest));
    assert(Seq::<char>::empty() + run =~= run);
    let tail = seq![stop] + rest;
    assert(tail[0] == stop);
    assert(tail.drop_first() =~= rest);
    assert(!rest.contains('`')) by {
        if rest.contains('`') {
            let k = choose|k: int| 0 <= k < rest.len() && rest[k] == '`';
            assert(whole[run.len() + 1 + k] == '`');
        }
    }
    assert(!run.contains('`')) by {
        if run.contains('`') {
            let k = choose|k: int| 0 <= k < run.len() && run[k] == '`';
            assert(whole[k] == '`');
        }
    }
    lemma_mark_run(run, Seq::empty(), Seq::empty());
    assert(run + Seq::<char>::empty() =~= run);
}

proof fn lemma_digits_are_digits(n: nat)
    ensures
        forall|i: int| 0 <= i < digits(n).len() ==> '0' <= #[trigger] digits(n)[i] <= '9',
    decreases n,
{
    if n >= 10 {
        lemma_digits_are_digits(n / 10);
        assert forall|i: int| 0 <= i < digits(n).len() implies '0' <= #[trigger] digits(n)[i] <= '9' by {
            if i < digits(n / 10).len() {
                assert(digits(n)[i] == digits(n / 10)[i]);
            }
        }
    }
}

proof fn lemma_grouped_reads_back(ds: Seq<char>, i: int)
    requires
        0 <= i <= ds.len(),
        forall|k: int| 0 <= k < ds.len() ==> #[trigger] ds[k] != '_',
    ensures
        without(grouped_from(ds, i), '_') == ds.skip(i),
    decreases ds.len() - i,
{
    if i == ds.len() {
        assert(ds.skip(i) =~= Seq::<char>::empty());
    } else {
        lemma_grouped_reads_back(ds, i + 1);
        let sep: Seq<char> = if i > 0 && (ds.len() - i) % 3 == 0 { seq!['_'] } else { Seq::empty() };
        assert(grouped_from(ds, i) == sep + seq![ds[i]] + grouped_from(ds, i + 1));
        lemma_without_add(sep + seq![ds[i]], grouped_from(ds, i + 1), '_');
        lemma_without_add(sep, seq![ds[i]], '_');
        assert(without(sep, '_') =~= Seq::<char>::empty()) by {
            if sep.len() > 0 {
                assert(without(sep.drop_first(), '_') =~= Seq::<char>::empty());
            }
        }
        assert(without(seq![ds[i]], '_') =~= seq![ds[i]]) by {
            assert(without(seq![ds[i]].drop_first(), '_') =~= Seq::<char>::empty());
        }
        assert(ds.skip(i) =~= seq![ds[i]] + ds.skip(i + 1));
    }
}

/// An integer literal grouped in threes reads back, separators taken out, as
/// exactly the decimal spelling of the same integer.
pub proof fn lemma_separated_reads_back(value: int)
    ensures
        without(separated_text(value), '_') == decimal(value),
{
    let magnitude = if value < 0 { -value } else { value };
    let ds = decimal(magnitude);
    lemma_digits_are_digits(magnitude as nat);
    assert forall|k: int| 0 <= k < ds.len() implies #[trigger] ds[k] != '_' by {
        assert('0' <= ds[k] <= '9');
    }
    lemma_grouped_reads_back(ds, 0);
    assert(ds.skip(0) =~= ds);
    if value < 0 {
        lemma_without_add(seq!['-'], grouped_from(ds, 0), '_');
        assert(without(seq!['-'], '_') =~= seq!['-']) by {
            assert(without(seq!['-'].drop_first(), '_') =~= Seq::<char>::empty());
        }
        reveal_strlit("-");
        assert("-"@ =~= seq!['-']);
    }
}

} // verus!
