//! Generated encode/decode bodies with visible version and representability gates.
//!
//! Every renderer here is stated as the text it appends: a spec function takes
//! the text so far and the nesting depth and returns the text afterwards, in
//! exactly the order the lines are emitted.

use vstd::prelude::*;

use crate::api::imports::{spell, spelling};
use crate::api::symbol::ExternalSymbol as S;
use crate::field::codec::{
    array_length_codec, array_length_text, element_codec, element_fault, element_text, read_expression,
    read_text, write_statement, write_text,
};
use crate::field::regime::{is_nullable, nullable_somewhere};
use crate::field::types::{default_expression, default_text};
use crate::field::version::{gate_over, presence_condition};
use crate::naming::field_ident;
use crate::schema::{Fault, Field, FieldType, GenerationError, Message, Scope, ScopeView};
use crate::strings::{decimal, decimal_u64, owned};
use crate::text::{emit_blank, emit_close, emit_line, emit_open, RustText};
use crate::api::tag_plan::known_order;
use crate::api::tagged::{render_tagged_decode, render_tagged_encode, tagged_decode_text, tagged_encode_text, tags_fault};
use crate::api::tagged_payload::{render_known_tag_helpers, tag_writers_text};
use crate::api::tagged_proof::{order_tags, RenderedKnownTags};
use crate::field::version::{contains, contains_text};

verus! {

/// The compiler-owned local the field at `index` decodes into.
pub open spec fn local_text(index: int) -> Seq<char> {
    "__kw_field_"@ + decimal(index)
}

/// The compiler-owned local one decoded field binds to.
///
/// Position, rather than a schema name plus a collision suffix, makes every
/// binding unique by construction, so schema vocabulary never enters the
/// emitter's local namespace.
pub fn local(index: usize) -> (r: String)
    ensures
        r@ == local_text(index as int),
{
    let digits = decimal_u64(index as u64);
    let mut r = owned("__kw_field_");
    r.append(digits.as_str());
    r
}

/// How one member is assigned from its decode local.
pub open spec fn binding_text(index: int, field: Field) -> Seq<char> {
    field_ident(field.name.text@) + ": "@ + local_text(index)
}

fn binding(index: usize, field: &Field) -> (r: String)
    ensures
        r@ == binding_text(index as int, *field),
{
    let mut r = field.name.rust_field();
    r.append(": ");
    let name = local(index);
    r.append(name.as_str());
    r
}

/// Whether every character of `s` is an ASCII letter, digit or underscore.
pub open spec fn plain_method(s: Seq<char>) -> bool {
    forall|i: int|
        0 <= i < s.len() ==> {
            let c = #[trigger] s[i];
            ('a' <= c <= 'z') || ('A' <= c <= 'Z') || ('0' <= c <= '9') || c == '_'
        }
}

/// One element read as the closure `read_vec` takes.
///
/// An element expression is a fallible call already suffixed with `?`; without
/// the suffix it is the `Result` the closure returns. A bare decoder method is
/// named directly (`Decoder::read_i32`) rather than wrapped in a forwarding
/// closure.
pub open spec fn element_closure_text(message: &Message, element: Seq<char>) -> Seq<char> {
    if element.len() == 0 || element.last() != '?' {
        "|decoder| "@ + spelling(message, S::ResultOk) + "("@ + element + ")"@
    } else {
        let fallible = element.drop_last();
        if fallible.len() >= 10 && fallible.take(8) == "decoder."@ && fallible.skip(fallible.len() - 2)
            == "()"@ && plain_method(fallible.subrange(8, fallible.len() - 2)) {
            spelling(message, S::Decoder) + "::"@ + fallible.subrange(8, fallible.len() - 2)
        } else {
            "|decoder| "@ + fallible
        }
    }
}

fn is_plain_method_char(c: char) -> (r: bool)
    ensures
        r == (('a' <= c <= 'z') || ('A' <= c <= 'Z') || ('0' <= c <= '9') || c == '_'),
{
    ('a' <= c && c <= 'z') || ('A' <= c && c <= 'Z') || ('0' <= c && c <= '9') || c == '_'
}

/// The characters of `chars[start..end]` as a string.
fn slice_text(chars: &Vec<char>, start: usize, end: usize) -> (r: String)
    requires
        start <= end <= chars@.len(),
    ensures
        r@ == chars@.subrange(start as int, end as int),
{
    let mut r = String::new();
    let mut i = start;
    while i < end
        invariant
            start <= i <= end <= chars@.len(),
            r@ == chars@.subrange(start as int, i as int),
        decreases end - i,
    {
        crate::strings::push_char(&mut r, chars[i]);
        assert(r@ =~= chars@.subrange(start as int, i + 1));
        i = i + 1;
    }
    r
}

fn element_closure(message: &Message, element: &str) -> (r: String)
    ensures
        r@ == element_closure_text(message, element@),
{
    let chars = crate::versions::chars_of(element);
    let n = chars.len();
    if n == 0 || chars[n - 1] != '?' {
        let ok = spell(message, S::ResultOk);
        let mut r = owned("|decoder| ");
        r.append(ok.as_str());
        r.append("(");
        r.append(element);
        r.append(")");
        return r;
    }
    let ghost fallible = element@.drop_last();
    let m = n - 1;
    if m >= 10 && chars[0] == 'd' && chars[1] == 'e' && chars[2] == 'c' && chars[3] == 'o' && chars[4]
        == 'd' && chars[5] == 'e' && chars[6] == 'r' && chars[7] == '.' && chars[m - 2] == '('
        && chars[m - 1] == ')' {
        let mut plain = true;
        let mut k: usize = 8;
        while k < m - 2
            invariant
                chars@ == element@,
                m == chars@.len() - 1,
                8 <= k <= m - 2,
                m >= 10,
                plain == plain_method(chars@.subrange(8, k as int)),
            decreases m - 2 - k,
        {
            let c = chars[k];
            proof {
                let before = chars@.subrange(8, k as int);
                let after = chars@.subrange(8, k + 1);
                assert(after =~= before.push(c));
                assert(plain_method(after) == (plain_method(before) && (('a' <= c <= 'z') || ('A' <= c
                    <= 'Z') || ('0' <= c <= '9') || c == '_'))) by {
                    if plain_method(after) {
                        assert forall|i: int| 0 <= i < before.len() implies {
                            let c = #[trigger] before[i];
                            ('a' <= c <= 'z') || ('A' <= c <= 'Z') || ('0' <= c <= '9') || c == '_'
                        } by {
                            assert(before[i] == after[i]);
                        }
                        assert(after[after.len() - 1] == c);
                    }
                }
            }
            if !is_plain_method_char(c) {
                plain = false;
            }
            k = k + 1;
        }
        proof {
            assert(fallible.take(8) =~= "decoder."@) by {
                reveal_strlit("decoder.");
            }
            assert(fallible.skip(fallible.len() - 2) =~= "()"@) by {
                reveal_strlit("()");
            }
            assert(fallible.subrange(8, fallible.len() - 2) =~= chars@.subrange(8, m - 2));
        }
        if plain {
            let decoder = spell(message, S::Decoder);
            let method = slice_text(&chars, 8, m - 2);
            let mut r = decoder;
            r.append("::");
            r.append(method.as_str());
            return r;
        }
        let body = slice_text(&chars, 0, m);
        let mut r = owned("|decoder| ");
        r.append(body.as_str());
        assert(chars@.subrange(0, m as int) =~= fallible);
        return r;
    }
    proof {
        if fallible.len() >= 10 && fallible.take(8) == "decoder."@ && fallible.skip(fallible.len() - 2)
            == "()"@ {
            reveal_strlit("decoder.");
            reveal_strlit("()");
            assert(fallible.take(8)[0] == chars@[0]);
            assert(fallible.take(8)[1] == chars@[1]);
            assert(fallible.take(8)[2] == chars@[2]);
            assert(fallible.take(8)[3] == chars@[3]);
            assert(fallible.take(8)[4] == chars@[4]);
            assert(fallible.take(8)[5] == chars@[5]);
            assert(fallible.take(8)[6] == chars@[6]);
            assert(fallible.take(8)[7] == chars@[7]);
            assert(fallible.skip(fallible.len() - 2)[0] == chars@[m - 2]);
            assert(fallible.skip(fallible.len() - 2)[1] == chars@[m - 1]);
            assert(false);
        }
    }
    let body = slice_text(&chars, 0, m);
    let mut r = owned("|decoder| ");
    r.append(body.as_str());
    assert(chars@.subrange(0, m as int) =~= fallible);
    r
}

/// The array read as lines, so a version gate can wrap it.
pub open spec fn array_body_text(
    t: Seq<char>,
    d: nat,
    message: &Message,
    length: Seq<char>,
    element: Seq<char>,
    nullable: bool,
) -> Seq<char> {
    let read = element_closure_text(message, element);
    let t = emit_line(t, d, "let length = "@ + length + ";"@);
    if nullable {
        emit_line(t, d, "length.map(|length| decoder.read_vec(length, "@ + read + ")).transpose()?"@)
    } else {
        emit_line(t, d, "decoder.read_vec(length, "@ + read + ")?"@)
    }
}

/// Emits an array read: the regime is stated once by the length reader and
/// the elements are read by `Decoder::read_vec`. A nullable array keeps absent
/// and empty distinct, and only the present arm allocates.
pub fn render_array_body(rust: &mut RustText, message: &Message, length: &str, element: &str, nullable: bool)
    ensures
        final(rust).text() == array_body_text(
            old(rust).text(),
            old(rust).depth(),
            message,
            length@,
            element@,
            nullable,
        ),
        final(rust).depth() == old(rust).depth(),
{
    let read = element_closure(message, element);
    let mut first = owned("let length = ");
    first.append(length);
    first.append(";");
    rust.line(first.as_str());
    if nullable {
        let mut l = owned("length.map(|length| decoder.read_vec(length, ");
        l.append(read.as_str());
        l.append(")).transpose()?");
        rust.line(l.as_str());
    } else {
        let mut l = owned("decoder.read_vec(length, ");
        l.append(read.as_str());
        l.append(")?");
        rust.line(l.as_str());
    }
}

/// Writing a nullable array: the prefix once, the elements only when present.
pub open spec fn nullable_array_encode_text(
    t: Seq<char>,
    d: nat,
    message: &Message,
    name: Seq<char>,
    length: Seq<char>,
    element: Seq<char>,
) -> Seq<char> {
    let t = emit_line(t, d, length);
    let t = emit_open(t, d, "if let "@ + spelling(message, S::OptionSome) + "(values) = &self."@ + name);
    let t = emit_open(t, d + 1, "for value in values"@);
    let t = emit_line(t, d + 2, element);
    let t = emit_close(t, d + 1, ""@);
    emit_close(t, d, ""@)
}

pub fn render_nullable_array_encode(
    rust: &mut RustText,
    message: &Message,
    name: &str,
    length: &str,
    element: &str,
)
    requires
        old(rust).room(2),
    ensures
        final(rust).text() == nullable_array_encode_text(
            old(rust).text(),
            old(rust).depth(),
            message,
            name@,
            length@,
            element@,
        ),
        final(rust).depth() == old(rust).depth(),
{
    rust.line(length);
    let some = spell(message, S::OptionSome);
    let mut head = owned("if let ");
    head.append(some.as_str());
    head.append("(values) = &self.");
    head.append(name);
    rust.open(head.as_str());
    rust.open("for value in values");
    rust.line(element);
    rust.close("");
    rust.close("");
}

/// Writing an array: the prefix, then every element.
pub open spec fn array_encode_text(t: Seq<char>, d: nat, name: Seq<char>, length: Seq<char>, element: Seq<char>) -> Seq<char> {
    let t = emit_line(t, d, length);
    let t = emit_open(t, d, "for value in &self."@ + name);
    let t = emit_line(t, d + 1, element);
    emit_close(t, d, ""@)
}

pub fn render_array_encode(rust: &mut RustText, name: &str, length: &str, element: &str)
    requires
        old(rust).room(1),
    ensures
        final(rust).text() == array_encode_text(old(rust).text(), old(rust).depth(), name@, length@, element@),
        final(rust).depth() == old(rust).depth(),
{
    rust.line(length);
    let mut head = owned("for value in &self.");
    head.append(name);
    rust.open(head.as_str());
    rust.line(element);
    rust.close("");
}

/// The codec refusal one field raises, if any: only an array whose element
/// type has no codec can fail once the field is inline.
pub open spec fn field_codec_fault(field: Field, scope: ScopeView) -> Option<Fault> {
    if field.tag is Some {
        None
    } else {
        match field.ty {
            FieldType::Array(element) => if element_text(*element, &field, scope) is None {
                Some(element_fault(*element, &field, scope))
            } else {
                None
            },
            _ => None,
        }
    }
}

/// The first codec refusal among the first `n` fields.
pub open spec fn codec_fault(fields: Seq<Field>, n: int, scope: ScopeView) -> Option<Fault>
    decreases n,
{
    if n <= 0 {
        None
    } else {
        match codec_fault(fields, n - 1, scope) {
            Some(f) => Some(f),
            None => field_codec_fault(fields[n - 1], scope),
        }
    }
}

/// Once a refusal is found among the first `k` fields it stays the first.
pub proof fn lemma_fault_persists(fields: Seq<Field>, k: int, n: int, scope: &Scope)
    requires
        0 <= k <= n,
        codec_fault(fields, k, scope@) is Some,
    ensures
        codec_fault(fields, n, scope@) == codec_fault(fields, k, scope@),
    decreases n - k,
{
    if n > k {
        lemma_fault_persists(fields, k, n - 1, scope);
    }
}

/// The decode lines of the field at `index`, which is inline and has a codec.
pub open spec fn read_step(t: Seq<char>, d: nat, field: Field, index: int, scope: ScopeView) -> Seq<char> {
    if field.tag is Some {
        t
    } else {
        let name = local_text(index);
        let gate = gate_over(field.versions@, scope.valid);
        match field.ty {
            FieldType::Array(element) => {
                let read = element_text(*element, &field, scope).unwrap().0;
                let length = array_length_text(&field, scope).0;
                let nullable = nullable_somewhere(&field, scope);
                match gate {
                    None => {
                        let t = emit_open(t, d, "let "@ + name + " ="@);
                        let t = array_body_text(t, d + 1, scope.message, length, read, nullable);
                        emit_close(t, d, ";"@)
                    },
                    Some(condition) => {
                        let t = emit_open(t, d, "let "@ + name + " = if "@ + condition);
                        let t = array_body_text(t, d + 1, scope.message, length, read, nullable);
                        let t = emit_line(t, d, "} else {"@);
                        let t = emit_line(t, d + 1, default_text(&field, scope));
                        emit_close(t, d, ";"@)
                    },
                }
            },
            _ => {
                let expression = read_text(&field, scope);
                match gate {
                    None => emit_line(t, d, "let "@ + name + " = "@ + expression + ";"@),
                    Some(condition) => {
                        let t = emit_open(t, d, "let "@ + name + " = if "@ + condition);
                        let t = emit_line(t, d + 1, expression);
                        let t = emit_line(t, d, "} else {"@);
                        let t = emit_line(t, d + 1, default_text(&field, scope));
                        emit_close(t, d, ";"@)
                    },
                }
            },
        }
    }
}

/// The decode lines of the first `n` fields.
pub open spec fn reads_text(t: Seq<char>, d: nat, fields: Seq<Field>, n: int, scope: ScopeView) -> Seq<char>
    decreases n,
{
    if n <= 0 {
        t
    } else {
        read_step(reads_text(t, d, fields, n - 1, scope), d, fields[n - 1], n - 1, scope)
    }
}

fn render_read(rust: &mut RustText, field: &Field, index: usize, scope: &Scope) -> (r: Result<(), GenerationError>)
    requires
        old(rust).room(1),
    ensures
        match field_codec_fault(*field, scope@) {
            None => r is Ok && final(rust).text() == read_step(
                old(rust).text(),
                old(rust).depth(),
                *field,
                index as int,
                scope@,
            ) && final(rust).depth() == old(rust).depth(),
            Some(f) => r matches Err(e) && e@ == f,
        },
{
    if field.tag.is_some() {
        return Ok(());
    }
    let name = local(index);
    let gate = presence_condition(field, scope);
    if let FieldType::Array(element) = &field.ty {
        let (read, _) = element_codec(element, field, scope)?;
        let (length, _) = array_length_codec(field, scope);
        let nullable = is_nullable(field, scope);
        match gate {
            None => {
                let mut head = owned("let ");
                head.append(name.as_str());
                head.append(" =");
                rust.open(head.as_str());
                render_array_body(rust, scope.message, length.as_str(), read.as_str(), nullable);
                rust.close(";");
            },
            Some(condition) => {
                let mut head = owned("let ");
                head.append(name.as_str());
                head.append(" = if ");
                head.append(condition.as_str());
                rust.open(head.as_str());
                render_array_body(rust, scope.message, length.as_str(), read.as_str(), nullable);
                rust.reopen("} else {");
                let fallback = default_expression(field, scope);
                rust.line(fallback.as_str());
                rust.close(";");
            },
        }
        return Ok(());
    }
    let expression = read_expression(field, scope)?;
    match gate {
        None => {
            let mut l = owned("let ");
            l.append(name.as_str());
            l.append(" = ");
            l.append(expression.as_str());
            l.append(";");
            rust.line(l.as_str());
        },
        Some(condition) => {
            let mut head = owned("let ");
            head.append(name.as_str());
            head.append(" = if ");
            head.append(condition.as_str());
            rust.open(head.as_str());
            rust.line(expression.as_str());
            rust.reopen("} else {");
            let fallback = default_expression(field, scope);
            rust.line(fallback.as_str());
            rust.close(";");
        },
    }
    Ok(())
}

/// Emits one `let` per inline field, reading it or substituting its default.
///
/// A tagged field is read from its own entry in the tagged section, not from
/// its position in the body, so it is skipped here.
pub fn render_reads(rust: &mut RustText, fields: &Vec<Field>, scope: &Scope) -> (r: Result<(), GenerationError>)
    requires
        old(rust).room(1),
    ensures
        match codec_fault(fields@, fields@.len() as int, scope@) {
            None => r is Ok && final(rust).text() == reads_text(
                old(rust).text(),
                old(rust).depth(),
                fields@,
                fields@.len() as int,
                scope@,
            ) && final(rust).depth() == old(rust).depth(),
            Some(f) => r matches Err(e) && e@ == f,
        },
{
    let ghost start = rust.text();
    let ghost depth = rust.depth();
    let mut i: usize = 0;
    while i < fields.len()
        invariant
            i <= fields@.len(),
            rust.depth() == depth,
            depth + 1 <= usize::MAX,
            codec_fault(fields@, i as int, scope@) is None,
            rust.text() == reads_text(start, depth, fields@, i as int, scope@),
        decreases fields@.len() - i,
    {
        let step = render_read(rust, &fields[i], i, scope);
        if let Err(e) = step {
            proof {
                lemma_fault_persists(fields@, i + 1, fields@.len() as int, scope);
            }
            return Err(e);
        }
        i = i + 1;
    }
    Ok(())
}

/// The encode lines of one inline field.
pub open spec fn write_step(t: Seq<char>, d: nat, field: Field, scope: ScopeView) -> Seq<char> {
    if field.tag is Some {
        t
    } else {
        let gate = gate_over(field.versions@, scope.valid);
        match field.ty {
            FieldType::Array(element) => {
                let write = element_text(*element, &field, scope).unwrap().1;
                let length = array_length_text(&field, scope).1;
                let name = field_ident(field.name.text@);
                let inner = if gate is Some { d + 1 } else { d };
                let t = match gate {
                    Some(condition) => emit_open(t, d, "if "@ + condition),
                    None => t,
                };
                let t = if nullable_somewhere(&field, scope) {
                    nullable_array_encode_text(t, inner, scope.message, name, length, write)
                } else {
                    array_encode_text(t, inner, name, length, write)
                };
                if gate is Some {
                    emit_close(t, d, ""@)
                } else {
                    t
                }
            },
            _ => {
                let statement = write_text(&field, scope);
                match gate {
                    None => emit_line(t, d, statement),
                    Some(condition) => {
                        let t = emit_open(t, d, "if "@ + condition);
                        let t = emit_line(t, d + 1, statement);
                        emit_close(t, d, ""@)
                    },
                }
            },
        }
    }
}

/// The encode lines of the first `n` fields.
pub open spec fn writes_text(t: Seq<char>, d: nat, fields: Seq<Field>, n: int, scope: ScopeView) -> Seq<char>
    decreases n,
{
    if n <= 0 {
        t
    } else {
        write_step(writes_text(t, d, fields, n - 1, scope), d, fields[n - 1], scope)
    }
}

fn render_write(rust: &mut RustText, field: &Field, scope: &Scope) -> (r: Result<(), GenerationError>)
    requires
        old(rust).room(3),
    ensures
        match field_codec_fault(*field, scope@) {
            None => r is Ok && final(rust).text() == write_step(old(rust).text(), old(rust).depth(), *field, scope@)
                && final(rust).depth() == old(rust).depth(),
            Some(f) => r matches Err(e) && e@ == f,
        },
{
    if field.tag.is_some() {
        return Ok(());
    }
    let gate = presence_condition(field, scope);
    if let FieldType::Array(element) = &field.ty {
        let (_, write) = element_codec(element, field, scope)?;
        let (_, length) = array_length_codec(field, scope);
        let name = field.name.rust_field();
        match &gate {
            Some(condition) => {
                let head = crate::strings::cat2("if ", condition.as_str());
                rust.open(head.as_str());
            },
            None => {},
        }
        if is_nullable(field, scope) {
            render_nullable_array_encode(rust, scope.message, name.as_str(), length.as_str(), write.as_str());
        } else {
            render_array_encode(rust, name.as_str(), length.as_str(), write.as_str());
        }
        if gate.is_some() {
            rust.close("");
        }
        return Ok(());
    }
    let statement = write_statement(field, scope)?;
    match gate {
        None => rust.line(statement.as_str()),
        Some(condition) => {
            let head = crate::strings::cat2("if ", condition.as_str());
            rust.open(head.as_str());
            rust.line(statement.as_str());
            rust.close("");
        },
    }
    Ok(())
}

/// Emits one write per inline field, gated where the field is not present in
/// every version: the counterpart of [`render_reads`].
pub fn render_writes(rust: &mut RustText, fields: &Vec<Field>, scope: &Scope) -> (r: Result<(), GenerationError>)
    requires
        old(rust).room(3),
    ensures
        match codec_fault(fields@, fields@.len() as int, scope@) {
            None => r is Ok && final(rust).text() == writes_text(
                old(rust).text(),
                old(rust).depth(),
                fields@,
                fields@.len() as int,
                scope@,
            ) && final(rust).depth() == old(rust).depth(),
            Some(f) => r matches Err(e) && e@ == f,
        },
{
    let ghost start = rust.text();
    let ghost depth = rust.depth();
    let mut i: usize = 0;
    while i < fields.len()
        invariant
            i <= fields@.len(),
            rust.depth() == depth,
            depth + 3 <= usize::MAX,
            codec_fault(fields@, i as int, scope@) is None,
            rust.text() == writes_text(start, depth, fields@, i as int, scope@),
        decreases fields@.len() - i,
    {
        let step = render_write(rust, &fields[i], scope);
        if let Err(e) = step {
            proof {
                lemma_fault_persists(fields@, i + 1, fields@.len() as int, scope);
            }
            return Err(e);
        }
        i = i + 1;
    }
    Ok(())
}

/// The members of `Self { .. }` for the first `n` fields.
pub open spec fn bindings_text(t: Seq<char>, d: nat, fields: Seq<Field>, n: int) -> Seq<char>
    decreases n,
{
    if n <= 0 {
        t
    } else {
        emit_line(bindings_text(t, d, fields, n - 1), d, binding_text(n - 1, fields[n - 1]) + ","@)
    }
}

/// The `Ok(Self { .. })` that closes a decode body.
pub open spec fn construction_text(t: Seq<char>, d: nat, fields: Seq<Field>, tagged: bool, message: &Message) -> Seq<char> {
    let ok = spelling(message, S::ResultOk);
    if fields.len() == 1 && !tagged {
        emit_line(t, d, ok + "(Self { "@ + binding_text(0, fields[0]) + " })"@)
    } else {
        let t = emit_open(t, d, ok + "(Self"@);
        let t = bindings_text(t, d + 1, fields, fields.len() as int);
        let t = if tagged {
            emit_line(t, d + 1, "unknown_tagged_fields,"@)
        } else {
            t
        };
        emit_close(t, d, ")"@)
    }
}

pub fn render_construction(rust: &mut RustText, fields: &Vec<Field>, tagged: bool, message: &Message)
    requires
        old(rust).room(1),
    ensures
        final(rust).text() == construction_text(old(rust).text(), old(rust).depth(), fields@, tagged, message),
        final(rust).depth() == old(rust).depth(),
{
    let ok = spell(message, S::ResultOk);
    if fields.len() == 1 && !tagged {
        let member = binding(0, &fields[0]);
        let mut l = ok;
        l.append("(Self { ");
        l.append(member.as_str());
        l.append(" })");
        rust.line(l.as_str());
        return;
    }
    let head = crate::strings::cat2(ok.as_str(), "(Self");
    rust.open(head.as_str());
    let ghost start = rust.text();
    let ghost depth = rust.depth();
    let mut i: usize = 0;
    while i < fields.len()
        invariant
            i <= fields@.len(),
            rust.depth() == depth,
            rust.text() == bindings_text(start, depth, fields@, i as int),
        decreases fields@.len() - i,
    {
        let member = binding(i, &fields[i]);
        let l = crate::strings::cat2(member.as_str(), ",");
        rust.line(l.as_str());
        i = i + 1;
    }
    if tagged {
        rust.line("unknown_tagged_fields,");
    }
    rust.close(")");
}

/// The refusal a decode body raises: an inline codec first, then a tag.
pub open spec fn decode_fault(fields: Seq<Field>, scope: ScopeView, flexible: bool) -> Option<Fault> {
    match codec_fault(fields, fields.len() as int, scope) {
        Some(f) => Some(f),
        None => if flexible {
            tags_fault(fields, scope)
        } else {
            None
        },
    }
}

/// The signature line of a generated `decode`.
pub open spec fn decode_head(message: &Message) -> Seq<char> {
    "fn decode(decoder: &mut "@ + spelling(message, S::Decoder) + ", version: "@ + spelling(message, S::ApiVersion)
        + ") -> "@ + spelling(message, S::Result) + "<Self, "@ + spelling(message, S::DecodeError) + ">"@
}

pub fn decode_signature(message: &Message) -> (r: String)
    ensures
        r@ == decode_head(message),
{
    let decoder = spell(message, S::Decoder);
    let api_version = spell(message, S::ApiVersion);
    let result = spell(message, S::Result);
    let error = spell(message, S::DecodeError);
    let mut l = owned("fn decode(decoder: &mut ");
    l.append(decoder.as_str());
    l.append(", version: ");
    l.append(api_version.as_str());
    l.append(") -> ");
    l.append(result.as_str());
    l.append("<Self, ");
    l.append(error.as_str());
    l.append(">");
    l
}

/// The reads, the tagged section where there is one, and the construction.
pub open spec fn decode_body_text(t: Seq<char>, d: nat, fields: Seq<Field>, scope: ScopeView, flexible: bool) -> Seq<char> {
    let t = reads_text(t, d, fields, fields.len() as int, scope);
    let t = if flexible {
        tagged_decode_text(t, d, fields, scope)
    } else {
        t
    };
    let t = emit_blank(t);
    construction_text(t, d, fields, flexible, scope.message)
}

/// Emits everything after a decode body's version guard.
pub fn render_decode_body(rust: &mut RustText, fields: &Vec<Field>, scope: &Scope, flexible: bool) -> (r: Result<(), GenerationError>)
    requires
        old(rust).room(4),
    ensures
        match decode_fault(fields@, scope@, flexible) {
            None => r is Ok && final(rust).text() == decode_body_text(old(rust).text(), old(rust).depth(), fields@, scope@, flexible)
                && final(rust).depth() == old(rust).depth(),
            Some(f) => r matches Err(e) && e@ == f,
        },
{
    render_reads(rust, fields, scope)?;
    if flexible {
        render_tagged_decode(rust, fields, scope)?;
    }
    rust.blank();
    render_construction(rust, fields, flexible, scope.message);
    Ok(())
}

/// A message's `KafkaDecode` implementation.
#[verifier::opaque]
pub open spec fn decode_text(t: Seq<char>, d: nat, scope: ScopeView, flexible: bool) -> Seq<char> {
    let message = scope.message;
    let t = emit_open(t, d, "impl "@ + spelling(message, S::KafkaDecode) + " for "@ + message.name.text@);
    let t = emit_open(t, d + 1, decode_head(message));
    let t = emit_line(t, d + 2, "crate::message::ensure_decode_version::<Self>(version)?;"@);
    let t = emit_blank(t);
    let t = decode_body_text(t, d + 2, message.fields@, scope, flexible);
    let t = emit_close(t, d + 1, ""@);
    let t = emit_close(t, d, ""@);
    emit_blank(t)
}

/// Emits a message's decoder: the version guard, every read, and the value.
pub fn render_decode(rust: &mut RustText, scope: &Scope, flexible: bool) -> (r: Result<(), GenerationError>)
    requires
        old(rust).room(8),
    ensures
        match decode_fault(scope.message.fields@, scope@, flexible) {
            None => r is Ok && final(rust).text() == decode_text(old(rust).text(), old(rust).depth(), scope@, flexible)
                && final(rust).depth() == old(rust).depth(),
            Some(f) => r matches Err(e) && e@ == f,
        },
{
    proof {
        reveal(decode_text);
    }
    let message = scope.message;
    let decode = spell(message, S::KafkaDecode);
    let head = crate::strings::cat4("impl ", decode.as_str(), " for ", message.name.rust_type());
    rust.open(head.as_str());
    let signature = decode_signature(message);
    rust.open(signature.as_str());
    rust.line("crate::message::ensure_decode_version::<Self>(version)?;");
    rust.blank();
    render_decode_body(rust, &message.fields, scope, flexible)?;
    rust.close("");
    rust.close("");
    rust.blank();
    Ok(())
}

/// The body of `encode_validated`: every write, the tagged section, `Ok(())`.
pub open spec fn encode_body_text(t: Seq<char>, d: nat, fields: Seq<Field>, scope: ScopeView, flexible: bool) -> Seq<char> {
    let t = writes_text(t, d, fields, fields.len() as int, scope);
    let t = if flexible {
        tagged_encode_text(t, d, fields, scope)
    } else {
        t
    };
    let t = emit_blank(t);
    emit_line(t, d, spelling(scope.message, S::ResultOk) + "(())"@)
}

/// Whether a rendered write body consults the negotiated version.
pub open spec fn body_uses_version(body: Seq<char>) -> bool {
    contains_text(body, "version.value()"@) || contains_text(body, "Self::is_flexible(version)"@) || contains_text(
        body,
        "encoder, version)"@,
    )
}

fn validated_body_uses_version(body: &str) -> (r: bool)
    ensures
        r == body_uses_version(body@),
{
    contains(body, "version.value()") || contains(body, "Self::is_flexible(version)") || contains(body, "encoder, version)")
}

/// The `impl` holding `encode_validated`, and the tag writers it calls.
#[verifier::opaque]
pub open spec fn validated_encode_text(
    t: Seq<char>,
    d: nat,
    rust_type: Seq<char>,
    fields: Seq<Field>,
    scope: ScopeView,
    flexible: bool,
) -> Seq<char> {
    let message = scope.message;
    let body = encode_body_text(Seq::empty(), d + 2, fields, scope, flexible);
    let version = if body_uses_version(body) { "version"@ } else { "_version"@ };
    let t = emit_open(t, d, "impl "@ + rust_type);
    let t = emit_line(t, d + 1, "fn encode_validated<T: "@ + spelling(message, S::EncodeTarget) + ">("@);
    let t = emit_line(t, d + 1, "    &self,"@);
    let t = emit_line(t, d + 1, "    encoder: &mut "@ + spelling(message, S::Encoder) + "<T>,"@);
    let t = emit_line(t, d + 1, "    "@ + version + ": "@ + spelling(message, S::ApiVersion) + ","@);
    let t = emit_open(
        t,
        d + 1,
        ") -> "@ + spelling(message, S::Result) + "<(), "@ + spelling(message, S::EncodeError) + ">"@,
    );
    let t = t + body;
    let t = emit_close(t, d + 1, ""@);
    let t = if flexible && known_order(fields).len() > 0 {
        tag_writers_text(emit_blank(t), d + 1, fields, known_order(fields), known_order(fields).len() as int, scope)
    } else {
        t
    };
    let t = emit_close(t, d, ""@);
    emit_blank(t)
}

/// The refusal an encode body raises.
pub open spec fn encode_fault(fields: Seq<Field>, scope: ScopeView, flexible: bool) -> Option<Fault> {
    match codec_fault(fields, fields.len() as int, scope) {
        Some(f) => Some(f),
        None => if flexible {
            tags_fault(fields, scope)
        } else {
            None
        },
    }
}

fn encode_validated_head(rust: &mut RustText, rust_type: &str, scope: &Scope, version: &str)
    requires
        old(rust).room(2),
    ensures
        final(rust).text() == emit_open(
            emit_line(
                emit_line(
                    emit_line(
                        emit_line(
                            emit_open(old(rust).text(), old(rust).depth(), "impl "@ + rust_type@),
                            old(rust).depth() + 1,
                            "fn encode_validated<T: "@ + spelling(scope.message, S::EncodeTarget) + ">("@,
                        ),
                        old(rust).depth() + 1,
                        "    &self,"@,
                    ),
                    old(rust).depth() + 1,
                    "    encoder: &mut "@ + spelling(scope.message, S::Encoder) + "<T>,"@,
                ),
                old(rust).depth() + 1,
                "    "@ + version@ + ": "@ + spelling(scope.message, S::ApiVersion) + ","@,
            ),
            old(rust).depth() + 1,
            ") -> "@ + spelling(scope.message, S::Result) + "<(), "@ + spelling(scope.message, S::EncodeError) + ">"@,
        ),
        final(rust).depth() == old(rust).depth() + 2,
{
    let message = scope.message;
    let head = crate::strings::cat2("impl ", rust_type);
    rust.open(head.as_str());
    let target = spell(message, S::EncodeTarget);
    let l = crate::strings::cat3("fn encode_validated<T: ", target.as_str(), ">(");
    rust.line(l.as_str());
    rust.line("    &self,");
    let encoder = spell(message, S::Encoder);
    let l = crate::strings::cat3("    encoder: &mut ", encoder.as_str(), "<T>,");
    rust.line(l.as_str());
    let api_version = spell(message, S::ApiVersion);
    let l = crate::strings::cat5("    ", version, ": ", api_version.as_str(), ",");
    rust.line(l.as_str());
    let result = spell(message, S::Result);
    let error = spell(message, S::EncodeError);
    let l = crate::strings::cat5(") -> ", result.as_str(), "<(), ", error.as_str(), ">");
    rust.open(l.as_str());
}

fn render_encode_body(body: &mut RustText, fields: &Vec<Field>, scope: &Scope, flexible: bool) -> (r: Result<RenderedKnownTags, GenerationError>)
    requires
        old(body).room(3),
    ensures
        match codec_fault(fields@, fields@.len() as int, scope@) {
            None => r matches Ok(claimed) && final(body).text() == encode_body_text(
                old(body).text(),
                old(body).depth(),
                fields@,
                scope@,
                flexible,
            ) && final(body).depth() == old(body).depth() && claimed@ == (if flexible {
                order_tags(known_order(fields@))
            } else {
                Seq::empty()
            }),
            Some(f) => r matches Err(e) && e@ == f,
        },
{
    render_writes(body, fields, scope)?;
    let claimed = if flexible {
        render_tagged_encode(body, fields, scope)
    } else {
        RenderedKnownTags::default()
    };
    body.blank();
    let ok = spell(scope.message, S::ResultOk);
    let l = crate::strings::cat2(ok.as_str(), "(())");
    body.line(l.as_str());
    Ok(claimed)
}

/// Emits `encode_validated`, the write body every public encoder shares, and
/// reports the tags its tagged section claims.
fn render_validated_encode_body(
    rust: &mut RustText,
    rust_type: &str,
    fields: &Vec<Field>,
    scope: &Scope,
    flexible: bool,
) -> (r: Result<RenderedKnownTags, GenerationError>)
    requires
        old(rust).room(8),
    ensures
        match encode_fault(fields@, scope@, flexible) {
            None => r matches Ok(claimed) && final(rust).text() == validated_encode_text(
                old(rust).text(),
                old(rust).depth(),
                rust_type@,
                fields@,
                scope@,
                flexible,
            ) && final(rust).depth() == old(rust).depth() && claimed@ == (if flexible {
                order_tags(known_order(fields@))
            } else {
                Seq::empty()
            }),
            Some(f) => r matches Err(e) && e@ == f,
        },
{
    proof {
        reveal(validated_encode_text);
    }
    let depth = rust.current_depth();
    let mut body = RustText::at_depth(depth + 2);
    let claimed = render_encode_body(&mut body, fields, scope, flexible)?;
    let version = if validated_body_uses_version(body.as_str()) {
        "version"
    } else {
        "_version"
    };
    encode_validated_head(rust, rust_type, scope, version);
    rust.absorb(body);
    rust.close("");
    if flexible && claimed.is_empty() == false {
        rust.blank();
        render_known_tag_helpers(rust, fields, scope)?;
    }
    rust.close("");
    rust.blank();
    Ok(claimed)
}

/// The closure both measuring encoders hand the shared write body.
pub open spec fn validated_closure(rust_type: Seq<char>) -> Seq<char> {
    "    |encoder| "@ + rust_type + "::encode_validated(self, encoder, version),"@
}

/// The public `KafkaEncode` implementation around `encode_validated`.
#[verifier::opaque]
pub open spec fn kafka_encode_text(t: Seq<char>, d: nat, rust_type: Seq<char>, message: &Message) -> Seq<char> {
    let closure = validated_closure(rust_type);
    let api_version = spelling(message, S::ApiVersion);
    let result = spelling(message, S::Result);
    let error = spelling(message, S::EncodeError);
    let t = emit_open(t, d, "impl "@ + spelling(message, S::KafkaEncode) + " for "@ + rust_type);
    let t = emit_line(t, d + 1, "fn encode<T: "@ + spelling(message, S::EncodeTarget) + ">("@);
    let t = emit_line(t, d + 1, "    &self,"@);
    let t = emit_line(t, d + 1, "    encoder: &mut "@ + spelling(message, S::Encoder) + "<T>,"@);
    let t = emit_line(t, d + 1, "    version: "@ + api_version + ","@);
    let t = emit_open(t, d + 1, ") -> "@ + result + "<(), "@ + error + ">"@);
    let t = emit_line(t, d + 2, "self.validate_for_version(version)?;"@);
    let t = emit_line(t, d + 2, rust_type + "::encode_validated(self, encoder, version)"@);
    let t = emit_close(t, d + 1, ""@);
    let t = emit_blank(t);
    let t = emit_open(t, d + 1, "fn encoded_len(&self, version: "@ + api_version + ") -> "@ + result + "<usize, "@ + error + ">"@);
    let t = emit_line(t, d + 2, spelling(message, S::EncodedLenWith) + "("@);
    let t = emit_line(t, d + 2, "    || self.validate_for_version(version),"@);
    let t = emit_line(t, d + 2, closure);
    let t = emit_line(t, d + 2, ")"@);
    let t = emit_close(t, d + 1, ""@);
    let t = emit_blank(t);
    let t = emit_line(t, d + 1, "fn encode_into("@);
    let t = emit_line(t, d + 1, "    &self,"@);
    let t = emit_line(t, d + 1, "    buffer: &mut "@ + spelling(message, S::BytesMut) + ","@);
    let t = emit_line(t, d + 1, "    version: "@ + api_version + ","@);
    let t = emit_open(t, d + 1, ") -> "@ + result + "<usize, "@ + error + ">"@);
    let t = emit_line(t, d + 2, spelling(message, S::EncodeIntoWith) + "("@);
    let t = emit_line(t, d + 2, "    buffer,"@);
    let t = emit_line(t, d + 2, "    || self.validate_for_version(version),"@);
    let t = emit_line(t, d + 2, closure);
    let t = emit_line(t, d + 2, closure);
    let t = emit_line(t, d + 2, ")"@);
    let t = emit_close(t, d + 1, ""@);
    let t = emit_close(t, d, ""@);
    emit_blank(t)
}

fn render_kafka_encode(rust: &mut RustText, rust_type: &str, message: &Message)
    requires
        old(rust).room(2),
    ensures
        final(rust).text() == kafka_encode_text(old(rust).text(), old(rust).depth(), rust_type@, message),
        final(rust).depth() == old(rust).depth(),
{
    proof {
        reveal(kafka_encode_text);
    }
    let api_version = spell(message, S::ApiVersion);
    let result = spell(message, S::Result);
    let error = spell(message, S::EncodeError);
    let mut closure = owned("    |encoder| ");
    closure.append(rust_type);
    closure.append("::encode_validated(self, encoder, version),");
    let encode = spell(message, S::KafkaEncode);
    let l = crate::strings::cat4("impl ", encode.as_str(), " for ", rust_type);
    rust.open(l.as_str());
    let target = spell(message, S::EncodeTarget);
    let l = crate::strings::cat3("fn encode<T: ", target.as_str(), ">(");
    rust.line(l.as_str());
    rust.line("    &self,");
    let encoder = spell(message, S::Encoder);
    let l = crate::strings::cat3("    encoder: &mut ", encoder.as_str(), "<T>,");
    rust.line(l.as_str());
    let l = crate::strings::cat3("    version: ", api_version.as_str(), ",");
    rust.line(l.as_str());
    let l = crate::strings::cat5(") -> ", result.as_str(), "<(), ", error.as_str(), ">");
    rust.open(l.as_str());
    rust.line("self.validate_for_version(version)?;");
    let l = crate::strings::cat2(rust_type, "::encode_validated(self, encoder, version)");
    rust.line(l.as_str());
    rust.close("");
    rust.blank();
    let mut l = owned("fn encoded_len(&self, version: ");
    l.append(api_version.as_str());
    l.append(") -> ");
    l.append(result.as_str());
    l.append("<usize, ");
    l.append(error.as_str());
    l.append(">");
    rust.open(l.as_str());
    let with = spell(message, S::EncodedLenWith);
    let l = crate::strings::cat2(with.as_str(), "(");
    rust.line(l.as_str());
    rust.line("    || self.validate_for_version(version),");
    rust.line(closure.as_str());
    rust.line(")");
    rust.close("");
    rust.blank();
    rust.line("fn encode_into(");
    rust.line("    &self,");
    let bytes = spell(message, S::BytesMut);
    let l = crate::strings::cat3("    buffer: &mut ", bytes.as_str(), ",");
    rust.line(l.as_str());
    let l = crate::strings::cat3("    version: ", api_version.as_str(), ",");
    rust.line(l.as_str());
    let l = crate::strings::cat5(") -> ", result.as_str(), "<usize, ", error.as_str(), ">");
    rust.open(l.as_str());
    let into = spell(message, S::EncodeIntoWith);
    let l = crate::strings::cat2(into.as_str(), "(");
    rust.line(l.as_str());
    rust.line("    buffer,");
    rust.line("    || self.validate_for_version(version),");
    rust.line(closure.as_str());
    rust.line(closure.as_str());
    rust.line(")");
    rust.close("");
    rust.close("");
    rust.blank();
}

/// Emits one checked public encoder around one reusable validated write body,
/// and reports the tags the write body claims.
pub fn render_struct_encode(
    rust: &mut RustText,
    rust_type: &str,
    fields: &Vec<Field>,
    scope: &Scope,
    flexible: bool,
) -> (r: Result<RenderedKnownTags, GenerationError>)
    requires
        old(rust).room(8),
    ensures
        match encode_fault(fields@, scope@, flexible) {
            None => r matches Ok(claimed) && final(rust).text() == kafka_encode_text(
                validated_encode_text(old(rust).text(), old(rust).depth(), rust_type@, fields@, scope@, flexible),
                old(rust).depth(),
                rust_type@,
                scope.message,
            ) && final(rust).depth() == old(rust).depth() && claimed@ == (if flexible {
                order_tags(known_order(fields@))
            } else {
                Seq::empty()
            }),
            Some(f) => r matches Err(e) && e@ == f,
        },
{
    let claimed = render_validated_encode_body(rust, rust_type, fields, scope, flexible)?;
    render_kafka_encode(rust, rust_type, scope.message);
    Ok(claimed)
}

} // verus!
