//! Protocol prose turned into rustdoc.
//!
//! Upstream `about` text is written for a spec reader, not for rustdoc. This
//! file owns the transformations applied to it: terminating the sentence,
//! marking bare protocol identifiers as code, and escaping the punctuation
//! rustdoc would otherwise read as markup. It owns no emission of its own.

use vstd::prelude::*;

use crate::strings::{push_char, owned};

verus! {

/// Unicode's `Alphabetic` or `Numeric` property, as `char::is_alphanumeric` answers.
pub uninterp spec fn alphanumeric(c: char) -> bool;

/// Unicode's `Alphabetic` property, as `char::is_alphabetic` answers.
pub uninterp spec fn alphabetic(c: char) -> bool;

/// Unicode's `Uppercase` property, as `char::is_uppercase` answers.
pub uninterp spec fn uppercase(c: char) -> bool;

/// Unicode's `Lowercase` property, as `char::is_lowercase` answers.
pub uninterp spec fn lowercase(c: char) -> bool;

/// Unicode's `White_Space` property, as `char::is_whitespace` answers.
pub uninterp spec fn whitespace(c: char) -> bool;

/// Calls `char::is_alphanumeric`; its answer is a fixed property of `c`.
/// As std documents it, an ASCII character is alphanumeric exactly when it is a digit or a letter.
#[verifier::external_body]
fn is_alphanumeric(c: char) -> (r: bool)
    ensures
        r == alphanumeric(c),
        (c as u32) < 128 ==> (r == (('0' <= c <= '9') || ('a' <= c <= 'z') || ('A' <= c <= 'Z'))),
{
    c.is_alphanumeric()
}

/// Calls `char::is_alphabetic`; its answer is a fixed property of `c`.
/// As std documents it, an ASCII character is alphabetic exactly when it is a letter.
#[verifier::external_body]
fn is_alphabetic(c: char) -> (r: bool)
    ensures
        r == alphabetic(c),
        (c as u32) < 128 ==> (r == (('a' <= c <= 'z') || ('A' <= c <= 'Z'))),
{
    c.is_alphabetic()
}

/// Calls `char::is_uppercase`; its answer is a fixed property of `c`.
/// As std documents it, an ASCII character is uppercase exactly when it is `A` to `Z`.
#[verifier::external_body]
fn is_uppercase(c: char) -> (r: bool)
    ensures
        r == uppercase(c),
        (c as u32) < 128 ==> (r == ('A' <= c <= 'Z')),
{
    c.is_uppercase()
}

/// Calls `char::is_lowercase`; its answer is a fixed property of `c`.
/// As std documents it, an ASCII character is lowercase exactly when it is `a` to `z`.
#[verifier::external_body]
fn is_lowercase(c: char) -> (r: bool)
    ensures
        r == lowercase(c),
        (c as u32) < 128 ==> (r == ('a' <= c <= 'z')),
{
    c.is_lowercase()
}

/// Calls `char::is_whitespace`; its answer is a fixed property of `c`.
/// As std documents it, an ASCII character is whitespace exactly when it is a space, tab, line feed, vertical tab, form feed or carriage return.
#[verifier::external_body]
fn is_whitespace(c: char) -> (r: bool)
    ensures
        r == whitespace(c),
        (c as u32) < 128 ==> (r == (c == ' ' || c == '\t' || c == '\n' || c == '\u{0b}' || c == '\u{0c}' || c == '\r')),
{
    c.is_whitespace()
}

/// A character is alphanumeric: on ASCII, a digit or a letter; elsewhere as
/// Unicode's Alphabetic and Numeric properties say.
pub open spec fn alphanumeric_class(c: char) -> bool {
    if (c as u32) < 128 {
        ('0' <= c <= '9') || ('a' <= c <= 'z') || ('A' <= c <= 'Z')
    } else {
        alphanumeric(c)
    }
}

/// A character is alphabetic: on ASCII, a letter; elsewhere as Unicode says.
pub open spec fn alphabetic_class(c: char) -> bool {
    if (c as u32) < 128 {
        ('a' <= c <= 'z') || ('A' <= c <= 'Z')
    } else {
        alphabetic(c)
    }
}

/// A character is uppercase: on ASCII, `A` to `Z`; elsewhere as Unicode says.
pub open spec fn uppercase_class(c: char) -> bool {
    if (c as u32) < 128 {
        'A' <= c <= 'Z'
    } else {
        uppercase(c)
    }
}

/// A character is lowercase: on ASCII, `a` to `z`; elsewhere as Unicode says.
pub open spec fn lowercase_class(c: char) -> bool {
    if (c as u32) < 128 {
        'a' <= c <= 'z'
    } else {
        lowercase(c)
    }
}

/// A character is whitespace: on ASCII, space, tab, line feed, vertical tab,
/// form feed or carriage return; elsewhere as Unicode's White_Space says.
pub open spec fn whitespace_class(c: char) -> bool {
    if (c as u32) < 128 {
        c == ' ' || c == '\t' || c == '\n' || c == '\u{0b}' || c == '\u{0c}' || c == '\r'
    } else {
        whitespace(c)
    }
}

/// A character that may appear inside an identifier.
pub open spec fn identifier_char(c: char) -> bool {
    alphanumeric_class(c) || c == '_'
}

/// Whether a character may appear inside an identifier.
pub fn is_identifier_character(c: char) -> (r: bool)
    ensures
        r == identifier_char(c),
{
    is_alphanumeric(c) || c == '_'
}

/// The whitespace-separated tokens of `s`, with `cur` the token begun so far.
pub open spec fn tokens_from(s: Seq<char>, cur: Seq<char>) -> Seq<Seq<char>>
    decreases s.len(),
{
    let flushed: Seq<Seq<char>> = if cur.len() > 0 { seq![cur] } else { Seq::empty() };
    if s.len() == 0 {
        flushed
    } else if whitespace_class(s[0]) {
        flushed + tokens_from(s.drop_first(), Seq::empty())
    } else {
        tokens_from(s.drop_first(), cur.push(s[0]))
    }
}

/// The tokens `split_whitespace` yields.
pub open spec fn tokens(s: Seq<char>) -> Seq<Seq<char>> {
    tokens_from(s, Seq::empty())
}

/// Tokens joined by single spaces.
pub open spec fn join_spaced(ts: Seq<Seq<char>>) -> Seq<char>
    decreases ts.len(),
{
    if ts.len() == 0 {
        Seq::empty()
    } else if ts.len() == 1 {
        ts[0]
    } else {
        join_spaced(ts.drop_last()) + seq![' '] + ts.last()
    }
}

/// Whether one run of identifier characters names a protocol item: an
/// underscored word with a letter in it, or a mixed-case word with a capital
/// after its first character.
pub open spec fn protocol_identifier(run: Seq<char>) -> bool {
    ||| (exists|i: int| 0 <= i < run.len() && run[i] == '_') && (exists|i: int|
        0 <= i < run.len() && alphabetic_class(#[trigger] run[i]))
    ||| (exists|i: int| 1 <= i < run.len() && uppercase_class(#[trigger] run[i])) && (exists|i: int|
        0 <= i < run.len() && lowercase_class(#[trigger] run[i]))
}

/// A run of identifier characters, wrapped in backticks when it names an item.
pub open spec fn flush_run(run: Seq<char>) -> Seq<char> {
    if run.len() > 0 && protocol_identifier(run) {
        "`"@ + run + "`"@
    } else {
        run
    }
}

/// The rest `t` of a token marked, with `run` the identifier run begun so far.
pub open spec fn mark_from(t: Seq<char>, run: Seq<char>) -> Seq<char>
    decreases t.len(),
{
    if t.len() == 0 {
        flush_run(run)
    } else if identifier_char(t[0]) {
        mark_from(t.drop_first(), run.push(t[0]))
    } else {
        flush_run(run) + seq![t[0]] + mark_from(t.drop_first(), Seq::empty())
    }
}

/// One whitespace-delimited token with each bare protocol identifier marked as code.
pub open spec fn marked(token: Seq<char>) -> Seq<char> {
    if token.contains('`') {
        token
    } else {
        mark_from(token, Seq::empty())
    }
}

/// `s` with square brackets outside code spans escaped, from code-span state `in_code`.
pub open spec fn escape_from(s: Seq<char>, in_code: bool) -> Seq<char>
    decreases s.len(),
{
    if s.len() == 0 {
        Seq::empty()
    } else if s[0] == '`' {
        seq![s[0]] + escape_from(s.drop_first(), !in_code)
    } else if (s[0] == '[' || s[0] == ']') && !in_code {
        seq!['\\', s[0]] + escape_from(s.drop_first(), in_code)
    } else {
        seq![s[0]] + escape_from(s.drop_first(), in_code)
    }
}

/// One upstream `about` string as a rustdoc sentence.
pub open spec fn sentence_text(source: Seq<char>) -> Seq<char> {
    let text = escape_from(join_spaced(tokens(source).map_values(|t: Seq<char>| marked(t))), false);
    if text.len() > 0 && (text.last() == '.' || text.last() == '!' || text.last() == '?') {
        text
    } else {
        text.push('.')
    }
}

/// Whether one unbroken run of identifier characters names a protocol item.
///
/// An underscored word is an item in either case: rustdoc's lint reads
/// `READ_UNCOMMITTED` and `isolation_level` alike as identifiers. A run of
/// digits joined by underscores is not one.
pub fn is_protocol_identifier(run: &str) -> (r: bool)
    ensures
        r == protocol_identifier(run@),
{
    let chars = crate::versions::chars_of(run);
    let mut underscore = false;
    let mut letter = false;
    let mut inner_upper = false;
    let mut lower = false;
    let mut i: usize = 0;
    while i < chars.len()
        invariant
            chars@ == run@,
            i <= chars@.len(),
            underscore == exists|k: int| 0 <= k < i && chars@[k] == '_',
            letter == exists|k: int| 0 <= k < i && alphabetic_class(#[trigger] chars@[k]),
            inner_upper == exists|k: int| 1 <= k < i && uppercase_class(#[trigger] chars@[k]),
            lower == exists|k: int| 0 <= k < i && lowercase_class(#[trigger] chars@[k]),
        decreases chars@.len() - i,
    {
        let c = chars[i];
        if c == '_' {
            underscore = true;
        }
        if is_alphabetic(c) {
            letter = true;
        }
        if i >= 1 && is_uppercase(c) {
            inner_upper = true;
        }
        if is_lowercase(c) {
            lower = true;
        }
        i = i + 1;
    }
    (underscore && letter) || (inner_upper && lower)
}

fn flush(out: &mut String, run: &String)
    ensures
        final(out)@ == old(out)@ + flush_run(run@),
{
    if run.as_str().unicode_len() > 0 && is_protocol_identifier(run.as_str()) {
        push_char(out, '`');
        out.append(run.as_str());
        push_char(out, '`');
        proof {
            reveal_strlit("`");
        }
        assert(out@ =~= old(out)@ + flush_run(run@));
    } else {
        out.append(run.as_str());
    }
}

/// Marks every bare protocol identifier inside one whitespace-delimited token.
///
/// Walks the token's runs of identifier characters rather than the single span
/// between its first and last one: upstream writes `0=NOT_REQUESTED`, and only
/// the run after the `=` is the identifier.
pub fn mark_protocol_identifier(token: &str) -> (r: String)
    ensures
        r@ == marked(token@),
{
    let chars = crate::versions::chars_of(token);
    let mut has_tick = false;
    let mut k: usize = 0;
    while k < chars.len()
        invariant
            chars@ == token@,
            k <= chars@.len(),
            has_tick == exists|j: int| 0 <= j < k && chars@[j] == '`',
        decreases chars@.len() - k,
    {
        if chars[k] == '`' {
            has_tick = true;
        }
        k = k + 1;
    }
    if has_tick {
        assert(token@.contains('`'));
        return owned(token);
    }
    let mut out = String::new();
    let mut run = String::new();
    let mut i: usize = 0;
    assert(chars@.skip(0) =~= token@);
    while i < chars.len()
        invariant
            chars@ == token@,
            i <= chars@.len(),
            out@ + mark_from(chars@.skip(i as int), run@) == mark_from(token@, Seq::empty()),
        decreases chars@.len() - i,
    {
        let c = chars[i];
        let ghost rest = chars@.skip(i as int);
        proof {
            assert(rest[0] == c);
            assert(rest.drop_first() =~= chars@.skip(i + 1));
        }
        if is_identifier_character(c) {
            push_char(&mut run, c);
        } else {
            let ghost before = out@;
            let ghost begun = run@;
            flush(&mut out, &run);
            push_char(&mut out, c);
            run = String::new();
            proof {
                assert(mark_from(rest, begun) == flush_run(begun) + seq![c] + mark_from(
                    rest.drop_first(),
                    Seq::empty(),
                ));
                assert(out@ + mark_from(chars@.skip(i + 1), run@) =~= before + mark_from(rest, begun));
            }
        }
        i = i + 1;
    }
    let ghost before = out@;
    flush(&mut out, &run);
    proof {
        assert(chars@.skip(i as int) =~= Seq::<char>::empty());
    }
    out
}

/// Escapes square brackets that rustdoc would read as an intra-doc link.
///
/// Upstream prose indexes things (`Array[0] empty string`), and rustdoc reads
/// `[0]` as a link to an item that does not exist. Brackets inside a code span
/// stay as they are: a backslash there would render literally.
pub fn escape_link_brackets(source: &str) -> (r: String)
    ensures
        r@ == escape_from(source@, false),
{
    let chars = crate::versions::chars_of(source);
    let mut escaped = String::new();
    let mut in_code_span = false;
    let mut i: usize = 0;
    assert(chars@.skip(0) =~= source@);
    while i < chars.len()
        invariant
            chars@ == source@,
            i <= chars@.len(),
            escaped@ + escape_from(chars@.skip(i as int), in_code_span) == escape_from(source@, false),
        decreases chars@.len() - i,
    {
        let c = chars[i];
        let ghost rest = chars@.skip(i as int);
        let ghost before = escaped@;
        let ghost state = in_code_span;
        proof {
            assert(rest[0] == c);
            assert(rest.drop_first() =~= chars@.skip(i + 1));
        }
        if c == '`' {
            in_code_span = !in_code_span;
        } else if (c == '[' || c == ']') && !in_code_span {
            push_char(&mut escaped, '\\');
        }
        push_char(&mut escaped, c);
        i = i + 1;
        proof {
            assert(escaped@ + escape_from(chars@.skip(i as int), in_code_span) =~= before + escape_from(rest, state));
        }
    }
    proof {
        assert(chars@.skip(i as int) =~= Seq::<char>::empty());
        assert(escaped@ =~= escaped@ + escape_from(chars@.skip(i as int), in_code_span));
    }
    escaped
}

/// The views of a vector of strings.
pub open spec fn views(v: Seq<String>) -> Seq<Seq<char>> {
    v.map_values(|s: String| s@)
}

/// The whitespace-separated tokens of `source`, as `split_whitespace` yields them.
fn split_tokens(source: &str) -> (r: Vec<String>)
    ensures
        views(r@) == tokens(source@),
{
    let chars = crate::versions::chars_of(source);
    let mut found: Vec<String> = Vec::new();
    let mut current = String::new();
    let mut i: usize = 0;
    assert(chars@.skip(0) =~= source@);
    assert(views(found@) + tokens_from(chars@.skip(0), current@) =~= tokens(source@));
    while i < chars.len()
        invariant
            chars@ == source@,
            i <= chars@.len(),
            views(found@) + tokens_from(chars@.skip(i as int), current@) == tokens(source@),
        decreases chars@.len() - i,
    {
        let c = chars[i];
        let ghost rest = chars@.skip(i as int);
        let ghost before = views(found@);
        let ghost begun = current@;
        proof {
            assert(rest[0] == c);
            assert(rest.drop_first() =~= chars@.skip(i + 1));
        }
        if is_whitespace(c) {
            if current.as_str().unicode_len() > 0 {
                found.push(current);
                assert(views(found@) =~= before.push(begun));
            }
            current = String::new();
            i = i + 1;
            proof {
                let flushed: Seq<Seq<char>> = if begun.len() > 0 { seq![begun] } else { Seq::empty() };
                assert(views(found@) =~= before + flushed);
                assert(views(found@) + tokens_from(chars@.skip(i as int), current@) =~= before + tokens_from(
                    rest,
                    begun,
                ));
            }
        } else {
            push_char(&mut current, c);
            i = i + 1;
            proof {
                assert(views(found@) =~= before);
            }
        }
    }
    let ghost before = views(found@);
    let ghost begun = current@;
    proof {
        assert(chars@.skip(i as int) =~= Seq::<char>::empty());
    }
    if current.as_str().unicode_len() > 0 {
        found.push(current);
        assert(views(found@) =~= before.push(begun));
    }
    proof {
        let flushed: Seq<Seq<char>> = if begun.len() > 0 { seq![begun] } else { Seq::empty() };
        assert(views(found@) =~= before + flushed);
    }
    found
}

/// Renders one upstream `about` string as a rustdoc sentence.
///
/// Whitespace runs collapse to one space, bare protocol identifiers are marked
/// as code, link brackets are escaped, and a full stop ends the sentence unless
/// it already ends in `.`, `!` or `?`.
pub fn sentence(source: &str) -> (r: String)
    ensures
        r@ == sentence_text(source@),
{
    let found = split_tokens(source);
    let ghost marked_all = tokens(source@).map_values(|t: Seq<char>| marked(t));
    let mut joined = String::new();
    let mut i: usize = 0;
    assert(marked_all.take(0) =~= Seq::<Seq<char>>::empty());
    while i < found.len()
        invariant
            views(found@) == tokens(source@),
            marked_all == tokens(source@).map_values(|t: Seq<char>| marked(t)),
            i <= found@.len(),
            joined@ == join_spaced(marked_all.take(i as int)),
        decreases found@.len() - i,
    {
        let piece = mark_protocol_identifier(found[i].as_str());
        proof {
            assert(views(found@)[i as int] == found@[i as int]@);
            assert(piece@ == marked_all[i as int]);
            assert(marked_all.take(i + 1).drop_last() =~= marked_all.take(i as int));
        }
        if i > 0 {
            push_char(&mut joined, ' ');
        }
        joined.append(piece.as_str());
        i = i + 1;
        proof {
            if i == 1 {
                assert(joined@ =~= join_spaced(marked_all.take(i as int)));
            } else {
                assert(joined@ =~= join_spaced(marked_all.take(i as int)));
            }
        }
    }
    proof {
        assert(marked_all.take(i as int) =~= marked_all);
    }
    let mut text = escape_link_brackets(joined.as_str());
    let n = text.as_str().unicode_len();
    if n > 0 {
        let last = text.as_str().get_char(n - 1);
        if last == '.' || last == '!' || last == '?' {
            return text;
        }
    }
    push_char(&mut text, '.');
    text
}

} // verus!
