//! Spelling protocol names as Rust names.
//!
//! Upstream writes every name in upper camel case (`ProduceRequest`,
//! `VersionValue`). Rust wants modules and fields in snake case and constants
//! in screaming snake case; this file owns both conversions and nothing else.

use vstd::prelude::*;

use crate::strings::{owned, push_char};

verus! {

pub open spec fn is_upper(c: char) -> bool {
    'A' <= c <= 'Z'
}

pub open spec fn is_lower(c: char) -> bool {
    'a' <= c <= 'z'
}

pub open spec fn is_ascii_digit(c: char) -> bool {
    '0' <= c <= '9'
}

/// `c` in lower case, when it is an ASCII capital.
pub open spec fn to_lower(c: char) -> char {
    if is_upper(c) {
        (c as int + 32) as char
    } else {
        c
    }
}

/// `c` in upper case, when it is an ASCII small letter.
pub open spec fn to_upper(c: char) -> char {
    if is_lower(c) {
        (c as int - 32) as char
    } else {
        c
    }
}

/// Whether a word boundary falls just before position `i` of a camel-case name:
/// a capital after a small letter or digit, or the last capital of an acronym
/// that a small letter follows.
pub open spec fn word_starts(s: Seq<char>, i: int) -> bool {
    &&& 0 < i < s.len()
    &&& is_upper(s[i])
    &&& (is_lower(s[i - 1]) || is_ascii_digit(s[i - 1]) || (is_upper(s[i - 1]) && i + 1 < s.len()
        && is_lower(s[i + 1])))
}

/// The words of `s` from position `i` on, joined by `_`, each letter mapped by `upper`.
pub open spec fn joined_words(s: Seq<char>, i: int, upper: bool) -> Seq<char>
    decreases s.len() - i,
{
    if i < 0 || i >= s.len() {
        Seq::empty()
    } else {
        let sep: Seq<char> = if word_starts(s, i) { seq!['_'] } else { Seq::empty() };
        let c = if upper { to_upper(s[i]) } else { to_lower(s[i]) };
        sep + seq![c] + joined_words(s, i + 1, upper)
    }
}

/// `ProduceRequest` as `produce_request`.
pub open spec fn snake(s: Seq<char>) -> Seq<char> {
    joined_words(s, 0, false)
}

/// `ProduceRequest` as `PRODUCE_REQUEST`.
pub open spec fn screaming(s: Seq<char>) -> Seq<char> {
    joined_words(s, 0, true)
}

/// The words Rust reserves, which cannot name a field.
pub open spec fn is_keyword(s: Seq<char>) -> bool {
    s == "as"@ || s == "async"@ || s == "await"@ || s == "break"@ || s == "const"@ || s == "continue"@
        || s == "crate"@ || s == "dyn"@ || s == "else"@ || s == "enum"@ || s == "extern"@ || s
        == "false"@ || s == "fn"@ || s == "for"@ || s == "if"@ || s == "impl"@ || s == "in"@ || s
        == "let"@ || s == "loop"@ || s == "match"@ || s == "mod"@ || s == "move"@ || s == "mut"@
        || s == "pub"@ || s == "ref"@ || s == "return"@ || s == "self"@ || s == "static"@ || s
        == "struct"@ || s == "super"@ || s == "trait"@ || s == "true"@ || s == "type"@ || s
        == "unsafe"@ || s == "use"@ || s == "where"@ || s == "while"@
}

/// A Rust field name for an upstream name: snake case, with a trailing `_`
/// where the snake-case word is reserved.
pub open spec fn field_ident(s: Seq<char>) -> Seq<char> {
    let name = snake(s);
    if is_keyword(name) {
        name.push('_')
    } else {
        name
    }
}

fn lower_char(c: char) -> (r: char)
    ensures
        r == to_lower(c),
{
    if 'A' <= c && c <= 'Z' {
        ((c as u8) + 32) as char
    } else {
        c
    }
}

fn upper_char(c: char) -> (r: char)
    ensures
        r == to_upper(c),
{
    if 'a' <= c && c <= 'z' {
        ((c as u8) - 32) as char
    } else {
        c
    }
}

/// Joins the camel-case words of `s` with `_`, lowering or raising every letter.
fn words(s: &str, upper: bool) -> (r: String)
    ensures
        r@ == joined_words(s@, 0, upper),
{
    let chars = crate::versions::chars_of(s);
    let mut out = String::new();
    let mut i: usize = 0;
    while i < chars.len()
        invariant
            chars@ == s@,
            i <= chars@.len(),
            out@ + joined_words(s@, i as int, upper) == joined_words(s@, 0, upper),
        decreases chars@.len() - i,
    {
        let c = chars[i];
        let boundary = i > 0 && 'A' <= c && c <= 'Z' && {
            let p = chars[i - 1];
            ('a' <= p && p <= 'z') || ('0' <= p && p <= '9') || ('A' <= p && p <= 'Z' && i + 1 < chars.len()
                && 'a' <= chars[i + 1] && chars[i + 1] <= 'z')
        };
        let ghost before = out@;
        if boundary {
            push_char(&mut out, '_');
        }
        let mapped = if upper {
            upper_char(c)
        } else {
            lower_char(c)
        };
        push_char(&mut out, mapped);
        proof {
            assert(boundary == word_starts(s@, i as int));
            let sep: Seq<char> = if boundary { seq!['_'] } else { Seq::empty() };
            assert(out@ =~= before + (sep + seq![mapped]));
            assert(joined_words(s@, i as int, upper) == sep + seq![mapped] + joined_words(s@, i + 1, upper));
            assert(out@ + joined_words(s@, i + 1, upper) =~= before + joined_words(s@, i as int, upper));
        }
        i = i + 1;
    }
    assert(out@ =~= joined_words(s@, 0, upper)) by {
        assert(joined_words(s@, i as int, upper) =~= Seq::<char>::empty());
    }
    out
}

/// `ProduceRequest` as `produce_request`.
pub fn snake_case(s: &str) -> (r: String)
    ensures
        r@ == snake(s@),
{
    words(s, false)
}

/// `ProduceRequest` as `PRODUCE_REQUEST`.
pub fn screaming_snake_case(s: &str) -> (r: String)
    ensures
        r@ == screaming(s@),
{
    words(s, true)
}

fn spelled(text: &String, word: &str) -> (r: bool)
    ensures
        r == (text@ == word@),
{
    let w = owned(word);
    *text == w
}

/// Whether `s` is one of the words Rust reserves.
pub fn keyword(s: &str) -> (r: bool)
    ensures
        r == is_keyword(s@),
{
    let text = owned(s);
    spelled(&text, "as")
        || spelled(&text, "async")
        || spelled(&text, "await")
        || spelled(&text, "break")
        || spelled(&text, "const")
        || spelled(&text, "continue")
        || spelled(&text, "crate")
        || spelled(&text, "dyn")
        || spelled(&text, "else")
        || spelled(&text, "enum")
        || spelled(&text, "extern")
        || spelled(&text, "false")
        || spelled(&text, "fn")
        || spelled(&text, "for")
        || spelled(&text, "if")
        || spelled(&text, "impl")
        || spelled(&text, "in")
        || spelled(&text, "let")
        || spelled(&text, "loop")
        || spelled(&text, "match")
        || spelled(&text, "mod")
        || spelled(&text, "move")
        || spelled(&text, "mut")
        || spelled(&text, "pub")
        || spelled(&text, "ref")
        || spelled(&text, "return")
        || spelled(&text, "self")
        || spelled(&text, "static")
        || spelled(&text, "struct")
        || spelled(&text, "super")
        || spelled(&text, "trait")
        || spelled(&text, "true")
        || spelled(&text, "type")
        || spelled(&text, "unsafe")
        || spelled(&text, "use")
        || spelled(&text, "where")
        || spelled(&text, "while")
}

/// The Rust field name for an upstream field name.
pub fn field_identifier(s: &str) -> (r: String)
    ensures
        r@ == field_ident(s@),
{
    let mut name = snake_case(s);
    if keyword(name.as_str()) {
        push_char(&mut name, '_');
    }
    name
}

} // verus!
