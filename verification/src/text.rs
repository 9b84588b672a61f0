//! Tiny indentation-aware text sink for complete generated files.
//!
//! Callers own Rust syntax; this builder owns physical-line containment and
//! balanced scope indentation. Every scope it opens is closed by the caller,
//! and the contracts below make an unbalanced caller a verification error
//! rather than a panic at the end of generation.

use vstd::prelude::*;

use crate::strings::{cat2, pop_char, push_char};

verus! {

/// The indentation of one line at nesting `depth`: four spaces per level.
pub open spec fn pad(depth: nat) -> Seq<char> {
    Seq::new(4 * depth, |_i: int| ' ')
}

/// One physical line at nesting `depth`.
pub open spec fn line_text(depth: nat, line: Seq<char>) -> Seq<char> {
    pad(depth) + line + seq!['\n']
}

/// Whether `c` ends a physical line in prose.
pub open spec fn is_line_break(c: char) -> bool {
    c == '\r' || c == '\n' || c == '\u{2028}' || c == '\u{2029}'
}

/// The physical lines of prose, where `\r\n` counts as one break.
pub open spec fn prose_lines(s: Seq<char>) -> Seq<Seq<char>>
    decreases s.len(),
{
    if s.len() == 0 {
        seq![Seq::empty()]
    } else if is_line_break(s[0]) {
        let skip = if s[0] == '\r' && s.len() > 1 && s[1] == '\n' { 2int } else { 1int };
        seq![Seq::empty()] + prose_lines(s.skip(skip))
    } else {
        let rest = prose_lines(s.drop_first());
        rest.update(0, seq![s[0]] + rest[0])
    }
}

/// Every physical prose line as a doc comment at nesting `depth`.
pub open spec fn doc_text(depth: nat, lines: Seq<Seq<char>>) -> Seq<char>
    decreases lines.len(),
{
    if lines.len() == 0 {
        Seq::empty()
    } else {
        line_text(depth, "/// "@ + lines[0]) + doc_text(depth, lines.drop_first())
    }
}

/// A finished file: the text with trailing blank lines folded to one newline.
pub open spec fn trimmed(s: Seq<char>) -> Seq<char>
    decreases s.len(),
{
    if s.len() >= 2 && s[s.len() - 1] == '\n' && s[s.len() - 2] == '\n' {
        trimmed(s.drop_last())
    } else {
        s
    }
}

/// `t` followed by one line at depth `d`.
pub open spec fn emit_line(t: Seq<char>, d: nat, line: Seq<char>) -> Seq<char> {
    t + line_text(d, line)
}

/// `t` followed by `line {`, which opens a scope one level below `d`.
pub open spec fn emit_open(t: Seq<char>, d: nat, line: Seq<char>) -> Seq<char> {
    t + line_text(d, line + " {"@)
}

/// `t` followed by the `}` and `suffix` that close a scope back to depth `d`.
pub open spec fn emit_close(t: Seq<char>, d: nat, suffix: Seq<char>) -> Seq<char> {
    t + line_text(d, "}"@ + suffix)
}

/// `t` followed by an empty line.
pub open spec fn emit_blank(t: Seq<char>) -> Seq<char> {
    t.push('\n')
}

/// Deterministic line-oriented Rust source builder.
pub struct RustText {
    output: String,
    indent: usize,
}

impl RustText {
    /// The text emitted so far.
    pub closed spec fn text(&self) -> Seq<char> {
        self.output@
    }

    /// How many scopes are open.
    pub closed spec fn depth(&self) -> nat {
        self.indent as nat
    }

    /// Whether `extra` more scopes can still be opened.
    pub open spec fn room(&self, extra: nat) -> bool {
        self.depth() + extra <= usize::MAX
    }

    /// An empty builder whose lines start `depth` scopes deep.
    pub fn at_depth(depth: usize) -> (r: RustText)
        ensures
            r.text() == Seq::<char>::empty(),
            r.depth() == depth,
    {
        RustText { output: String::new(), indent: depth }
    }

    /// The text emitted so far, for a caller that asks what it holds.
    pub fn as_str(&self) -> (r: &str)
        ensures
            r@ == self.text(),
    {
        self.output.as_str()
    }

    /// How many scopes are open.
    pub fn current_depth(&self) -> (r: usize)
        ensures
            r == self.depth(),
    {
        self.indent
    }

    /// Emits one line at the current indentation.
    pub fn line(&mut self, line: &str)
        ensures
            final(self).text() == old(self).text() + line_text(old(self).depth(), line@),
            final(self).depth() == old(self).depth(),
    {
        let mut level: usize = 0;
        let ghost start = self.output@;
        while level < self.indent
            invariant
                level <= self.indent,
                self.indent == old(self).indent,
                self.output@ == start + pad(level as nat),
            decreases self.indent - level,
        {
            self.output.append("    ");
            level = level + 1;
            proof {
                reveal_strlit("    ");
            }
            assert(self.output@ =~= start + pad(level as nat));
        }
        self.output.append(line);
        push_char(&mut self.output, '\n');
        assert(self.output@ =~= start + line_text(self.indent as nat, line@));
    }

    /// Emits untrusted prose as Rust doc lines without allowing a line escape.
    pub fn doc_line(&mut self, prose: &str)
        ensures
            final(self).text() == old(self).text() + doc_text(old(self).depth(), prose_lines(prose@)),
            final(self).depth() == old(self).depth(),
    {
        let chars = crate::versions::chars_of(prose);
        let mut physical = String::new();
        let mut i: usize = 0;
        let ghost start = self.output@;
        proof {
            lemma_prose_lines_nonempty(prose@);
            assert(chars@.skip(0) =~= prose@);
            let lines = prose_lines(prose@);
            assert(physical@ + lines[0] =~= lines[0]);
            assert(lines.update(0, physical@ + lines[0]) =~= lines);
        }
        while i < chars.len()
            invariant
                chars@ == prose@,
                i <= chars@.len(),
                self.indent == old(self).indent,
                start + doc_text(self.indent as nat, prose_lines(prose@))
                    == self.output@ + doc_text(self.indent as nat, prose_lines(chars@.skip(i as int)).update(
                        0,
                        physical@ + prose_lines(chars@.skip(i as int))[0],
                    )),
            decreases chars@.len() - i,
        {
            let character = chars[i];
            let ghost rest = chars@.skip(i as int);
            proof {
                lemma_prose_lines_nonempty(rest);
                assert(rest[0] == character);
                assert(rest.drop_first() =~= chars@.skip(i + 1));
            }
            let ghost old_physical = physical@;
            if character == '\r' || character == '\n' || character == '\u{2028}' || character == '\u{2029}' {
                let ghost lines = prose_lines(rest);
                let text = cat2("/// ", physical.as_str());
                self.line(text.as_str());
                physical = String::new();
                if character == '\r' && i + 1 < chars.len() && chars[i + 1] == '\n' {
                    proof {
                        assert(rest[1] == '\n');
                        assert(rest.skip(2) =~= chars@.skip(i + 2));
                    }
                    i = i + 2;
                } else {
                    i = i + 1;
                }
                proof {
                    let tail = prose_lines(chars@.skip(i as int));
                    lemma_prose_lines_nonempty(chars@.skip(i as int));
                    assert(lines =~= seq![Seq::<char>::empty()] + tail);
                    assert(physical@ + tail[0] =~= tail[0]);
                    assert(tail.update(0, physical@ + tail[0]) =~= tail);
                    let replaced = lines.update(0, old_physical + lines[0]);
                    assert(old_physical + lines[0] =~= old_physical);
                    assert(replaced[0] == old_physical);
                    assert(replaced.drop_first() =~= tail);
                    assert(doc_text(self.indent as nat, replaced) == line_text(self.indent as nat, "/// "@ + old_physical)
                        + doc_text(self.indent as nat, tail));
                }
            } else {
                push_char(&mut physical, character);
                i = i + 1;
                proof {
                    let tail = prose_lines(chars@.skip(i as int));
                    lemma_prose_lines_nonempty(chars@.skip(i as int));
                    assert(prose_lines(rest) == tail.update(0, seq![character] + tail[0]));
                    assert(prose_lines(rest)[0] == seq![character] + tail[0]);
                    assert(old_physical + (seq![character] + tail[0]) =~= physical@ + tail[0]);
                    assert(prose_lines(rest).update(0, old_physical + prose_lines(rest)[0])
                        =~= tail.update(0, physical@ + tail[0]));
                }
            }
        }
        proof {
            let empty = chars@.skip(i as int);
            assert(empty.len() == 0);
            assert(prose_lines(empty) =~= seq![Seq::<char>::empty()]);
            let last = prose_lines(empty).update(0, physical@ + prose_lines(empty)[0]);
            assert(last =~= seq![physical@]);
            assert(doc_text(self.indent as nat, last.drop_first()) == Seq::<char>::empty()) by {
                assert(last.drop_first().len() == 0);
            }
        }
        let text = cat2("/// ", physical.as_str());
        self.line(text.as_str());
        proof {
            let empty = chars@.skip(i as int);
            let last = prose_lines(empty).update(0, physical@ + prose_lines(empty)[0]);
            assert(last.drop_first() =~= Seq::<Seq<char>>::empty());
        }
    }

    /// Emits an empty line, with no indentation.
    pub fn blank(&mut self)
        ensures
            final(self).text() == old(self).text().push('\n'),
            final(self).depth() == old(self).depth(),
    {
        push_char(&mut self.output, '\n');
    }

    /// Emits `line {` and opens one scope.
    pub fn open(&mut self, line: &str)
        requires
            old(self).room(1),
        ensures
            final(self).text() == old(self).text() + line_text(old(self).depth(), line@ + " {"@),
            final(self).depth() == old(self).depth() + 1,
    {
        let text = cat2(line, " {");
        self.line(text.as_str());
        self.indent = self.indent + 1;
    }

    /// Closes one scope with `}` and `suffix`.
    pub fn close(&mut self, suffix: &str)
        requires
            old(self).depth() > 0,
        ensures
            final(self).text() == old(self).text() + line_text((old(self).depth() - 1) as nat, "}"@ + suffix@),
            final(self).depth() == old(self).depth() - 1,
    {
        self.dedent();
        let text = cat2("}", suffix);
        self.line(text.as_str());
    }

    /// Closes one scope with `line` and opens the next, as `} else {` does.
    pub fn reopen(&mut self, line: &str)
        requires
            old(self).depth() > 0,
        ensures
            final(self).text() == old(self).text() + line_text((old(self).depth() - 1) as nat, line@),
            final(self).depth() == old(self).depth(),
    {
        self.dedent();
        self.line(line);
        self.indent = self.indent + 1;
    }

    /// Appends text another builder produced at this same nesting.
    pub fn absorb(&mut self, other: RustText)
        requires
            other.depth() == old(self).depth(),
        ensures
            final(self).text() == old(self).text() + other.text(),
            final(self).depth() == old(self).depth(),
    {
        self.output.append(other.output.as_str());
    }

    /// The finished file, once every scope is closed.
    pub fn finish(self) -> (r: String)
        requires
            self.depth() == 0,
        ensures
            r@ == trimmed(self.text()),
    {
        let mut output = self.output;
        loop
            invariant
                trimmed(output@) == trimmed(self.text()),
            decreases output@.len(),
        {
            let n = output.as_str().unicode_len();
            if n >= 2 && output.as_str().get_char(n - 1) == '\n' && output.as_str().get_char(n - 2) == '\n' {
                let _ = pop_char(&mut output);
            } else {
                return output;
            }
        }
    }

    fn dedent(&mut self)
        requires
            old(self).depth() > 0,
        ensures
            final(self).text() == old(self).text(),
            final(self).depth() == old(self).depth() - 1,
    {
        self.indent = self.indent - 1;
    }
}

impl Default for RustText {
    fn default() -> (r: RustText)
        ensures
            r.text() == Seq::<char>::empty(),
            r.depth() == 0,
    {
        RustText::at_depth(0)
    }
}

proof fn lemma_prose_lines_nonempty(s: Seq<char>)
    ensures
        prose_lines(s).len() >= 1,
    decreases s.len(),
{
    if s.len() > 0 {
        if is_line_break(s[0]) {
            let skip = if s[0] == '\r' && s.len() > 1 && s[1] == '\n' { 2int } else { 1int };
            lemma_prose_lines_nonempty(s.skip(skip));
        } else {
            lemma_prose_lines_nonempty(s.drop_first());
        }
    }
}

} // verus!
