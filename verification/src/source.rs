//! Locked source verification: digests, the canonical byte framing that
//! provenance hashes, and the check that a pinned file still matches the
//! digest recorded for it.
//!
//! Reading files and walking directories belong to the program around this
//! library; everything here is a function of bytes already read.

use vstd::prelude::*;

use sha2::{Digest, Sha256};
use vstd::string::StringSliceAdditionalSpecFns;

use crate::group::MessageSource;
use crate::order::{lex_less, text_less};
use crate::schema::{Fault, GenerationError};
use crate::strings::{owned, push_char};

verus! {

/// The SHA-256 digest of `bytes`, as FIPS 180-4 defines it.
pub uninterp spec fn sha256_digest(bytes: Seq<u8>) -> Seq<u8>;

/// Calls `sha2::Sha256::digest` and returns its 32 bytes; the digest is a
/// fixed function of the input, named `sha256_digest` rather than restated.
#[verifier::external_body]
fn sha256(bytes: &[u8]) -> (r: [u8; 32])
    ensures
        r@ == sha256_digest(bytes@),
{
    Sha256::digest(bytes).into()
}

/// The lower-case hexadecimal digit for `d` in `0..16`.
pub open spec fn hex_char(d: int) -> char {
    if d < 10 {
        (('0' as int) + d) as char
    } else {
        (('a' as int) + d - 10) as char
    }
}

/// Bytes as lower-case hexadecimal, two digits per byte, high nibble first.
pub open spec fn hex_text(bytes: Seq<u8>) -> Seq<char>
    decreases bytes.len(),
{
    if bytes.len() == 0 {
        Seq::empty()
    } else {
        hex_text(bytes.drop_last()) + seq![hex_char(bytes.last() as int / 16), hex_char(bytes.last() as int % 16)]
    }
}

fn hex_digit(d: u8) -> (r: char)
    requires
        d < 16,
    ensures
        r == hex_char(d as int),
{
    let digits: [char; 16] = ['0', '1', '2', '3', '4', '5', '6', '7', '8', '9', 'a', 'b', 'c', 'd', 'e', 'f'];
    let r = digits[d as usize];
    assert(r == hex_char(d as int)) by {
        assert(digits@ =~= seq!['0', '1', '2', '3', '4', '5', '6', '7', '8', '9', 'a', 'b', 'c', 'd', 'e', 'f']);
    }
    r
}

/// Lower-case hexadecimal of a byte string.
pub fn hex(bytes: &[u8]) -> (r: String)
    ensures
        r@ == hex_text(bytes@),
{
    let mut output = String::new();
    let mut i: usize = 0;
    while i < bytes.len()
        invariant
            i <= bytes@.len(),
            output@ == hex_text(bytes@.take(i as int)),
        decreases bytes@.len() - i,
    {
        let byte = bytes[i];
        push_char(&mut output, hex_digit(byte / 16));
        push_char(&mut output, hex_digit(byte % 16));
        proof {
            let next = bytes@.take(i + 1);
            assert(next.drop_last() =~= bytes@.take(i as int));
            assert(next.last() == byte);
        }
        i = i + 1;
    }
    assert(bytes@.take(i as int) =~= bytes@);
    output
}

/// The lower-case hexadecimal SHA-256 of `bytes`.
pub fn hex_digest(bytes: &[u8]) -> (r: String)
    ensures
        r@ == hex_text(sha256_digest(bytes@)),
        r@.len() == 64,
{
    let digest = sha256(bytes);
    let r = hex(&digest);
    proof {
        lemma_hex_len(digest@);
    }
    r
}

/// Two digits per byte.
pub proof fn lemma_hex_len(bytes: Seq<u8>)
    ensures
        hex_text(bytes).len() == 2 * bytes.len(),
    decreases bytes.len(),
{
    if bytes.len() > 0 {
        lemma_hex_len(bytes.drop_last());
    }
}

/// Byte `k` of the big-endian encoding of `n`.
pub open spec fn be_byte(n: u64, k: int) -> u8 {
    ((n >> ((7 - k) * 8) as u64) & 0xffu64) as u8
}

/// The eight big-endian bytes of `n`.
pub open spec fn be_bytes(n: u64) -> Seq<u8> {
    Seq::new(8, |k: int| be_byte(n, k))
}

/// One labelled component of a canonical byte stream: the label's length and
/// bytes, then the payload's length and bytes, lengths as big-endian `u64`.
pub open spec fn component(label: Seq<u8>, bytes: Seq<u8>) -> Seq<u8> {
    be_bytes(label.len() as u64) + label + be_bytes(bytes.len() as u64) + bytes
}

fn push_be(output: &mut Vec<u8>, n: u64)
    ensures
        final(output)@ == old(output)@ + be_bytes(n),
{
    let mut k: u64 = 0;
    while k < 8
        invariant
            k <= 8,
            output@ == old(output)@ + be_bytes(n).take(k as int),
        decreases 8 - k,
    {
        let shift: u64 = (7 - k) * 8;
        let byte = ((n >> shift) & 0xff) as u8;
        assert(byte == be_byte(n, k as int));
        let ghost before = output@;
        output.push(byte);
        assert(be_bytes(n).take(k + 1) =~= be_bytes(n).take(k as int).push(byte));
        assert(output@ =~= old(output)@ + be_bytes(n).take(k + 1));
        k = k + 1;
    }
    assert(be_bytes(n).take(8) =~= be_bytes(n));
}

fn push_all(output: &mut Vec<u8>, bytes: &[u8])
    ensures
        final(output)@ == old(output)@ + bytes@,
{
    let mut i: usize = 0;
    while i < bytes.len()
        invariant
            i <= bytes@.len(),
            output@ == old(output)@ + bytes@.take(i as int),
        decreases bytes@.len() - i,
    {
        output.push(bytes[i]);
        assert(bytes@.take(i + 1) =~= bytes@.take(i as int).push(bytes@[i as int]));
        assert(output@ =~= old(output)@ + bytes@.take(i + 1));
        i = i + 1;
    }
    assert(bytes@.take(i as int) =~= bytes@);
}

/// Appends one labelled component to a canonical byte stream.
///
/// Length-prefixing both halves makes the stream unambiguous: no two lists of
/// components frame to the same bytes.
pub fn append_component(output: &mut Vec<u8>, label: &str, bytes: &[u8])
    ensures
        final(output)@ == old(output)@ + component(label.spec_bytes(), bytes@),
{
    let label_bytes = label.as_bytes();
    push_be(output, label_bytes.len() as u64);
    push_all(output, label_bytes);
    push_be(output, bytes.len() as u64);
    push_all(output, bytes);
    assert(output@ =~= old(output)@ + component(label.spec_bytes(), bytes@));
}

/// The refusal for a file whose bytes hash to another digest than recorded.
pub open spec fn hash_mismatch(path: Seq<char>, expected: Seq<char>, bytes: Seq<u8>) -> Fault {
    Fault::SourceHash { path, expected, actual: hex_text(sha256_digest(bytes)) }
}

/// Checks that the exact buffer read for a pinned file hashes to the digest
/// recorded for it, so vendored drift fails generation.
pub fn verify_source_digest(path: &str, bytes: &[u8], expected: &str) -> (r: Result<(), GenerationError>)
    ensures
        hex_text(sha256_digest(bytes@)) == expected@ ==> r is Ok,
        hex_text(sha256_digest(bytes@)) != expected@ ==> (r matches Err(e) && e@ == hash_mismatch(path@, expected@, bytes@)),
{
    let actual = hex_digest(bytes);
    let wanted = owned(expected);
    if actual == wanted {
        Ok(())
    } else {
        Err(GenerationError::SourceHash { path: owned(path), expected: wanted, actual })
    }
}

/// A relative path spelled with forward slashes on every platform.
pub open spec fn forward_slashes(path: Seq<char>) -> Seq<char> {
    path.map_values(|c: char| if c == '\\' { '/' } else { c })
}

/// Spells a relative path with forward slashes, so canonical bytes do not
/// depend on the platform that produced them.
pub fn canonical_separators(path: &str) -> (r: String)
    ensures
        r@ == forward_slashes(path@),
{
    let chars = crate::versions::chars_of(path);
    let mut r = String::new();
    let mut i: usize = 0;
    while i < chars.len()
        invariant
            chars@ == path@,
            i <= chars@.len(),
            r@ == forward_slashes(chars@.take(i as int)),
        decreases chars@.len() - i,
    {
        let c = chars[i];
        push_char(&mut r, if c == '\\' { '/' } else { c });
        assert(forward_slashes(chars@.take(i + 1)) =~= forward_slashes(chars@.take(i as int)).push(
            if c == '\\' { '/' } else { c },
        ));
        i = i + 1;
    }
    assert(chars@.take(i as int) =~= chars@);
    r
}

/// The key sources are ordered by: API key, unkeyed first, then name.
pub open spec fn source_key(s: MessageSource) -> (Option<i16>, Seq<char>) {
    (s.message.api_key, s.message.name.text@)
}

/// Whether key `a` sorts strictly before key `b`.
pub open spec fn key_less(a: (Option<i16>, Seq<char>), b: (Option<i16>, Seq<char>)) -> bool {
    match (a.0, b.0) {
        (None, Some(_)) => true,
        (Some(_), None) => false,
        (Some(x), Some(y)) => x < y || (x == y && lex_less(a.1, b.1)),
        (None, None) => lex_less(a.1, b.1),
    }
}

/// `x` placed after every source whose key does not sort after its own.
pub open spec fn insert_source(s: Seq<MessageSource>, x: MessageSource) -> Seq<MessageSource>
    decreases s.len(),
{
    if s.len() == 0 {
        seq![x]
    } else if key_less(source_key(x), source_key(s[0])) {
        seq![x] + s
    } else {
        seq![s[0]] + insert_source(s.drop_first(), x)
    }
}

/// The first `n` sources of `s`, sorted stably by key.
pub open spec fn sorted_sources(s: Seq<MessageSource>, n: int) -> Seq<MessageSource>
    decreases n,
{
    if n <= 0 {
        Seq::empty()
    } else {
        insert_source(sorted_sources(s, n - 1), s[n - 1])
    }
}

proof fn lemma_insert_source_at(s: Seq<MessageSource>, x: MessageSource, p: int)
    requires
        0 <= p <= s.len(),
        forall|j: int| 0 <= j < p ==> !key_less(source_key(x), source_key(#[trigger] s[j])),
        p < s.len() ==> key_less(source_key(x), source_key(s[p])),
    ensures
        insert_source(s, x) == s.take(p) + seq![x] + s.skip(p),
    decreases s.len(),
{
    if s.len() == 0 {
        assert(s.take(p) + seq![x] + s.skip(p) =~= seq![x]);
    } else if key_less(source_key(x), source_key(s[0])) {
        assert(p == 0);
        assert(s.take(p) + seq![x] + s.skip(p) =~= seq![x] + s);
    } else {
        let rest = s.drop_first();
        assert forall|j: int| 0 <= j < p - 1 implies !key_less(source_key(x), source_key(#[trigger] rest[j])) by {
            assert(rest[j] == s[j + 1]);
        }
        lemma_insert_source_at(rest, x, p - 1);
        assert(s.take(p) + seq![x] + s.skip(p) =~= seq![s[0]] + (rest.take(p - 1) + seq![x] + rest.skip(p - 1)));
    }
}

fn source_before(x: &MessageSource, y: &MessageSource) -> (r: bool)
    ensures
        r == key_less(source_key(*x), source_key(*y)),
{
    let names = text_less(x.message.name.protocol(), y.message.name.protocol());
    match (x.message.api_key, y.message.api_key) {
        (None, Some(_)) => true,
        (Some(_), None) => false,
        (Some(a), Some(b)) => a < b || (a == b && names),
        (None, None) => names,
    }
}

/// Orders loaded sources by API key, then by protocol name, keeping the
/// load order of sources whose keys agree.
pub fn order_sources(sources: Vec<MessageSource>) -> (r: Vec<MessageSource>)
    ensures
        r@ == sorted_sources(sources@, sources@.len() as int),
{
    let ghost all = sources@;
    let count = sources.len();
    let ghost n = count as nat;
    let mut rest = sources;
    let mut taken: Vec<MessageSource> = Vec::new();
    while rest.len() > 0
        invariant
            rest@ + taken@.reverse() == all,
        decreases rest@.len(),
    {
        let ghost before_rest = rest@;
        let ghost before_taken = taken@;
        let last = rest.pop().unwrap();
        taken.push(last);
        proof {
            assert(taken@.reverse() =~= seq![last] + before_taken.reverse());
            assert(before_rest =~= rest@.push(last));
        }
    }
    assert(taken@.reverse() =~= all);
    let mut sorted: Vec<MessageSource> = Vec::new();
    let mut k: usize = 0;
    while taken.len() > 0
        invariant
            k + taken@.len() == n,
            n <= usize::MAX,
            all.len() == n,
            taken@.reverse() == all.skip(k as int),
            sorted@ == sorted_sources(all, k as int),
        decreases taken@.len(),
    {
        let ghost before_taken = taken@;
        let next = taken.pop().unwrap();
        proof {
            assert(before_taken.reverse()[0] == before_taken.last());
            assert(all.skip(k as int)[0] == all[k as int]);
            assert(before_taken.drop_last().reverse() =~= before_taken.reverse().drop_first());
            assert(all.skip(k as int).drop_first() =~= all.skip(k + 1));
        }
        let mut p: usize = 0;
        while p < sorted.len() && !source_before(&next, &sorted[p])
            invariant
                p <= sorted@.len(),
                forall|j: int| 0 <= j < p ==> !key_less(source_key(next), source_key(#[trigger] sorted@[j])),
            decreases sorted@.len() - p,
        {
            p = p + 1;
        }
        let ghost before = sorted@;
        proof {
            lemma_insert_source_at(before, next, p as int);
        }
        sorted.insert(p, next);
        assert(sorted@ =~= before.take(p as int) + seq![next] + before.skip(p as int));
        k = k + 1;
    }
    sorted
}

/// A labelled payload as contracts see it.
pub open spec fn labelled(c: (String, Vec<u8>)) -> (Seq<char>, Seq<u8>) {
    (c.0@, c.1@)
}

/// The views of a list of labelled payloads.
pub open spec fn labels(v: Seq<(String, Vec<u8>)>) -> Seq<(Seq<char>, Seq<u8>)> {
    v.map_values(|c: (String, Vec<u8>)| labelled(c))
}

/// `x` placed after every component whose label does not sort after its own.
pub open spec fn insert_labelled(s: Seq<(Seq<char>, Seq<u8>)>, x: (Seq<char>, Seq<u8>)) -> Seq<(Seq<char>, Seq<u8>)>
    decreases s.len(),
{
    if s.len() == 0 {
        seq![x]
    } else if lex_less(x.0, s[0].0) {
        seq![x] + s
    } else {
        seq![s[0]] + insert_labelled(s.drop_first(), x)
    }
}

/// The first `n` components, sorted stably by label.
pub open spec fn sorted_labelled(s: Seq<(Seq<char>, Seq<u8>)>, n: int) -> Seq<(Seq<char>, Seq<u8>)>
    decreases n,
{
    if n <= 0 {
        Seq::empty()
    } else {
        insert_labelled(sorted_labelled(s, n - 1), s[n - 1])
    }
}

/// The canonical stream of components, in the order given.
pub open spec fn stream(cs: Seq<(Seq<char>, Seq<u8>)>, n: int) -> Seq<u8>
    decreases n,
{
    if n <= 0 {
        Seq::empty()
    } else {
        stream(cs, n - 1) + component(utf8_of(cs[n - 1].0), cs[n - 1].1)
    }
}

proof fn lemma_insert_labelled_at(s: Seq<(Seq<char>, Seq<u8>)>, x: (Seq<char>, Seq<u8>), p: int)
    requires
        0 <= p <= s.len(),
        forall|j: int| 0 <= j < p ==> !lex_less(x.0, (#[trigger] s[j]).0),
        p < s.len() ==> lex_less(x.0, s[p].0),
    ensures
        insert_labelled(s, x) == s.take(p) + seq![x] + s.skip(p),
    decreases s.len(),
{
    if s.len() == 0 {
        assert(s.take(p) + seq![x] + s.skip(p) =~= seq![x]);
    } else if lex_less(x.0, s[0].0) {
        assert(p == 0);
        assert(s.take(p) + seq![x] + s.skip(p) =~= seq![x] + s);
    } else {
        let rest = s.drop_first();
        assert forall|j: int| 0 <= j < p - 1 implies !lex_less(x.0, (#[trigger] rest[j]).0) by {
            assert(rest[j] == s[j + 1]);
        }
        lemma_insert_labelled_at(rest, x, p - 1);
        assert(s.take(p) + seq![x] + s.skip(p) =~= seq![s[0]] + (rest.take(p - 1) + seq![x] + rest.skip(p - 1)));
    }
}

/// Sorting keeps every component.
pub proof fn lemma_sorted_labelled_len(s: Seq<(Seq<char>, Seq<u8>)>, n: int)
    requires
        0 <= n,
    ensures
        sorted_labelled(s, n).len() == n,
    decreases n,
{
    if n > 0 {
        lemma_sorted_labelled_len(s, n - 1);
        lemma_insert_labelled_len(sorted_labelled(s, n - 1), s[n - 1]);
    }
}

proof fn lemma_insert_labelled_len(s: Seq<(Seq<char>, Seq<u8>)>, x: (Seq<char>, Seq<u8>))
    ensures
        insert_labelled(s, x).len() == s.len() + 1,
    decreases s.len(),
{
    if s.len() > 0 && !lex_less(x.0, s[0].0) {
        lemma_insert_labelled_len(s.drop_first(), x);
    }
}

/// The UTF-8 bytes of a text, as `str::as_bytes` gives them.
pub open spec fn utf8_of(s: Seq<char>) -> Seq<u8> {
    vstd::utf8::encode_utf8(s)
}

/// The canonical byte stream of labelled files: sorted by label so the
/// stream does not depend on the order a directory walk produced, then each
/// framed as one component.
pub fn canonical_bytes(components: Vec<(String, Vec<u8>)>) -> (r: Vec<u8>)
    ensures
        r@ == stream(sorted_labelled(labels(components@), components@.len() as int), components@.len() as int),
{
    let ghost all = labels(components@);
    let count = components.len();
    let ghost n = count as nat;
    let mut rest = components;
    let mut taken: Vec<(String, Vec<u8>)> = Vec::new();
    while rest.len() > 0
        invariant
            labels(rest@) + labels(taken@).reverse()
                == all,
        decreases rest@.len(),
    {
        let ghost before_rest = labels(rest@);
        let ghost before_taken = labels(taken@);
        let last = rest.pop().unwrap();
        taken.push(last);
        proof {
            assert(labels(rest@) =~= before_rest.drop_last());
            assert(labels(taken@) =~= before_taken.push(labelled(last)));
            assert(labels(taken@).reverse() =~= seq![labelled(last)]
                + before_taken.reverse());
            assert(before_rest =~= before_rest.drop_last().push(labelled(last)));
        }
    }
    assert(labels(taken@).reverse() =~= all);
    let mut sorted: Vec<(String, Vec<u8>)> = Vec::new();
    let mut k: usize = 0;
    while taken.len() > 0
        invariant
            k + taken@.len() == n,
            n <= usize::MAX,
            all.len() == n,
            labels(taken@).reverse() == all.skip(k as int),
            labels(sorted@) == sorted_labelled(all, k as int),
        decreases taken@.len(),
    {
        let ghost before_taken = labels(taken@);
        let next = taken.pop().unwrap();
        proof {
            assert(labels(taken@) =~= before_taken.drop_last());
            assert(before_taken.reverse()[0] == before_taken.last());
            assert(all.skip(k as int)[0] == all[k as int]);
            assert(before_taken.drop_last().reverse() =~= before_taken.reverse().drop_first());
            assert(all.skip(k as int).drop_first() =~= all.skip(k + 1));
        }
        let mut p: usize = 0;
        while p < sorted.len() && !text_less(next.0.as_str(), sorted[p].0.as_str())
            invariant
                p <= sorted@.len(),
                forall|j: int| 0 <= j < p ==> !lex_less(next.0@, (#[trigger] labels(sorted@)[j]).0),
            decreases sorted@.len() - p,
        {
            p = p + 1;
        }
        let ghost before = labels(sorted@);
        let ghost x = labelled(next);
        proof {
            lemma_insert_labelled_at(before, x, p as int);
        }
        sorted.insert(p, next);
        assert(labels(sorted@) =~= before.take(p as int) + seq![x] + before.skip(p as int));
        k = k + 1;
    }
    let ghost order = labels(sorted@);
    proof {
        lemma_sorted_labelled_len(all, n as int);
    }
    let mut output: Vec<u8> = Vec::new();
    let mut i: usize = 0;
    while i < sorted.len()
        invariant
            i <= sorted@.len(),
            order == labels(sorted@),
            order.len() == n,
            output@ == stream(order, i as int),
        decreases sorted@.len() - i,
    {
        let label = sorted[i].0.as_str();
        proof {
            assert(utf8_of(label@) == label.spec_bytes());
        }
        append_component(&mut output, label, sorted[i].1.as_slice());
        i = i + 1;
    }
    output
}

/// The canonical formatter identity: the identity string, then each
/// configuration file that exists, in the order given.
pub fn formatter_bytes(identity: &str, files: &Vec<(String, Vec<u8>)>) -> (r: Vec<u8>)
    ensures
        r@ == component(utf8_of("identity"@), identity.spec_bytes()) + stream(labels(files@), files@.len() as int),
{
    let mut output: Vec<u8> = Vec::new();
    append_component(&mut output, "identity", identity.as_bytes());
    let ghost head = output@;
    let mut i: usize = 0;
    while i < files.len()
        invariant
            i <= files@.len(),
            output@ == head + stream(labels(files@), i as int),
        decreases files@.len() - i,
    {
        let label = files[i].0.as_str();
        append_component(&mut output, label, files[i].1.as_slice());
        assert(labels(files@)[i as int] == labelled(files@[i as int]));
        assert(output@ =~= head + stream(labels(files@), i + 1));
        i = i + 1;
    }
    output
}

} // verus!
