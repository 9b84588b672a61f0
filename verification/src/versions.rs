//! Protocol version sets: what `validVersions`, `versions`, `flexibleVersions`,
//! `nullableVersions` and `taggedVersions` denote.
//!
//! A set is a subset of the version domain `0..=i16::MAX`, stored as its unique
//! canonical list of maximal intervals. Canonical means: ascending, each range
//! non-empty, two neighbours separated by at least one missing version, and a
//! run reaching the top of the domain spelled open-ended (`N+`). Because that
//! spelling is unique, comparing two lists compares the sets they denote.

use vstd::prelude::*;

verus! {

/// The highest version the wire can carry.
pub const TOP_VERSION: i16 = 32767;

/// One interval of versions: `start..=end`, or `start..` when `end` is `None`.
#[derive(Clone, Copy, Debug, PartialEq, Eq)]
pub struct VersionRange {
    pub start: i16,
    pub end: Option<i16>,
}

impl VersionRange {
    /// First version of the interval.
    pub fn start(&self) -> (r: i16)
        ensures
            r == self.start,
    {
        self.start
    }

    /// Last version of the interval, or `None` when it is open-ended.
    pub fn end(&self) -> (r: Option<i16>)
        ensures
            r == self.end,
    {
        self.end
    }
}

/// Whether version `v` lies in range `r`.
pub open spec fn range_has(r: VersionRange, v: int) -> bool {
    &&& r.start <= v <= TOP_VERSION
    &&& match r.end {
        Some(e) => v <= e,
        None => true,
    }
}

/// A range is non-empty, inside the domain, and spelled open when it reaches the top.
pub open spec fn range_ok(r: VersionRange) -> bool {
    &&& 0 <= r.start
    &&& match r.end {
        Some(e) => r.start <= e && e < TOP_VERSION,
        None => true,
    }
}

/// Range `a` ends at least one missing version before range `b` starts.
pub open spec fn ends_before(a: VersionRange, b: VersionRange) -> bool {
    match a.end {
        Some(e) => e + 1 < b.start,
        None => false,
    }
}

/// The canonical spelling: every range well formed, ascending with gaps.
pub open spec fn canonical(rs: Seq<VersionRange>) -> bool {
    &&& forall|i: int| 0 <= i < rs.len() ==> range_ok(#[trigger] rs[i])
    &&& forall|i: int, j: int| 0 <= i < j < rs.len() ==> ends_before(#[trigger] rs[i], #[trigger] rs[j])
}

/// The versions a list of ranges denotes.
pub open spec fn contents(rs: Seq<VersionRange>) -> Set<int> {
    Set::new(|v: int| exists|i: int| 0 <= i < rs.len() && range_has(#[trigger] rs[i], v))
}

/// The canonical spelling of a set of versions.
pub open spec fn canon(s: Set<int>) -> Seq<VersionRange> {
    choose|rs: Seq<VersionRange>| canonical(rs) && contents(rs) == s
}

/// Versions `lo..=hi` of the domain.
pub open spec fn interval(lo: int, hi: int) -> Set<int> {
    Set::new(|v: int| lo <= v <= hi && v <= TOP_VERSION)
}

/// The one bounded interval a set is, if it is exactly one.
pub open spec fn single_bounded_of(s: Set<int>) -> Option<(i16, i16)> {
    let rs = canon(s);
    if rs.len() == 1 && rs[0].end is Some {
        Some((rs[0].start, rs[0].end->0))
    } else {
        None
    }
}

/// Every version a canonical list holds is at least its first start.
proof fn lemma_first_is_least(rs: Seq<VersionRange>, v: int)
    requires
        canonical(rs),
        rs.len() > 0,
        contents(rs).contains(v),
    ensures
        rs[0].start <= v,
{
    let i = choose|i: int| 0 <= i < rs.len() && range_has(#[trigger] rs[i], v);
    if i > 0 {
        assert(ends_before(rs[0], rs[i]));
    }
}

/// The tail of a canonical list holds exactly what lies beyond the first range.
proof fn lemma_tail(rs: Seq<VersionRange>)
    requires
        canonical(rs),
        rs.len() > 0,
    ensures
        canonical(rs.drop_first()),
        forall|v: int| contents(rs.drop_first()).contains(v) <==> (contents(rs).contains(v) && !range_has(rs[0], v)),
{
    let t = rs.drop_first();
    assert forall|i: int| 0 <= i < t.len() implies range_ok(#[trigger] t[i]) by {
        assert(t[i] == rs[i + 1]);
    }
    assert forall|i: int, j: int| 0 <= i < j < t.len() implies ends_before(#[trigger] t[i], #[trigger] t[j]) by {
        assert(t[i] == rs[i + 1]);
        assert(t[j] == rs[j + 1]);
    }
    assert forall|v: int| contents(t).contains(v) <==> (contents(rs).contains(v) && !range_has(rs[0], v)) by {
        if contents(t).contains(v) {
            let i = choose|i: int| 0 <= i < t.len() && range_has(#[trigger] t[i], v);
            assert(t[i] == rs[i + 1]);
            assert(ends_before(rs[0], rs[i + 1]));
            assert(range_has(rs[i + 1], v));
        }
        if contents(rs).contains(v) && !range_has(rs[0], v) {
            let i = choose|i: int| 0 <= i < rs.len() && range_has(#[trigger] rs[i], v);
            assert(i != 0);
            assert(t[i - 1] == rs[i]);
        }
    }
}

/// Two canonical spellings of one set are the same spelling.
pub proof fn lemma_canonical_unique(a: Seq<VersionRange>, b: Seq<VersionRange>)
    requires
        canonical(a),
        canonical(b),
        contents(a) == contents(b),
    ensures
        a == b,
    decreases a.len(),
{
    if a.len() == 0 {
        if b.len() > 0 {
            assert(range_has(b[0], b[0].start as int));
            assert(contents(b).contains(b[0].start as int));
        }
        assert(a =~= b);
    } else {
        if b.len() == 0 {
            assert(range_has(a[0], a[0].start as int));
            assert(contents(a).contains(a[0].start as int));
            assert(false);
        }
        let s = contents(a);
        assert(range_has(a[0], a[0].start as int));
        assert(range_has(b[0], b[0].start as int));
        assert(s.contains(a[0].start as int));
        assert(s.contains(b[0].start as int));
        lemma_first_is_least(a, b[0].start as int);
        lemma_first_is_least(b, a[0].start as int);
        assert(a[0].start == b[0].start);
        // The first ranges end in the same place.
        if a.len() > 1 {
            assert(ends_before(a[0], a[1]));
        }
        if b.len() > 1 {
            assert(ends_before(b[0], b[1]));
        }
        lemma_tail(a);
        lemma_tail(b);
        match (a[0].end, b[0].end) {
            (Some(ea), Some(eb)) => {
                if ea < eb {
                    let v = ea + 1;
                    assert(range_has(b[0], v));
                    assert(s.contains(v));
                    // v is beyond a[0] so it lies in a's tail, whose least element exceeds ea + 1.
                    assert(contents(a.drop_first()).contains(v));
                    lemma_first_is_least(a.drop_first(), v);
                    assert(a.drop_first()[0] == a[1]);
                } else if eb < ea {
                    let v = eb + 1;
                    assert(range_has(a[0], v));
                    assert(s.contains(v));
                    assert(contents(b.drop_first()).contains(v));
                    lemma_first_is_least(b.drop_first(), v);
                    assert(b.drop_first()[0] == b[1]);
                }
            },
            (Some(ea), None) => {
                let v = ea + 1;
                assert(range_has(b[0], v));
                assert(s.contains(v));
                assert(contents(a.drop_first()).contains(v));
                lemma_first_is_least(a.drop_first(), v);
                assert(a.drop_first()[0] == a[1]);
            },
            (None, Some(eb)) => {
                let v = eb + 1;
                assert(range_has(a[0], v));
                assert(s.contains(v));
                assert(contents(b.drop_first()).contains(v));
                lemma_first_is_least(b.drop_first(), v);
                assert(b.drop_first()[0] == b[1]);
            },
            (None, None) => {},
        }
        assert(a[0] == b[0]);
        assert(contents(a.drop_first()) =~= contents(b.drop_first())) by {
            assert forall|v: int| contents(a.drop_first()).contains(v) <==> contents(b.drop_first()).contains(v) by {
                assert(range_has(a[0], v) == range_has(b[0], v));
                assert(contents(a).contains(v) == contents(b).contains(v));
                assert(contents(a.drop_first()).contains(v) <==> (contents(a).contains(v) && !range_has(a[0], v)));
                assert(contents(b.drop_first()).contains(v) <==> (contents(b).contains(v) && !range_has(b[0], v)));
            }
        }
        lemma_canonical_unique(a.drop_first(), b.drop_first());
        assert(a =~= seq![a[0]] + a.drop_first());
        assert(b =~= seq![b[0]] + b.drop_first());
    }
}

/// A canonical list is the canonical spelling of what it denotes.
pub proof fn lemma_canon_of(rs: Seq<VersionRange>)
    requires
        canonical(rs),
    ensures
        canon(contents(rs)) == rs,
{
    let c = canon(contents(rs));
    assert(canonical(rs) && contents(rs) == contents(rs));
    assert(canonical(c) && contents(c) == contents(rs));
    lemma_canonical_unique(c, rs);
}

/// Some range among the first `n` of `rs` holds `v`.
pub open spec fn has_upto(rs: Seq<VersionRange>, n: int, v: int) -> bool {
    exists|k: int| 0 <= k < n && range_has(#[trigger] rs[k], v)
}

/// Every version a canonical list denotes lies in the domain.
pub proof fn lemma_in_domain(rs: Seq<VersionRange>, v: int)
    requires
        canonical(rs),
        contents(rs).contains(v),
    ensures
        0 <= v <= TOP_VERSION,
{
    let k = choose|k: int| 0 <= k < rs.len() && range_has(#[trigger] rs[k], v);
    assert(range_ok(rs[k]));
}

/// Whether `c` is an ASCII decimal digit.
pub open spec fn is_digit(c: char) -> bool {
    '0' <= c <= '9'
}

/// A non-empty run of decimal digits.
pub open spec fn is_digits(s: Seq<char>) -> bool {
    s.len() > 0 && forall|i: int| 0 <= i < s.len() ==> is_digit(#[trigger] s[i])
}

/// The value of a run of decimal digits.
pub open spec fn number(s: Seq<char>) -> int
    decreases s.len(),
{
    if s.len() == 0 {
        0
    } else {
        number(s.drop_last()) * 10 + (s.last() as int - '0' as int)
    }
}

/// The first position of `c` in `s`.
pub open spec fn find(s: Seq<char>, c: char) -> Option<int>
    decreases s.len(),
{
    if s.len() == 0 {
        None
    } else if s[0] == c {
        Some(0)
    } else {
        match find(s.drop_first(), c) {
            Some(k) => Some(k + 1),
            None => None,
        }
    }
}

/// A version number: digits whose value fits the domain.
pub open spec fn version_number(s: Seq<char>) -> Option<int> {
    if is_digits(s) && number(s) <= TOP_VERSION {
        Some(number(s))
    } else {
        None
    }
}

/// What one comma-free piece denotes: `N`, `N+` or `N-M`.
pub open spec fn piece_denotes(p: Seq<char>) -> Option<Set<int>> {
    if p.len() > 0 && p.last() == '+' {
        match version_number(p.drop_last()) {
            Some(n) => Some(interval(n, TOP_VERSION as int)),
            None => None,
        }
    } else {
        match find(p, '-') {
            Some(k) => match (version_number(p.take(k)), version_number(p.skip(k + 1))) {
                (Some(lo), Some(hi)) => if lo <= hi {
                    Some(interval(lo, hi))
                } else {
                    None
                },
                _ => None,
            },
            None => match version_number(p) {
                Some(n) => Some(interval(n, n)),
                None => None,
            },
        }
    }
}

/// What a comma-separated list of pieces denotes: the union of its pieces.
pub open spec fn list_denotes(s: Seq<char>) -> Option<Set<int>>
    decreases s.len(),
{
    match find(s, ',') {
        None => piece_denotes(s),
        Some(k) => {
            proof {
                lemma_find_bounds(s, ',');
            }
            match (piece_denotes(s.take(k)), list_denotes(s.skip(k + 1))) {
                (Some(a), Some(b)) => Some(a.union(b)),
                _ => None,
            }
        },
    }
}

/// What a version declaration denotes, as upstream writes one.
pub open spec fn declaration_denotes(s: Seq<char>) -> Option<Set<int>> {
    if s == "none"@ {
        Some(Set::empty())
    } else {
        list_denotes(s)
    }
}

pub proof fn lemma_find_bounds(s: Seq<char>, c: char)
    ensures
        match find(s, c) {
            Some(k) => 0 <= k < s.len() && s[k] == c && forall|i: int| 0 <= i < k ==> s[i] != c,
            None => forall|i: int| 0 <= i < s.len() ==> s[i] != c,
        },
    decreases s.len(),
{
    if s.len() > 0 && s[0] != c {
        lemma_find_bounds(s.drop_first(), c);
        match find(s.drop_first(), c) {
            Some(k) => {
                assert forall|i: int| 0 <= i < k + 1 implies s[i] != c by {
                    if i > 0 {
                        assert(s[i] == s.drop_first()[i - 1]);
                    }
                }
            },
            None => {
                assert forall|i: int| 0 <= i < s.len() implies s[i] != c by {
                    if i > 0 {
                        assert(s[i] == s.drop_first()[i - 1]);
                    }
                }
            },
        }
    }
}

/// `find` over a window of a longer sequence.
proof fn lemma_find_window(s: Seq<char>, c: char, k: int)
    requires
        0 <= k <= s.len(),
        forall|i: int| 0 <= i < k ==> s[i] != c,
        k < s.len() ==> s[k] == c,
    ensures
        find(s, c) == (if k < s.len() { Some(k) } else { None::<int> }),
    decreases s.len(),
{
    if s.len() > 0 && k > 0 {
        assert forall|i: int| 0 <= i < k - 1 implies s.drop_first()[i] != c by {
            assert(s.drop_first()[i] == s[i + 1]);
        }
        if k < s.len() {
            assert(s.drop_first()[k - 1] == s[k]);
        }
        lemma_find_window(s.drop_first(), c, k - 1);
    }
}

proof fn lemma_number_grows(s: Seq<char>)
    requires
        forall|i: int| 0 <= i < s.len() ==> is_digit(#[trigger] s[i]),
    ensures
        number(s) >= 0,
        s.len() > 0 ==> number(s) >= number(s.drop_last()),
    decreases s.len(),
{
    if s.len() > 0 {
        assert forall|i: int| 0 <= i < s.drop_last().len() implies is_digit(#[trigger] s.drop_last()[i]) by {
            assert(s.drop_last()[i] == s[i]);
        }
        lemma_number_grows(s.drop_last());
        assert(is_digit(s[s.len() - 1]));
    }
}

proof fn lemma_number_prefix(s: Seq<char>, n: int)
    requires
        forall|i: int| 0 <= i < s.len() ==> is_digit(#[trigger] s[i]),
        0 <= n <= s.len(),
    ensures
        number(s.take(n)) <= number(s),
    decreases s.len() - n,
{
    if n < s.len() {
        lemma_number_prefix(s, n + 1);
        assert(s.take(n + 1).drop_last() =~= s.take(n));
        assert forall|i: int| 0 <= i < s.take(n + 1).len() implies is_digit(#[trigger] s.take(n + 1)[i]) by {
            assert(s.take(n + 1)[i] == s[i]);
        }
        lemma_number_grows(s.take(n + 1));
    } else {
        assert(s.take(n) =~= s);
    }
}

/// A set of protocol versions, held in its canonical spelling.
#[derive(Debug, PartialEq, Eq)]
pub struct VersionSet {
    ranges: Vec<VersionRange>,
}

impl View for VersionSet {
    type V = Set<int>;

    closed spec fn view(&self) -> Set<int> {
        contents(self.ranges@)
    }
}

impl VersionSet {
    #[verifier::type_invariant]
    spec fn canonical_spelling(self) -> bool {
        canonical(self.ranges@)
    }

    /// The empty set, which upstream spells `none`.
    pub fn none() -> (r: VersionSet)
        ensures
            r@ == Set::<int>::empty(),
    {
        let r = VersionSet { ranges: Vec::new() };
        assert(r@ =~= Set::<int>::empty());
        r
    }

    /// `start..=end`, or `start..` without an end.
    pub fn interval(start: i16, end: Option<i16>) -> (r: VersionSet)
        requires
            0 <= start,
            end matches Some(e) ==> start <= e,
        ensures
            r@ == interval(start as int, match end { Some(e) => e as int, None => TOP_VERSION as int }),
    {
        let end = match end {
            Some(e) => if e == TOP_VERSION { None } else { Some(e) },
            None => None,
        };
        let range = VersionRange { start, end };
        let mut ranges = Vec::new();
        ranges.push(range);
        let r = VersionSet { ranges };
        assert(r@ =~= interval(start as int, match end { Some(e) => e as int, None => TOP_VERSION as int })) by {
            assert forall|v: int| r@.contains(v) == (start <= v && v <= TOP_VERSION && match end { Some(e) => v <= e, None => true }) by {
                if range_has(range, v) {
                    assert(r.ranges@[0] == range);
                }
            }
        }
        r
    }

    /// The maximal intervals of the set, ascending.
    pub fn ranges(&self) -> (r: &[VersionRange])
        ensures
            r@ == canon(self@),
            canonical(r@),
            contents(r@) == self@,
    {
        proof {
            use_type_invariant(self);
            lemma_canon_of(self.ranges@);
        }
        self.ranges.as_slice()
    }

    /// Whether no version belongs to the set.
    pub fn is_empty(&self) -> (r: bool)
        ensures
            r == (self@ == Set::<int>::empty()),
    {
        proof {
            use_type_invariant(self);
        }
        if self.ranges.len() == 0 {
            assert(self@ =~= Set::<int>::empty());
            true
        } else {
            assert(range_has(self.ranges@[0], self.ranges@[0].start as int));
            assert(self@.contains(self.ranges@[0].start as int));
            false
        }
    }

    /// `Some((start, end))` when the set is exactly one bounded interval.
    pub fn single_bounded(&self) -> (r: Option<(i16, i16)>)
        ensures
            r == single_bounded_of(self@),
    {
        proof {
            use_type_invariant(self);
            lemma_canon_of(self.ranges@);
        }
        if self.ranges.len() == 1 {
            match self.ranges[0].end {
                Some(end) => Some((self.ranges[0].start, end)),
                None => None,
            }
        } else {
            None
        }
    }

    /// Whether both sets hold exactly the same versions.
    pub fn same_as(&self, other: &VersionSet) -> (r: bool)
        ensures
            r == (self@ == other@),
    {
        proof {
            use_type_invariant(self);
            use_type_invariant(other);
            if self@ == other@ {
                lemma_canonical_unique(self.ranges@, other.ranges@);
            }
        }
        if self.ranges.len() != other.ranges.len() {
            return false;
        }
        let mut i: usize = 0;
        while i < self.ranges.len()
            invariant
                self.ranges.len() == other.ranges.len(),
                i <= self.ranges.len(),
                forall|k: int| 0 <= k < i ==> self.ranges@[k] == other.ranges@[k],
                self@ == other@ ==> self.ranges@ == other.ranges@,
            decreases self.ranges.len() - i,
        {
            let a = self.ranges[i];
            let b = other.ranges[i];
            let same_end = match (a.end, b.end) {
                (Some(x), Some(y)) => x == y,
                (None, None) => true,
                _ => false,
            };
            if a.start != b.start || !same_end {
                return false;
            }
            i = i + 1;
        }
        assert(self.ranges@ =~= other.ranges@);
        true
    }

    /// The versions in both sets.
    pub fn intersection(&self, other: &VersionSet) -> (r: VersionSet)
        ensures
            r@ == self@.intersect(other@),
    {
        proof {
            use_type_invariant(self);
            use_type_invariant(other);
        }
        let a = &self.ranges;
        let b = &other.ranges;
        let ghost blen = b@.len() as int;
        let mut out: Vec<VersionRange> = Vec::new();
        let mut i: usize = 0;
        while i < a.len()
            invariant
                canonical(a@),
                canonical(b@),
                blen == b@.len(),
                i <= a@.len(),
                canonical(out@),
                forall|v: int| #![trigger has_upto(out@, out@.len() as int, v)] has_upto(out@, out@.len() as int, v) <==> (has_upto(a@, i as int, v) && has_upto(b@, blen, v)),
                out@.len() > 0 ==> forall|k: int| i <= k < a@.len() ==> ends_before(out@.last(), #[trigger] a@[k]),
            decreases a@.len() - i,
        {
            let ra = a[i];
            let mut j: usize = 0;
            while j < b.len()
                invariant
                    canonical(a@),
                    canonical(b@),
                    blen == b@.len(),
                    i < a@.len(),
                    ra == a@[i as int],
                    j <= b@.len(),
                    canonical(out@),
                    forall|v: int| #![trigger has_upto(out@, out@.len() as int, v)] has_upto(out@, out@.len() as int, v) <==> (
                        (has_upto(a@, i as int, v) && has_upto(b@, blen, v))
                        || (range_has(ra, v) && has_upto(b@, j as int, v))),
                    out@.len() > 0 ==> forall|k: int| i < k < a@.len() ==> ends_before(out@.last(), #[trigger] a@[k]),
                    out@.len() > 0 ==> (ends_before(out@.last(), ra)
                        || forall|m: int| j <= m < b@.len() ==> ends_before(out@.last(), #[trigger] b@[m])),
                decreases b@.len() - j,
            {
                let rb = b[j];
                let lo = if ra.start < rb.start { rb.start } else { ra.start };
                let hi = match (ra.end, rb.end) {
                    (Some(x), Some(y)) => Some(if x < y { x } else { y }),
                    (Some(x), None) => Some(x),
                    (None, Some(y)) => Some(y),
                    (None, None) => None,
                };
                let nonempty = match hi {
                    Some(h) => lo <= h,
                    None => true,
                };
                let ghost old_out = out@;
                assert(range_ok(ra) && range_ok(rb)) by {
                    assert(range_ok(a@[i as int]));
                    assert(range_ok(b@[j as int]));
                }
                if nonempty {
                    let piece = VersionRange { start: lo, end: hi };
                    assert forall|v: int| range_has(piece, v) <==> (range_has(ra, v) && range_has(rb, v)) by {}
                    proof {
                        if old_out.len() > 0 {
                            assert(ends_before(old_out.last(), ra) || ends_before(old_out.last(), b@[j as int]));
                        }
                    }
                    out.push(piece);
                    proof {
                        let n = out@.len() as int;
                        assert(out@[n - 1] == piece);
                        assert forall|x: int| 0 <= x < n implies range_ok(#[trigger] out@[x]) by {
                            if x < n - 1 {
                                assert(out@[x] == old_out[x]);
                            }
                        }
                        assert forall|x: int, y: int| 0 <= x < y < n implies ends_before(#[trigger] out@[x], #[trigger] out@[y]) by {
                            assert(out@[x] == old_out[x]);
                            if y < n - 1 {
                                assert(out@[y] == old_out[y]);
                            } else {
                                let last = old_out.last();
                                if x < n - 2 {
                                    assert(ends_before(old_out[x], old_out[n - 2]));
                                }
                            }
                        }
                        assert forall|v: int| has_upto(out@, n, v) <==> (has_upto(old_out, n - 1, v) || range_has(piece, v)) by {
                            if has_upto(out@, n, v) {
                                let k = choose|k: int| 0 <= k < n && range_has(#[trigger] out@[k], v);
                                if k < n - 1 {
                                    assert(out@[k] == old_out[k]);
                                }
                            }
                            if has_upto(old_out, n - 1, v) {
                                let k = choose|k: int| 0 <= k < n - 1 && range_has(#[trigger] old_out[k], v);
                                assert(out@[k] == old_out[k]);
                            }
                            if range_has(piece, v) {
                                assert(range_has(out@[n - 1], v));
                            }
                        }
                        if hi is Some {
                            assert forall|k: int| i < k < a@.len() implies ends_before(out@.last(), #[trigger] a@[k]) by {
                                assert(ends_before(a@[i as int], a@[k]));
                            }
                            assert forall|m: int| j + 1 <= m < b@.len() implies ends_before(out@.last(), #[trigger] b@[m]) by {
                                assert(ends_before(b@[j as int], b@[m]));
                            }
                        } else {
                            if i + 1 < a@.len() {
                                assert(ends_before(a@[i as int], a@[i + 1]));
                            }
                            if j + 1 < b@.len() {
                                assert(ends_before(b@[j as int], b@[j + 1]));
                            }
                        }
                    }
                }
                proof {
                    assert forall|v: int| has_upto(b@, j + 1, v) <==> (has_upto(b@, j as int, v) || range_has(rb, v)) by {
                        if has_upto(b@, j + 1, v) {
                            let k = choose|k: int| 0 <= k < j + 1 && range_has(#[trigger] b@[k], v);
                        }
                        if range_has(rb, v) {
                            assert(range_has(b@[j as int], v));
                        }
                    }
                    if !nonempty {
                        assert forall|v: int| !(range_has(ra, v) && range_has(rb, v)) by {}
                        assert(out@ == old_out);
                    }
                    assert forall|v: int| has_upto(out@, out@.len() as int, v) <==> (
                        (has_upto(a@, i as int, v) && has_upto(b@, blen, v))
                        || (range_has(ra, v) && has_upto(b@, j + 1, v))) by {
                        assert(has_upto(old_out, old_out.len() as int, v) <==> (
                            (has_upto(a@, i as int, v) && has_upto(b@, blen, v))
                            || (range_has(ra, v) && has_upto(b@, j as int, v))));
                        if nonempty {
                            assert(has_upto(out@, out@.len() as int, v) <==> (has_upto(old_out, old_out.len() as int, v) || (range_has(ra, v) && range_has(rb, v))));
                        }
                    }
                    if out@.len() > 0 && !ends_before(out@.last(), ra) {
                        assert forall|m: int| j + 1 <= m < b@.len() implies ends_before(out@.last(), #[trigger] b@[m]) by {
                            if nonempty {
                                assert(ends_before(b@[j as int], b@[m]));
                            }
                        }
                    }
                }
                j = j + 1;
            }
            proof {
                assert forall|v: int| has_upto(a@, i + 1, v) <==> (has_upto(a@, i as int, v) || range_has(ra, v)) by {
                    if has_upto(a@, i + 1, v) {
                        let k = choose|k: int| 0 <= k < i + 1 && range_has(#[trigger] a@[k], v);
                    }
                    if range_has(ra, v) {
                        assert(range_has(a@[i as int], v));
                    }
                }
                assert forall|v: int| has_upto(out@, out@.len() as int, v) <==> (has_upto(a@, i + 1, v) && has_upto(b@, blen, v)) by {
                    assert(has_upto(out@, out@.len() as int, v) <==> (
                        (has_upto(a@, i as int, v) && has_upto(b@, blen, v))
                        || (range_has(ra, v) && has_upto(b@, blen, v))));
                }
            }
            i = i + 1;
        }
        let r = VersionSet { ranges: out };
        assert(r@ =~= self@.intersect(other@)) by {
            assert forall|v: int| r@.contains(v) == (self@.contains(v) && other@.contains(v)) by {
                assert(r@.contains(v) == has_upto(out@, out@.len() as int, v));
                assert(self@.contains(v) == has_upto(a@, a@.len() as int, v));
                assert(other@.contains(v) == has_upto(b@, blen, v));
            }
        }
        r
    }

    /// The versions of the domain that are not in the set.
    pub fn complement(&self) -> (r: VersionSet)
        ensures
            r@ == interval(0, TOP_VERSION as int).difference(self@),
    {
        proof {
            use_type_invariant(self);
        }
        let a = &self.ranges;
        let mut out: Vec<VersionRange> = Vec::new();
        // Versions below `next` have been decided; `done` means all of them have.
        let mut next: i16 = 0;
        let mut done = false;
        let mut i: usize = 0;
        while i < a.len()
            invariant
                canonical(a@),
                i <= a@.len(),
                0 <= next,
                done ==> i == a@.len(),
                canonical(out@),
                forall|v: int| #![trigger has_upto(out@, out@.len() as int, v)] has_upto(out@, out@.len() as int, v) <==> (
                    0 <= v <= TOP_VERSION && (done || v < next) && !has_upto(a@, a@.len() as int, v)),
                !done ==> forall|v: int| next <= v ==> !has_upto(a@, i as int, v),
                !done ==> forall|k: int| i <= k < a@.len() ==> next <= (#[trigger] a@[k]).start,
                !done && i > 0 ==> next > 0 && has_upto(a@, a@.len() as int, next - 1),
                !done && out@.len() > 0 ==> (out@.last().end matches Some(e) && e + 1 < next),
            decreases a@.len() - i,
        {
            let r = a[i];
            let ghost old_out = out@;
            let ghost old_next = next;
            proof {
                assert(range_ok(a@[i as int]));
                if i + 1 < a@.len() {
                    assert(ends_before(a@[i as int], a@[i + 1]));
                }
            }
            if next < r.start {
                let piece = VersionRange { start: next, end: Some(r.start - 1) };
                out.push(piece);
                proof {
                    let n = out@.len() as int;
                    assert(out@[n - 1] == piece);
                    assert forall|x: int| 0 <= x < n implies range_ok(#[trigger] out@[x]) by {
                        if x < n - 1 {
                            assert(out@[x] == old_out[x]);
                        }
                    }
                    assert forall|x: int, y: int| 0 <= x < y < n implies ends_before(#[trigger] out@[x], #[trigger] out@[y]) by {
                        assert(out@[x] == old_out[x]);
                        if y < n - 1 {
                            assert(out@[y] == old_out[y]);
                        } else if x < n - 2 {
                            assert(ends_before(old_out[x], old_out[n - 2]));
                        }
                    }
                    assert forall|v: int| has_upto(out@, n, v) <==> (has_upto(old_out, n - 1, v) || range_has(piece, v)) by {
                        if has_upto(out@, n, v) {
                            let k = choose|k: int| 0 <= k < n && range_has(#[trigger] out@[k], v);
                            if k < n - 1 {
                                assert(out@[k] == old_out[k]);
                            }
                        }
                        if has_upto(old_out, n - 1, v) {
                            let k = choose|k: int| 0 <= k < n - 1 && range_has(#[trigger] old_out[k], v);
                            assert(out@[k] == old_out[k]);
                        }
                        if range_has(piece, v) {
                            assert(range_has(out@[n - 1], v));
                        }
                    }
                }
            }
            let ghost mid_out = out@;
            proof {
                // Nothing from `next` up to the start of this range is in the set.
                assert forall|v: int| next <= v < r.start implies !has_upto(a@, a@.len() as int, v) by {
                    if has_upto(a@, a@.len() as int, v) {
                        let k = choose|k: int| 0 <= k < a@.len() && range_has(#[trigger] a@[k], v);
                        if k < i {
                            assert(has_upto(a@, i as int, v));
                        } else if k > i {
                            assert(ends_before(a@[i as int], a@[k]));
                        }
                    }
                }
                assert forall|v: int| range_has(r, v) implies has_upto(a@, a@.len() as int, v) by {
                    assert(range_has(a@[i as int], v));
                }
            }
            match r.end {
                Some(e) => {
                    next = e + 1;
                    proof {
                        let i1 = i + 1;
                        assert forall|v: int| next <= v implies !has_upto(a@, i1, v) by {
                            if has_upto(a@, i1, v) {
                                let k = choose|k: int| 0 <= k < i + 1 && range_has(#[trigger] a@[k], v);
                                if k < i {
                                    assert(has_upto(a@, i as int, v));
                                }
                            }
                        }
                        assert forall|k: int| i + 1 <= k < a@.len() implies next <= (#[trigger] a@[k]).start by {
                            assert(ends_before(a@[i as int], a@[k]));
                        }
                        assert(has_upto(a@, a@.len() as int, next - 1)) by {
                            assert(range_has(a@[i as int], next - 1));
                        }
                    }
                },
                None => {
                    done = true;
                    proof {
                        if i + 1 < a@.len() {
                            assert(ends_before(a@[i as int], a@[i + 1]));
                        }
                    }
                },
            }
            proof {
                assert forall|v: int| has_upto(out@, out@.len() as int, v) <==> (
                    0 <= v <= TOP_VERSION && (done || v < next) && !has_upto(a@, a@.len() as int, v)) by {
                    assert(has_upto(old_out, old_out.len() as int, v) <==> (
                        0 <= v <= TOP_VERSION && v < old_next && !has_upto(a@, a@.len() as int, v)));
                    if old_next < r.start {
                        assert(has_upto(out@, out@.len() as int, v) <==> (has_upto(old_out, old_out.len() as int, v)
                            || range_has(VersionRange { start: old_next, end: Some((r.start - 1) as i16) }, v)));
                    } else {
                        assert(out@ == old_out);
                    }
                    if range_has(r, v) {
                        assert(has_upto(a@, a@.len() as int, v));
                    }
                    if done {
                        if v >= old_next && !has_upto(a@, a@.len() as int, v) && 0 <= v <= TOP_VERSION {
                            assert(v < r.start || range_has(r, v));
                        }
                    }
                }
            }
            i = i + 1;
        }
        let ghost pre_out = out@;
        if !done {
            let ghost old_out = out@;
            let piece = VersionRange { start: next, end: None };
            proof {
                if i > 0 {
                    lemma_in_domain(a@, next - 1);
                }
            }
            if next <= TOP_VERSION {
                out.push(piece);
                proof {
                    let n = out@.len() as int;
                    assert(out@[n - 1] == piece);
                    assert forall|x: int| 0 <= x < n implies range_ok(#[trigger] out@[x]) by {
                        if x < n - 1 {
                            assert(out@[x] == old_out[x]);
                        }
                    }
                    assert forall|x: int, y: int| 0 <= x < y < n implies ends_before(#[trigger] out@[x], #[trigger] out@[y]) by {
                        assert(out@[x] == old_out[x]);
                        if y < n - 1 {
                            assert(out@[y] == old_out[y]);
                        } else if x < n - 2 {
                            assert(ends_before(old_out[x], old_out[n - 2]));
                        }
                    }
                    assert forall|v: int| has_upto(out@, n, v) <==> (has_upto(old_out, n - 1, v) || range_has(piece, v)) by {
                        if has_upto(out@, n, v) {
                            let k = choose|k: int| 0 <= k < n && range_has(#[trigger] out@[k], v);
                            if k < n - 1 {
                                assert(out@[k] == old_out[k]);
                            }
                        }
                        if has_upto(old_out, n - 1, v) {
                            let k = choose|k: int| 0 <= k < n - 1 && range_has(#[trigger] old_out[k], v);
                            assert(out@[k] == old_out[k]);
                        }
                        if range_has(piece, v) {
                            assert(range_has(out@[n - 1], v));
                        }
                    }
                }
            }
        }
        let r = VersionSet { ranges: out };
        assert(r@ =~= interval(0, TOP_VERSION as int).difference(self@)) by {
            assert forall|v: int| r@.contains(v) == (0 <= v <= TOP_VERSION && !self@.contains(v)) by {
                assert(r@.contains(v) == has_upto(out@, out@.len() as int, v));
                assert(has_upto(pre_out, pre_out.len() as int, v) <==> (
                    0 <= v <= TOP_VERSION && (done || v < next) && !has_upto(a@, a@.len() as int, v)));
                if !done {
                    if v >= next {
                        assert(!has_upto(a@, i as int, v));
                    }
                    if next <= TOP_VERSION {
                        assert(has_upto(out@, out@.len() as int, v) <==> (has_upto(pre_out, pre_out.len() as int, v)
                            || range_has(VersionRange { start: next, end: None }, v)));
                    } else {
                        assert(out@ == pre_out);
                    }
                } else {
                    assert(out@ == pre_out);
                }
                assert(self@.contains(v) == has_upto(a@, a@.len() as int, v));
            }
        }
        r
    }

    /// The versions in this set and not in `other`.
    pub fn difference(&self, other: &VersionSet) -> (r: VersionSet)
        ensures
            r@ == self@.difference(other@),
    {
        proof {
            use_type_invariant(self);
        }
        let rest = other.complement();
        let r = self.intersection(&rest);
        assert(r@ =~= self@.difference(other@)) by {
            assert forall|v: int| self@.contains(v) implies 0 <= v <= TOP_VERSION by {
                lemma_in_domain(self.ranges@, v);
            }
        }
        r
    }

    /// The versions in either set.
    pub fn union(&self, other: &VersionSet) -> (r: VersionSet)
        ensures
            r@ == self@.union(other@),
    {
        proof {
            use_type_invariant(self);
            use_type_invariant(other);
        }
        let neither = self.complement().intersection(&other.complement());
        let r = neither.complement();
        assert(r@ =~= self@.union(other@)) by {
            assert forall|v: int| self@.contains(v) implies 0 <= v <= TOP_VERSION by {
                lemma_in_domain(self.ranges@, v);
            }
            assert forall|v: int| other@.contains(v) implies 0 <= v <= TOP_VERSION by {
                lemma_in_domain(other.ranges@, v);
            }
        }
        r
    }

    /// Whether every version of this set is also in `other`.
    pub fn is_subset_of(&self, other: &VersionSet) -> (r: bool)
        ensures
            r == self@.subset_of(other@),
    {
        let common = self.intersection(other);
        let r = common.same_as(self);
        assert(r == self@.subset_of(other@)) by {
            if self@.subset_of(other@) {
                assert(common@ =~= self@);
            }
        }
        r
    }

    /// An equal set, held separately.
    pub fn duplicate(&self) -> (r: VersionSet)
        ensures
            r@ == self@,
    {
        proof {
            use_type_invariant(self);
        }
        let mut ranges: Vec<VersionRange> = Vec::new();
        let mut i: usize = 0;
        while i < self.ranges.len()
            invariant
                i <= self.ranges.len(),
                ranges@ == self.ranges@.take(i as int),
            decreases self.ranges.len() - i,
        {
            ranges.push(self.ranges[i]);
            i = i + 1;
            assert(ranges@ =~= self.ranges@.take(i as int));
        }
        assert(ranges@ =~= self.ranges@);
        VersionSet { ranges }
    }
}

/// The characters of a string, one by one.
pub fn chars_of(text: &str) -> (r: Vec<char>)
    ensures
        r@ == text@,
{
    let n = text.unicode_len();
    let mut out: Vec<char> = Vec::new();
    let mut i: usize = 0;
    while i < n
        invariant
            n == text@.len(),
            i <= n,
            out@ == text@.take(i as int),
        decreases n - i,
    {
        out.push(text.get_char(i));
        i = i + 1;
        assert(out@ =~= text@.take(i as int));
    }
    assert(out@ =~= text@);
    out
}

/// The version number spelled by `s[from..to]`, if it spells one.
fn read_number(s: &Vec<char>, from: usize, to: usize) -> (r: Option<i16>)
    requires
        from <= to <= s@.len(),
    ensures
        match version_number(s@.subrange(from as int, to as int)) {
            Some(n) => r == Some(n as i16),
            None => r is None,
        },
        r matches Some(x) ==> x >= 0,
        version_number(s@.subrange(from as int, to as int)) matches Some(n) ==> 0 <= n <= TOP_VERSION,
{
    let ghost w = s@.subrange(from as int, to as int);
    if from == to {
        return None;
    }
    let mut value: i16 = 0;
    let mut i = from;
    while i < to
        invariant
            from <= i <= to <= s@.len(),
            w == s@.subrange(from as int, to as int),
            forall|k: int| 0 <= k < i - from ==> is_digit(#[trigger] w[k]),
            value as int == number(w.take(i - from)),
            0 <= value <= TOP_VERSION,
        decreases to - i,
    {
        let c = s[i];
        if !('0' <= c && c <= '9') {
            proof {
                assert(w[i - from] == c);
            }
            return None;
        }
        let d = (c as u32 - '0' as u32) as i16;
        proof {
            assert(w[i - from] == c);
            assert(w.take(i - from + 1).drop_last() =~= w.take(i - from));
            assert(w.take(i - from + 1).last() == c);
        }
        if value > (TOP_VERSION - d) / 10 {
            proof {
                assert(number(w.take(i - from + 1)) > TOP_VERSION);
                assert forall|k: int| 0 <= k < i - from + 1 implies is_digit(#[trigger] w[k]) by {}
                if forall|k: int| 0 <= k < w.len() ==> is_digit(#[trigger] w[k]) {
                    lemma_number_prefix(w, i - from + 1);
                }
            }
            return None;
        }
        value = value * 10 + d;
        i = i + 1;
    }
    proof {
        assert(w.take(to - from) =~= w);
    }
    Some(value)
}

/// The first position of `c` in `s[from..to]`, as an index into `s`.
fn find_in(s: &Vec<char>, from: usize, to: usize, c: char) -> (r: Option<usize>)
    requires
        from <= to <= s@.len(),
    ensures
        match find(s@.subrange(from as int, to as int), c) {
            Some(k) => r == Some((from + k) as usize),
            None => r is None,
        },
        r matches Some(i) ==> from <= i < to,
{
    let ghost w = s@.subrange(from as int, to as int);
    let mut i = from;
    while i < to
        invariant
            from <= i <= to <= s@.len(),
            w == s@.subrange(from as int, to as int),
            forall|k: int| 0 <= k < i - from ==> w[k] != c,
        decreases to - i,
    {
        if s[i] == c {
            proof {
                assert(w[i - from] == c);
                lemma_find_window(w, c, i - from);
            }
            return Some(i);
        }
        proof {
            assert(w[i - from] == s@[i as int]);
        }
        i = i + 1;
    }
    proof {
        lemma_find_window(w, c, w.len() as int);
    }
    None
}

/// The set one comma-free piece `s[from..to]` denotes.
fn parse_piece(s: &Vec<char>, from: usize, to: usize) -> (r: Option<VersionSet>)
    requires
        from <= to <= s@.len(),
    ensures
        match piece_denotes(s@.subrange(from as int, to as int)) {
            Some(set) => r matches Some(v) && v@ == set,
            None => r is None,
        },
{
    let ghost p = s@.subrange(from as int, to as int);
    if from < to && s[to - 1] == '+' {
        proof {
            assert(p.last() == s@[to - 1]);
            assert(p.drop_last() =~= s@.subrange(from as int, to - 1));
        }
        return match read_number(s, from, to - 1) {
            Some(n) => Some(VersionSet::interval(n, None)),
            None => None,
        };
    }
    match find_in(s, from, to, '-') {
        Some(k) => {
            proof {
                lemma_find_bounds(p, '-');
                assert(p.take(k - from) =~= s@.subrange(from as int, k as int));
                assert(p.skip(k - from + 1) =~= s@.subrange(k + 1, to as int));
            }
            let lo = read_number(s, from, k);
            let hi = read_number(s, k + 1, to);
            match (lo, hi) {
                (Some(lo), Some(hi)) => {
                    if lo <= hi {
                        Some(VersionSet::interval(lo, Some(hi)))
                    } else {
                        None
                    }
                },
                _ => None,
            }
        },
        None => match read_number(s, from, to) {
            Some(n) => Some(VersionSet::interval(n, Some(n))),
            None => None,
        },
    }
}

impl VersionSet {
    /// Reads a version declaration as upstream writes one: `none`, or a
    /// comma-separated list of `N`, `N+` and `N-M`.
    pub fn parse(text: &str) -> (r: Option<VersionSet>)
        ensures
            match declaration_denotes(text@) {
                Some(set) => r matches Some(v) && v@ == set,
                None => r is None,
            },
    {
        let s = chars_of(text);
        proof {
            reveal_strlit("none");
        }
        if s.len() == 4 && s[0] == 'n' && s[1] == 'o' && s[2] == 'n' && s[3] == 'e' {
            assert(s@ =~= "none"@);
            return Some(VersionSet::none());
        }
        proof {
            assert(s@ != "none"@);
        }
        let mut acc = VersionSet::none();
        let mut start: usize = 0;
        proof {
            assert(s@.skip(0) =~= s@);
        }
        loop
            invariant
                start <= s@.len(),
                s@ == text@,
                s@ != "none"@,
                list_denotes(s@) == match list_denotes(s@.skip(start as int)) {
                    Some(b) => Some(acc@.union(b)),
                    None => None::<Set<int>>,
                },
            decreases s@.len() - start,
        {
            let ghost rest = s@.skip(start as int);
            proof {
                assert(rest =~= s@.subrange(start as int, s@.len() as int));
            }
            match find_in(&s, start, s.len(), ',') {
                None => {
                    let piece = parse_piece(&s, start, s.len());
                    return match piece {
                        Some(p) => Some(acc.union(&p)),
                        None => None,
                    };
                },
                Some(k) => {
                    proof {
                        lemma_find_bounds(rest, ',');
                        assert(rest.take(k - start) =~= s@.subrange(start as int, k as int));
                        assert(rest.skip(k - start + 1) =~= s@.skip(k + 1));
                    }
                    match parse_piece(&s, start, k) {
                        Some(p) => {
                            let next = acc.union(&p);
                            proof {
                                match list_denotes(s@.skip(k + 1)) {
                                    Some(b) => {
                                        assert(acc@.union(p@.union(b)) =~= next@.union(b));
                                    },
                                    None => {},
                                }
                            }
                            acc = next;
                            start = k + 1;
                        },
                        None => {
                            return None;
                        },
                    }
                },
            }
        }
    }
}

} // verus!
