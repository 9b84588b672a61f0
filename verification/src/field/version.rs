//! Version predicates emitted into generated encode and decode implementations.

use vstd::prelude::*;

use crate::schema::{Field, Scope};
use crate::strings::{cat2, cat3, cat4, decimal, decimal_i64, owned};
use crate::versions::{canon, single_bounded_of, VersionRange, VersionSet};

verus! {

/// `version.value() OP N`.
pub open spec fn compare(op: Seq<char>, n: int) -> Seq<char> {
    "version.value() "@ + op + " "@ + decimal(n)
}

/// The test for one range when ranges are joined by `||`.
pub open spec fn range_test(r: VersionRange) -> Seq<char> {
    match r.end {
        Some(e) => if e == r.start {
            compare("=="@, r.start as int)
        } else {
            "("@ + compare(">="@, r.start as int) + " && "@ + compare("<="@, e as int) + ")"@
        },
        None => compare(">="@, r.start as int),
    }
}

/// Every range's test, joined by `||`.
pub open spec fn joined_tests(rs: Seq<VersionRange>) -> Seq<char>
    decreases rs.len(),
{
    if rs.len() == 0 {
        Seq::empty()
    } else if rs.len() == 1 {
        range_test(rs[0])
    } else {
        range_test(rs[0]) + " || "@ + joined_tests(rs.drop_first())
    }
}

/// The predicate selecting exactly the versions `rs` within an owner whose
/// valid versions are the one bounded interval `valid`, if they are one.
pub open spec fn condition_text(rs: Seq<VersionRange>, valid: Option<(i16, i16)>) -> Seq<char> {
    match valid {
        Some((valid_start, valid_end)) if rs.len() == 1 => {
            let start = rs[0].start as int;
            let end = match rs[0].end {
                Some(e) => e as int,
                None => valid_end as int,
            };
            if start == valid_start && end < valid_end {
                compare("<="@, end)
            } else if start > valid_start && end == valid_end {
                compare(">="@, start)
            } else if start == end {
                compare("=="@, start)
            } else {
                compare(">="@, start) + " && "@ + compare("<="@, end)
            }
        },
        _ => joined_tests(rs),
    }
}

/// The predicate for a set of versions, rendered against a scope's valid versions.
pub open spec fn condition_of(versions: Set<int>, valid: Set<int>) -> Seq<char> {
    condition_text(canon(versions), single_bounded_of(valid))
}

/// A present-only predicate for `versions` of a scope: `None` when they are all of it.
pub open spec fn gate_over(versions: Set<int>, valid: Set<int>) -> Option<Seq<char>> {
    if versions.intersect(valid) == valid {
        None
    } else {
        Some(condition_of(versions.intersect(valid), valid))
    }
}

/// A comparison a generated version predicate makes.
pub enum Comparison {
    AtMost,
    AtLeast,
    Exactly,
}

/// A generated version predicate as a term: what its text says, before it
/// is spelled.
pub enum Predicate {
    /// `version.value() OP n`.
    Compare(Comparison, int),
    /// `a && b`.
    Both(Box<Predicate>, Box<Predicate>),
    /// `a || b`.
    Either(Box<Predicate>, Box<Predicate>),
    /// `(a)`.
    Grouped(Box<Predicate>),
}

/// The operator a comparison is spelled with.
pub open spec fn operator(c: Comparison) -> Seq<char> {
    match c {
        Comparison::AtMost => "<="@,
        Comparison::AtLeast => ">="@,
        Comparison::Exactly => "=="@,
    }
}

/// How a predicate is spelled in generated Rust.
pub open spec fn spelled(p: Predicate) -> Seq<char>
    decreases p,
{
    match p {
        Predicate::Compare(c, n) => compare(operator(c), n),
        Predicate::Both(a, b) => spelled(*a) + " && "@ + spelled(*b),
        Predicate::Either(a, b) => spelled(*a) + " || "@ + spelled(*b),
        Predicate::Grouped(a) => "("@ + spelled(*a) + ")"@,
    }
}

/// Whether a predicate holds when the negotiated version is `v`.
pub open spec fn holds(p: Predicate, v: int) -> bool
    decreases p,
{
    match p {
        Predicate::Compare(Comparison::AtMost, n) => v <= n,
        Predicate::Compare(Comparison::AtLeast, n) => v >= n,
        Predicate::Compare(Comparison::Exactly, n) => v == n,
        Predicate::Both(a, b) => holds(*a, v) && holds(*b, v),
        Predicate::Either(a, b) => holds(*a, v) || holds(*b, v),
        Predicate::Grouped(a) => holds(*a, v),
    }
}

/// The term `range_test` spells.
pub open spec fn range_predicate(r: VersionRange) -> Predicate {
    match r.end {
        Some(e) => if e == r.start {
            Predicate::Compare(Comparison::Exactly, r.start as int)
        } else {
            Predicate::Grouped(
                Box::new(
                    Predicate::Both(
                        Box::new(Predicate::Compare(Comparison::AtLeast, r.start as int)),
                        Box::new(Predicate::Compare(Comparison::AtMost, e as int)),
                    ),
                ),
            )
        },
        None => Predicate::Compare(Comparison::AtLeast, r.start as int),
    }
}

/// The term `joined_tests` spells, for a non-empty list of ranges.
pub open spec fn joined_predicate(rs: Seq<VersionRange>) -> Predicate
    decreases rs.len(),
{
    if rs.len() <= 1 {
        range_predicate(rs[0])
    } else {
        Predicate::Either(Box::new(range_predicate(rs[0])), Box::new(joined_predicate(rs.drop_first())))
    }
}

/// The term `condition_text` spells, for a non-empty list of ranges.
pub open spec fn condition_predicate(rs: Seq<VersionRange>, valid: Option<(i16, i16)>) -> Predicate {
    match valid {
        Some((valid_start, valid_end)) if rs.len() == 1 => {
            let start = rs[0].start as int;
            let end = match rs[0].end {
                Some(e) => e as int,
                None => valid_end as int,
            };
            if start == valid_start && end < valid_end {
                Predicate::Compare(Comparison::AtMost, end)
            } else if start > valid_start && end == valid_end {
                Predicate::Compare(Comparison::AtLeast, start)
            } else if start == end {
                Predicate::Compare(Comparison::Exactly, start)
            } else {
                Predicate::Both(
                    Box::new(Predicate::Compare(Comparison::AtLeast, start)),
                    Box::new(Predicate::Compare(Comparison::AtMost, end)),
                )
            }
        },
        _ => joined_predicate(rs),
    }
}

fn compare_text(op: &str, n: i16) -> (r: String)
    ensures
        r@ == compare(op@, n as int),
{
    let number = decimal_i64(n as i64);
    cat4("version.value() ", op, " ", number.as_str())
}

fn range_test_text(r: VersionRange) -> (s: String)
    ensures
        s@ == range_test(r),
{
    match r.end {
        Some(e) => if e == r.start {
            compare_text("==", r.start)
        } else {
            let low = compare_text(">=", r.start);
            let high = compare_text("<=", e);
            let mut s = owned("(");
            s.append(low.as_str());
            s.append(" && ");
            s.append(high.as_str());
            s.append(")");
            s
        },
        None => compare_text(">=", r.start),
    }
}

/// The predicate selecting exactly `versions` in generated code over `version`.
pub fn condition_for(versions: &VersionSet, scope: &Scope) -> (r: String)
    ensures
        r@ == condition_of(versions@, scope.valid_versions@),
{
    let valid = scope.valid_versions.single_bounded();
    let ranges = versions.ranges();
    if let Some((valid_start, valid_end)) = valid {
        if ranges.len() == 1 {
            let start = ranges[0].start;
            let end = match ranges[0].end {
                Some(e) => e,
                None => valid_end,
            };
            if start == valid_start && end < valid_end {
                return compare_text("<=", end);
            }
            if start > valid_start && end == valid_end {
                return compare_text(">=", start);
            }
            if start == end {
                return compare_text("==", start);
            }
            let low = compare_text(">=", start);
            let high = compare_text("<=", end);
            return cat3(low.as_str(), " && ", high.as_str());
        }
    }
    let mut out = String::new();
    let mut i: usize = 0;
    let ghost rs = ranges@;
    while i < ranges.len()
        invariant
            rs == ranges@,
            i <= rs.len(),
            i == 0 ==> out@ == Seq::<char>::empty(),
            i > 0 ==> out@ + (if i < rs.len() { " || "@ + joined_tests(rs.skip(i as int)) } else { Seq::<char>::empty() })
                == joined_tests(rs),
        decreases rs.len() - i,
    {
        let test = range_test_text(ranges[i]);
        let ghost before = out@;
        if i > 0 {
            out.append(" || ");
        }
        out.append(test.as_str());
        proof {
            let rest = rs.skip(i as int);
            assert(rest[0] == rs[i as int]);
            assert(rest.drop_first() =~= rs.skip(i + 1));
            if rest.len() == 1 {
                assert(joined_tests(rest) == range_test(rs[i as int]));
            } else {
                assert(joined_tests(rest) == range_test(rs[i as int]) + " || "@ + joined_tests(rs.skip(i + 1)));
            }
            if i == 0 {
                assert(rs.skip(0) =~= rs);
            }
        }
        i = i + 1;
    }
    proof {
        if rs.len() == 0 {
            assert(joined_tests(rs) =~= Seq::<char>::empty());
        }
    }
    out
}

/// The predicate under which a field is present, or `None` when it is present
/// in every version its scope supports.
pub fn presence_condition(field: &Field, scope: &Scope) -> (r: Option<String>)
    ensures
        match gate_over(field.versions@, scope.valid_versions@) {
            None => r is None,
            Some(c) => r matches Some(s) && s@ == c,
        },
{
    let effective = field.versions.intersection(&scope.valid_versions);
    if effective.same_as(&scope.valid_versions) {
        None
    } else {
        Some(condition_for(&effective, scope))
    }
}

/// The predicate under which a field is absent, or `None` when it is never
/// absent from a version its scope supports.
pub fn absence_condition(field: &Field, scope: &Scope) -> (r: Option<String>)
    ensures
        match gate_over(field.versions@, scope.valid_versions@) {
            None => r is None,
            Some(_) => r matches Some(s) && s@ == condition_of(
                scope.valid_versions@.difference(field.versions@),
                scope.valid_versions@,
            ),
        },
{
    let effective = field.versions.intersection(&scope.valid_versions);
    if effective.same_as(&scope.valid_versions) {
        None
    } else {
        let absent = scope.valid_versions.difference(&field.versions);
        Some(condition_for(&absent, scope))
    }
}

/// Whether `s` holds `needle` anywhere.
pub open spec fn contains_text(s: Seq<char>, needle: Seq<char>) -> bool {
    exists|i: int| 0 <= i && i + needle.len() <= s.len() && #[trigger] s.subrange(i, i + needle.len()) == needle
}

/// A condition made safe to join with `&&`: a disjunction is parenthesized.
pub open spec fn conjunct(condition: Seq<char>) -> Seq<char> {
    if contains_text(condition, " || "@) {
        "("@ + condition + ")"@
    } else {
        condition
    }
}

/// Whether `s` holds `needle` anywhere.
pub fn contains(s: &str, needle: &str) -> (r: bool)
    ensures
        r == contains_text(s@, needle@),
{
    let hay = crate::versions::chars_of(s);
    let pin = crate::versions::chars_of(needle);
    if pin.len() > hay.len() {
        return false;
    }
    let mut i: usize = 0;
    let total = hay.len();
    let limit = hay.len() - pin.len();
    while i <= limit
        invariant
            limit == hay@.len() - pin@.len(),
            total == hay@.len(),
            hay@ == s@,
            pin@ == needle@,
            pin@.len() <= hay@.len(),
            i <= hay@.len() - pin@.len() + 1,
            forall|k: int| 0 <= k < i ==> #[trigger] s@.subrange(k, k + needle@.len()) != needle@,
        decreases hay@.len() - i,
    {
        let mut j: usize = 0;
        let mut agree = true;
        while agree && j < pin.len()
            invariant
                hay@ == s@,
                pin@ == needle@,
                i <= limit,
                limit + pin@.len() == hay@.len(),
                total == hay@.len(),
                j <= pin@.len(),
                forall|m: int| 0 <= m < j ==> hay@[i + m] == pin@[m],
                !agree ==> j < pin@.len() && hay@[i + j] != pin@[j as int],
            decreases pin@.len() - j, if agree { 1int } else { 0int },
        {
            if hay[i + j] == pin[j] {
                j = j + 1;
            } else {
                agree = false;
            }
        }
        if j == pin.len() {
            assert(s@.subrange(i as int, i + needle@.len()) =~= needle@);
            return true;
        }
        proof {
            if j < pin@.len() {
                assert(s@.subrange(i as int, i + needle@.len())[j as int] != needle@[j as int]);
            }
        }
        if i == limit {
            proof {
                assert forall|k: int| 0 <= k && k + needle@.len() <= s@.len() implies #[trigger] s@.subrange(k, k + needle@.len()) != needle@ by {
                    assert(k <= i);
                }
            }
            return false;
        }
        i = i + 1;
    }
    proof {
        assert forall|k: int| 0 <= k && k + needle@.len() <= s@.len() implies #[trigger] s@.subrange(k, k + needle@.len()) != needle@ by {
            assert(k < i);
        }
    }
    false
}

/// Parenthesizes a disjunction so it can stand beside `&&`.
pub fn as_conjunct(condition: &str) -> (r: String)
    ensures
        r@ == conjunct(condition@),
{
    if contains(condition, " || ") {
        cat3("(", condition, ")")
    } else {
        owned(condition)
    }
}

} // verus!
