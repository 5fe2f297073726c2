use vstd::prelude::*;

use vstd::string::StrSliceExecFns;

verus! {

/// The bits of the IEEE 754 double positive infinity.
pub const POSITIVE_INFINITY_BITS: u64 = 0x7FF0_0000_0000_0000u64;

/// The bits of the IEEE 754 double negative infinity.
pub const NEGATIVE_INFINITY_BITS: u64 = 0xFFF0_0000_0000_0000u64;

/// The bits of the quiet NaN that `xs:double("NaN")` gives.
pub const NAN_BITS: u64 = 0x7FF8_0000_0000_0000u64;

/// The XML whitespace characters: space, tab, line feed, carriage return.
pub open spec fn is_xml_space(c: char) -> bool {
    c == ' ' || c == '\t' || c == '\n' || c == '\r'
}

/// Whether every character is XML whitespace.
pub open spec fn all_xml_space(s: Seq<char>) -> bool {
    forall|i: int| 0 <= i < s.len() ==> is_xml_space(#[trigger] s[i])
}

/// The string without its leading and trailing XML whitespace (the
/// whiteSpace facet `collapse` of `xs:double`; whitespace inside a number
/// makes it invalid either way).
pub open spec fn trim_xml_space(s: Seq<char>) -> Seq<char>
    decreases s.len(),
{
    if s.len() > 0 && is_xml_space(s[0]) {
        trim_xml_space(s.drop_first())
    } else if s.len() > 0 && is_xml_space(s.last()) {
        trim_xml_space(s.drop_last())
    } else {
        s
    }
}

/// Whether the character is an ASCII digit.
pub open spec fn is_digit(c: char) -> bool {
    '0' <= c && c <= '9'
}

/// The index of the first character at or after `i` that is not a digit.
pub open spec fn digits_end(s: Seq<char>, i: int) -> int
    decreases s.len() - i,
{
    if 0 <= i < s.len() && is_digit(s[i]) {
        digits_end(s, i + 1)
    } else {
        i
    }
}

/// The index after an optional sign at `i`.
pub open spec fn sign_end(s: Seq<char>, i: int) -> int {
    if 0 <= i < s.len() && (s[i] == '+' || s[i] == '-') {
        i + 1
    } else {
        i
    }
}

/// Whether `s` is a finite number of the lexical space of `xs:double`:
/// `(\+|-)?([0-9]+(\.[0-9]*)?|\.[0-9]+)([Ee](\+|-)?[0-9]+)?`. No part of the
/// pattern can start with a digit where a run of digits ends, so reading
/// each run of digits whole decides it.
pub open spec fn is_finite_double_lexical(s: Seq<char>) -> bool {
    let a = sign_end(s, 0);
    let b = digits_end(s, a);
    let has_point = b < s.len() && s[b] == '.';
    let c = if has_point {
        b + 1
    } else {
        b
    };
    let d = if has_point {
        digits_end(s, c)
    } else {
        c
    };
    &&& (b - a) + (d - c) >= 1
    &&& (d == s.len() || {
        &&& (s[d] == 'e' || s[d] == 'E')
        &&& digits_end(s, sign_end(s, d + 1)) > sign_end(s, d + 1)
        &&& digits_end(s, sign_end(s, d + 1)) == s.len()
    })
}

/// What a string in the lexical space of `xs:double` denotes.
#[derive(Debug, Clone, PartialEq, Eq)]
pub enum DoubleLexical {
    PositiveInfinity,
    NegativeInfinity,
    NaN,
    /// A finite number, written as its lexical form without surrounding
    /// whitespace.
    Finite(String),
}

/// The model of a lexical form of `xs:double`.
pub enum DoubleLexicalView {
    PositiveInfinity,
    NegativeInfinity,
    NaN,
    Finite(Seq<char>),
}

impl View for DoubleLexical {
    type V = DoubleLexicalView;

    open spec fn view(&self) -> DoubleLexicalView {
        match self {
            DoubleLexical::PositiveInfinity => DoubleLexicalView::PositiveInfinity,
            DoubleLexical::NegativeInfinity => DoubleLexicalView::NegativeInfinity,
            DoubleLexical::NaN => DoubleLexicalView::NaN,
            DoubleLexical::Finite(s) => DoubleLexicalView::Finite(s@),
        }
    }
}

/// How the string of a value cast to `xs:double` reads, once its surrounding
/// whitespace is collapsed: `INF` or `+INF`, `-INF`, `NaN`, a finite number,
/// or `None` where it is not in the lexical space of `xs:double`.
pub open spec fn spec_double_lexical(s: Seq<char>) -> Option<DoubleLexicalView> {
    let t = trim_xml_space(s);
    if t == seq!['I', 'N', 'F'] || t == seq!['+', 'I', 'N', 'F'] {
        Some(DoubleLexicalView::PositiveInfinity)
    } else if t == seq!['-', 'I', 'N', 'F'] {
        Some(DoubleLexicalView::NegativeInfinity)
    } else if t == seq!['N', 'a', 'N'] {
        Some(DoubleLexicalView::NaN)
    } else if is_finite_double_lexical(t) {
        Some(DoubleLexicalView::Finite(t))
    } else {
        None
    }
}

/// The bits of the double that a lexical form denotes, where
/// `finite_double` is what a finite one denotes.
pub open spec fn lexical_bits(l: DoubleLexicalView, finite_double: u64) -> u64 {
    match l {
        DoubleLexicalView::PositiveInfinity => POSITIVE_INFINITY_BITS,
        DoubleLexicalView::NegativeInfinity => NEGATIVE_INFINITY_BITS,
        DoubleLexicalView::NaN => NAN_BITS,
        DoubleLexicalView::Finite(_) => finite_double,
    }
}

/// Leading XML whitespace does not change the trimmed string.
proof fn lemma_trim_leading(w: Seq<char>, s: Seq<char>)
    requires
        all_xml_space(w),
    ensures
        trim_xml_space(w + s) == trim_xml_space(s),
    decreases w.len(),
{
    if w.len() == 0 {
        assert(w + s =~= s);
    } else {
        assert((w + s)[0] == w[0]);
        assert((w + s).drop_first() =~= w.drop_first() + s);
        lemma_trim_leading(w.drop_first(), s);
    }
}

/// Trailing XML whitespace does not change the trimmed string.
proof fn lemma_trim_trailing(s: Seq<char>, w: Seq<char>)
    requires
        all_xml_space(w),
    ensures
        trim_xml_space(s + w) == trim_xml_space(s),
    decreases s.len() + w.len(),
{
    if w.len() == 0 {
        assert(s + w =~= s);
    } else if s.len() > 0 && is_xml_space(s[0]) {
        assert((s + w)[0] == s[0]);
        assert((s + w).drop_first() =~= s.drop_first() + w);
        lemma_trim_trailing(s.drop_first(), w);
    } else if s.len() == 0 {
        assert(s + w =~= w);
        assert(w.drop_first() =~= s + w.drop_first());
        lemma_trim_trailing(s, w.drop_first());
    } else {
        assert((s + w)[0] == s[0]);
        assert((s + w).last() == w.last());
        assert((s + w).drop_last() =~= s + w.drop_last());
        lemma_trim_trailing(s, w.drop_last());
    }
}

/// XML whitespace around a string does not change how it reads as an
/// `xs:double`.
pub proof fn law_surrounding_whitespace_is_ignored(w1: Seq<char>, s: Seq<char>, w2: Seq<char>)
    requires
        all_xml_space(w1),
        all_xml_space(w2),
    ensures
        spec_double_lexical(w1 + s + w2) == spec_double_lexical(s),
{
    assert(w1 + s + w2 =~= w1 + (s + w2));
    lemma_trim_leading(w1, s + w2);
    lemma_trim_trailing(s, w2);
}

/// Whether every character is an ASCII digit.
pub open spec fn all_digits(s: Seq<char>) -> bool {
    forall|i: int| 0 <= i < s.len() ==> is_digit(#[trigger] s[i])
}

/// Whether the string is empty or a single `+` or `-`.
pub open spec fn is_optional_sign(x: Seq<char>) -> bool {
    x.len() == 0 || (x.len() == 1 && (x[0] == '+' || x[0] == '-'))
}

/// Whether the string is `[0-9]+(\.[0-9]*)?|\.[0-9]+`: digits, or digits, a
/// point and digits with at least one digit in all.
pub open spec fn is_decimal_mantissa(m: Seq<char>) -> bool {
    ||| (all_digits(m) && m.len() >= 1)
    ||| exists|p: Seq<char>, q: Seq<char>|
        all_digits(p) && all_digits(q) && p.len() + q.len() >= 1 && m == #[trigger] (p + seq!['.']
            + q)
}

/// Whether the string is `([Ee](\+|-)?[0-9]+)?`.
pub open spec fn is_exponent(e: Seq<char>) -> bool {
    ||| e.len() == 0
    ||| ((e[0] == 'e' || e[0] == 'E') && exists|x: Seq<char>, d: Seq<char>|
        is_optional_sign(x) && all_digits(d) && d.len() >= 1 && e.drop_first() == #[trigger] (x
            + d))
}

/// Whether the string matches
/// `(\+|-)?([0-9]+(\.[0-9]*)?|\.[0-9]+)([Ee](\+|-)?[0-9]+)?`, the pattern of
/// the finite numbers of `xs:double`: an optional sign, a mantissa and an
/// optional exponent, one after the other.
pub open spec fn matches_double_pattern(s: Seq<char>) -> bool {
    exists|x: Seq<char>, m: Seq<char>, e: Seq<char>|
        is_optional_sign(x) && is_decimal_mantissa(m) && is_exponent(e) && s == #[trigger] (x + m
            + e)
}

/// `digits_end` stops after a run of digits, at the end or at a non-digit.
proof fn lemma_digits_end(s: Seq<char>, i: int)
    requires
        0 <= i <= s.len(),
    ensures
        i <= digits_end(s, i) <= s.len(),
        forall|k: int| i <= k < digits_end(s, i) ==> is_digit(#[trigger] s[k]),
        digits_end(s, i) == s.len() || !is_digit(s[digits_end(s, i)]),
    decreases s.len() - i,
{
    if i < s.len() && is_digit(s[i]) {
        lemma_digits_end(s, i + 1);
    }
}

/// A run of digits from `i` to `j`, followed by the end or a non-digit, ends
/// at `j`.
proof fn lemma_digits_end_of_run(s: Seq<char>, i: int, j: int)
    requires
        0 <= i <= j <= s.len(),
        forall|k: int| i <= k < j ==> is_digit(#[trigger] s[k]),
        j == s.len() || !is_digit(s[j]),
    ensures
        digits_end(s, i) == j,
    decreases j - i,
{
    if i < j {
        assert(is_digit(s[i]));
        lemma_digits_end_of_run(s, i + 1, j);
    }
}

/// The exponent test at index `d` holds exactly where the rest of the
/// string from `d` is an exponent.
proof fn lemma_exponent_at(s: Seq<char>, d: int)
    requires
        0 <= d <= s.len(),
    ensures
        is_exponent(s.subrange(d, s.len() as int)) <==> (d == s.len() || {
            &&& (s[d] == 'e' || s[d] == 'E')
            &&& digits_end(s, sign_end(s, d + 1)) > sign_end(s, d + 1)
            &&& digits_end(s, sign_end(s, d + 1)) == s.len()
        }),
{
    let e = s.subrange(d, s.len() as int);
    if d < s.len() {
        assert(e[0] == s[d]);
        let f = sign_end(s, d + 1);
        let rest = e.drop_first();
        assert(rest =~= s.subrange(d + 1, s.len() as int));
        lemma_digits_end(s, f);
        if (s[d] == 'e' || s[d] == 'E') && digits_end(s, f) > f && digits_end(s, f) == s.len() {
            let x = s.subrange(d + 1, f);
            let dd = s.subrange(f, s.len() as int);
            assert(rest =~= x + dd);
            assert(all_digits(dd)) by {
                assert forall|k: int| 0 <= k < dd.len() implies is_digit(#[trigger] dd[k]) by {
                    assert(dd[k] == s[f + k]);
                }
            }
            assert(is_optional_sign(x)) by {
                if f == d + 2 {
                    assert(x[0] == s[d + 1]);
                }
            }
        }
        if is_exponent(e) {
            let (x, dd) = choose|x: Seq<char>, dd: Seq<char>|
                is_optional_sign(x) && all_digits(dd) && dd.len() >= 1 && rest == #[trigger] (x
                    + dd);
            assert(s[d + 1] == rest[0]);
            if x.len() == 1 {
                assert(rest[0] == x[0]);
                assert(f == d + 2);
            } else {
                assert(rest[0] == dd[0]);
                assert(is_digit(dd[0]));
                assert(f == d + 1);
            }
            assert forall|k: int| f <= k < s.len() implies is_digit(#[trigger] s[k]) by {
                assert(s[k] == rest[k - d - 1]);
                assert(rest[k - d - 1] == dd[k - d - 1 - x.len()]);
            }
            lemma_digits_end_of_run(s, f, s.len() as int);
        }
    } else {
        assert(e.len() == 0);
    }
}

/// A string that passes the finite-number test matches the pattern.
proof fn lemma_finite_matches(s: Seq<char>)
    requires
        is_finite_double_lexical(s),
    ensures
        matches_double_pattern(s),
{
    let a = sign_end(s, 0);
    lemma_digits_end(s, a);
    let b = digits_end(s, a);
    let has_point = b < s.len() && s[b] == '.';
    let c = if has_point {
        b + 1
    } else {
        b
    };
    if has_point {
        lemma_digits_end(s, c);
    }
    let d = if has_point {
        digits_end(s, c)
    } else {
        c
    };
    let x = s.subrange(0, a);
    assert(is_optional_sign(x)) by {
        if a == 1 {
            assert(x[0] == s[0]);
        }
    }
    let p = s.subrange(a, b);
    assert(all_digits(p)) by {
        assert forall|k: int| 0 <= k < p.len() implies is_digit(#[trigger] p[k]) by {
            assert(p[k] == s[a + k]);
        }
    }
    let m = s.subrange(a, d);
    if has_point {
        let q = s.subrange(c, d);
        assert(all_digits(q)) by {
            assert forall|k: int| 0 <= k < q.len() implies is_digit(#[trigger] q[k]) by {
                assert(q[k] == s[c + k]);
            }
        }
        assert(m =~= p + seq!['.'] + q);
    } else {
        assert(m =~= p);
    }
    assert(is_decimal_mantissa(m));
    let e = s.subrange(d, s.len() as int);
    lemma_exponent_at(s, d);
    assert(s =~= x + m + e);
}

/// A string that matches the pattern passes the finite-number test.
proof fn lemma_matches_finite(s: Seq<char>, x: Seq<char>, m: Seq<char>, e: Seq<char>)
    requires
        is_optional_sign(x),
        is_decimal_mantissa(m),
        is_exponent(e),
        s == x + m + e,
    ensures
        is_finite_double_lexical(s),
{
    let a = x.len() as int;
    let n = s.len() as int;
    assert(m.len() >= 1);
    assert forall|k: int| 0 <= k < m.len() implies s[a + k] == #[trigger] m[k] by {
        assert((x + m + e)[a + k] == m[k]);
    }
    let d = a + m.len();
    assert forall|k: int| 0 <= k < e.len() implies s[d + k] == #[trigger] e[k] by {
        assert((x + m + e)[d + k] == e[k]);
    }
    assert(e =~= s.subrange(d, n));
    // where the mantissa ends: at the end, or at the exponent's `e` or `E`
    assert(d == n || !is_digit(s[d]) && s[d] != '.') by {
        if d < n {
            assert(s[d] == e[0]);
        }
    }
    if all_digits(m) && m.len() >= 1 {
        assert(!(m[0] == '+' || m[0] == '-')) by {
            assert(is_digit(m[0]));
        }
        if a == 1 {
            assert(s[0] == x[0]);
        } else {
            assert(s[0] == m[0]);
        }
        assert(sign_end(s, 0) == a);
        assert forall|k: int| a <= k < d implies is_digit(#[trigger] s[k]) by {
            assert(s[k] == m[k - a]);
        }
        lemma_digits_end_of_run(s, a, d);
    } else {
        let (p, q) = choose|p: Seq<char>, q: Seq<char>|
            all_digits(p) && all_digits(q) && p.len() + q.len() >= 1 && m == #[trigger] (p
                + seq!['.'] + q);
        let b = a + p.len();
        let c = b + 1;
        assert forall|k: int| 0 <= k < p.len() implies m[k] == #[trigger] p[k] by {}
        assert forall|k: int| 0 <= k < q.len() implies m[p.len() + 1 + k] == #[trigger] q[k] by {}
        assert(m[p.len() as int] == '.');
        assert(!(m[0] == '+' || m[0] == '-')) by {
            if p.len() > 0 {
                assert(is_digit(p[0]));
            }
        }
        if a == 1 {
            assert(s[0] == x[0]);
        } else {
            assert(s[0] == m[0]);
        }
        assert(sign_end(s, 0) == a);
        assert(s[b] == '.') by {
            assert(s[a + p.len()] == m[p.len() as int]);
        }
        assert forall|k: int| a <= k < b implies is_digit(#[trigger] s[k]) by {
            assert(s[k] == m[k - a]);
            assert(p[k - a] == m[k - a]);
        }
        lemma_digits_end_of_run(s, a, b);
        assert(d == c + q.len());
        assert forall|k: int| c <= k < d implies is_digit(#[trigger] s[k]) by {
            assert(s[k] == m[k - a]);
            assert(q[k - c] == m[p.len() + 1 + (k - c)]);
        }
        lemma_digits_end_of_run(s, c, d);
    }
    lemma_exponent_at(s, d);
}

/// The finite numbers of `xs:double` are exactly the strings that match
/// `(\+|-)?([0-9]+(\.[0-9]*)?|\.[0-9]+)([Ee](\+|-)?[0-9]+)?`: any number
/// of digits before and after the point, with at least one in all.
pub proof fn law_finite_lexical_is_the_pattern(s: Seq<char>)
    ensures
        is_finite_double_lexical(s) <==> matches_double_pattern(s),
{
    if is_finite_double_lexical(s) {
        lemma_finite_matches(s);
    }
    if matches_double_pattern(s) {
        let (x, m, e) = choose|x: Seq<char>, m: Seq<char>, e: Seq<char>|
            is_optional_sign(x) && is_decimal_mantissa(m) && is_exponent(e) && s == #[trigger] (x
                + m + e);
        lemma_matches_finite(s, x, m, e);
    }
}

/// Whether the character can occur in a finite number of `xs:double`.
pub open spec fn is_number_char(c: char) -> bool {
    is_digit(c) || c == '+' || c == '-' || c == '.' || c == 'e' || c == 'E'
}

/// Every character of a string that matches the pattern can occur in a
/// number, so none is whitespace and none starts `INF` or `NaN`.
proof fn lemma_pattern_chars(t: Seq<char>)
    requires
        matches_double_pattern(t),
    ensures
        t.len() >= 1,
        forall|k: int| 0 <= k < t.len() ==> is_number_char(#[trigger] t[k]),
{
    let (x, m, e) = choose|x: Seq<char>, m: Seq<char>, e: Seq<char>|
        is_optional_sign(x) && is_decimal_mantissa(m) && is_exponent(e) && t == #[trigger] (x + m
            + e);
    assert(m.len() >= 1);
    assert forall|k: int| 0 <= k < m.len() implies is_number_char(#[trigger] m[k]) by {
        if !(all_digits(m) && m.len() >= 1) {
            let (p, q) = choose|p: Seq<char>, q: Seq<char>|
                all_digits(p) && all_digits(q) && p.len() + q.len() >= 1 && m == #[trigger] (p
                    + seq!['.'] + q);
            if k < p.len() {
                assert(m[k] == p[k]);
            } else if k > p.len() {
                assert(m[k] == q[k - p.len() - 1]);
            }
        }
    }
    assert forall|k: int| 0 <= k < e.len() implies is_number_char(#[trigger] e[k]) by {
        if k > 0 {
            assert(e.len() != 0);
            assert(exists|y: Seq<char>, d: Seq<char>|
                is_optional_sign(y) && all_digits(d) && d.len() >= 1 && e.drop_first() == #[trigger] (
                y + d));
            let (y, d) = choose|y: Seq<char>, d: Seq<char>|
                is_optional_sign(y) && all_digits(d) && d.len() >= 1 && e.drop_first() == #[trigger] (
                y + d);
            assert(e[k] == e.drop_first()[k - 1]);
            assert(e.drop_first().len() == y.len() + d.len());
            if k - 1 >= y.len() {
                assert((y + d)[k - 1] == d[k - 1 - y.len()]);
                assert(is_digit(d[k - 1 - y.len()]));
            } else {
                assert((y + d)[k - 1] == y[k - 1]);
                assert(k - 1 == 0);
            }
        } else {
            assert(e[0] == 'e' || e[0] == 'E');
        }
    }
    assert forall|k: int| 0 <= k < t.len() implies is_number_char(#[trigger] t[k]) by {
        if k < x.len() {
            assert(t[k] == x[k]);
        } else if k < x.len() + m.len() {
            assert(t[k] == m[k - x.len()]);
        } else {
            assert(t[k] == e[k - x.len() - m.len()]);
        }
    }
}

/// A string that matches the pattern of a finite number, with any XML
/// whitespace around it, reads as that finite number.
pub proof fn law_pattern_reads_as_finite_number(w1: Seq<char>, t: Seq<char>, w2: Seq<char>)
    requires
        all_xml_space(w1),
        all_xml_space(w2),
        matches_double_pattern(t),
    ensures
        spec_double_lexical(w1 + t + w2) == Some(DoubleLexicalView::Finite(t)),
{
    law_surrounding_whitespace_is_ignored(w1, t, w2);
    law_finite_lexical_is_the_pattern(t);
    lemma_pattern_chars(t);
    assert(is_number_char(t[0]));
    assert(is_number_char(t.last()));
    assert(trim_xml_space(t) == t);
    if t.len() >= 2 {
        assert(is_number_char(t[1]));
    }
    assert(t != seq!['I', 'N', 'F']) by {
        if t == seq!['I', 'N', 'F'] {
            assert(t[0] == 'I');
        }
    }
    assert(t != seq!['N', 'a', 'N']) by {
        if t == seq!['N', 'a', 'N'] {
            assert(t[0] == 'N');
        }
    }
    assert(t != seq!['+', 'I', 'N', 'F']) by {
        if t == seq!['+', 'I', 'N', 'F'] {
            assert(t[1] == 'I');
        }
    }
    assert(t != seq!['-', 'I', 'N', 'F']) by {
        if t == seq!['-', 'I', 'N', 'F'] {
            assert(t[1] == 'I');
        }
    }
}

/// With its surrounding XML whitespace removed, a string that is none of
/// `INF`, `+INF`, `-INF`, `NaN` and does not match the pattern of a finite
/// number is not in the lexical space of `xs:double`.
pub proof fn law_other_strings_are_refused(w1: Seq<char>, t: Seq<char>, w2: Seq<char>)
    requires
        all_xml_space(w1),
        all_xml_space(w2),
        t.len() == 0 || (!is_xml_space(t[0]) && !is_xml_space(t.last())),
        !matches_double_pattern(t),
        t != seq!['I', 'N', 'F'],
        t != seq!['+', 'I', 'N', 'F'],
        t != seq!['-', 'I', 'N', 'F'],
        t != seq!['N', 'a', 'N'],
    ensures
        spec_double_lexical(w1 + t + w2) is None,
{
    law_surrounding_whitespace_is_ignored(w1, t, w2);
    law_finite_lexical_is_the_pattern(t);
    assert(trim_xml_space(t) == t);
}

/// The characters of the string.
fn chars_of(s: &str) -> (r: Vec<char>)
    ensures
        r@ == s@,
{
    let n = s.unicode_len();
    let mut r: Vec<char> = Vec::new();
    for i in 0..n
        invariant
            n == s@.len(),
            r@ == s@.subrange(0, i as int),
    {
        let c = s.get_char(i);
        r.push(c);
        assert(r@ =~= s@.subrange(0, i + 1));
    }
    assert(r@ =~= s@);
    r
}

fn is_space_char(c: char) -> (r: bool)
    ensures
        r == is_xml_space(c),
{
    c == ' ' || c == '\t' || c == '\n' || c == '\r'
}

fn is_digit_char(c: char) -> (r: bool)
    ensures
        r == is_digit(c),
{
    '0' <= c && c <= '9'
}

/// The index of the first non-digit of `v` at or after `i`.
fn digits_end_at(v: &Vec<char>, i: usize) -> (r: usize)
    requires
        i <= v.len(),
    ensures
        r == digits_end(v@, i as int),
        i <= r <= v.len(),
{
    let mut j = i;
    while j < v.len() && is_digit_char(v[j])
        invariant
            i <= j <= v.len(),
            digits_end(v@, j as int) == digits_end(v@, i as int),
        decreases v.len() - j,
    {
        j = j + 1;
    }
    j
}

/// The index after an optional sign of `v` at `i`.
fn sign_end_at(v: &Vec<char>, i: usize) -> (r: usize)
    requires
        i <= v.len(),
    ensures
        r == sign_end(v@, i as int),
        i <= r <= v.len(),
{
    if i < v.len() && (v[i] == '+' || v[i] == '-') {
        i + 1
    } else {
        i
    }
}

/// Whether the characters are a finite number of the lexical space of
/// `xs:double`.
fn finite_double_lexical(v: &Vec<char>) -> (r: bool)
    ensures
        r == is_finite_double_lexical(v@),
{
    let a = sign_end_at(v, 0);
    let b = digits_end_at(v, a);
    let has_point = b < v.len() && v[b] == '.';
    let c = if has_point {
        b + 1
    } else {
        b
    };
    let d = if has_point {
        digits_end_at(v, c)
    } else {
        c
    };
    if (b - a) + (d - c) < 1 {
        return false;
    }
    if d == v.len() {
        return true;
    }
    if !(v[d] == 'e' || v[d] == 'E') {
        return false;
    }
    let e = sign_end_at(v, d + 1);
    let f = digits_end_at(v, e);
    f > e && f == v.len()
}

/// Whether the characters of `v` from `start` to `end` are exactly `word`.
fn slice_is(v: &Vec<char>, start: usize, end: usize, word: &Vec<char>) -> (r: bool)
    requires
        start <= end <= v.len(),
    ensures
        r == (v@.subrange(start as int, end as int) == word@),
{
    if end - start != word.len() {
        return false;
    }
    let mut i: usize = 0;
    while i < word.len()
        invariant
            end - start == word.len(),
            start <= end <= v.len(),
            i <= word.len(),
            forall|j: int| 0 <= j < i ==> v@[start + j] == word@[j],
        decreases word.len() - i,
    {
        if v[start + i] != word[i] {
            assert(v@.subrange(start as int, end as int)[i as int] != word@[i as int]);
            return false;
        }
        i = i + 1;
    }
    assert(v@.subrange(start as int, end as int) =~= word@);
    true
}

/// How the string reads as an `xs:double`, once its surrounding XML
/// whitespace is collapsed: an infinity, NaN, a finite number (its lexical
/// form), or `None` where it is not in the lexical space of `xs:double`.
pub fn double_lexical(s: &str) -> (r: Option<DoubleLexical>)
    ensures
        match r {
            Some(l) => spec_double_lexical(s@) == Some(l@),
            None => spec_double_lexical(s@) is None,
        },
{
    let v = chars_of(s);
    let mut start: usize = 0;
    let mut end: usize = v.len();
    assert(v@.subrange(0, v.len() as int) =~= v@);
    while start < end && is_space_char(v[start])
        invariant
            start <= end == v.len(),
            trim_xml_space(v@.subrange(start as int, end as int)) == trim_xml_space(v@),
        decreases end - start,
    {
        let ghost sub = v@.subrange(start as int, end as int);
        assert(sub.drop_first() =~= v@.subrange(start + 1, end as int));
        start = start + 1;
    }
    while end > start && is_space_char(v[end - 1])
        invariant
            start <= end <= v.len(),
            start == end || !is_xml_space(v@[start as int]),
            trim_xml_space(v@.subrange(start as int, end as int)) == trim_xml_space(v@),
        decreases end - start,
    {
        let ghost sub = v@.subrange(start as int, end as int);
        assert(sub[0] == v@[start as int]);
        assert(sub.last() == v@[end - 1]);
        assert(sub.drop_last() =~= v@.subrange(start as int, end - 1));
        end = end - 1;
    }
    let ghost t = v@.subrange(start as int, end as int);
    proof {
        if start < end {
            assert(t[0] == v@[start as int]);
            assert(t.last() == v@[end - 1]);
        }
        assert(trim_xml_space(t) == t);
    }
    let inf = vec!['I', 'N', 'F'];
    let plus_inf = vec!['+', 'I', 'N', 'F'];
    let minus_inf = vec!['-', 'I', 'N', 'F'];
    let nan = vec!['N', 'a', 'N'];
    assert(inf@ =~= seq!['I', 'N', 'F']);
    assert(plus_inf@ =~= seq!['+', 'I', 'N', 'F']);
    assert(minus_inf@ =~= seq!['-', 'I', 'N', 'F']);
    assert(nan@ =~= seq!['N', 'a', 'N']);
    if slice_is(&v, start, end, &inf) || slice_is(&v, start, end, &plus_inf) {
        Some(DoubleLexical::PositiveInfinity)
    } else if slice_is(&v, start, end, &minus_inf) {
        Some(DoubleLexical::NegativeInfinity)
    } else if slice_is(&v, start, end, &nan) {
        Some(DoubleLexical::NaN)
    } else {
        let mut trimmed: Vec<char> = Vec::new();
        for i in start..end
            invariant
                start <= end <= v.len(),
                trimmed@ == v@.subrange(start as int, i as int),
        {
            trimmed.push(v[i]);
            assert(trimmed@ =~= v@.subrange(start as int, i + 1));
        }
        if finite_double_lexical(&trimmed) {
            let lexical = s.substring_char(start, end).to_owned();
            Some(DoubleLexical::Finite(lexical))
        } else {
            None
        }
    }
}

} // verus!
