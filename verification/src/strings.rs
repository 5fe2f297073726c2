use vstd::prelude::*;

verus! {

/// The order of `str`: lexicographic by Unicode code point (which is the
/// order of the strings' UTF-8 bytes).
pub open spec fn seq_lt(a: Seq<char>, b: Seq<char>) -> bool
    decreases a.len(),
{
    if a.len() == 0 {
        b.len() > 0
    } else if b.len() == 0 {
        false
    } else if a[0] != b[0] {
        (a[0] as int) < (b[0] as int)
    } else {
        seq_lt(a.drop_first(), b.drop_first())
    }
}

/// Two different strings are ordered one way or the other.
pub proof fn lemma_seq_lt_total(a: Seq<char>, b: Seq<char>)
    requires
        a != b,
    ensures
        seq_lt(a, b) || seq_lt(b, a),
    decreases a.len(),
{
    if a.len() == 0 && b.len() == 0 {
        assert(a =~= b);
    } else if a.len() > 0 && b.len() > 0 && a[0] == b[0] {
        if a.drop_first() =~= b.drop_first() {
            assert forall|i: int| 0 <= i < a.len() implies a[i] == b[i] by {
                if i > 0 {
                    assert(a[i] == a.drop_first()[i - 1]);
                    assert(b[i] == b.drop_first()[i - 1]);
                }
            }
            assert(a =~= b);
        }
        lemma_seq_lt_total(a.drop_first(), b.drop_first());
    } else if a.len() > 0 && b.len() > 0 {
        assert((a[0] as int) != (b[0] as int));
    }
}

/// No string comes before itself.
pub proof fn lemma_seq_lt_irreflexive(a: Seq<char>)
    ensures
        !seq_lt(a, a),
    decreases a.len(),
{
    if a.len() > 0 {
        lemma_seq_lt_irreflexive(a.drop_first());
    }
}

/// Whether `a` comes before `b`, lexicographically by code point: the first
/// character where they differ decides, else the shorter one comes first.
pub fn str_lt(a: &str, b: &str) -> (r: bool)
    ensures
        r == seq_lt(a@, b@),
{
    let na = a.unicode_len();
    let nb = b.unicode_len();
    let mut i: usize = 0;
    proof {
        assert(a@.skip(0) =~= a@);
        assert(b@.skip(0) =~= b@);
    }
    while i < na && i < nb
        invariant
            na == a@.len(),
            nb == b@.len(),
            i <= na,
            i <= nb,
            seq_lt(a@, b@) == seq_lt(a@.skip(i as int), b@.skip(i as int)),
        decreases na - i,
    {
        let ca = a.get_char(i);
        let cb = b.get_char(i);
        proof {
            assert(a@.skip(i as int)[0] == ca);
            assert(b@.skip(i as int)[0] == cb);
        }
        if ca != cb {
            return (ca as u32) < (cb as u32);
        }
        proof {
            assert(a@.skip(i as int).drop_first() =~= a@.skip(i + 1));
            assert(b@.skip(i as int).drop_first() =~= b@.skip(i + 1));
        }
        i = i + 1;
    }
    na < nb
}

/// The order of pairs of strings: by the first string, then by the second.
pub open spec fn pair_lt(a: (Seq<char>, Seq<char>), b: (Seq<char>, Seq<char>)) -> bool {
    seq_lt(a.0, b.0) || (a.0 == b.0 && seq_lt(a.1, b.1))
}

/// The characters of a pair of strings.
pub open spec fn pair_view(p: (String, String)) -> (Seq<char>, Seq<char>) {
    (p.0@, p.1@)
}

/// Whether the pairs are in strictly increasing order.
pub open spec fn strictly_increasing(s: Seq<(String, String)>) -> bool {
    forall|i: int| 0 <= i < s.len() - 1 ==> pair_lt(pair_view(#[trigger] s[i]), pair_view(s[i + 1]))
}

/// Whether `a` comes before `b`, by the first string then by the second.
fn pair_before(a: &(String, String), b: &(String, String)) -> (r: bool)
    ensures
        r == pair_lt(pair_view(*a), pair_view(*b)),
{
    if str_lt(a.0.as_str(), b.0.as_str()) {
        true
    } else if a.0 == b.0 {
        str_lt(a.1.as_str(), b.1.as_str())
    } else {
        false
    }
}

/// Inserts `x` into the increasing pairs at its place, and returns that place.
fn insert_sorted(sorted: &mut Vec<(String, String)>, x: (String, String)) -> (p: usize)
    requires
        strictly_increasing(old(sorted)@),
        forall|i: int| 0 <= i < old(sorted).len() ==> #[trigger] old(sorted)@[i].0@ != x.0@,
    ensures
        strictly_increasing(final(sorted)@),
        p <= old(sorted).len(),
        final(sorted)@ == old(sorted)@.insert(p as int, x),
{
    let mut p: usize = 0;
    while p < sorted.len() && !pair_before(&x, &sorted[p])
        invariant
            p <= sorted.len(),
            forall|i: int| 0 <= i < p ==> !pair_lt(pair_view(x), pair_view(#[trigger] sorted@[i])),
        decreases sorted.len() - p,
    {
        p = p + 1;
    }
    proof {
        if p > 0 {
            let prev = sorted@[p - 1];
            assert(prev.0@ != x.0@);
            lemma_seq_lt_total(prev.0@, x.0@);
            assert(pair_lt(pair_view(prev), pair_view(x)));
        }
    }
    let ghost before = sorted@;
    sorted.insert(p, x);
    assert forall|i: int| 0 <= i < sorted.len() - 1 implies pair_lt(
        pair_view(#[trigger] sorted@[i]),
        pair_view(sorted@[i + 1]),
    ) by {
        if i < p - 1 {
            assert(sorted@[i] == before[i] && sorted@[i + 1] == before[i + 1]);
        } else if i > p {
            assert(sorted@[i] == before[i - 1] && sorted@[i + 1] == before[i]);
        }
    }
    p
}

/// The pairs in increasing order, by the first string then by the second.
/// The pairs must differ in their first strings.
#[verifier::rlimit(30)]
pub fn sort_pairs(pairs: Vec<(String, String)>) -> (r: Vec<(String, String)>)
    requires
        forall|i: int, j: int|
            0 <= i < pairs.len() && 0 <= j < pairs.len() && i != j ==> #[trigger] pairs@[i].0@
                != #[trigger] pairs@[j].0@,
    ensures
        strictly_increasing(r@),
        r.len() == pairs.len(),
        forall|i: int| 0 <= i < r@.len() ==> pairs@.contains(#[trigger] r@[i]),
        forall|j: int| 0 <= j < pairs@.len() ==> r@.contains(#[trigger] pairs@[j]),
{
    let ghost input = pairs@;
    let mut sorted: Vec<(String, String)> = Vec::new();
    let mut rest = pairs;
    let ghost all = rest@;
    while rest.len() > 0
        invariant
            strictly_increasing(sorted@),
            sorted.len() + rest.len() == all.len(),
            all == input,
            forall|i: int, j: int|
                0 <= i < all.len() && 0 <= j < all.len() && i != j ==> #[trigger] all[i].0@
                    != #[trigger] all[j].0@,
            rest@ == all.subrange(0, rest.len() as int),
            forall|i: int|
                0 <= i < sorted.len() ==> exists|j: int|
                    rest.len() <= j < all.len() && all[j] == #[trigger] sorted@[i],
            forall|j: int|
                rest.len() <= j < all.len() ==> exists|i: int|
                    0 <= i < sorted.len() && #[trigger] all[j] == sorted@[i],
        decreases rest.len(),
    {
        let ghost xi = (rest.len() - 1) as int;
        let x = rest.pop().unwrap();
        assert(all[xi] == x);
        assert forall|i: int| 0 <= i < sorted.len() implies #[trigger] sorted@[i].0@ != x.0@ by {
            let j = choose|j: int| rest.len() < j < all.len() && all[j] == #[trigger] sorted@[i];
            assert(all[j].0@ != all[xi].0@);
        }
        let ghost before = sorted@;
        let p = insert_sorted(&mut sorted, x);
        assert forall|i: int| 0 <= i < sorted.len() implies exists|j: int|
            rest.len() <= j < all.len() && all[j] == #[trigger] sorted@[i] by {
            if i == p {
                assert(all[xi] == sorted@[i]);
            } else if i < p {
                assert(sorted@[i] == before[i]);
                let j = choose|j: int| rest.len() < j < all.len() && all[j] == #[trigger] before[i];
            } else {
                assert(sorted@[i] == before[i - 1]);
                let j = choose|j: int|
                    rest.len() < j < all.len() && all[j] == #[trigger] before[i - 1];
            }
        }
        assert forall|j: int| rest.len() <= j < all.len() implies exists|i: int|
            0 <= i < sorted.len() && #[trigger] all[j] == sorted@[i] by {
            if j == xi {
                assert(sorted@[p as int] == all[j]);
            } else {
                let k = choose|k: int| 0 <= k < before.len() && #[trigger] all[j] == before[k];
                if k < p {
                    assert(sorted@[k] == before[k]);
                } else {
                    assert(sorted@[k + 1] == before[k]);
                }
            }
        }
    }
    assert forall|i: int| 0 <= i < sorted@.len() implies input.contains(#[trigger] sorted@[i]) by {
        let j = choose|j: int| rest.len() <= j < all.len() && all[j] == #[trigger] sorted@[i];
        assert(input[j] == sorted@[i]);
    }
    assert forall|j: int| 0 <= j < input.len() implies sorted@.contains(#[trigger] input[j]) by {
        assert(input[j] == all[j]);
        let i = choose|i: int| 0 <= i < sorted.len() && #[trigger] all[j] == sorted@[i];
        assert(sorted@[i] == input[j]);
    }
    sorted
}

} // verus!
