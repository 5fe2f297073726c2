use vstd::prelude::*;

use ahash::{HashMapExt, HashSetExt};

verus! {

/// `ahash::RandomState`, the hasher builder of `ahash`'s maps and sets.
#[verifier::external_type_specification]
#[verifier::external_body]
pub struct ExAhashRandomState(ahash::RandomState);

/// A hash map from strings to strings, hashed by `ahash`.
pub type StringMap = ahash::HashMap<String, String>;

/// A hash set of strings, hashed by `ahash`.
pub type StringSet = ahash::HashSet<String>;

/// What a string map holds, each string taken by its characters.
pub uninterp spec fn string_map_contents(m: StringMap) -> Map<Seq<char>, Seq<char>>;

/// What a string set holds, each string taken by its characters.
pub uninterp spec fn string_set_contents(s: StringSet) -> Set<Seq<char>>;

/// `ahash::HashMapExt::new` on `std::collections::HashMap<String, String,
/// ahash::RandomState>`: the map it makes is empty.
#[verifier::external_body]
pub(crate) fn new_string_map() -> (r: StringMap)
    ensures
        string_map_contents(r) =~= Map::empty(),
{
    <StringMap as HashMapExt>::new()
}

/// `Clone::clone` on `std::collections::HashMap<String, String,
/// ahash::RandomState>`: the copy holds the same entries.
#[verifier::external_body]
pub(crate) fn string_map_clone(m: &StringMap) -> (r: StringMap)
    ensures
        string_map_contents(r) == string_map_contents(*m),
{
    m.clone()
}

/// `std::collections::HashMap::insert`: afterwards the key maps to the value,
/// and every other key maps to what it mapped to before.
#[verifier::external_body]
pub(crate) fn string_map_insert(m: &mut StringMap, k: String, v: String)
    ensures
        string_map_contents(*final(m)) == string_map_contents(*old(m)).insert(k@, v@),
{
    m.insert(k, v);
}

/// `std::collections::HashMap::get`: the value that the key maps to, if any.
#[verifier::external_body]
pub(crate) fn string_map_get<'a>(m: &'a StringMap, k: &str) -> (r: Option<&'a String>)
    ensures
        match r {
            Some(v) => string_map_contents(*m).contains_key(k@) && string_map_contents(*m)[k@]
                == v@,
            None => !string_map_contents(*m).contains_key(k@),
        },
{
    m.get(k)
}

/// `std::collections::HashMap::iter`, its entries copied out: every entry of
/// the map once, in the order in which the map is walked, which is left open.
#[verifier::external_body]
pub(crate) fn string_map_entries(m: &StringMap) -> (r: Vec<(String, String)>)
    ensures
        forall|i: int|
            0 <= i < r.len() ==> string_map_contents(*m).contains_key(#[trigger] r@[i].0@)
                && string_map_contents(*m)[r@[i].0@] == r@[i].1@,
        forall|k: Seq<char>|
            #[trigger] string_map_contents(*m).contains_key(k) ==> exists|i: int|
                0 <= i < r.len() && #[trigger] r@[i].0@ == k,
        forall|i: int, j: int|
            0 <= i < r.len() && 0 <= j < r.len() && i != j ==> #[trigger] r@[i].0@
                != #[trigger] r@[j].0@,
{
    let mut r = Vec::new();
    for (k, v) in m.iter() {
        r.push((k.clone(), v.clone()));
    }
    r
}

/// `ahash::HashSetExt::new` on `std::collections::HashSet<String,
/// ahash::RandomState>`: the set it makes is empty.
#[verifier::external_body]
pub(crate) fn new_string_set() -> (r: StringSet)
    ensures
        string_set_contents(r) =~= Set::empty(),
{
    <StringSet as HashSetExt>::new()
}

/// `Clone::clone` on `std::collections::HashSet<String, ahash::RandomState>`:
/// the copy holds the same strings.
#[verifier::external_body]
pub(crate) fn string_set_clone(s: &StringSet) -> (r: StringSet)
    ensures
        string_set_contents(r) == string_set_contents(*s),
{
    s.clone()
}

/// `std::collections::HashSet::insert`: afterwards the set holds the string
/// besides what it held before.
#[verifier::external_body]
pub(crate) fn string_set_insert(s: &mut StringSet, k: String)
    ensures
        string_set_contents(*final(s)) == string_set_contents(*old(s)).insert(k@),
{
    s.insert(k);
}

/// `std::collections::HashSet::contains`: whether the set holds the string.
#[verifier::external_body]
pub(crate) fn string_set_contains(s: &StringSet, k: &str) -> (r: bool)
    ensures
        r == string_set_contents(*s).contains(k@),
{
    s.contains(k)
}

/// Whether one of the first `n` entries has the key `k`.
pub open spec fn among_first_keys(entries: Seq<(String, String)>, n: int, k: Seq<char>) -> bool {
    exists|j: int| 0 <= j < n && #[trigger] entries[j].0@ == k
}

/// Adds every entry of `other` to `m`, where an entry of `other` replaces
/// one of `m` with the same key.
pub(crate) fn string_map_extend(m: &mut StringMap, other: &StringMap)
    ensures
        string_map_contents(*final(m)) == string_map_contents(*old(m)).union_prefer_right(
            string_map_contents(*other),
        ),
{
    let ghost before = string_map_contents(*m);
    let ghost added = string_map_contents(*other);
    let entries = string_map_entries(other);
    let n = entries.len();
    for i in 0..n
        invariant
            n == entries.len(),
            forall|j: int|
                0 <= j < n ==> added.contains_key(#[trigger] entries@[j].0@) && added[entries@[j].0@]
                    == entries@[j].1@,
            forall|k: Seq<char>|
                #[trigger] string_map_contents(*m).contains_key(k) <==> (before.contains_key(k)
                    || among_first_keys(entries@, i as int, k)),
            forall|k: Seq<char>|
                #[trigger] string_map_contents(*m).contains_key(k) ==> string_map_contents(*m)[k]
                    == (if among_first_keys(entries@, i as int, k) {
                    added[k]
                } else {
                    before[k]
                }),
    {
        let ghost prev = string_map_contents(*m);
        let key = entries[i].0.clone();
        let value = entries[i].1.clone();
        string_map_insert(m, key, value);
        assert forall|k: Seq<char>| #[trigger]
            string_map_contents(*m).contains_key(k) <==> (before.contains_key(k)
                || among_first_keys(entries@, i + 1, k)) by {
            if k == entries@[i as int].0@ {
                assert(entries@[i as int].0@ == k);
            } else if among_first_keys(entries@, i + 1, k) {
                let j = choose|j: int| 0 <= j < i + 1 && #[trigger] entries@[j].0@ == k;
                assert(among_first_keys(entries@, i as int, k));
            }
        }
        assert forall|k: Seq<char>| #[trigger]
            string_map_contents(*m).contains_key(k) implies string_map_contents(*m)[k] == (
            if among_first_keys(entries@, i + 1, k) {
                added[k]
            } else {
                before[k]
            }) by {
            if k == entries@[i as int].0@ {
                assert(entries@[i as int].0@ == k);
            } else if among_first_keys(entries@, i + 1, k) {
                let j = choose|j: int| 0 <= j < i + 1 && #[trigger] entries@[j].0@ == k;
                assert(among_first_keys(entries@, i as int, k));
            }
        }
    }
    assert forall|k: Seq<char>| added.contains_key(k) implies among_first_keys(
        entries@,
        n as int,
        k,
    ) by {
        let j = choose|j: int| 0 <= j < entries.len() && #[trigger] entries@[j].0@ == k;
    }
    assert forall|k: Seq<char>| among_first_keys(entries@, n as int, k) implies added.contains_key(
        k,
    ) by {
        let j = choose|j: int| 0 <= j < n && #[trigger] entries@[j].0@ == k;
    }
    assert(string_map_contents(*m) =~= before.union_prefer_right(added));
}

/// Adds to `s` every value of `m`.
pub(crate) fn string_set_extend_with_values(s: &mut StringSet, m: &StringMap)
    ensures
        string_set_contents(*final(s)) == string_set_contents(*old(s)).union(
            string_map_contents(*m).values(),
        ),
{
    let ghost before = string_set_contents(*s);
    let ghost contents = string_map_contents(*m);
    let entries = string_map_entries(m);
    let n = entries.len();
    for i in 0..n
        invariant
            n == entries.len(),
            forall|j: int|
                0 <= j < n ==> contents.contains_key(#[trigger] entries@[j].0@) && contents[entries@[j].0@]
                    == entries@[j].1@,
            forall|v: Seq<char>|
                #[trigger] string_set_contents(*s).contains(v) <==> (before.contains(v) || exists|
                    j: int,
                | 0 <= j < i && #[trigger] entries@[j].1@ == v),
    {
        let value = entries[i].1.clone();
        string_set_insert(s, value);
        assert forall|v: Seq<char>| #[trigger]
            string_set_contents(*s).contains(v) <==> (before.contains(v) || exists|j: int|
                0 <= j < i + 1 && #[trigger] entries@[j].1@ == v) by {
            if v == entries@[i as int].1@ {
                assert(entries@[i as int].1@ == v);
            } else if exists|j: int| 0 <= j < i + 1 && #[trigger] entries@[j].1@ == v {
                let j = choose|j: int| 0 <= j < i + 1 && #[trigger] entries@[j].1@ == v;
                assert(0 <= j < i);
            }
        }
    }
    assert forall|v: Seq<char>| contents.values().contains(v) implies exists|j: int|
        0 <= j < n && #[trigger] entries@[j].1@ == v by {
        let k = choose|k: Seq<char>| #[trigger] contents.contains_key(k) && contents[k] == v;
        let j = choose|j: int| 0 <= j < entries.len() && #[trigger] entries@[j].0@ == k;
        assert(entries@[j].1@ == v);
    }
    assert forall|v: Seq<char>| (exists|j: int| 0 <= j < n && #[trigger] entries@[j].1@ == v) implies contents.values().contains(v) by {
        let j = choose|j: int| 0 <= j < n && #[trigger] entries@[j].1@ == v;
        assert(contents.contains_key(entries@[j].0@));
    }
    assert(string_set_contents(*s) =~= before.union(contents.values()));
}

} // verus!
