//! Association lists keyed by strings: the maps of the checker and the
//! interpreter. Lookup finds the first entry with the key; insertion replaces
//! that entry's value, or appends a new entry, so each key occurs once.

use vstd::prelude::*;

verus! {

/// The index of the first entry of `s`, from `i` on, whose key is `k`.
pub open spec fn first_key<V>(s: Seq<(String, V)>, k: Seq<char>, i: int) -> Option<int>
    decreases s.len() - i,
{
    if i < 0 || i >= s.len() {
        None
    } else if s[i].0@ == k {
        Some(i)
    } else {
        first_key(s, k, i + 1)
    }
}

/// The value stored under `k`, if any.
pub open spec fn get<V>(s: Seq<(String, V)>, k: Seq<char>) -> Option<V> {
    match first_key(s, k, 0) {
        Some(i) => Some(s[i].1),
        None => None,
    }
}

/// The value under key `b` of the table stored under key `a`.
pub open spec fn get2<V>(s: Seq<(String, Vec<(String, V)>)>, a: Seq<char>, b: Seq<char>) -> Option<V> {
    match get(s, a) {
        Some(inner) => get(inner@, b),
        None => None,
    }
}

/// Whether `k` is a key of `s`.
pub open spec fn has_key<V>(s: Seq<(String, V)>, k: Seq<char>) -> bool {
    first_key(s, k, 0) is Some
}

/// `s` with the value under `k` set to `x`.
pub open spec fn put<V>(s: Seq<(String, V)>, k: String, x: V) -> Seq<(String, V)> {
    match first_key(s, k@, 0) {
        Some(i) => s.update(i, (k, x)),
        None => s.push((k, x)),
    }
}

pub proof fn lemma_first_key<V>(s: Seq<(String, V)>, k: Seq<char>, i: int)
    requires
        0 <= i,
    ensures
        match first_key(s, k, i) {
            Some(j) => i <= j < s.len() && s[j].0@ == k && forall|m: int| i <= m < j ==> s[m].0@ != k,
            None => forall|m: int| i <= m < s.len() ==> s[m].0@ != k,
        },
    decreases s.len() - i,
{
    if i < s.len() && s[i].0@ != k {
        lemma_first_key(s, k, i + 1);
    }
}

/// Two tables whose entries carry the same keys, place by place, find the
/// same first entry for every key.
pub proof fn lemma_first_key_same<V, W>(s1: Seq<(String, V)>, s2: Seq<(String, W)>, q: Seq<char>, i: int)
    requires
        s1.len() == s2.len(),
        forall|j: int| #![trigger s1[j]] 0 <= j < s1.len() ==> s1[j].0@ == s2[j].0@,
    ensures
        first_key(s1, q, i) == first_key(s2, q, i),
    decreases s1.len() - i,
{
    if 0 <= i < s1.len() {
        assert(s1[i].0@ == s2[i].0@);
        lemma_first_key_same(s1, s2, q, i + 1);
    }
}

/// Appending an entry changes the first entry of a key only when the key
/// was absent and the new entry carries it.
pub proof fn lemma_first_key_push<V>(s: Seq<(String, V)>, e: (String, V), q: Seq<char>, i: int)
    requires
        0 <= i <= s.len(),
    ensures
        first_key(s.push(e), q, i) == match first_key(s, q, i) {
            Some(j) => Some(j),
            None => if e.0@ == q { Some(s.len() as int) } else { None },
        },
    decreases s.len() - i,
{
    if i < s.len() {
        assert(s.push(e)[i] == s[i]);
        lemma_first_key_push(s, e, q, i + 1);
    } else {
        assert(s.push(e)[i] == e);
        assert(first_key(s, q, i) is None);
        assert(first_key(s.push(e), q, i + 1) is None);
    }
}

/// Reading back a table after `put`: the new value under its key, the old
/// value under every other key.
pub proof fn lemma_get_put<V>(s: Seq<(String, V)>, k: String, x: V, q: Seq<char>)
    ensures
        get(put(s, k, x), q) == if q == k@ { Some(x) } else { get(s, q) },
{
    lemma_first_key(s, k@, 0);
    lemma_first_key(s, q, 0);
    match first_key(s, k@, 0) {
        Some(i) => {
            let t = s.update(i, (k, x));
            lemma_first_key_same(t, s, q, 0);
            if q == k@ {
                assert(first_key(s, q, 0) == Some(i));
            } else {
                match first_key(s, q, 0) {
                    Some(j) => {
                        assert(j != i);
                        assert(t[j] == s[j]);
                    },
                    None => {},
                }
            }
        },
        None => {
            lemma_first_key_push(s, (k, x), q, 0);
            match first_key(s, q, 0) {
                Some(j) => {
                    assert(s.push((k, x))[j] == s[j]);
                },
                None => {},
            }
        },
    }
}

/// Replacing the value of entry `t` in place keeps every key where it was.
pub proof fn lemma_get_update<V>(s: Seq<(String, V)>, t: int, x: V, q: Seq<char>)
    requires
        0 <= t < s.len(),
    ensures
        get(s.update(t, (s[t].0, x)), q) == if first_key(s, q, 0) == Some(t) { Some(x) } else { get(s, q) },
{
    let u = s.update(t, (s[t].0, x));
    lemma_first_key(s, q, 0);
    lemma_first_key_same(u, s, q, 0);
    match first_key(s, q, 0) {
        Some(j) => {
            if j != t {
                assert(u[j] == s[j]);
            }
        },
        None => {},
    }
}

/// The index of the first entry with key `k`.
pub fn find<V>(v: &Vec<(String, V)>, k: &str) -> (r: Option<usize>)
    ensures
        match r {
            Some(i) => first_key(v@, k@, 0) == Some(i as int) && i < v@.len(),
            None => first_key(v@, k@, 0) is None,
        },
{
    proof {
        lemma_first_key(v@, k@, 0);
    }
    let mut i: usize = 0;
    while i < v.len()
        invariant
            i <= v.len(),
            first_key(v@, k@, 0) == first_key(v@, k@, i as int),
        decreases v.len() - i,
    {
        if v[i].0.as_str().unicode_len() == k.unicode_len() && same_text(v[i].0.as_str(), k) {
            return Some(i);
        }
        i = i + 1;
    }
    None
}

/// Whether two strings hold the same characters.
pub fn same_text(a: &str, b: &str) -> (r: bool)
    ensures
        r == (a@ == b@),
{
    let x = crate::text::str_chars(a);
    let y = crate::text::str_chars(b);
    crate::text::chars_eq(x.as_slice(), y.as_slice())
}

/// The value under `k`, if any.
pub fn lookup<'a, V>(v: &'a Vec<(String, V)>, k: &str) -> (r: Option<&'a V>)
    ensures
        match r {
            Some(x) => get(v@, k@) == Some(*x),
            None => get(v@, k@) is None,
        },
{
    match find(v, k) {
        Some(i) => Some(&v[i].1),
        None => None,
    }
}

/// Sets the value under `k` to `x`.
pub fn insert<V>(v: &mut Vec<(String, V)>, k: String, x: V)
    ensures
        final(v)@ == put(old(v)@, k, x),
{
    match find(v, k.as_str()) {
        Some(i) => {
            v.set(i, (k, x));
        }
        None => {
            v.push((k, x));
        }
    }
}


/// Every entry of `put(s, k, x)` is the new entry or the entry of `s` at the
/// same place.
pub proof fn lemma_put<V>(s: Seq<(String, V)>, k: String, x: V)
    ensures
        put(s, k, x).len() >= s.len(),
        forall|j: int| 0 <= j < put(s, k, x).len() ==> #[trigger] put(s, k, x)[j] == (k, x)
            || (j < s.len() && put(s, k, x)[j] == s[j]),
{
    lemma_first_key(s, k@, 0);
}


/// The keys of `put(s, k, x)` are those of `s` and `k`.
pub proof fn lemma_put_keys<V>(s: Seq<(String, V)>, k: String, x: V, n: Seq<char>)
    ensures
        has_key(put(s, k, x), n) == (has_key(s, n) || n == k@),
{
    lemma_first_key(s, n, 0);
    lemma_first_key(s, k@, 0);
    lemma_first_key(put(s, k, x), n, 0);
    let t = put(s, k, x);
    if has_key(s, n) {
        let j = first_key(s, n, 0)->0;
        match first_key(s, k@, 0) {
            Some(i) => {
                if i == j {
                    assert(t[j].0@ == n);
                } else {
                    assert(t[j] == s[j]);
                }
            }
            None => {
                assert(t[j] == s[j]);
            }
        }
    }
    if n == k@ {
        match first_key(s, k@, 0) {
            Some(i) => {
                assert(t[i].0@ == n);
            }
            None => {
                assert(t[s.len() as int].0@ == n);
            }
        }
    }
    if has_key(t, n) && !has_key(s, n) && n != k@ {
        let j = first_key(t, n, 0)->0;
        lemma_put(s, k, x);
        assert(t[j] == (k, x) || (j < s.len() && t[j] == s[j]));
    }
}

/// A key of `s` is the key of one of its entries.
pub proof fn lemma_has_key<V>(s: Seq<(String, V)>, n: Seq<char>)
    requires
        has_key(s, n),
    ensures
        0 <= first_key(s, n, 0)->0 < s.len(),
        s[first_key(s, n, 0)->0].0@ == n,
{
    lemma_first_key(s, n, 0);
}

/// An entry's key is a key.
pub proof fn lemma_entry_key<V>(s: Seq<(String, V)>, j: int)
    requires
        0 <= j < s.len(),
    ensures
        has_key(s, s[j].0@),
{
    lemma_first_key(s, s[j].0@, 0);
}

/// Where the innermost entry for `k` lives in a stack of scopes:
/// (scope index, entry index).
pub open spec fn scope_find<V>(scopes: Seq<Vec<(String, V)>>, k: Seq<char>) -> Option<(int, int)>
    decreases scopes.len(),
{
    if scopes.len() == 0 {
        None
    } else {
        match first_key(scopes.last()@, k, 0) {
            Some(j) => Some(((scopes.len() - 1) as int, j)),
            None => scope_find(scopes.drop_last(), k),
        }
    }
}

pub proof fn lemma_scope_find<V>(scopes: Seq<Vec<(String, V)>>, k: Seq<char>)
    ensures
        scope_find(scopes, k) matches Some((i, j)) ==> 0 <= i < scopes.len() && 0 <= j < scopes[i]@.len()
            && scopes[i]@[j].0@ == k,
    decreases scopes.len(),
{
    if scopes.len() > 0 {
        lemma_first_key(scopes.last()@, k, 0);
        if first_key(scopes.last()@, k, 0) is None {
            lemma_scope_find(scopes.drop_last(), k);
        }
    }
}

/// Where the innermost entry for `name` lives.
pub fn find_in_scopes<V>(scopes: &Vec<Vec<(String, V)>>, name: &str) -> (r: Option<(usize, usize)>)
    ensures
        match r {
            Some((i, j)) => scope_find(scopes@, name@) == Some((i as int, j as int))
                && i < scopes@.len() && j < scopes@[i as int]@.len(),
            None => scope_find(scopes@, name@) is None,
        },
{
    proof {
        lemma_scope_find(scopes@, name@);
    }
    let mut i: usize = scopes.len();
    assert(scopes@.take(i as int) =~= scopes@);
    while i > 0
        invariant
            i <= scopes@.len(),
            scope_find(scopes@, name@) == scope_find(scopes@.take(i as int), name@),
        decreases i,
    {
        let ghost pre = scopes@.take(i as int);
        assert(pre.drop_last() =~= scopes@.take(i - 1));
        assert(pre.last() == scopes@[i - 1]);
        match find(&scopes[i - 1], name) {
            Some(j) => {
                return Some((i - 1, j));
            }
            None => {}
        }
        i = i - 1;
    }
    None
}

} // verus!
