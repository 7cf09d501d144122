//! A string-keyed map backed by an association list.
//!
//! The container templates carry several small maps (environment variables,
//! resource limits, labels). They are modelled here as a vector of pairs in
//! which lookup finds the first entry whose key has the same character
//! sequence. The public operations never create a second entry for an
//! existing key, and their contracts are stated over the three spec
//! functions `lookup`, `upsert` and `remove_key`.

use vstd::prelude::*;
use vstd::string::StrSliceExecFns;

verus! {

/// The value bound to key `k`, taken from the first entry whose key matches.
pub open spec fn lookup<V>(s: Seq<(String, V)>, k: Seq<char>) -> Option<V>
    decreases s.len(),
{
    if s.len() == 0 {
        None
    } else if s[0].0@ == k {
        Some(s[0].1)
    } else {
        lookup(s.drop_first(), k)
    }
}

/// Replaces the value of the first entry whose key matches `k`, or appends a
/// new entry when no key matches.
pub open spec fn upsert<V>(s: Seq<(String, V)>, k: String, v: V) -> Seq<(String, V)>
    decreases s.len(),
{
    if s.len() == 0 {
        seq![(k, v)]
    } else if s[0].0@ == k@ {
        seq![(s[0].0, v)] + s.drop_first()
    } else {
        seq![s[0]] + upsert(s.drop_first(), k, v)
    }
}

/// Removes the first entry whose key matches `k`; leaves the rest in order.
pub open spec fn remove_key<V>(s: Seq<(String, V)>, k: Seq<char>) -> Seq<(String, V)>
    decreases s.len(),
{
    if s.len() == 0 {
        s
    } else if s[0].0@ == k {
        s.drop_first()
    } else {
        seq![s[0]] + remove_key(s.drop_first(), k)
    }
}

/// Lexicographic order on character sequences: `a` is no greater than `b`
/// when, at the first differing position, `a`'s character has the smaller
/// scalar value, or `a` is a prefix of `b`. On ASCII keys this is the
/// ordering of an ordered map.
pub open spec fn chars_le(a: Seq<char>, b: Seq<char>) -> bool
    decreases a.len(),
{
    if a.len() == 0 {
        true
    } else if b.len() == 0 {
        false
    } else if a[0] == b[0] {
        chars_le(a.drop_first(), b.drop_first())
    } else {
        (a[0] as int) < (b[0] as int)
    }
}

/// Compares two string slices in the order of [`chars_le`].
pub fn str_le(a: &str, b: &str) -> (r: bool)
    ensures
        r == chars_le(a@, b@),
{
    let an = a.unicode_len();
    let bn = b.unicode_len();
    proof {
        assert(a@.skip(0) =~= a@);
        assert(b@.skip(0) =~= b@);
    }
    let mut i: usize = 0;
    while i < an && i < bn
        invariant
            i <= an,
            i <= bn,
            an == a@.len(),
            bn == b@.len(),
            chars_le(a@, b@) == chars_le(a@.skip(i as int), b@.skip(i as int)),
        decreases an - i,
    {
        let ca = a.get_char(i);
        let cb = b.get_char(i);
        proof {
            assert(a@.skip(i as int)[0] == a@[i as int]);
            assert(b@.skip(i as int)[0] == b@[i as int]);
        }
        if !(ca == cb) {
            return (ca as u32) < (cb as u32);
        }
        proof {
            assert(a@.skip(i as int).drop_first() =~= a@.skip(i as int + 1));
            assert(b@.skip(i as int).drop_first() =~= b@.skip(i as int + 1));
        }
        i = i + 1;
    }
    proof {
        if i == an {
            assert(a@.skip(i as int) =~= Seq::<char>::empty());
        } else {
            assert(b@.skip(i as int) =~= Seq::<char>::empty());
            assert(a@.skip(i as int).len() > 0);
        }
    }
    an <= bn
}

/// Relies on `str`'s `PartialEq` implementation: two string slices are equal
/// exactly when they consist of the same characters.
#[verifier::external_body]
pub(crate) fn str_eq(a: &str, b: &str) -> (r: bool)
    ensures
        r == (a@ == b@),
{
    a == b
}

/// A map from string keys to values of type `V`, with insertion order kept.
#[derive(Debug)]
pub struct StrMap<V> {
    entries: Vec<(String, V)>,
}

impl<V> StrMap<V> {
    /// The entries of the map, in storage order.
    pub closed spec fn entries_seq(self) -> Seq<(String, V)> {
        self.entries@
    }

    /// The value bound to the key whose characters are `k`.
    pub open spec fn spec_get(self, k: Seq<char>) -> Option<V> {
        lookup(self.entries_seq(), k)
    }

    /// Whether some entry's key has the characters `k`.
    pub open spec fn spec_contains(self, k: Seq<char>) -> bool {
        self.spec_get(k) is Some
    }

    pub fn new() -> (r: Self)
        ensures
            r.entries_seq() == Seq::<(String, V)>::empty(),
    {
        StrMap { entries: Vec::new() }
    }

    pub fn len(&self) -> (n: usize)
        ensures
            n == self.entries_seq().len(),
    {
        self.entries.len()
    }

    pub fn is_empty(&self) -> (r: bool)
        ensures
            r <==> self.entries_seq().len() == 0,
    {
        self.entries.len() == 0
    }

    /// The index of the first entry whose key matches, if any.
    fn position(&self, key: &str) -> (r: Option<usize>)
        ensures
            match r {
                Some(i) => i < self.entries_seq().len() && self.entries_seq()[i as int].0@
                    == key@ && forall|j: int|
                    0 <= j < i ==> self.entries_seq()[j].0@ != key@,
                None => forall|j: int|
                    0 <= j < self.entries_seq().len() ==> self.entries_seq()[j].0@ != key@,
            },
    {
        let n = self.entries.len();
        let mut i: usize = 0;
        while i < n
            invariant
                i <= n,
                n == self.entries_seq().len(),
                forall|j: int| 0 <= j < i ==> self.entries_seq()[j].0@ != key@,
            decreases n - i,
        {
            if str_eq(self.entries[i].0.as_str(), key) {
                return Some(i);
            }
            i = i + 1;
        }
        None
    }

    pub fn get<'a>(&'a self, key: &str) -> (r: Option<&'a V>)
        ensures
            match r {
                Some(v) => self.spec_get(key@) == Some(*v),
                None => self.spec_get(key@) is None,
            },
    {
        match self.position(key) {
            Some(i) => {
                proof {
                    lemma_lookup_at_first_index(self.entries_seq(), key@, i as int);
                }
                Some(&self.entries[i].1)
            },
            None => {
                proof {
                    lemma_lookup_absent(self.entries_seq(), key@);
                }
                None
            },
        }
    }

    /// Binds `value` to `key`: in place when the key is present, appended
    /// otherwise.
    pub fn insert(&mut self, key: String, value: V)
        ensures
            final(self).entries_seq() == upsert(old(self).entries_seq(), key, value),
    {
        let ghost s0 = self.entries@;
        let ks = key.as_str();
        match self.position(ks) {
            Some(i) => {
                proof {
                    lemma_upsert_at_first_index(s0, key, value, i as int);
                }
                let (k0, _) = self.entries.remove(i);
                self.entries.insert(i, (k0, value));
                proof {
                    assert(self.entries@ =~= s0.update(i as int, (s0[i as int].0, value)));
                }
            },
            None => {
                proof {
                    assert(forall|j: int|
                        0 <= j < self.entries_seq().len() ==> self.entries_seq()[j].0@ != ks@);
                    assert(forall|j: int| 0 <= j < s0.len() ==> s0[j].0@ != key@);
                    lemma_upsert_absent(s0, key, value);
                }
                self.entries.push((key, value));
            },
        }
    }

    /// Removes the entry bound to `key` and returns its value, if any.
    pub fn remove(&mut self, key: &str) -> (r: Option<V>)
        ensures
            r == lookup(old(self).entries_seq(), key@),
            final(self).entries_seq() == remove_key(old(self).entries_seq(), key@),
    {
        let ghost s0 = self.entries@;
        match self.position(key) {
            Some(i) => {
                let (_, v) = self.entries.remove(i);
                proof {
                    lemma_lookup_at_first_index(s0, key@, i as int);
                    lemma_remove_key_at_first_index(s0, key@, i as int);
                }
                Some(v)
            },
            None => {
                proof {
                    lemma_lookup_absent(s0, key@);
                    lemma_remove_key_absent(s0, key@);
                }
                None
            },
        }
    }

    /// The key of the entry at position `i`.
    pub fn key_at<'a>(&'a self, i: usize) -> (r: &'a String)
        requires
            i < self.entries_seq().len(),
        ensures
            *r == self.entries_seq()[i as int].0,
    {
        &self.entries[i].0
    }

    /// The value of the entry at position `i`.
    pub fn value_at<'a>(&'a self, i: usize) -> (r: &'a V)
        requires
            i < self.entries_seq().len(),
        ensures
            *r == self.entries_seq()[i as int].1,
    {
        &self.entries[i].1
    }
}

impl StrMap<String> {
    /// A copy holding the same entries.
    pub fn duplicate(&self) -> (r: Self)
        ensures
            r.entries_seq() == self.entries_seq(),
    {
        let mut r: Vec<(String, String)> = Vec::new();
        let n = self.entries.len();
        let mut i: usize = 0;
        while i < n
            invariant
                i <= n,
                n == self.entries@.len(),
                r@ == self.entries@.take(i as int),
            decreases n - i,
        {
            r.push((self.entries[i].0.clone(), self.entries[i].1.clone()));
            proof {
                assert(self.entries@.take(i as int + 1) =~= self.entries@.take(i as int).push(
                    self.entries@[i as int],
                ));
            }
            i = i + 1;
        }
        proof {
            assert(self.entries@.take(n as int) =~= self.entries@);
        }
        StrMap { entries: r }
    }
}

/// When no key of `s` matches `k`, lookup misses.
pub proof fn lemma_lookup_absent<V>(s: Seq<(String, V)>, k: Seq<char>)
    requires
        forall|j: int| 0 <= j < s.len() ==> s[j].0@ != k,
    ensures
        lookup(s, k) is None,
    decreases s.len(),
{
    if s.len() > 0 {
        assert(forall|j: int| 0 <= j < s.drop_first().len() ==> s.drop_first()[j].0@ != k);
        lemma_lookup_absent(s.drop_first(), k);
    }
}

/// When `i` is the first index whose key matches `k`, lookup returns that
/// entry's value.
pub proof fn lemma_lookup_at_first_index<V>(s: Seq<(String, V)>, k: Seq<char>, i: int)
    requires
        0 <= i < s.len(),
        s[i].0@ == k,
        forall|j: int| 0 <= j < i ==> s[j].0@ != k,
    ensures
        lookup(s, k) == Some(s[i].1),
    decreases i,
{
    if i > 0 {
        lemma_lookup_at_first_index(s.drop_first(), k, i - 1);
    }
}

/// After an upsert, lookup of that key yields the new value.
pub proof fn lemma_lookup_upsert_same<V>(s: Seq<(String, V)>, k: String, v: V)
    ensures
        lookup(upsert(s, k, v), k@) == Some(v),
    decreases s.len(),
{
    if s.len() == 0 {
    } else if s[0].0@ == k@ {
        assert(upsert(s, k, v)[0] == (s[0].0, v));
    } else {
        lemma_lookup_upsert_same(s.drop_first(), k, v);
        assert(upsert(s, k, v)[0] == s[0]);
        assert(upsert(s, k, v).drop_first() =~= upsert(s.drop_first(), k, v));
    }
}

/// An upsert leaves the lookup of every other key as it was.
pub proof fn lemma_lookup_upsert_other<V>(s: Seq<(String, V)>, k: String, v: V, k2: Seq<char>)
    requires
        k2 != k@,
    ensures
        lookup(upsert(s, k, v), k2) == lookup(s, k2),
    decreases s.len(),
{
    if s.len() == 0 {
        assert(upsert(s, k, v) == seq![(k, v)]);
        assert(lookup(upsert(s, k, v), k2) == lookup(upsert(s, k, v).drop_first(), k2));
        assert(upsert(s, k, v).drop_first() =~= s);
    } else if s[0].0@ == k@ {
        assert(upsert(s, k, v)[0] == (s[0].0, v));
        assert(upsert(s, k, v).drop_first() =~= s.drop_first());
        assert(lookup(upsert(s, k, v), k2) == lookup(s.drop_first(), k2));
        assert(lookup(s, k2) == lookup(s.drop_first(), k2));
    } else {
        lemma_lookup_upsert_other(s.drop_first(), k, v, k2);
        assert(upsert(s, k, v)[0] == s[0]);
        assert(upsert(s, k, v).drop_first() =~= upsert(s.drop_first(), k, v));
        if s[0].0@ == k2 {
            assert(lookup(upsert(s, k, v), k2) == Some(s[0].1));
            assert(lookup(s, k2) == Some(s[0].1));
        } else {
            assert(lookup(upsert(s, k, v), k2) == lookup(upsert(s.drop_first(), k, v), k2));
            assert(lookup(s, k2) == lookup(s.drop_first(), k2));
        }
    }
}

/// Removing one key leaves the lookup of every other key as it was.
pub proof fn lemma_lookup_remove_other<V>(s: Seq<(String, V)>, k: Seq<char>, k2: Seq<char>)
    requires
        k2 != k,
    ensures
        lookup(remove_key(s, k), k2) == lookup(s, k2),
    decreases s.len(),
{
    if s.len() == 0 {
    } else if s[0].0@ == k {
    } else {
        lemma_lookup_remove_other(s.drop_first(), k, k2);
        assert(remove_key(s, k)[0] == s[0]);
        assert(remove_key(s, k).drop_first() =~= remove_key(s.drop_first(), k));
        if s[0].0@ == k2 {
            assert(lookup(remove_key(s, k), k2) == Some(s[0].1));
            assert(lookup(s, k2) == Some(s[0].1));
        } else {
            assert(lookup(remove_key(s, k), k2) == lookup(remove_key(s.drop_first(), k), k2));
            assert(lookup(s, k2) == lookup(s.drop_first(), k2));
        }
    }
}

/// Removing a key other than the appended entry's commutes with the append.
pub proof fn lemma_remove_key_push<V>(s: Seq<(String, V)>, x: (String, V), k: Seq<char>)
    requires
        x.0@ != k,
    ensures
        remove_key(s.push(x), k) == remove_key(s, k).push(x),
    decreases s.len(),
{
    if s.len() == 0 {
        assert(s.push(x)[0] == x);
        assert(s.push(x).drop_first() =~= Seq::<(String, V)>::empty());
        assert(remove_key(Seq::<(String, V)>::empty(), k) =~= Seq::<(String, V)>::empty());
        assert(remove_key(s.push(x), k) =~= remove_key(s, k).push(x));
    } else {
        assert(s.push(x)[0] == s[0]);
        assert(s.push(x).drop_first() =~= s.drop_first().push(x));
        if s[0].0@ == k {
            assert(remove_key(s.push(x), k) =~= remove_key(s, k).push(x));
        } else {
            lemma_remove_key_push(s.drop_first(), x, k);
            assert(remove_key(s.push(x), k) =~= seq![s[0]] + remove_key(s.drop_first().push(x), k));
            assert(remove_key(s.push(x), k) =~= remove_key(s, k).push(x));
        }
    }
}

/// An upsert of a key that is present keeps every entry's key in place.
pub proof fn lemma_upsert_present_same_keys<V>(s: Seq<(String, V)>, k: String, v: V)
    requires
        lookup(s, k@) is Some,
    ensures
        upsert(s, k, v).len() == s.len(),
        forall|i: int| 0 <= i < s.len() ==> #[trigger] upsert(s, k, v)[i].0 == s[i].0,
    decreases s.len(),
{
    if s[0].0@ == k@ {
        assert(upsert(s, k, v)[0] == (s[0].0, v));
        assert forall|i: int| 0 <= i < s.len() implies #[trigger] upsert(s, k, v)[i].0
            == s[i].0 by {
            if i > 0 {
                assert(upsert(s, k, v)[i] == s.drop_first()[i - 1]);
            }
        }
    } else {
        lemma_upsert_present_same_keys(s.drop_first(), k, v);
        assert(upsert(s, k, v)[0] == s[0]);
        assert forall|i: int| 0 <= i < s.len() implies #[trigger] upsert(s, k, v)[i].0
            == s[i].0 by {
            if i > 0 {
                assert(upsert(s, k, v)[i] == upsert(s.drop_first(), k, v)[i - 1]);
                assert(s.drop_first()[i - 1] == s[i]);
            }
        }
    }
}

/// Removal looks only at keys: on two sequences whose keys agree pointwise
/// it drops the same position, leaving keys that again agree pointwise.
pub proof fn lemma_remove_key_same_keys<V>(a: Seq<(String, V)>, b: Seq<(String, V)>, k: Seq<char>)
    requires
        a.len() == b.len(),
        forall|i: int| 0 <= i < a.len() ==> #[trigger] a[i].0 == b[i].0,
    ensures
        remove_key(a, k).len() == remove_key(b, k).len(),
        forall|i: int|
            0 <= i < remove_key(a, k).len() ==> #[trigger] remove_key(a, k)[i].0 == remove_key(
                b,
                k,
            )[i].0,
    decreases a.len(),
{
    if a.len() == 0 {
    } else if a[0].0@ == k {
        assert(b[0].0@ == k);
        assert forall|i: int| 0 <= i < remove_key(a, k).len() implies #[trigger] remove_key(
            a,
            k,
        )[i].0 == remove_key(b, k)[i].0 by {
            assert(remove_key(a, k)[i] == a[i + 1]);
            assert(remove_key(b, k)[i] == b[i + 1]);
        }
    } else {
        assert(b[0].0@ != k);
        assert forall|i: int| 0 <= i < a.drop_first().len() implies #[trigger] a.drop_first()[i].0
            == b.drop_first()[i].0 by {
            assert(a.drop_first()[i] == a[i + 1]);
            assert(b.drop_first()[i] == b[i + 1]);
        }
        lemma_remove_key_same_keys(a.drop_first(), b.drop_first(), k);
        assert forall|i: int| 0 <= i < remove_key(a, k).len() implies #[trigger] remove_key(
            a,
            k,
        )[i].0 == remove_key(b, k)[i].0 by {
            if i > 0 {
                assert(remove_key(a, k)[i] == remove_key(a.drop_first(), k)[i - 1]);
                assert(remove_key(b, k)[i] == remove_key(b.drop_first(), k)[i - 1]);
            }
        }
    }
}

/// When lookup misses, no key of `s` matches `k`, and removal changes
/// nothing.
pub proof fn lemma_lookup_none_absent<V>(s: Seq<(String, V)>, k: Seq<char>)
    requires
        lookup(s, k) is None,
    ensures
        forall|j: int| 0 <= j < s.len() ==> s[j].0@ != k,
        remove_key(s, k) == s,
    decreases s.len(),
{
    if s.len() > 0 {
        lemma_lookup_none_absent(s.drop_first(), k);
        assert(forall|j: int| 1 <= j < s.len() ==> s[j].0@ == #[trigger] s.drop_first()[j - 1].0@);
        assert(remove_key(s, k) =~= s);
    }
}

/// When no key of `s` matches, upsert appends the new entry.
pub proof fn lemma_upsert_absent<V>(s: Seq<(String, V)>, k: String, v: V)
    requires
        forall|j: int| 0 <= j < s.len() ==> s[j].0@ != k@,
    ensures
        upsert(s, k, v) == s.push((k, v)),
    decreases s.len(),
{
    if s.len() == 0 {
        assert(upsert(s, k, v) =~= s.push((k, v)));
    } else {
        assert(forall|j: int| 0 <= j < s.drop_first().len() ==> s.drop_first()[j].0@ != k@);
        lemma_upsert_absent(s.drop_first(), k, v);
        assert(upsert(s, k, v) =~= s.push((k, v)));
    }
}

/// When `i` is the first index whose key matches, upsert updates it in place.
pub proof fn lemma_upsert_at_first_index<V>(s: Seq<(String, V)>, k: String, v: V, i: int)
    requires
        0 <= i < s.len(),
        s[i].0@ == k@,
        forall|j: int| 0 <= j < i ==> s[j].0@ != k@,
    ensures
        upsert(s, k, v) == s.update(i, (s[i].0, v)),
    decreases i,
{
    if i == 0 {
        assert(upsert(s, k, v) =~= s.update(0, (s[0].0, v)));
    } else {
        lemma_upsert_at_first_index(s.drop_first(), k, v, i - 1);
        assert(s.drop_first().update(i - 1, (s[i].0, v)) =~= s.update(i, (s[i].0, v)).drop_first());
        assert(upsert(s, k, v) =~= seq![s[0]] + upsert(s.drop_first(), k, v));
        assert(upsert(s, k, v) =~= s.update(i, (s[i].0, v)));
    }
}

/// When no key of `s` matches, removal changes nothing.
pub proof fn lemma_remove_key_absent<V>(s: Seq<(String, V)>, k: Seq<char>)
    requires
        forall|j: int| 0 <= j < s.len() ==> s[j].0@ != k,
    ensures
        remove_key(s, k) == s,
    decreases s.len(),
{
    if s.len() > 0 {
        assert(forall|j: int| 0 <= j < s.drop_first().len() ==> s.drop_first()[j].0@ != k);
        lemma_remove_key_absent(s.drop_first(), k);
        assert(remove_key(s, k) =~= s);
    }
}

/// When `i` is the first index whose key matches, removal drops exactly that
/// entry.
pub proof fn lemma_remove_key_at_first_index<V>(s: Seq<(String, V)>, k: Seq<char>, i: int)
    requires
        0 <= i < s.len(),
        s[i].0@ == k,
        forall|j: int| 0 <= j < i ==> s[j].0@ != k,
    ensures
        remove_key(s, k) == s.remove(i),
    decreases i,
{
    if i == 0 {
        assert(remove_key(s, k) =~= s.remove(0));
    } else {
        lemma_remove_key_at_first_index(s.drop_first(), k, i - 1);
        assert(s.drop_first().remove(i - 1) =~= s.remove(i).drop_first());
        assert(remove_key(s, k) =~= s.remove(i));
    }
}

} // verus!
