//! Typed key-value context that workflows and states record for middleware.
//!
//! A context maps string keys to values. Its keys are kept in ascending
//! byte-wise order, the order in which `String` compares, so that listing the
//! keys gives them sorted.
use crate::bytes_order::{
    bytes_lt, lemma_bytes_lt_irreflexive, lemma_bytes_lt_total, lemma_bytes_lt_transitive,
    str_lt,
};
use std::marker::PhantomData;
use vstd::prelude::*;
use vstd::utf8::{encode_utf8, encode_utf8_decode_utf8};

verus! {

/// Keys sort by the bytes of their UTF-8 encoding.
pub open spec fn key_lt(a: Seq<char>, b: Seq<char>) -> bool {
    bytes_lt(encode_utf8(a), encode_utf8(b))
}

/// The key order is a strict total order on keys.
pub proof fn lemma_key_lt_order(a: Seq<char>, b: Seq<char>, c: Seq<char>)
    ensures
        !key_lt(a, a),
        key_lt(a, b) && key_lt(b, c) ==> key_lt(a, c),
        a != b ==> key_lt(a, b) || key_lt(b, a),
{
    lemma_bytes_lt_irreflexive(encode_utf8(a));
    if key_lt(a, b) && key_lt(b, c) {
        lemma_bytes_lt_transitive(encode_utf8(a), encode_utf8(b), encode_utf8(c));
    }
    if a != b {
        encode_utf8_decode_utf8(a);
        encode_utf8_decode_utf8(b);
        lemma_bytes_lt_total(encode_utf8(a), encode_utf8(b));
    }
}

/// The untyped part of a [`TypedKey`]: the key's name.
#[derive(Debug)]
pub struct RawKey {
    key: String,
}

impl View for RawKey {
    type V = Seq<char>;

    closed spec fn view(&self) -> Seq<char> {
        self.key@
    }
}

impl RawKey {
    /// The key's name.
    pub fn key(&self) -> (r: &str)
        ensures
            r@ == self@,
    {
        self.key.as_str()
    }
}

impl Clone for RawKey {
    fn clone(&self) -> (r: Self)
        ensures
            r@ == self@,
    {
        RawKey { key: self.key.clone() }
    }
}

impl PartialEq for RawKey {
    fn eq(&self, other: &Self) -> (r: bool) {
        self.key == other.key
    }
}

impl vstd::std_specs::cmp::PartialEqSpecImpl for RawKey {
    open spec fn obeys_eq_spec() -> bool {
        true
    }

    open spec fn eq_spec(&self, other: &Self) -> bool {
        self@ == other@
    }
}

impl Eq for RawKey {}

/// A key under which a context holds values of type `T`.
#[derive(Debug)]
pub struct TypedKey<T> {
    inner: RawKey,
    _type: PhantomData<T>,
}

impl<T> View for TypedKey<T> {
    type V = Seq<char>;

    closed spec fn view(&self) -> Seq<char> {
        self.inner@
    }
}

impl<T> TypedKey<T> {
    /// A key with the given name.
    pub fn new(key: &str) -> (r: Self)
        ensures
            r@ == key@,
    {
        TypedKey { inner: RawKey { key: key.to_owned() }, _type: PhantomData }
    }

    /// The untyped key.
    pub fn raw(&self) -> (r: &RawKey)
        ensures
            r@ == self@,
    {
        &self.inner
    }
}

/// The key of the `i`-th entry of `s`.
pub open spec fn entry_key<V>(s: Seq<(RawKey, V)>, i: int) -> Seq<char> {
    s[i].0@
}

/// The entries' keys are strictly ascending.
pub open spec fn entries_sorted<V>(s: Seq<(RawKey, V)>) -> bool {
    forall|i: int, j: int|
        0 <= i < j < s.len() ==> key_lt(#[trigger] entry_key(s, i), #[trigger] entry_key(s, j))
}

/// Some entry has key `k`.
pub open spec fn entries_have<V>(s: Seq<(RawKey, V)>, k: Seq<char>) -> bool {
    exists|i: int| 0 <= i < s.len() && entry_key(s, i) == k
}

/// The position of the entry with key `k`.
pub open spec fn entries_index_of<V>(s: Seq<(RawKey, V)>, k: Seq<char>) -> int {
    choose|i: int| 0 <= i < s.len() && entry_key(s, i) == k
}

/// The map that the entries describe.
pub open spec fn entries_map<V>(s: Seq<(RawKey, V)>) -> Map<Seq<char>, V> {
    Map::new(|k: Seq<char>| entries_have(s, k), |k: Seq<char>| s[entries_index_of(s, k)].1)
}

proof fn lemma_index_of<V>(s: Seq<(RawKey, V)>, i: int)
    requires
        entries_sorted(s),
        0 <= i < s.len(),
    ensures
        entries_have(s, entry_key(s, i)),
        entries_index_of(s, entry_key(s, i)) == i,
        entries_map(s).contains_key(entry_key(s, i)),
        entries_map(s)[entry_key(s, i)] == s[i].1,
{
    let k = entry_key(s, i);
    assert(entries_have(s, k));
    let j = entries_index_of(s, k);
    if j < i {
        assert(key_lt(entry_key(s, j), entry_key(s, i)));
        lemma_key_lt_order(k, k, k);
    } else if i < j {
        assert(key_lt(entry_key(s, i), entry_key(s, j)));
        lemma_key_lt_order(k, k, k);
    }
}

/// The keys of sorted entries are exactly the keys of their map, each once, ascending.
proof fn lemma_key_seq<V>(s: Seq<(RawKey, V)>)
    requires
        entries_sorted(s),
    ensures
        forall|k: Seq<char>|
            entries_map(s).contains_key(k) <==> s.map_values(|e: (RawKey, V)| e.0@).contains(k),
        s.len() == entries_map(s).dom().len(),
{
    let ks = s.map_values(|e: (RawKey, V)| e.0@);
    assert forall|k: Seq<char>| entries_map(s).contains_key(k) <==> ks.contains(k) by {
        if entries_map(s).contains_key(k) {
            let i = entries_index_of(s, k);
            assert(ks[i] == k);
        }
        if ks.contains(k) {
            let i = choose|i: int| 0 <= i < ks.len() && ks[i] == k;
            assert(entry_key(s, i) == k);
        }
    }
    assert forall|i: int, j: int| 0 <= i < j < ks.len() implies ks[i] != ks[j] by {
        assert(key_lt(entry_key(s, i), entry_key(s, j)));
        lemma_key_lt_order(entry_key(s, i), entry_key(s, j), entry_key(s, j));
    }
    ks.unique_seq_to_set();
    assert(entries_map(s).dom() =~= ks.to_set());
}

/// The position of the entry whose key is `key`, if there is one.
fn find_entry<V>(entries: &Vec<(RawKey, V)>, key: &RawKey) -> (r: Option<usize>)
    ensures
        match r {
            Some(i) => i < entries@.len() && entry_key(entries@, i as int) == key@,
            None => !entries_have(entries@, key@),
        },
{
    let mut i: usize = 0;
    while i < entries.len()
        invariant
            i <= entries@.len(),
            forall|j: int| 0 <= j < i ==> entry_key(entries@, j) != key@,
        decreases entries.len() - i,
    {
        if entries[i].0.key == key.key {
            return Some(i);
        }
        i = i + 1;
    }
    None
}

/// Puts `value` under `key` in sorted entries and hands back the value that was there.
fn insert_entry<V>(entries: &mut Vec<(RawKey, V)>, key: RawKey, value: V) -> (r: Option<V>)
    requires
        entries_sorted(old(entries)@),
    ensures
        entries_sorted(final(entries)@),
        entries_map(final(entries)@) == entries_map(old(entries)@).insert(key@, value),
        match r {
            Some(v) => entries_map(old(entries)@).contains_key(key@) && v == entries_map(
                old(entries)@,
            )[key@],
            None => !entries_map(old(entries)@).contains_key(key@),
        },
{
    let ghost k = key@;
    let ghost s0 = entries@;
    let mut i: usize = 0;
    while i < entries.len() && str_lt(entries[i].0.key.as_str(), key.key.as_str())
        invariant
            entries@ == s0,
            entries_sorted(s0),
            k == key@,
            i <= s0.len(),
            forall|j: int| 0 <= j < i ==> key_lt(#[trigger] entry_key(s0, j), k),
        decreases entries.len() - i,
    {
        i = i + 1;
    }
    proof {
        assert forall|j: int| 0 <= j < i implies entry_key(s0, j) != k by {
            lemma_key_lt_order(k, k, k);
        }
    }
    if i < entries.len() && entries[i].0.key == key.key {
        let (old_key, old_value) = entries.remove(i);
        entries.insert(i, (old_key, value));
        proof {
            let s1 = entries@;
            lemma_index_of(s0, i as int);
            assert forall|j: int| 0 <= j < s1.len() implies #[trigger] entry_key(s1, j) == entry_key(
                s0,
                j,
            ) by {}
            assert(entries_sorted(s1));
            assert forall|kk: Seq<char>| entries_have(s1, kk) == entries_have(s0, kk) by {
                if entries_have(s0, kk) {
                    let j = entries_index_of(s0, kk);
                    assert(entry_key(s1, j) == kk);
                }
                if entries_have(s1, kk) {
                    let j = entries_index_of(s1, kk);
                    assert(entry_key(s0, j) == kk);
                }
            }
            assert forall|kk: Seq<char>| #[trigger] entries_have(s1, kk) implies s1[entries_index_of(
                s1,
                kk,
            )].1 == entries_map(s0).insert(k, value)[kk] by {
                let j = entries_index_of(s1, kk);
                lemma_index_of(s1, j);
                lemma_index_of(s0, j);
            }
            assert(entries_map(s1) =~= entries_map(s0).insert(k, value));
        }
        Some(old_value)
    } else {
        proof {
            if i < s0.len() {
                assert(entry_key(s0, i as int) != k);
                lemma_key_lt_order(entry_key(s0, i as int), k, k);
                assert(key_lt(k, entry_key(s0, i as int)));
            }
        }
        entries.insert(i, (key, value));
        proof {
            let s1 = entries@;
            assert forall|j: int| 0 <= j < i implies #[trigger] entry_key(s1, j) == entry_key(s0, j) by {}
            assert forall|j: int| i < j < s1.len() implies #[trigger] entry_key(s1, j) == entry_key(
                s0,
                j - 1,
            ) by {}
            assert(entry_key(s1, i as int) == k);
            assert forall|a: int, b: int| 0 <= a < b < s1.len() implies key_lt(
                #[trigger] entry_key(s1, a),
                #[trigger] entry_key(s1, b),
            ) by {
                if a < i && b == i {
                } else if a < i && b > i {
                    assert(key_lt(entry_key(s0, a), k));
                    if b - 1 > i {
                        assert(key_lt(entry_key(s0, i as int), entry_key(s0, b - 1)));
                        lemma_key_lt_order(k, entry_key(s0, i as int), entry_key(s0, b - 1));
                    }
                    lemma_key_lt_order(entry_key(s0, a), k, entry_key(s0, b - 1));
                } else if a == i && b > i {
                    if b - 1 > i {
                        assert(key_lt(entry_key(s0, i as int), entry_key(s0, b - 1)));
                        lemma_key_lt_order(k, entry_key(s0, i as int), entry_key(s0, b - 1));
                    }
                } else if a > i {
                    assert(key_lt(entry_key(s0, a - 1), entry_key(s0, b - 1)));
                } else {
                    assert(key_lt(entry_key(s0, a), entry_key(s0, b)));
                }
            }
            assert(entries_sorted(s1));
            assert forall|kk: Seq<char>| #[trigger] entries_have(s1, kk) == (entries_have(s0, kk) || kk
                == k) by {
                if entries_have(s0, kk) {
                    let j = entries_index_of(s0, kk);
                    if j < i {
                        assert(entry_key(s1, j) == kk);
                    } else {
                        assert(entry_key(s1, j + 1) == kk);
                    }
                }
                if kk == k {
                    assert(entry_key(s1, i as int) == kk);
                }
                if entries_have(s1, kk) && kk != k {
                    let j = entries_index_of(s1, kk);
                    if j < i {
                        assert(entry_key(s0, j) == kk);
                    } else {
                        assert(entry_key(s0, j - 1) == kk);
                    }
                }
            }
            assert forall|kk: Seq<char>| #[trigger] entries_have(s1, kk) implies s1[entries_index_of(
                s1,
                kk,
            )].1 == entries_map(s0).insert(k, value)[kk] by {
                let j = entries_index_of(s1, kk);
                lemma_index_of(s1, j);
                if j < i {
                    lemma_index_of(s0, j);
                } else if j > i {
                    lemma_index_of(s0, j - 1);
                }
            }
            assert(entries_map(s1) =~= entries_map(s0).insert(k, value));
        }
        None
    }
}

/// Takes the value under `key` out of sorted entries, if there is one.
fn remove_entry<V>(entries: &mut Vec<(RawKey, V)>, key: &RawKey) -> (r: Option<V>)
    requires
        entries_sorted(old(entries)@),
    ensures
        entries_sorted(final(entries)@),
        entries_map(final(entries)@) == entries_map(old(entries)@).remove(key@),
        match r {
            Some(v) => entries_map(old(entries)@).contains_key(key@) && v == entries_map(
                old(entries)@,
            )[key@],
            None => !entries_map(old(entries)@).contains_key(key@),
        },
{
    let ghost k = key@;
    let ghost s0 = entries@;
    match find_entry(entries, key) {
        Some(i) => {
            let (_, value) = entries.remove(i);
            proof {
                let s1 = entries@;
                lemma_index_of(s0, i as int);
                assert forall|j: int| 0 <= j < i implies #[trigger] entry_key(s1, j) == entry_key(s0, j) by {}
                assert forall|j: int| i <= j < s1.len() implies #[trigger] entry_key(s1, j) == entry_key(
                    s0,
                    j + 1,
                ) by {}
                assert forall|a: int, b: int| 0 <= a < b < s1.len() implies key_lt(
                    #[trigger] entry_key(s1, a),
                    #[trigger] entry_key(s1, b),
                ) by {
                    let a0 = if a < i { a } else { a + 1 };
                    let b0 = if b < i { b } else { b + 1 };
                    assert(key_lt(entry_key(s0, a0), entry_key(s0, b0)));
                }
                assert(entries_sorted(s1));
                assert forall|kk: Seq<char>| #[trigger] entries_have(s1, kk) == (entries_have(s0, kk) && kk
                    != k) by {
                    if entries_have(s0, kk) && kk != k {
                        let j = entries_index_of(s0, kk);
                        if j < i {
                            assert(entry_key(s1, j) == kk);
                        } else {
                            assert(entry_key(s1, j - 1) == kk);
                        }
                    }
                    if entries_have(s1, kk) {
                        let j = entries_index_of(s1, kk);
                        let j0 = if j < i { j } else { j + 1 };
                        assert(entry_key(s0, j0) == kk);
                        lemma_index_of(s0, j0);
                    }
                }
                assert forall|kk: Seq<char>| #[trigger] entries_have(s1, kk) implies s1[entries_index_of(
                    s1,
                    kk,
                )].1 == entries_map(s0).remove(k)[kk] by {
                    let j = entries_index_of(s1, kk);
                    lemma_index_of(s1, j);
                    if j < i {
                        lemma_index_of(s0, j);
                    } else {
                        lemma_index_of(s0, j + 1);
                    }
                }
                assert(entries_map(s1) =~= entries_map(s0).remove(k));
            }
            Some(value)
        },
        None => {
            proof {
                assert(entries_map(s0) =~= entries_map(s0).remove(k));
            }
            None
        },
    }
}

/// A map from keys to values, listed in ascending key order.
pub struct Context<V> {
    entries: Vec<(RawKey, V)>,
}

impl<V> Context<V> {
    /// The keys in the order in which they are listed.
    pub closed spec fn key_seq(&self) -> Seq<Seq<char>> {
        self.entries@.map_values(|e: (RawKey, V)| e.0@)
    }

    /// Keys are listed in strictly ascending order.
    #[verifier::type_invariant]
    closed spec fn sorted(&self) -> bool {
        entries_sorted(self.entries@)
    }
}

impl<V> View for Context<V> {
    type V = Map<Seq<char>, V>;

    closed spec fn view(&self) -> Map<Seq<char>, V> {
        entries_map(self.entries@)
    }
}

impl<V> Default for Context<V> {
    fn default() -> (r: Self)
        ensures
            r@ == Map::<Seq<char>, V>::empty(),
    {
        Context::new()
    }
}

impl<V> Context<V> {
    /// An empty context.
    pub fn new() -> (r: Self)
        ensures
            r@ == Map::<Seq<char>, V>::empty(),
    {
        let r = Context { entries: Vec::new() };
        assert(r@ =~= Map::<Seq<char>, V>::empty());
        r
    }

    /// The keys, in ascending order, each key of the map once.
    pub fn keys(&self) -> (r: Vec<&RawKey>)
        ensures
            r@.len() == self.key_seq().len(),
            forall|i: int| 0 <= i < r@.len() ==> #[trigger] r@[i]@ == self.key_seq()[i],
            forall|i: int, j: int|
                0 <= i < j < r@.len() ==> key_lt(#[trigger] r@[i]@, #[trigger] r@[j]@),
            forall|k: Seq<char>| self@.contains_key(k) <==> self.key_seq().contains(k),
            r@.len() == self@.dom().len(),
    {
        proof {
            use_type_invariant(self);
            lemma_key_seq(self.entries@);
        }
        let mut r: Vec<&RawKey> = Vec::new();
        let mut i: usize = 0;
        while i < self.entries.len()
            invariant
                i <= self.entries@.len(),
                r@.len() == i,
                entries_sorted(self.entries@),
                forall|j: int| 0 <= j < i ==> #[trigger] r@[j]@ == entry_key(self.entries@, j),
            decreases self.entries.len() - i,
        {
            r.push(&self.entries[i].0);
            i = i + 1;
        }
        proof {
            assert forall|a: int, b: int| 0 <= a < b < r@.len() implies key_lt(
                #[trigger] r@[a]@,
                #[trigger] r@[b]@,
            ) by {
                assert(key_lt(entry_key(self.entries@, a), entry_key(self.entries@, b)));
            }
        }
        r
    }

    /// The value under `key`, if there is one.
    pub fn get(&self, key: &TypedKey<V>) -> (r: Option<&V>)
        ensures
            match r {
                Some(v) => self@.contains_key(key@) && *v == self@[key@],
                None => !self@.contains_key(key@),
            },
    {
        proof {
            use_type_invariant(self);
        }
        match find_entry(&self.entries, &key.inner) {
            Some(i) => {
                proof {
                    lemma_index_of(self.entries@, i as int);
                }
                Some(&self.entries[i].1)
            },
            None => None,
        }
    }

    /// Puts `value` under `key` and hands back the value that was there.
    pub fn insert(&mut self, key: TypedKey<V>, value: V) -> (r: Option<V>)
        ensures
            final(self)@ == old(self)@.insert(key@, value),
            match r {
                Some(v) => old(self)@.contains_key(key@) && v == old(self)@[key@],
                None => !old(self)@.contains_key(key@),
            },
    {
        proof {
            use_type_invariant(&*self);
        }
        let mut entries: Vec<(RawKey, V)> = Vec::new();
        std::mem::swap(&mut entries, &mut self.entries);
        let r = insert_entry(&mut entries, key.inner, value);
        self.entries = entries;
        r
    }

    /// Takes the value under `key` out of the context, if there is one.
    pub fn remove(&mut self, key: &TypedKey<V>) -> (r: Option<V>)
        ensures
            final(self)@ == old(self)@.remove(key@),
            match r {
                Some(v) => old(self)@.contains_key(key@) && v == old(self)@[key@],
                None => !old(self)@.contains_key(key@),
            },
    {
        proof {
            use_type_invariant(&*self);
        }
        let mut entries: Vec<(RawKey, V)> = Vec::new();
        std::mem::swap(&mut entries, &mut self.entries);
        let r = remove_entry(&mut entries, &key.inner);
        self.entries = entries;
        r
    }
}

} // verus!

verus! {

/// A [`Context`] whose values may cross threads.
pub struct AsyncContext<V: Send + Sync> {
    inner: Context<V>,
}

impl<V: Send + Sync> View for AsyncContext<V> {
    type V = Map<Seq<char>, V>;

    closed spec fn view(&self) -> Map<Seq<char>, V> {
        self.inner@
    }
}

impl<V: Send + Sync> Default for AsyncContext<V> {
    fn default() -> (r: Self)
        ensures
            r@ == Map::<Seq<char>, V>::empty(),
    {
        AsyncContext { inner: Context::new() }
    }
}

impl<V: Send + Sync> AsyncContext<V> {
    /// The value under `key`, if there is one.
    pub fn get(&self, key: &TypedKey<V>) -> (r: Option<&V>)
        ensures
            match r {
                Some(v) => self@.contains_key(key@) && *v == self@[key@],
                None => !self@.contains_key(key@),
            },
    {
        self.inner.get(key)
    }

    /// Puts `value` under `key` and hands back the value that was there.
    pub fn insert(&mut self, key: TypedKey<V>, value: V) -> (r: Option<V>)
        ensures
            final(self)@ == old(self)@.insert(key@, value),
            match r {
                Some(v) => old(self)@.contains_key(key@) && v == old(self)@[key@],
                None => !old(self)@.contains_key(key@),
            },
    {
        self.inner.insert(key, value)
    }

    /// Takes the value under `key` out of the context, if there is one.
    pub fn remove(&mut self, key: &TypedKey<V>) -> (r: Option<V>)
        ensures
            final(self)@ == old(self)@.remove(key@),
            match r {
                Some(v) => old(self)@.contains_key(key@) && v == old(self)@[key@],
                None => !old(self)@.contains_key(key@),
            },
    {
        self.inner.remove(key)
    }
}

} // verus!

verus! {

/// A read gives back the latest write: after `insert(key, value)`,
/// `get(key)` gives `value`.
pub proof fn law_get_after_insert<V>(before: Map<Seq<char>, V>, key: Seq<char>, value: V)
    ensures
        before.insert(key, value).contains_key(key),
        before.insert(key, value)[key] == value,
{
}

/// Writing under one key leaves every other key as it was.
pub proof fn law_insert_keeps_other_keys<V>(
    before: Map<Seq<char>, V>,
    key: Seq<char>,
    value: V,
    other: Seq<char>,
)
    requires
        other != key,
    ensures
        before.insert(key, value).contains_key(other) == before.contains_key(other),
        before.contains_key(other) ==> before.insert(key, value)[other] == before[other],
{
}

/// Removing a key that was just inserted gives back the inserted value and
/// leaves the context as it was before the insert, where the key was absent.
pub proof fn law_remove_undoes_insert<V>(before: Map<Seq<char>, V>, key: Seq<char>, value: V)
    requires
        !before.contains_key(key),
    ensures
        before.insert(key, value)[key] == value,
        before.insert(key, value).remove(key) == before,
{
    assert(before.insert(key, value).remove(key) =~= before);
}

} // verus!
