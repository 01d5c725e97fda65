//! Maps whose entries stand in key order.

use crate::json::Json;
use crate::text::chars_of;
use vstd::prelude::*;

verus! {

/// What can be a key: a type with a strict total order on its models.
pub trait Key: View + Sized {
    /// Whether `a` comes before `b`.
    spec fn before(a: Self::V, b: Self::V) -> bool;

    /// The order is strict, transitive and total.
    proof fn strict_total_order(a: Self::V, b: Self::V, c: Self::V)
        ensures
            !Self::before(a, a),
            Self::before(a, b) && Self::before(b, c) ==> Self::before(a, c),
            a != b ==> Self::before(a, b) || Self::before(b, a),
    ;

    /// Whether this key comes before the other.
    fn is_before(&self, other: &Self) -> (r: bool)
        ensures
            r == Self::before(self@, other@),
    ;
}

impl Key for u32 {
    open spec fn before(a: u32, b: u32) -> bool {
        a < b
    }

    proof fn strict_total_order(a: u32, b: u32, c: u32) {
    }

    fn is_before(&self, other: &Self) -> (r: bool) {
        *self < *other
    }
}

/// Whether a text comes before another: by the first character in which they differ, a text
/// before its continuations.
pub open spec fn text_before(a: Seq<char>, b: Seq<char>) -> bool
    decreases b.len(),
{
    if b.len() == 0 {
        false
    } else if a.len() == 0 {
        true
    } else if a[0] != b[0] {
        a[0] < b[0]
    } else {
        text_before(a.drop_first(), b.drop_first())
    }
}

proof fn lemma_text_before(a: Seq<char>, b: Seq<char>, c: Seq<char>)
    ensures
        !text_before(a, a),
        text_before(a, b) && text_before(b, c) ==> text_before(a, c),
        a != b ==> text_before(a, b) || text_before(b, a),
    decreases a.len() + b.len() + c.len(),
{
    if a.len() > 0 {
        lemma_text_before(a.drop_first(), Seq::empty(), Seq::empty());
        if b.len() > 0 && c.len() > 0 {
            lemma_text_before(a.drop_first(), b.drop_first(), c.drop_first());
        }
        if b.len() > 0 {
            lemma_text_before(a.drop_first(), b.drop_first(), Seq::empty());
            if a[0] == b[0] && a.drop_first() == b.drop_first() {
                assert(a == seq![a[0]] + a.drop_first());
                assert(b == seq![b[0]] + b.drop_first());
            }
        }
    }
    if a.len() == 0 && b.len() == 0 {
        assert(a =~= b);
    }
}

impl Key for String {
    open spec fn before(a: Seq<char>, b: Seq<char>) -> bool {
        text_before(a, b)
    }

    proof fn strict_total_order(a: Seq<char>, b: Seq<char>, c: Seq<char>) {
        lemma_text_before(a, b, c);
    }

    fn is_before(&self, other: &Self) -> (r: bool) {
        let x = chars_of(self.as_str());
        let y = chars_of(other.as_str());
        let mut i: usize = 0;
        assert(x@.skip(0) == x@);
        assert(y@.skip(0) == y@);
        while i < y.len()
            invariant
                i <= x@.len(),
                i <= y@.len(),
                x@ == self@,
                y@ == other@,
                text_before(self@, other@) == text_before(x@.skip(i as int), y@.skip(i as int)),
            decreases y@.len() - i,
        {
            if i == x.len() {
                return true;
            }
            if x[i] != y[i] {
                return x[i] < y[i];
            }
            assert(x@.skip(i as int).drop_first() == x@.skip(i + 1));
            assert(y@.skip(i as int).drop_first() == y@.skip(i + 1));
            i = i + 1;
        }
        false
    }
}

/// A map from keys to values.
#[derive(Debug, PartialEq, Eq)]
pub struct KeyMap<K: Key, V: View> {
    entries: Vec<(K, V)>,
}

impl<K: Key, V: View> View for KeyMap<K, V> {
    type V = Seq<(K::V, V::V)>;

    /// The entries in key order.
    closed spec fn view(&self) -> Seq<(K::V, V::V)> {
        Seq::new(self.entries@.len(), |i: int| (self.entries@[i].0@, self.entries@[i].1@))
    }
}

impl<K: Key, V: View> DeepView for KeyMap<K, V> {
    type V = Seq<(K::V, V::V)>;

    open spec fn deep_view(&self) -> Seq<(K::V, V::V)> {
        self@
    }
}

/// The keys stand in order, none twice.
pub open spec fn in_order<K: Key, W>(m: Seq<(K::V, W)>) -> bool {
    forall|i: int, j: int| 0 <= i < j < m.len() ==> K::before(#[trigger] m[i].0, #[trigger] m[j].0)
}

/// The value under a key.
pub open spec fn get<A, W>(m: Seq<(A, W)>, k: A) -> Option<W>
    decreases m.len(),
{
    if m.len() == 0 {
        None
    } else if m[0].0 == k {
        Some(m[0].1)
    } else {
        get(m.drop_first(), k)
    }
}

/// The map with `v` under `k`.
pub open spec fn put<K: Key, W>(m: Seq<(K::V, W)>, k: K::V, v: W) -> Seq<(K::V, W)>
    decreases m.len(),
{
    if m.len() == 0 {
        seq![(k, v)]
    } else if K::before(m[0].0, k) {
        seq![m[0]] + put::<K, W>(m.drop_first(), k, v)
    } else if m[0].0 == k {
        seq![(k, v)] + m.drop_first()
    } else {
        seq![(k, v)] + m
    }
}

/// The map without `k`.
pub open spec fn without<A, W>(m: Seq<(A, W)>, k: A) -> Seq<(A, W)>
    decreases m.len(),
{
    if m.len() == 0 {
        m
    } else if m[0].0 == k {
        m.drop_first()
    } else {
        seq![m[0]] + without(m.drop_first(), k)
    }
}

impl<K: Key, V: View> KeyMap<K, V> {
    #[verifier::type_invariant]
    spec fn ordered(self) -> bool {
        in_order::<K, V::V>(self@)
    }

    /// The map without entries.
    pub fn new() -> (r: Self)
        ensures
            r@ == Seq::<(K::V, V::V)>::empty(),
    {
        let r = KeyMap { entries: Vec::new() };
        assert(r@ =~= Seq::<(K::V, V::V)>::empty());
        r
    }

    /// The number of entries.
    pub fn len(&self) -> (r: usize)
        ensures
            r == self@.len(),
    {
        self.entries.len()
    }

    /// The key of the entry at a position, in key order.
    pub fn key_at(&self, i: usize) -> (r: &K)
        requires
            i < self@.len(),
        ensures
            r@ == self@[i as int].0,
    {
        &self.entries[i].0
    }

    /// The value of the entry at a position, in key order.
    pub fn value_at(&self, i: usize) -> (r: &V)
        requires
            i < self@.len(),
        ensures
            r@ == self@[i as int].1,
    {
        &self.entries[i].1
    }

    /// The first position whose key does not come before `key`.
    fn position(&self, key: &K) -> (r: usize)
        ensures
            r <= self@.len(),
            forall|i: int| 0 <= i < r ==> K::before(#[trigger] self@[i].0, key@),
            r < self@.len() ==> !K::before(self@[r as int].0, key@),
    {
        let mut i: usize = 0;
        while i < self.entries.len()
            invariant
                i <= self.entries@.len(),
                forall|j: int| 0 <= j < i ==> K::before(#[trigger] self@[j].0, key@),
            decreases self.entries@.len() - i,
        {
            if !self.entries[i].0.is_before(key) {
                return i;
            }
            i = i + 1;
        }
        i
    }

    /// Where the key stands, if it is there.
    fn find(&self, key: &K) -> (r: Option<usize>)
        ensures
            match r {
                Some(i) => i < self@.len() && self@[i as int].0 == key@ && get(self@, key@) == Some(
                    self@[i as int].1,
                ) && without(self@, key@) == self@.remove(i as int),
                None => get(self@, key@) is None && without(self@, key@) == self@,
            },
    {
        proof {
            use_type_invariant(self);
        }
        let i = self.position(key);
        proof {
            lemma_at_position::<K, V::V>(self@, key@, i as int);
        }
        if i < self.entries.len() && !key.is_before(&self.entries[i].0) {
            proof {
                K::strict_total_order(key@, self@[i as int].0, key@);
            }
            Some(i)
        } else {
            proof {
                K::strict_total_order(key@, key@, key@);
            }
            None
        }
    }

    /// Whether the key is there.
    pub fn contains_key(&self, key: &K) -> (r: bool)
        ensures
            r == (get(self@, key@) is Some),
    {
        self.find(key).is_some()
    }

    /// The value under a key.
    pub fn get(&self, key: &K) -> (r: Option<&V>)
        ensures
            match r {
                Some(v) => get(self@, key@) == Some(v@),
                None => get(self@, key@) is None,
            },
    {
        match self.find(key) {
            Some(i) => Some(&self.entries[i].1),
            None => None,
        }
    }

    /// Puts a value under a key, in place of the one that may be there.
    pub fn insert(&mut self, key: K, value: V)
        ensures
            final(self)@ == put::<K, V::V>(old(self)@, key@, value@),
    {
        proof {
            use_type_invariant(&*self);
        }
        let ghost before = self@;
        let i = self.position(&key);
        let found = self.find(&key);
        proof {
            lemma_at_position::<K, V::V>(before, key@, i as int);
            lemma_put::<K, V::V>(before, key@, value@, i as int);
        }
        let ghost k = key@;
        let ghost v = value@;
        let mut entries: Vec<(K, V)> = Vec::new();
        std::mem::swap(&mut entries, &mut self.entries);
        if found.is_some() {
            entries.set(i, (key, value));
        } else {
            entries.insert(i, (key, value));
        }
        let ghost after = Seq::new(entries@.len(), |j: int| (entries@[j].0@, entries@[j].1@));
        assert(after =~= put::<K, V::V>(before, k, v));
        self.entries = entries;
    }

    /// Takes the value under a key out.
    pub fn remove(&mut self, key: &K) -> (r: Option<V>)
        ensures
            final(self)@ == without(old(self)@, key@),
            match r {
                Some(v) => get(old(self)@, key@) == Some(v@),
                None => get(old(self)@, key@) is None,
            },
    {
        proof {
            use_type_invariant(&*self);
        }
        let ghost before = self@;
        match self.find(key) {
            Some(i) => {
                let mut entries: Vec<(K, V)> = Vec::new();
                std::mem::swap(&mut entries, &mut self.entries);
                let (_, value) = entries.remove(i);
                let ghost after = Seq::new(entries@.len(), |j: int| (entries@[j].0@, entries@[j].1@));
                assert(after =~= before.remove(i as int));
                self.entries = entries;
                Some(value)
            },
            None => None,
        }
    }
}

impl Clone for KeyMap<String, Json> {
    fn clone(&self) -> (r: Self)
        ensures
            r@ == self@,
    {
        proof {
            use_type_invariant(self);
        }
        let mut entries: Vec<(String, Json)> = Vec::new();
        let mut i: usize = 0;
        while i < self.entries.len()
            invariant
                i <= self.entries@.len(),
                entries@.len() == i,
                forall|j: int|
                    0 <= j < i ==> (#[trigger] entries@[j]).0@ == self.entries@[j].0@ && entries@[j].1@
                        == self.entries@[j].1@,
            decreases self.entries@.len() - i,
        {
            entries.push((self.entries[i].0.clone(), self.entries[i].1.clone()));
            i = i + 1;
        }
        assert(Seq::new(entries@.len(), |j: int| (entries@[j].0@, entries@[j].1@)) =~= self@);
        KeyMap { entries }
    }
}

proof fn lemma_at_position<K: Key, W>(m: Seq<(K::V, W)>, k: K::V, i: int)
    requires
        in_order::<K, W>(m),
        0 <= i <= m.len(),
        forall|j: int| 0 <= j < i ==> K::before(#[trigger] m[j].0, k),
        i < m.len() ==> !K::before(m[i].0, k),
    ensures
        i < m.len() && m[i].0 == k ==> get(m, k) == Some(m[i].1) && without(m, k) == m.remove(i),
        !(i < m.len() && m[i].0 == k) ==> get(m, k) is None && without(m, k) == m,
    decreases m.len(),
{
    if m.len() > 0 {
        let rest = m.drop_first();
        assert(forall|a: int| 0 <= a < rest.len() ==> rest[a] == m[a + 1]);
        if i > 0 {
            K::strict_total_order(m[0].0, k, k);
            K::strict_total_order(k, k, k);
            lemma_at_position::<K, W>(rest, k, i - 1);
            assert(seq![m[0]] + rest.remove(i - 1) =~= m.remove(i) || i == m.len());
            assert(seq![m[0]] + rest =~= m);
        } else if m[0].0 != k {
            lemma_absent::<K, W>(m, k);
        } else {
            assert(m.remove(0) =~= rest);
        }
    }
}

proof fn lemma_absent<K: Key, W>(m: Seq<(K::V, W)>, k: K::V)
    requires
        in_order::<K, W>(m),
        m.len() > 0 ==> K::before(k, m[0].0) || (m[0].0 != k && !K::before(m[0].0, k)),
    ensures
        get(m, k) is None,
        without(m, k) == m,
    decreases m.len(),
{
    if m.len() > 0 {
        let rest = m.drop_first();
        K::strict_total_order(k, m[0].0, k);
        K::strict_total_order(k, k, k);
        if rest.len() > 0 {
            K::strict_total_order(k, m[0].0, rest[0].0);
            assert(rest[0] == m[1]);
        }
        assert(forall|a: int| 0 <= a < rest.len() ==> rest[a] == m[a + 1]);
        lemma_absent::<K, W>(rest, k);
        assert(seq![m[0]] + rest =~= m);
    }
}

proof fn lemma_put<K: Key, W>(m: Seq<(K::V, W)>, k: K::V, v: W, i: int)
    requires
        in_order::<K, W>(m),
        0 <= i <= m.len(),
        forall|j: int| 0 <= j < i ==> K::before(#[trigger] m[j].0, k),
        i < m.len() ==> !K::before(m[i].0, k),
    ensures
        i < m.len() && m[i].0 == k ==> put::<K, W>(m, k, v) == m.update(i, (k, v)),
        !(i < m.len() && m[i].0 == k) ==> put::<K, W>(m, k, v) == m.insert(i, (k, v)),
        in_order::<K, W>(put::<K, W>(m, k, v)),
{
    lemma_put_shape::<K, W>(m, k, v, i);
    let p = put::<K, W>(m, k, v);
    assert forall|a: int, b: int| 0 <= a < b < p.len() implies K::before(
        #[trigger] p[a].0,
        #[trigger] p[b].0,
    ) by {
        if i < m.len() && m[i].0 == k {
            assert(p[a].0 == m[a].0);
            assert(p[b].0 == m[b].0);
        } else {
            if i < m.len() {
                K::strict_total_order(k, m[i].0, k);
            }
            if a == i {
                assert(p[b] == m[b - 1]);
                if b - 1 > i {
                    K::strict_total_order(k, m[i].0, m[b - 1].0);
                }
            } else if b == i {
                assert(p[a] == m[a]);
            } else {
                let x = if a < i {
                    a
                } else {
                    a - 1
                };
                let y = if b < i {
                    b
                } else {
                    b - 1
                };
                assert(p[a] == m[x]);
                assert(p[b] == m[y]);
            }
        }
    }
}

proof fn lemma_put_shape<K: Key, W>(m: Seq<(K::V, W)>, k: K::V, v: W, i: int)
    requires
        in_order::<K, W>(m),
        0 <= i <= m.len(),
        forall|j: int| 0 <= j < i ==> K::before(#[trigger] m[j].0, k),
        i < m.len() ==> !K::before(m[i].0, k),
    ensures
        i < m.len() && m[i].0 == k ==> put::<K, W>(m, k, v) == m.update(i, (k, v)),
        !(i < m.len() && m[i].0 == k) ==> put::<K, W>(m, k, v) == m.insert(i, (k, v)),
    decreases m.len(),
{
    if m.len() == 0 {
        assert(m.insert(0, (k, v)) =~= seq![(k, v)]);
    } else {
        let rest = m.drop_first();
        assert(forall|a: int| 0 <= a < rest.len() ==> rest[a] == m[a + 1]);
        if i > 0 {
            lemma_put_shape::<K, W>(rest, k, v, i - 1);
            if i < m.len() && m[i].0 == k {
                assert(seq![m[0]] + rest.update(i - 1, (k, v)) =~= m.update(i, (k, v)));
            } else {
                assert(seq![m[0]] + rest.insert(i - 1, (k, v)) =~= m.insert(i, (k, v)));
            }
        } else {
            assert(seq![(k, v)] + rest =~= m.update(0, (k, v)));
            assert(seq![(k, v)] + m =~= m.insert(0, (k, v)));
        }
    }
}

/// What was put under a key is what is found there, and what is under any other key stays.
pub proof fn law_put_get<K: Key, W>(m: Seq<(K::V, W)>, k: K::V, v: W, other: K::V)
    ensures
        get(put::<K, W>(m, k, v), k) == Some(v),
        other != k ==> get(put::<K, W>(m, k, v), other) == get(m, other),
    decreases m.len(),
{
    let p = put::<K, W>(m, k, v);
    if m.len() == 0 {
        assert(p.drop_first() =~= m);
    } else if K::before(m[0].0, k) {
        K::strict_total_order(k, k, k);
        law_put_get::<K, W>(m.drop_first(), k, v, other);
        assert(p.drop_first() =~= put::<K, W>(m.drop_first(), k, v));
    } else if m[0].0 == k {
        assert(p.drop_first() =~= m.drop_first());
    } else {
        assert(p.drop_first() =~= m);
    }
}

/// A key that was taken out is not found, and what is under any other key stays.
pub proof fn law_without_get<K: Key, W>(m: Seq<(K::V, W)>, k: K::V, other: K::V)
    requires
        in_order::<K, W>(m),
    ensures
        get(without(m, k), k) is None,
        other != k ==> get(without(m, k), other) == get(m, other),
    decreases m.len(),
{
    if m.len() > 0 {
        let rest = m.drop_first();
        assert(forall|a: int| 0 <= a < rest.len() ==> rest[a] == m[a + 1]);
        if m[0].0 == k {
            lemma_absent::<K, W>(rest, k);
        } else {
            law_without_get::<K, W>(rest, k, other);
            assert(without(m, k).drop_first() =~= without(rest, k));
        }
    }
}

/// Putting a value under a key keeps the order.
pub proof fn law_put_in_order<K: Key, W>(m: Seq<(K::V, W)>, k: K::V, v: W)
    requires
        in_order::<K, W>(m),
    ensures
        in_order::<K, W>(put::<K, W>(m, k, v)),
{
    let i = lemma_position::<K, W>(m, k);
    lemma_put::<K, W>(m, k, v, i);
}

/// Taking a key out keeps the order.
pub proof fn law_without_in_order<K: Key, W>(m: Seq<(K::V, W)>, k: K::V)
    requires
        in_order::<K, W>(m),
    ensures
        in_order::<K, W>(without(m, k)),
{
    let i = lemma_position::<K, W>(m, k);
    lemma_at_position::<K, W>(m, k, i);
}

/// Putting a value under a new key adds one entry and keeps the order.
pub proof fn law_put_new<K: Key, W>(m: Seq<(K::V, W)>, k: K::V, v: W)
    requires
        in_order::<K, W>(m),
        get(m, k) is None,
    ensures
        put::<K, W>(m, k, v).to_multiset() == m.to_multiset().insert((k, v)),
        in_order::<K, W>(put::<K, W>(m, k, v)),
{
    broadcast use vstd::seq_lib::group_to_multiset_ensures;

    let i = lemma_position::<K, W>(m, k);
    lemma_at_position::<K, W>(m, k, i);
    lemma_put::<K, W>(m, k, v, i);
    let p = put::<K, W>(m, k, v);
    assert(p =~= m.take(i) + seq![(k, v)] + m.skip(i));
    assert(m =~= m.take(i) + m.skip(i));
    vstd::seq_lib::lemma_multiset_commutative(m.take(i) + seq![(k, v)], m.skip(i));
    vstd::seq_lib::lemma_multiset_commutative(m.take(i), seq![(k, v)]);
    vstd::seq_lib::lemma_multiset_commutative(m.take(i), m.skip(i));
    assert(seq![(k, v)] =~= Seq::<(K::V, W)>::empty().push((k, v)));
    assert(seq![(k, v)].to_multiset() =~= vstd::multiset::Multiset::empty().insert((k, v)));
    assert(p.to_multiset() =~= m.to_multiset().insert((k, v)));
}

proof fn lemma_position<K: Key, W>(m: Seq<(K::V, W)>, k: K::V) -> (i: int)
    requires
        in_order::<K, W>(m),
    ensures
        0 <= i <= m.len(),
        forall|j: int| 0 <= j < i ==> K::before(#[trigger] m[j].0, k),
        i < m.len() ==> !K::before(m[i].0, k),
    decreases m.len(),
{
    if m.len() == 0 || !K::before(m[0].0, k) {
        0
    } else {
        let rest = m.drop_first();
        assert(forall|a: int| 0 <= a < rest.len() ==> rest[a] == m[a + 1]);
        let i = lemma_position::<K, W>(rest, k);
        assert forall|j: int| 0 <= j < i + 1 implies K::before(#[trigger] m[j].0, k) by {
            if j > 0 {
                assert(rest[j - 1] == m[j]);
            }
        }
        i + 1
    }
}

} // verus!
