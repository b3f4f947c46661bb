//! A map keyed by strings that keeps its keys in ascending order, as a
//! `BTreeMap<String, V>` does: looking a key up, inserting, and walking the
//! entries in key order.

use vstd::prelude::*;
use vstd::string::*;

verus! {

/// Lexicographic order on character sequences, by code point: the order
/// in which `String`'s `Ord` places strings (UTF-8 bytes compare in the
/// same order as the code points they encode).
pub open spec fn char_seq_lt(a: Seq<char>, b: Seq<char>) -> bool
    decreases a.len(),
{
    if a.len() == 0 {
        b.len() > 0
    } else if b.len() == 0 {
        false
    } else if a[0] != b[0] {
        (a[0] as int) < (b[0] as int)
    } else {
        char_seq_lt(a.skip(1), b.skip(1))
    }
}

/// No sequence comes before itself.
pub proof fn lemma_lt_irreflexive(a: Seq<char>)
    ensures
        !char_seq_lt(a, a),
    decreases a.len(),
{
    if a.len() > 0 {
        lemma_lt_irreflexive(a.skip(1));
    }
}

/// The order is transitive.
pub proof fn lemma_lt_transitive(a: Seq<char>, b: Seq<char>, c: Seq<char>)
    requires
        char_seq_lt(a, b),
        char_seq_lt(b, c),
    ensures
        char_seq_lt(a, c),
    decreases a.len(),
{
    if a.len() > 0 && b.len() > 0 && c.len() > 0 {
        if a[0] == b[0] && b[0] == c[0] {
            lemma_lt_transitive(a.skip(1), b.skip(1), c.skip(1));
        }
    }
}

/// Of two different sequences, one comes before the other.
pub proof fn lemma_lt_total(a: Seq<char>, b: Seq<char>)
    requires
        a != b,
    ensures
        char_seq_lt(a, b) || char_seq_lt(b, a),
    decreases a.len(),
{
    if a.len() > 0 && b.len() > 0 {
        if a[0] == b[0] {
            if a.skip(1) == b.skip(1) {
                assert(a =~= seq![a[0]] + a.skip(1));
                assert(b =~= seq![b[0]] + b.skip(1));
            }
            lemma_lt_total(a.skip(1), b.skip(1));
        } else {
            assert(a[0] as int != b[0] as int);
        }
    } else if a.len() == 0 && b.len() == 0 {
        assert(a =~= b);
    }
}

/// Whether `a` comes before `b` in lexicographic code point order,
/// which is how `String`'s `<` compares.
pub fn str_lt(a: &str, b: &str) -> (r: bool)
    ensures
        r == char_seq_lt(a@, b@),
{
    let la = a.unicode_len();
    let lb = b.unicode_len();
    let mut i: usize = 0;
    proof {
        assert(a@.skip(0) =~= a@);
        assert(b@.skip(0) =~= b@);
    }
    while i < la && i < lb
        invariant
            la == a@.len(),
            lb == b@.len(),
            i <= la,
            i <= lb,
            char_seq_lt(a@, b@) == char_seq_lt(a@.skip(i as int), b@.skip(i as int)),
        decreases la - i,
    {
        let ca = a.get_char(i);
        let cb = b.get_char(i);
        proof {
            assert(a@.skip(i as int)[0] == ca);
            assert(b@.skip(i as int)[0] == cb);
        }
        if ca != cb {
            return (ca as u32) < (cb as u32);
        }
        proof {
            assert(a@.skip(i as int).skip(1) =~= a@.skip(i + 1));
            assert(b@.skip(i as int).skip(1) =~= b@.skip(i + 1));
        }
        i = i + 1;
    }
    i < lb
}

/// Keys in strictly ascending order (hence no key twice).
pub open spec fn keys_ascending<V>(p: Seq<(Seq<char>, V)>) -> bool {
    forall|i: int, j: int| 0 <= i < j < p.len() ==> char_seq_lt(#[trigger] p[i].0, #[trigger] p[j].0)
}

/// Keys in ascending order occur once each.
pub proof fn lemma_ascending_keys_distinct<V>(p: Seq<(Seq<char>, V)>, i: int, j: int)
    requires
        keys_ascending(p),
        0 <= i < p.len(),
        0 <= j < p.len(),
        i != j,
    ensures
        p[i].0 != p[j].0,
{
    if i < j {
        assert(char_seq_lt(p[i].0, p[j].0));
    } else {
        assert(char_seq_lt(p[j].0, p[i].0));
    }
    lemma_lt_irreflexive(p[i].0);
}

/// Whether some entry of `p` has key `k`.
pub open spec fn has_key<V>(p: Seq<(Seq<char>, V)>, k: Seq<char>) -> bool {
    exists|i: int| 0 <= i < p.len() && #[trigger] p[i].0 == k
}

/// The position of the entry with key `k` (meaningful when there is one).
pub open spec fn key_index<V>(p: Seq<(Seq<char>, V)>, k: Seq<char>) -> int {
    choose|i: int| 0 <= i < p.len() && #[trigger] p[i].0 == k
}

/// The map that a sequence of entries with distinct keys stands for.
pub open spec fn pairs_map<V>(p: Seq<(Seq<char>, V)>) -> Map<Seq<char>, V> {
    Map::new(|k: Seq<char>| has_key(p, k), |k: Seq<char>| p[key_index(p, k)].1)
}

/// The entries after `(k, v)` is put in its place: it replaces the entry
/// with key `k` if there is one, else it goes before the first larger key.
pub open spec fn sorted_insert<V>(p: Seq<(Seq<char>, V)>, k: Seq<char>, v: V) -> Seq<
    (Seq<char>, V),
>
    decreases p.len(),
{
    if p.len() == 0 {
        seq![(k, v)]
    } else if p[0].0 == k {
        seq![(k, v)] + p.skip(1)
    } else if char_seq_lt(p[0].0, k) {
        seq![p[0]] + sorted_insert(p.skip(1), k, v)
    } else {
        seq![(k, v)] + p
    }
}

proof fn lemma_sorted_insert_prefix<V>(p: Seq<(Seq<char>, V)>, k: Seq<char>, v: V, i: int)
    requires
        0 <= i <= p.len(),
        forall|j: int| 0 <= j < i ==> char_seq_lt(#[trigger] p[j].0, k),
    ensures
        sorted_insert(p, k, v) == p.take(i) + sorted_insert(p.skip(i), k, v),
    decreases i,
{
    if i == 0 {
        assert(p.skip(0) =~= p);
        assert(p.take(0) + sorted_insert(p, k, v) =~= sorted_insert(p, k, v));
    } else {
        let q = p.skip(1);
        assert forall|j: int| 0 <= j < i - 1 implies char_seq_lt(#[trigger] q[j].0, k) by {
            assert(q[j] == p[j + 1]);
        }
        lemma_sorted_insert_prefix(q, k, v, i - 1);
        assert(char_seq_lt(p[0].0, k));
        lemma_lt_irreflexive(k);
        assert(p[0].0 != k);
        assert(q.skip(i - 1) =~= p.skip(i));
        assert(seq![p[0]] + q.take(i - 1) =~= p.take(i));
        assert(sorted_insert(p, k, v) == seq![p[0]] + sorted_insert(q, k, v));
        assert(seq![p[0]] + (q.take(i - 1) + sorted_insert(p.skip(i), k, v)) =~= p.take(i)
            + sorted_insert(p.skip(i), k, v));
    }
}

/// Putting an entry in its place keeps the keys ascending, and the map
/// that the entries stand for gains `k ↦ v` and nothing else changes.
pub proof fn lemma_sorted_insert_map<V>(p: Seq<(Seq<char>, V)>, k: Seq<char>, v: V)
    requires
        keys_ascending(p),
    ensures
        keys_ascending(sorted_insert(p, k, v)),
        pairs_map(sorted_insert(p, k, v)) == pairs_map(p).insert(k, v),
    decreases p.len(),
{
    let q = sorted_insert(p, k, v);
    if p.len() == 0 {
        assert(q =~= seq![(k, v)]);
        assert(q[0].0 == k);
        assert(has_key(q, k));
        assert(pairs_map(q) =~= pairs_map(p).insert(k, v));
    } else if p[0].0 == k {
        let r = p.skip(1);
        assert(q =~= seq![(k, v)] + r);
        assert forall|i: int, j: int| 0 <= i < j < q.len() implies char_seq_lt(
            #[trigger] q[i].0,
            #[trigger] q[j].0,
        ) by {
            assert(q[j] == p[j]);
            if i > 0 {
                assert(q[i] == p[i]);
            }
        }
        assert forall|x: Seq<char>| has_key(q, x) == (has_key(p, x) || x == k) by {
            if has_key(p, x) {
                let i = key_index(p, x);
                if i == 0 {
                    assert(q[0].0 == x);
                } else {
                    assert(q[i].0 == x);
                }
            }
            if has_key(q, x) {
                let i = key_index(q, x);
                if i > 0 {
                    assert(p[i].0 == x);
                }
            }
        }
        assert forall|x: Seq<char>| #[trigger] has_key(q, x) implies q[key_index(q, x)].1 == (
        if x == k {
            v
        } else {
            p[key_index(p, x)].1
        }) by {
            let i = key_index(q, x);
            if x == k {
                if i != 0 {
                    assert(char_seq_lt(q[0].0, q[i].0));
                    lemma_lt_irreflexive(k);
                }
            } else {
                assert(i != 0);
                assert(p[i].0 == x);
                let jj = key_index(p, x);
                if jj != i {
                    if jj < i {
                        assert(char_seq_lt(p[jj].0, p[i].0));
                    } else {
                        assert(char_seq_lt(p[i].0, p[jj].0));
                    }
                    lemma_lt_irreflexive(x);
                }
            }
        }
        assert(pairs_map(q) =~= pairs_map(p).insert(k, v));
    } else if char_seq_lt(p[0].0, k) {
        let r = p.skip(1);
        assert forall|i: int, j: int| 0 <= i < j < r.len() implies char_seq_lt(
            #[trigger] r[i].0,
            #[trigger] r[j].0,
        ) by {
            assert(r[i] == p[i + 1]);
            assert(r[j] == p[j + 1]);
        }
        lemma_sorted_insert_map(r, k, v);
        let s = sorted_insert(r, k, v);
        assert(q =~= seq![p[0]] + s);
        // every key of s is a key of r or k, hence larger than p[0].0
        assert forall|j: int| 0 <= j < s.len() implies char_seq_lt(p[0].0, #[trigger] s[j].0) by {
            assert(has_key(s, s[j].0));
            assert(pairs_map(s).dom().contains(s[j].0));
            if s[j].0 != k {
                assert(pairs_map(r).dom().contains(s[j].0));
                let t = key_index(r, s[j].0);
                assert(r[t] == p[t + 1]);
            }
        }
        assert forall|i: int, j: int| 0 <= i < j < q.len() implies char_seq_lt(
            #[trigger] q[i].0,
            #[trigger] q[j].0,
        ) by {
            assert(q[j] == s[j - 1]);
            if i > 0 {
                assert(q[i] == s[i - 1]);
            }
        }
        lemma_lt_irreflexive(p[0].0);
        assert forall|x: Seq<char>| has_key(q, x) == (has_key(p, x) || x == k) by {
            if has_key(p, x) {
                let i = key_index(p, x);
                if i == 0 {
                    assert(q[0].0 == x);
                } else {
                    assert(r[i - 1].0 == x);
                    assert(pairs_map(r).dom().contains(x));
                    assert(pairs_map(s).dom().contains(x));
                    let t = key_index(s, x);
                    assert(q[t + 1].0 == x);
                }
            }
            if x == k {
                assert(pairs_map(s).dom().contains(x));
                let t = key_index(s, x);
                assert(q[t + 1].0 == x);
            }
            if has_key(q, x) {
                let i = key_index(q, x);
                if i > 0 {
                    assert(s[i - 1].0 == x);
                    assert(pairs_map(s).dom().contains(x));
                    if x != k {
                        assert(pairs_map(r).dom().contains(x));
                        let t = key_index(r, x);
                        assert(p[t + 1].0 == x);
                    }
                }
            }
        }
        assert forall|x: Seq<char>| #[trigger] has_key(q, x) implies q[key_index(q, x)].1 == (
        if x == k {
            v
        } else {
            p[key_index(p, x)].1
        }) by {
            let i = key_index(q, x);
            let ps = key_index(p, x);
            if i == 0 {
                assert(x == p[0].0);
                assert(x != k);
                if ps != 0 {
                    assert(char_seq_lt(p[0].0, p[ps].0));
                }
            } else {
                assert(s[i - 1].0 == x);
                assert(pairs_map(s).dom().contains(x));
                let t = key_index(s, x);
                if t != i - 1 {
                    if t < i - 1 {
                        assert(char_seq_lt(s[t].0, s[i - 1].0));
                    } else {
                        assert(char_seq_lt(s[i - 1].0, s[t].0));
                    }
                    lemma_lt_irreflexive(x);
                }
                assert(pairs_map(s)[x] == s[t].1);
                if x != k {
                    assert(pairs_map(r).dom().contains(x));
                    let rt = key_index(r, x);
                    assert(pairs_map(r)[x] == r[rt].1);
                    assert(p[rt + 1].0 == x);
                    if ps != rt + 1 {
                        if ps < rt + 1 {
                            assert(char_seq_lt(p[ps].0, p[rt + 1].0));
                        } else {
                            assert(char_seq_lt(p[rt + 1].0, p[ps].0));
                        }
                        lemma_lt_irreflexive(x);
                    }
                }
            }
        }
        assert(pairs_map(q) =~= pairs_map(p).insert(k, v));
    } else {
        assert(q =~= seq![(k, v)] + p);
        lemma_lt_total(p[0].0, k);
        assert(char_seq_lt(k, p[0].0));
        assert forall|j: int| 0 <= j < p.len() implies char_seq_lt(k, #[trigger] p[j].0) by {
            if j > 0 {
                lemma_lt_transitive(k, p[0].0, p[j].0);
            }
        }
        assert forall|i: int, j: int| 0 <= i < j < q.len() implies char_seq_lt(
            #[trigger] q[i].0,
            #[trigger] q[j].0,
        ) by {
            assert(q[j] == p[j - 1]);
            if i > 0 {
                assert(q[i] == p[i - 1]);
            }
        }
        assert forall|x: Seq<char>| has_key(q, x) == (has_key(p, x) || x == k) by {
            if has_key(p, x) {
                let i = key_index(p, x);
                assert(q[i + 1].0 == x);
            }
            if x == k {
                assert(q[0].0 == x);
            }
            if has_key(q, x) {
                let i = key_index(q, x);
                if i > 0 {
                    assert(p[i - 1].0 == x);
                }
            }
        }
        assert forall|x: Seq<char>| #[trigger] has_key(q, x) implies q[key_index(q, x)].1 == (
        if x == k {
            v
        } else {
            p[key_index(p, x)].1
        }) by {
            let i = key_index(q, x);
            if x == k {
                if i != 0 {
                    assert(char_seq_lt(q[0].0, q[i].0));
                    lemma_lt_irreflexive(k);
                }
            } else {
                assert(i != 0);
                assert(p[i - 1].0 == x);
                let jj = key_index(p, x);
                if jj != i - 1 {
                    if jj < i - 1 {
                        assert(char_seq_lt(p[jj].0, p[i - 1].0));
                    } else {
                        assert(char_seq_lt(p[i - 1].0, p[jj].0));
                    }
                    lemma_lt_irreflexive(x);
                }
            }
        }
        assert(pairs_map(q) =~= pairs_map(p).insert(k, v));
    }
}

} // verus!

verus! {

/// A map from strings to values that walks its entries in ascending key
/// order, as `BTreeMap<String, V>` does. Its entries are always in strictly
/// ascending key order, so no key occurs twice: every operation ensures
/// `keys_ascending` of `pairs()`.
pub struct StrMap<V> {
    entries: Vec<(String, V)>,
}

impl<V> StrMap<V> {
    /// The entries, keys by their characters, in the order they are kept.
    pub closed spec fn pairs(&self) -> Seq<(Seq<char>, V)> {
        self.entries@.map_values(|e: (String, V)| (e.0@, e.1))
    }

    #[verifier::type_invariant]
    closed spec fn ascending(&self) -> bool {
        keys_ascending(self.pairs())
    }

    /// An empty map.
    pub fn new() -> (m: Self)
        ensures
            m.pairs() == Seq::<(Seq<char>, V)>::empty(),
            m@ == Map::<Seq<char>, V>::empty(),
            keys_ascending(m.pairs()),
    {
        let m = StrMap { entries: Vec::new() };
        proof {
            assert(m.pairs() =~= Seq::<(Seq<char>, V)>::empty());
            assert(m@ =~= Map::<Seq<char>, V>::empty());
        }
        m
    }

    /// The number of entries.
    pub fn len(&self) -> (n: usize)
        ensures
            n == self.pairs().len(),
            keys_ascending(self.pairs()),
    {
        proof {
            use_type_invariant(self);
        }
        self.entries.len()
    }

    /// The key of the `i`-th entry in key order.
    pub fn key_at(&self, i: usize) -> (k: &String)
        requires
            i < self.pairs().len(),
        ensures
            k@ == self.pairs()[i as int].0,
            keys_ascending(self.pairs()),
    {
        proof {
            use_type_invariant(self);
        }
        &self.entries[i].0
    }

    /// The value of the `i`-th entry in key order.
    pub fn value_at(&self, i: usize) -> (v: &V)
        requires
            i < self.pairs().len(),
        ensures
            *v == self.pairs()[i as int].1,
            keys_ascending(self.pairs()),
    {
        proof {
            use_type_invariant(self);
        }
        &self.entries[i].1
    }

    /// The value stored under `key`, if any.
    pub fn get(&self, key: &str) -> (r: Option<&V>)
        ensures
            r is Some <==> self@.contains_key(key@),
            r matches Some(v) ==> *v == self@[key@],
            keys_ascending(self.pairs()),
    {
        proof {
            use_type_invariant(self);
        }
        let n = self.entries.len();
        let mut i: usize = 0;
        while i < n
            invariant
                n == self.pairs().len(),
                keys_ascending(self.pairs()),
                i <= n,
                forall|j: int| 0 <= j < i ==> #[trigger] self.pairs()[j].0 != key@,
            decreases n - i,
        {
            if crate::text::str_eq(self.entries[i].0.as_str(), key) {
                proof {
                    let p = self.pairs();
                    assert(p[i as int].0 == key@);
                    assert(has_key(p, key@));
                    let t = key_index(p, key@);
                    if t != i {
                        if t < i {
                            assert(char_seq_lt(p[t].0, p[i as int].0));
                        } else {
                            assert(char_seq_lt(p[i as int].0, p[t].0));
                        }
                        lemma_lt_irreflexive(key@);
                    }
                }
                return Some(&self.entries[i].1);
            }
            i = i + 1;
        }
        None
    }

    /// Puts `value` under `key`, replacing what was stored there.
    pub fn insert(&mut self, key: String, value: V)
        ensures
            final(self).pairs() == sorted_insert(old(self).pairs(), key@, value),
            final(self)@ == old(self)@.insert(key@, value),
            keys_ascending(old(self).pairs()),
            keys_ascending(final(self).pairs()),
    {
        proof {
            use_type_invariant(&*self);
        }
        let ghost p = self.pairs();
        let mut entries: Vec<(String, V)> = Vec::new();
        std::mem::swap(&mut entries, &mut self.entries);
        assert(entries@.map_values(|e: (String, V)| (e.0@, e.1)) == p);
        let n = entries.len();
        let mut i: usize = 0;
        while i < n && str_lt(entries[i].0.as_str(), key.as_str())
            invariant
                n == entries@.len(),
                entries@.map_values(|e: (String, V)| (e.0@, e.1)) == p,
                i <= n,
                forall|j: int| 0 <= j < i ==> char_seq_lt(#[trigger] p[j].0, key@),
            decreases n - i,
        {
            i = i + 1;
        }
        proof {
            lemma_sorted_insert_prefix(p, key@, value, i as int);
            lemma_sorted_insert_map(p, key@, value);
        }
        let ghost kv = (key@, value);
        if i < n && crate::text::str_eq(entries[i].0.as_str(), key.as_str()) {
            entries.remove(i);
            entries.insert(i, (key, value));
            proof {
                let q = entries@.map_values(|e: (String, V)| (e.0@, e.1));
                assert(p.skip(i as int)[0].0 == kv.0);
                assert(p.skip(i as int).skip(1) =~= p.skip(i + 1));
                assert(q =~= p.take(i as int) + (seq![kv] + p.skip(i + 1)));
            }
        } else {
            entries.insert(i, (key, value));
            proof {
                let q = entries@.map_values(|e: (String, V)| (e.0@, e.1));
                if i < n {
                    let r = p.skip(i as int);
                    assert(r[0] == p[i as int]);
                    assert(r[0].0 != kv.0);
                    assert(!char_seq_lt(r[0].0, kv.0));
                    assert(q =~= p.take(i as int) + (seq![kv] + r));
                } else {
                    assert(p.skip(i as int) =~= Seq::<(Seq<char>, V)>::empty());
                    assert(q =~= p.take(i as int) + seq![kv]);
                }
            }
        }
        self.entries = entries;
    }
}

impl<V> View for StrMap<V> {
    type V = Map<Seq<char>, V>;

    /// The map that the entries stand for.
    open spec fn view(&self) -> Map<Seq<char>, V> {
        pairs_map(self.pairs())
    }
}

} // verus!

verus! {

/// Entries whose values are strings, values by their characters.
pub open spec fn view_pairs(p: Seq<(Seq<char>, String)>) -> Seq<(Seq<char>, Seq<char>)> {
    Seq::new(p.len(), |i: int| (p[i].0, p[i].1@))
}

/// The entries of a map of strings, keys and values by their characters.
pub open spec fn string_pairs(m: StrMap<String>) -> Seq<(Seq<char>, Seq<char>)> {
    view_pairs(m.pairs())
}

/// Viewing the values keeps the keys, hence their order.
pub proof fn lemma_view_pairs_ascending(p: Seq<(Seq<char>, String)>)
    requires
        keys_ascending(p),
    ensures
        keys_ascending(view_pairs(p)),
{
    let q = view_pairs(p);
    assert forall|i: int, j: int| 0 <= i < j < q.len() implies char_seq_lt(
        #[trigger] q[i].0,
        #[trigger] q[j].0,
    ) by {
        assert(q[i].0 == p[i].0 && q[j].0 == p[j].0);
    }
}

/// Putting a string value in its place commutes with viewing the values.
pub proof fn lemma_view_pairs_sorted_insert(p: Seq<(Seq<char>, String)>, k: Seq<char>, v: String)
    ensures
        view_pairs(sorted_insert(p, k, v)) == sorted_insert(view_pairs(p), k, v@),
    decreases p.len(),
{
    let vp = view_pairs(p);
    if p.len() == 0 {
        assert(view_pairs(sorted_insert(p, k, v)) =~= seq![(k, v@)]);
    } else {
        assert(vp[0].0 == p[0].0);
        assert(view_pairs(p.skip(1)) =~= vp.skip(1));
        if p[0].0 == k {
            assert(view_pairs(sorted_insert(p, k, v)) =~= seq![(k, v@)] + vp.skip(1));
        } else if char_seq_lt(p[0].0, k) {
            lemma_view_pairs_sorted_insert(p.skip(1), k, v);
            assert(view_pairs(sorted_insert(p, k, v)) =~= seq![vp[0]] + sorted_insert(
                vp.skip(1),
                k,
                v@,
            ));
        } else {
            assert(view_pairs(sorted_insert(p, k, v)) =~= seq![(k, v@)] + vp);
        }
    }
}

} // verus!
