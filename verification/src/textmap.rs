//! Ordered maps keyed by text.
//!
//! Keys are kept in strictly increasing code-point order, so iteration order
//! is the order `BTreeMap<String, _>` would give.
use vstd::prelude::*;
use crate::text::{chars_of, own};

verus! {

/// Lexicographic order on code points (the order of `String`'s `Ord`).
pub open spec fn lex_lt(a: Seq<char>, b: Seq<char>) -> bool
    decreases a.len(),
{
    if a.len() == 0 {
        b.len() > 0
    } else if b.len() == 0 {
        false
    } else if a[0] != b[0] {
        a[0] < b[0]
    } else {
        lex_lt(a.skip(1), b.skip(1))
    }
}

/// `lex_lt` is irreflexive.
pub proof fn lemma_lex_irrefl(a: Seq<char>)
    ensures
        !lex_lt(a, a),
    decreases a.len(),
{
    if a.len() > 0 {
        lemma_lex_irrefl(a.skip(1));
    }
}

/// `lex_lt` is transitive.
pub proof fn lemma_lex_trans(a: Seq<char>, b: Seq<char>, c: Seq<char>)
    requires
        lex_lt(a, b),
        lex_lt(b, c),
    ensures
        lex_lt(a, c),
    decreases a.len(),
{
    if a.len() > 0 && b.len() > 0 && c.len() > 0 && a[0] == b[0] && b[0] == c[0] {
        lemma_lex_trans(a.skip(1), b.skip(1), c.skip(1));
    }
}

/// Any two sequences are equal or ordered one way.
pub proof fn lemma_lex_total(a: Seq<char>, b: Seq<char>)
    ensures
        a == b || lex_lt(a, b) || lex_lt(b, a),
    decreases a.len(),
{
    if a.len() > 0 && b.len() > 0 {
        if a[0] == b[0] {
            lemma_lex_total(a.skip(1), b.skip(1));
            if a.skip(1) == b.skip(1) {
                assert(a =~= seq![a[0]] + a.skip(1));
                assert(b =~= seq![b[0]] + b.skip(1));
            }
        }
    } else if a.len() == 0 && b.len() == 0 {
        assert(a =~= b);
    }
}

/// `lex_lt` is asymmetric.
pub proof fn lemma_lex_asym(a: Seq<char>, b: Seq<char>)
    ensures
        !(lex_lt(a, b) && lex_lt(b, a)),
{
    if lex_lt(a, b) && lex_lt(b, a) {
        lemma_lex_trans(a, b, a);
        lemma_lex_irrefl(a);
    }
}

/// Three-way comparison: negative, zero or positive as `a` is before, equal to or after `b`.
pub fn lex_order(a: &Vec<char>, b: &Vec<char>) -> (r: i8)
    ensures
        r < 0 <==> lex_lt(a@, b@),
        r == 0 <==> a@ == b@,
        r > 0 <==> lex_lt(b@, a@),
{
    let mut i: usize = 0;
    assert(a@.skip(0) =~= a@);
    assert(b@.skip(0) =~= b@);
    while i < a.len() && i < b.len() && a[i] == b[i]
        invariant
            i <= a.len(),
            i <= b.len(),
            a@.take(i as int) == b@.take(i as int),
            lex_lt(a@, b@) == lex_lt(a@.skip(i as int), b@.skip(i as int)),
            lex_lt(b@, a@) == lex_lt(b@.skip(i as int), a@.skip(i as int)),
        decreases a.len() - i,
    {
        assert(a@.skip(i as int).skip(1) =~= a@.skip(i + 1));
        assert(b@.skip(i as int).skip(1) =~= b@.skip(i + 1));
        assert(a@.take(i + 1) =~= a@.take(i as int).push(a@[i as int]));
        assert(b@.take(i + 1) =~= b@.take(i as int).push(b@[i as int]));
        i += 1;
    }
    proof {
        lemma_lex_asym(a@, b@);
        lemma_lex_irrefl(a@);
    }
    if i == a.len() && i == b.len() {
        assert(a@ =~= a@.take(i as int));
        assert(b@ =~= b@.take(i as int));
        0
    } else if i == a.len() {
        assert(lex_lt(a@.skip(i as int), b@.skip(i as int)));
        assert(a@ != b@);
        -1
    } else if i == b.len() {
        assert(lex_lt(b@.skip(i as int), a@.skip(i as int)));
        assert(a@ != b@);
        1
    } else {
        assert(a@.skip(i as int)[0] == a@[i as int]);
        assert(b@.skip(i as int)[0] == b@[i as int]);
        if a[i] < b[i] {
            assert(a@[i as int] != b@[i as int]);
            -1
        } else {
            1
        }
    }
}

/// The keys of `s` are in strictly increasing order.
pub open spec fn sorted_keys<V>(s: Seq<(Seq<char>, V)>) -> bool {
    forall|i: int, j: int| 0 <= i < j < s.len() ==> lex_lt(s[i].0, s[j].0)
}

/// The value stored under `k`, if any.
pub open spec fn lookup<V>(s: Seq<(Seq<char>, V)>, k: Seq<char>) -> Option<V> {
    if exists|i: int| 0 <= i < s.len() && s[i].0 == k {
        Some(s[choose|i: int| 0 <= i < s.len() && s[i].0 == k].1)
    } else {
        None
    }
}

/// Keys of `s`, in order.
pub open spec fn keys_of<V>(s: Seq<(Seq<char>, V)>) -> Seq<Seq<char>> {
    s.map_values(|e: (Seq<char>, V)| e.0)
}

/// In a sorted sequence a key occurs at most once.
pub proof fn lemma_sorted_unique<V>(s: Seq<(Seq<char>, V)>, i: int, j: int)
    requires
        sorted_keys(s),
        0 <= i < s.len(),
        0 <= j < s.len(),
        s[i].0 == s[j].0,
    ensures
        i == j,
{
    if i < j {
        lemma_lex_irrefl(s[i].0);
    } else if j < i {
        lemma_lex_irrefl(s[i].0);
    }
}

/// In a sorted sequence, `lookup` finds the entry at `i`.
pub proof fn lemma_lookup_at<V>(s: Seq<(Seq<char>, V)>, i: int)
    requires
        sorted_keys(s),
        0 <= i < s.len(),
    ensures
        lookup(s, s[i].0) == Some(s[i].1),
{
    let j = choose|j: int| 0 <= j < s.len() && s[j].0 == s[i].0;
    lemma_sorted_unique(s, i, j);
}

/// Two well-formed maps with the same value under every key hold the same
/// entries.
pub proof fn lemma_textmap_ext<V: DeepView>(a: TextMap<V>, b: TextMap<V>)
    requires
        a.wf(),
        b.wf(),
        forall|k: Seq<char>| #[trigger] a.spec_get(k) == b.spec_get(k),
    ensures
        a.spec_entries() == b.spec_entries(),
{
    let ea = a.spec_entries();
    let eb = b.spec_entries();
    let ka = keys_of(ea);
    let kb = keys_of(eb);
    assert(strictly_sorted(ka)) by {
        assert forall|i: int, j: int| 0 <= i < j < ka.len() implies lex_lt(ka[i], ka[j]) by {
            assert(ka[i] == ea[i].0 && ka[j] == ea[j].0);
        }
    }
    assert(strictly_sorted(kb)) by {
        assert forall|i: int, j: int| 0 <= i < j < kb.len() implies lex_lt(kb[i], kb[j]) by {
            assert(kb[i] == eb[i].0 && kb[j] == eb[j].0);
        }
    }
    assert forall|k: Seq<char>| ka.to_set().contains(k) <==> kb.to_set().contains(k) by {
        if ka.to_set().contains(k) {
            let i = choose|i: int| 0 <= i < ka.len() && ka[i] == k;
            lemma_lookup_at(ea, i);
            assert(a.spec_get(k) is Some);
            assert(b.spec_get(k) is Some);
            let j = choose|j: int| 0 <= j < eb.len() && eb[j].0 == k;
            assert(kb[j] == k);
        }
        if kb.to_set().contains(k) {
            let i = choose|i: int| 0 <= i < kb.len() && kb[i] == k;
            lemma_lookup_at(eb, i);
            assert(b.spec_get(k) is Some);
            assert(a.spec_get(k) is Some);
            let j = choose|j: int| 0 <= j < ea.len() && ea[j].0 == k;
            assert(ka[j] == k);
        }
    }
    assert(ka.to_set() =~= kb.to_set());
    lemma_sorted_set_unique(ka, kb);
    assert forall|i: int| 0 <= i < ea.len() implies ea[i] == eb[i] by {
        assert(ka[i] == kb[i]);
        lemma_lookup_at(ea, i);
        lemma_lookup_at(eb, i);
        assert(a.spec_get(ea[i].0) == b.spec_get(eb[i].0));
    }
    assert(ea =~= eb);
}

/// A text-keyed map whose entries stay sorted by key.
#[derive(Debug, PartialEq, Eq)]
pub struct TextMap<V> {
    entries: Vec<(String, V)>,
}

impl<V: DeepView> TextMap<V> {
    /// The entries, keys and values taken by their views, in key order.
    pub closed spec fn spec_entries(&self) -> Seq<(Seq<char>, V::V)> {
        self.entries@.map_values(|e: (String, V)| (e.0@, e.1.deep_view()))
    }

    /// Well-formedness: keys strictly increasing.
    pub open spec fn wf(&self) -> bool {
        sorted_keys(self.spec_entries())
    }

    /// The value under `k`.
    pub open spec fn spec_get(&self, k: Seq<char>) -> Option<V::V> {
        lookup(self.spec_entries(), k)
    }

    /// An empty map.
    pub fn new() -> (m: Self)
        ensures
            m.wf(),
            m.spec_entries() == Seq::<(Seq<char>, V::V)>::empty(),
    {
        let m = TextMap { entries: Vec::new() };
        assert(m.spec_entries() =~= Seq::<(Seq<char>, V::V)>::empty());
        m
    }

    /// Number of entries.
    pub fn len(&self) -> (n: usize)
        ensures
            n == self.spec_entries().len(),
    {
        self.entries.len()
    }

    /// Key at position `i` (key order).
    pub fn key_at(&self, i: usize) -> (k: &String)
        requires
            i < self.spec_entries().len(),
        ensures
            k@ == self.spec_entries()[i as int].0,
    {
        &self.entries[i].0
    }

    /// Value at position `i` (key order).
    pub fn value_at(&self, i: usize) -> (v: &V)
        requires
            i < self.spec_entries().len(),
        ensures
            v.deep_view() == self.spec_entries()[i as int].1,
    {
        &self.entries[i].1
    }

    /// Position of `k`, if present.
    pub fn position(&self, k: &str) -> (r: Option<usize>)
        requires
            self.wf(),
        ensures
            match r {
                Some(i) => i < self.spec_entries().len() && self.spec_entries()[i as int].0 == k@,
                None => forall|i: int|
                    0 <= i < self.spec_entries().len() ==> self.spec_entries()[i].0 != k@,
            },
    {
        let kc = chars_of(k);
        let mut i: usize = 0;
        while i < self.entries.len()
            invariant
                i <= self.entries.len(),
                kc@ == k@,
                forall|j: int| 0 <= j < i ==> self.spec_entries()[j].0 != k@,
            decreases self.entries.len() - i,
        {
            let ec = chars_of(self.entries[i].0.as_str());
            if lex_order(&ec, &kc) == 0 {
                return Some(i);
            }
            i += 1;
        }
        None
    }

    /// The value under `k` (`BTreeMap::get`).
    pub fn get(&self, k: &str) -> (r: Option<&V>)
        requires
            self.wf(),
        ensures
            match (r, self.spec_get(k@)) {
                (Some(v), Some(w)) => v.deep_view() == w,
                (None, None) => true,
                _ => false,
            },
    {
        match self.position(k) {
            Some(i) => {
                proof {
                    lemma_lookup_at(self.spec_entries(), i as int);
                }
                Some(&self.entries[i].1)
            },
            None => None,
        }
    }

    /// Whether `k` is a key.
    pub fn contains_key(&self, k: &str) -> (r: bool)
        requires
            self.wf(),
        ensures
            r == self.spec_get(k@).is_some(),
    {
        match self.position(k) {
            Some(i) => {
                proof {
                    lemma_lookup_at(self.spec_entries(), i as int);
                }
                true
            },
            None => false,
        }
    }

    /// Insert or replace the value under `k`, keeping keys sorted.
    pub fn insert(&mut self, k: String, v: V)
        requires
            old(self).wf(),
        ensures
            final(self).wf(),
            final(self).spec_get(k@) == Some(v.deep_view()),
            forall|q: Seq<char>| q != k@ ==> final(self).spec_get(q) == old(self).spec_get(q),
            forall|q: Seq<char>|
                final(self).spec_get(q).is_some() <==> (q == k@ || old(self).spec_get(
                    q,
                ).is_some()),
    {
        let ghost old_e = self.spec_entries();
        let kc = chars_of(k.as_str());
        let mut i: usize = 0;
        while i < self.entries.len() && lex_order(&chars_of(self.entries[i].0.as_str()), &kc) < 0
            invariant
                i <= self.entries.len(),
                kc@ == k@,
                self.spec_entries() == old_e,
                sorted_keys(old_e),
                forall|j: int| 0 <= j < i ==> lex_lt(old_e[j].0, k@),
            decreases self.entries.len() - i,
        {
            i += 1;
        }
        let ghost vv = v.deep_view();
        let ghost kk = k@;
        if i < self.entries.len() && lex_order(&chars_of(self.entries[i].0.as_str()), &kc) == 0 {
            self.entries.set(i, (k, v));
            let ghost ne = self.spec_entries();
            assert(ne =~= old_e.update(i as int, (kk, vv)));
            assert(old_e[i as int].0 == kk);
            assert forall|a: int, b: int| 0 <= a < b < ne.len() implies lex_lt(ne[a].0, ne[b].0) by {
                assert(ne[a].0 == old_e[a].0);
                assert(ne[b].0 == old_e[b].0);
            }
            proof {
                lemma_lookup_at(ne, i as int);
                assert forall|q: Seq<char>| q != kk implies #[trigger] lookup(ne, q) == lookup(
                    old_e,
                    q,
                ) by {
                    if exists|j: int| 0 <= j < ne.len() && ne[j].0 == q {
                        let j = choose|j: int| 0 <= j < ne.len() && ne[j].0 == q;
                        lemma_lookup_at(ne, j);
                        lemma_lookup_at(old_e, j);
                    } else {
                        assert forall|j: int| 0 <= j < old_e.len() implies old_e[j].0 != q by {
                            if j != i {
                                assert(ne[j] == old_e[j]);
                            }
                        }
                    }
                }
                assert forall|q: Seq<char>| #[trigger]
                    lookup(ne, q).is_some() <==> (q == kk || lookup(old_e, q).is_some()) by {
                    if q != kk {
                        assert(lookup(ne, q) == lookup(old_e, q));
                    }
                }
            }
        } else {
            proof {
                if i < old_e.len() {
                    lemma_lex_total(old_e[i as int].0, kk);
                }
            }
            self.entries.insert(i, (k, v));
            let ghost ne = self.spec_entries();
            assert(ne =~= old_e.insert(i as int, (kk, vv)));
            assert forall|a: int, b: int| 0 <= a < b < ne.len() implies lex_lt(ne[a].0, ne[b].0) by {
                if b < i {
                } else if a < i && b == i {
                } else if a < i && b > i {
                    assert(ne[b] == old_e[b - 1]);
                    if a < b - 1 {
                    }
                } else if a == i {
                    assert(ne[b] == old_e[b - 1]);
                    if b - 1 > i {
                        lemma_lex_trans(kk, old_e[i as int].0, old_e[b - 1].0);
                    }
                } else {
                    assert(ne[a] == old_e[a - 1]);
                    assert(ne[b] == old_e[b - 1]);
                }
            }
            proof {
                lemma_lookup_at(ne, i as int);
                assert forall|q: Seq<char>| q != kk implies #[trigger] lookup(ne, q) == lookup(
                    old_e,
                    q,
                ) by {
                    if exists|j: int| 0 <= j < ne.len() && ne[j].0 == q {
                        let j = choose|j: int| 0 <= j < ne.len() && ne[j].0 == q;
                        lemma_lookup_at(ne, j);
                        if j < i {
                            lemma_lookup_at(old_e, j);
                        } else {
                            assert(j > i);
                            lemma_lookup_at(old_e, j - 1);
                        }
                    } else {
                        assert forall|j: int| 0 <= j < old_e.len() implies old_e[j].0 != q by {
                            if j < i {
                                assert(ne[j] == old_e[j]);
                            } else {
                                assert(ne[j + 1] == old_e[j]);
                            }
                        }
                    }
                }
                assert forall|q: Seq<char>| #[trigger]
                    lookup(ne, q).is_some() <==> (q == kk || lookup(old_e, q).is_some()) by {
                    if q != kk {
                        assert(lookup(ne, q) == lookup(old_e, q));
                    }
                }
            }
        }
    }

    /// Remove and return the value under `k`.
    pub fn remove(&mut self, k: &str) -> (r: Option<V>)
        requires
            old(self).wf(),
        ensures
            final(self).wf(),
            match (r, old(self).spec_get(k@)) {
                (Some(v), Some(w)) => v.deep_view() == w,
                (None, None) => true,
                _ => false,
            },
            final(self).spec_get(k@).is_none(),
            forall|q: Seq<char>| q != k@ ==> final(self).spec_get(q) == old(self).spec_get(q),
    {
        let ghost old_e = self.spec_entries();
        match self.position(k) {
            None => {
                assert(self.spec_get(k@).is_none());
                None
            },
            Some(i) => {
                proof {
                    lemma_lookup_at(old_e, i as int);
                }
                let (_, v) = self.entries.remove(i);
                let ghost ne = self.spec_entries();
                assert(ne =~= old_e.remove(i as int));
                assert forall|a: int, b: int| 0 <= a < b < ne.len() implies lex_lt(
                    ne[a].0,
                    ne[b].0,
                ) by {
                    let a0 = if a < i { a } else { a + 1 };
                    let b0 = if b < i { b } else { b + 1 };
                    assert(ne[a] == old_e[a0]);
                    assert(ne[b] == old_e[b0]);
                }
                proof {
                    assert forall|j: int| 0 <= j < ne.len() implies ne[j].0 != k@ by {
                        let j0 = if j < i { j } else { j + 1 };
                        assert(ne[j] == old_e[j0]);
                        if ne[j].0 == k@ {
                            lemma_sorted_unique(old_e, i as int, j0);
                        }
                    }
                    assert forall|q: Seq<char>| q != k@ implies #[trigger] lookup(ne, q) == lookup(
                        old_e,
                        q,
                    ) by {
                        if exists|j: int| 0 <= j < ne.len() && ne[j].0 == q {
                            let j = choose|j: int| 0 <= j < ne.len() && ne[j].0 == q;
                            lemma_lookup_at(ne, j);
                            let j0 = if j < i { j } else { j + 1 };
                            assert(ne[j] == old_e[j0]);
                            lemma_lookup_at(old_e, j0);
                        } else {
                            assert forall|j: int| 0 <= j < old_e.len() implies old_e[j].0 != q by {
                                if j < i {
                                    assert(ne[j] == old_e[j]);
                                } else if j > i {
                                    assert(ne[j - 1] == old_e[j]);
                                }
                            }
                        }
                    }
                }
                Some(v)
            },
        }
    }
}

/// Strictly increasing under `lex_lt`: sorted and free of duplicates.
pub open spec fn strictly_sorted(l: Seq<Seq<char>>) -> bool {
    forall|i: int, j: int| 0 <= i < j < l.len() ==> lex_lt(l[i], l[j])
}

/// Inserting into a sequence adds exactly the inserted element to its set.
pub proof fn lemma_seq_insert_set<A>(s: Seq<A>, i: int, x: A)
    requires
        0 <= i <= s.len(),
    ensures
        s.insert(i, x).to_set() == s.to_set().insert(x),
{
    s.insert_ensures(i, x);
    let t = s.insert(i, x);
    assert forall|y: A| t.contains(y) <==> (s.contains(y) || y == x) by {
        if t.contains(y) {
            let k = choose|k: int| 0 <= k < t.len() && t[k] == y;
            if k < i {
                assert(s[k] == y);
            } else if k > i {
                assert(s[k - 1] == y);
            }
        }
        if s.contains(y) {
            let k = choose|k: int| 0 <= k < s.len() && s[k] == y;
            if k < i {
                assert(t[k] == y);
            } else {
                assert(t[k + 1] == y);
            }
        }
        if y == x {
            assert(t[i] == x);
        }
    }
    assert(t.to_set() =~= s.to_set().insert(x));
}

/// Add `x` to the strictly sorted list `v`, keeping it strictly sorted.
#[verifier::rlimit(50)]
pub fn insert_sorted(v: &mut Vec<String>, x: String)
    requires
        strictly_sorted(old(v).deep_view()),
    ensures
        strictly_sorted(final(v).deep_view()),
        final(v).deep_view().to_set() == old(v).deep_view().to_set().insert(x@),
{
    let xc = chars_of(x.as_str());
    let ghost ov = v.deep_view();
    let mut j: usize = 0;
    while j < v.len() && lex_order(&chars_of(v[j].as_str()), &xc) < 0
        invariant
            j <= v@.len(),
            ov == v.deep_view(),
            xc@ == x@,
            forall|k: int| 0 <= k < j ==> lex_lt(ov[k], x@),
        decreases v@.len() - j,
    {
        j += 1;
    }
    if j < v.len() && lex_order(&chars_of(v[j].as_str()), &xc) == 0 {
        assert(ov.to_set().insert(x@) =~= ov.to_set()) by {
            assert(ov[j as int] == x@);
            assert(ov.contains(x@));
        }
        return;
    }
    if j < v.len() {
        proof {
            lemma_lex_total(ov[j as int], x@);
        }
        assert(lex_lt(x@, ov[j as int]));
    }
    let ghost oo = v@;
    v.insert(j, x);
    proof {
        ov.insert_ensures(j as int, x@);
        oo.insert_ensures(j as int, x);
        assert(v.deep_view() =~= ov.insert(j as int, x@));
        lemma_seq_insert_set(ov, j as int, x@);
        let nv = v.deep_view();
        assert forall|a: int, b: int| 0 <= a < b < nv.len() implies lex_lt(nv[a], nv[b]) by {
            if b < j {
            } else if a < j && b == j {
            } else if a < j && b > j {
                if b - 1 > j {
                    lemma_lex_trans(x@, ov[j as int], ov[b - 1]);
                }
                lemma_lex_trans(ov[a], x@, ov[b - 1]);
            } else if a == j {
                if b - 1 > j {
                    lemma_lex_trans(x@, ov[j as int], ov[b - 1]);
                }
            } else {
            }
        }
    }
}

/// The strictly increasing arrangement of the strings in `s`.
pub open spec fn sorted_set(s: Seq<Seq<char>>) -> Seq<Seq<char>> {
    choose|t: Seq<Seq<char>>| strictly_sorted(t) && t.to_set() == s.to_set()
}

/// A strictly increasing list is determined by the set of its elements.
pub proof fn lemma_sorted_set_unique(a: Seq<Seq<char>>, b: Seq<Seq<char>>)
    requires
        strictly_sorted(a),
        strictly_sorted(b),
        a.to_set() == b.to_set(),
    ensures
        a == b,
    decreases a.len(),
{
    if a.len() == 0 {
        if b.len() > 0 {
            assert(b.to_set().contains(b[0]));
        }
        assert(a =~= b);
    } else {
        assert(a.to_set().contains(a[0]));
        assert(b.len() > 0);
        assert(b.to_set().contains(b[0]));
        let j = choose|j: int| 0 <= j < b.len() && b[j] == a[0];
        let i = choose|i: int| 0 <= i < a.len() && a[i] == b[0];
        if j > 0 {
            if i > 0 {
                lemma_lex_asym(a[0], b[0]);
            } else {
                lemma_lex_irrefl(a[0]);
            }
        }
        assert(a[0] == b[0]);
        let x = a[0];
        assert forall|k: int| 0 <= k < a.skip(1).len() implies a.skip(1)[k] != x by {
            lemma_lex_irrefl(x);
        }
        assert forall|k: int| 0 <= k < b.skip(1).len() implies b.skip(1)[k] != x by {
            lemma_lex_irrefl(x);
        }
        assert(a.skip(1).to_set() =~= a.to_set().remove(x)) by {
            assert forall|y: Seq<char>| a.skip(1).contains(y) <==> (a.contains(y) && y != x) by {
                if a.contains(y) && y != x {
                    let k = choose|k: int| 0 <= k < a.len() && a[k] == y;
                    assert(a.skip(1)[k - 1] == y);
                }
                if a.skip(1).contains(y) {
                    let k = choose|k: int| 0 <= k < a.skip(1).len() && a.skip(1)[k] == y;
                    assert(a[k + 1] == y);
                }
            }
        }
        assert(b.skip(1).to_set() =~= b.to_set().remove(x)) by {
            assert forall|y: Seq<char>| b.skip(1).contains(y) <==> (b.contains(y) && y != x) by {
                if b.contains(y) && y != x {
                    let k = choose|k: int| 0 <= k < b.len() && b[k] == y;
                    assert(b.skip(1)[k - 1] == y);
                }
                if b.skip(1).contains(y) {
                    let k = choose|k: int| 0 <= k < b.skip(1).len() && b.skip(1)[k] == y;
                    assert(b[k + 1] == y);
                }
            }
        }
        lemma_sorted_set_unique(a.skip(1), b.skip(1));
        assert(a =~= seq![x] + a.skip(1));
        assert(b =~= seq![x] + b.skip(1));
    }
}

/// A strictly increasing list with the elements of `s` is `sorted_set(s)`.
pub proof fn lemma_is_sorted_set(t: Seq<Seq<char>>, s: Seq<Seq<char>>)
    requires
        strictly_sorted(t),
        t.to_set() == s.to_set(),
    ensures
        t == sorted_set(s),
{
    let c = sorted_set(s);
    assert(strictly_sorted(c) && c.to_set() == s.to_set());
    lemma_sorted_set_unique(t, c);
}

/// The distinct strings of `v` in increasing order (`sort()` then `dedup()`).
pub fn sort_dedup(v: &Vec<String>) -> (r: Vec<String>)
    ensures
        strictly_sorted(r.deep_view()),
        r.deep_view().to_set() == v.deep_view().to_set(),
        r.deep_view() == sorted_set(v.deep_view()),
{
    let mut out: Vec<String> = Vec::new();
    let mut i: usize = 0;
    assert(out.deep_view().to_set() =~= v.deep_view().take(0).to_set());
    while i < v.len()
        invariant
            i <= v@.len(),
            strictly_sorted(out.deep_view()),
            out.deep_view().to_set() == v.deep_view().take(i as int).to_set(),
        decreases v@.len() - i,
    {
        insert_sorted(&mut out, own(v[i].as_str()));
        proof {
            assert(v.deep_view().take(i + 1) =~= v.deep_view().take(i as int).push(v.deep_view()[i as int]));
            v.deep_view().take(i as int).lemma_push_to_set_commute(v.deep_view()[i as int]);
        }
        i += 1;
    }
    assert(v.deep_view().take(v@.len() as int) =~= v.deep_view());
    proof {
        lemma_is_sorted_set(out.deep_view(), v.deep_view());
    }
    out
}

/// `x` placed before the first element ordered after it.
pub open spec fn insert_le(s: Seq<Seq<char>>, x: Seq<char>) -> Seq<Seq<char>>
    decreases s.len(),
{
    if s.len() == 0 {
        seq![x]
    } else if lex_lt(x, s[0]) {
        seq![x] + s
    } else {
        seq![s[0]] + insert_le(s.skip(1), x)
    }
}

/// `s` in increasing order, duplicates kept (`sort()`).
pub open spec fn sorted_list(s: Seq<Seq<char>>) -> Seq<Seq<char>>
    decreases s.len(),
{
    if s.len() == 0 {
        Seq::empty()
    } else {
        insert_le(sorted_list(s.drop_last()), s.last())
    }
}

/// Inserting at the first position ordered after `x` is `insert_le`.
pub proof fn lemma_insert_le_at(s: Seq<Seq<char>>, x: Seq<char>, p: int)
    requires
        0 <= p <= s.len(),
        forall|q: int| 0 <= q < p ==> !lex_lt(x, #[trigger] s[q]),
        p == s.len() || lex_lt(x, s[p]),
    ensures
        insert_le(s, x) == s.insert(p, x),
    decreases p,
{
    if p == 0 {
        assert(s.insert(0, x) =~= seq![x] + s);
        if s.len() == 0 {
            assert(seq![x] + s =~= seq![x]);
        }
    } else {
        assert(!lex_lt(x, s[0]));
        lemma_insert_le_at(s.skip(1), x, p - 1);
        assert(seq![s[0]] + s.skip(1).insert(p - 1, x) =~= s.insert(p, x));
    }
}

/// The strings of `v` in increasing order, duplicates kept (`sort()`).
pub fn sort_strings(v: &Vec<String>) -> (r: Vec<String>)
    ensures
        r.deep_view() == sorted_list(v.deep_view()),
{
    let ghost dv = v.deep_view();
    let mut out: Vec<String> = Vec::new();
    let mut i: usize = 0;
    assert(out.deep_view() =~= sorted_list(dv.take(0)));
    while i < v.len()
        invariant
            i <= dv.len(),
            dv == v.deep_view(),
            out.deep_view() == sorted_list(dv.take(i as int)),
        decreases dv.len() - i,
    {
        let xc = chars_of(v[i].as_str());
        let ghost x = dv[i as int];
        assert(xc@ == x);
        let ghost ov = out.deep_view();
        let mut j: usize = 0;
        while j < out.len() && lex_order(&xc, &chars_of(out[j].as_str())) >= 0
            invariant
                j <= out@.len(),
                ov == out.deep_view(),
                xc@ == x,
                forall|q: int| 0 <= q < j ==> !lex_lt(x, #[trigger] ov[q]),
            decreases out@.len() - j,
        {
            j += 1;
        }
        proof {
            lemma_insert_le_at(ov, x, j as int);
            assert(dv.take(i + 1).drop_last() =~= dv.take(i as int));
        }
        let ghost oo = out@;
        out.insert(j, own(v[i].as_str()));
        proof {
            oo.insert_ensures(j as int, out@[j as int]);
            ov.insert_ensures(j as int, x);
            assert(out.deep_view() =~= ov.insert(j as int, x));
        }
        i += 1;
    }
    assert(dv.take(dv.len() as int) =~= dv);
    out
}

impl TextMap<Vec<String>> {
    /// A copy of this map.
    #[verifier::rlimit(50)]
    pub fn duplicate(&self) -> (r: Self)
        ensures
            r.spec_entries() == self.spec_entries(),
    {
        let mut entries: Vec<(String, Vec<String>)> = Vec::new();
        let mut i: usize = 0;
        while i < self.entries.len()
            invariant
                i <= self.entries@.len(),
                entries@.len() == i,
                forall|j: int|
                    0 <= j < i ==> #[trigger] entries@[j].0@ == self.entries@[j].0@ && entries@[j].1.deep_view()
                        == self.entries@[j].1.deep_view(),
            decreases self.entries@.len() - i,
        {
            let k = own(self.entries[i].0.as_str());
            let v = crate::text::copy_strings(&self.entries[i].1);
            entries.push((k, v));
            i += 1;
        }
        let r = TextMap { entries };
        assert(r.spec_entries() =~= self.spec_entries());
        r
    }
}

impl TextMap<String> {
    /// A copy of this map.
    pub fn duplicate(&self) -> (r: Self)
        ensures
            r.spec_entries() == self.spec_entries(),
    {
        let mut entries: Vec<(String, String)> = Vec::new();
        let mut i: usize = 0;
        while i < self.entries.len()
            invariant
                i <= self.entries@.len(),
                entries@.len() == i,
                forall|j: int|
                    0 <= j < i ==> #[trigger] entries@[j].0@ == self.entries@[j].0@ && entries@[j].1@
                        == self.entries@[j].1@,
            decreases self.entries@.len() - i,
        {
            let k = own(self.entries[i].0.as_str());
            let v = own(self.entries[i].1.as_str());
            entries.push((k, v));
            i += 1;
        }
        let r = TextMap { entries };
        assert(r.spec_entries() =~= self.spec_entries());
        r
    }
}

impl TextMap<crate::artifact::ArtifactId> {
    /// The same map with each id as its text.
    pub fn id_texts(&self) -> (r: TextMap<String>)
        ensures
            r.spec_entries() == self.spec_entries(),
    {
        let mut entries: Vec<(String, String)> = Vec::new();
        let mut i: usize = 0;
        while i < self.entries.len()
            invariant
                i <= self.entries@.len(),
                entries@.len() == i,
                forall|j: int|
                    0 <= j < i ==> #[trigger] entries@[j].0@ == self.entries@[j].0@ && entries@[j].1@
                        == self.entries@[j].1@,
            decreases self.entries@.len() - i,
        {
            let k = own(self.entries[i].0.as_str());
            let v = own(self.entries[i].1.as_str());
            entries.push((k, v));
            i += 1;
        }
        let r = TextMap { entries };
        assert(r.spec_entries() =~= self.spec_entries());
        r
    }
}

/// The elements of `insert_le(s, x)` are those of `s` and `x`.
pub proof fn lemma_insert_le_contains(s: Seq<Seq<char>>, x: Seq<char>)
    ensures
        insert_le(s, x).len() == s.len() + 1,
        forall|y: Seq<char>| #[trigger] insert_le(s, x).contains(y) <==> (s.contains(y) || y == x),
    decreases s.len(),
{
    if s.len() == 0 {
        assert(insert_le(s, x) =~= seq![x]);
        assert forall|y: Seq<char>| insert_le(s, x).contains(y) <==> (s.contains(y) || y == x) by {
            if insert_le(s, x).contains(y) {
                assert(insert_le(s, x)[0] == y);
            }
            if y == x {
                assert(insert_le(s, x)[0] == x);
            }
        }
    } else if lex_lt(x, s[0]) {
        let t = seq![x] + s;
        assert forall|y: Seq<char>| t.contains(y) <==> (s.contains(y) || y == x) by {
            if t.contains(y) {
                let k = choose|k: int| 0 <= k < t.len() && t[k] == y;
                if k > 0 {
                    assert(s[k - 1] == y);
                }
            }
            if s.contains(y) {
                let k = choose|k: int| 0 <= k < s.len() && s[k] == y;
                assert(t[k + 1] == y);
            }
            if y == x {
                assert(t[0] == x);
            }
        }
    } else {
        lemma_insert_le_contains(s.skip(1), x);
        let inner = insert_le(s.skip(1), x);
        let t = seq![s[0]] + inner;
        assert forall|y: Seq<char>| t.contains(y) <==> (s.contains(y) || y == x) by {
            if t.contains(y) {
                let k = choose|k: int| 0 <= k < t.len() && t[k] == y;
                if k > 0 {
                    assert(inner.contains(y));
                    if s.skip(1).contains(y) {
                        let m = choose|m: int| 0 <= m < s.skip(1).len() && s.skip(1)[m] == y;
                        assert(s[m + 1] == y);
                    }
                } else {
                    assert(s[0] == y);
                }
            }
            if s.contains(y) {
                let k = choose|k: int| 0 <= k < s.len() && s[k] == y;
                if k == 0 {
                    assert(t[0] == y);
                } else {
                    assert(s.skip(1)[k - 1] == y);
                    assert(inner.contains(y));
                    let m = choose|m: int| 0 <= m < inner.len() && inner[m] == y;
                    assert(t[m + 1] == y);
                }
            }
            if y == x {
                assert(inner.contains(x));
                let m = choose|m: int| 0 <= m < inner.len() && inner[m] == x;
                assert(t[m + 1] == x);
            }
        }
    }
}

/// Inserting a new element into a strictly sorted list keeps it strictly sorted.
pub proof fn lemma_insert_le_sorted(s: Seq<Seq<char>>, x: Seq<char>)
    requires
        strictly_sorted(s),
        !s.contains(x),
    ensures
        strictly_sorted(insert_le(s, x)),
    decreases s.len(),
{
    if s.len() == 0 {
    } else if lex_lt(x, s[0]) {
        let t = seq![x] + s;
        assert forall|a: int, b: int| 0 <= a < b < t.len() implies lex_lt(t[a], t[b]) by {
            if a == 0 {
                if b > 1 {
                    lemma_lex_trans(x, s[0], s[b - 1]);
                }
            }
        }
    } else {
        lemma_lex_total(x, s[0]);
        assert(s[0] != x);
        assert(lex_lt(s[0], x));
        assert(!s.skip(1).contains(x)) by {
            if s.skip(1).contains(x) {
                let m = choose|m: int| 0 <= m < s.skip(1).len() && s.skip(1)[m] == x;
                assert(s[m + 1] == x);
            }
        }
        lemma_insert_le_sorted(s.skip(1), x);
        lemma_insert_le_contains(s.skip(1), x);
        let inner = insert_le(s.skip(1), x);
        let t = seq![s[0]] + inner;
        assert forall|a: int, b: int| 0 <= a < b < t.len() implies lex_lt(t[a], t[b]) by {
            if a == 0 {
                let y = inner[b - 1];
                assert(inner.contains(y));
                if y != x {
                    assert(s.skip(1).contains(y));
                    let m = choose|m: int| 0 <= m < s.skip(1).len() && s.skip(1)[m] == y;
                    assert(s[m + 1] == y);
                }
            } else {
                assert(t[a] == inner[a - 1]);
                assert(t[b] == inner[b - 1]);
            }
        }
    }
}

/// `sorted_set(s)` is strictly sorted and holds exactly the elements of `s`.
pub proof fn lemma_sorted_set(s: Seq<Seq<char>>)
    ensures
        strictly_sorted(sorted_set(s)),
        sorted_set(s).to_set() == s.to_set(),
    decreases s.len(),
{
    if s.len() == 0 {
        assert(Seq::<Seq<char>>::empty().to_set() =~= s.to_set());
        lemma_is_sorted_set(Seq::empty(), s);
    } else {
        let p = s.drop_last();
        let x = s.last();
        lemma_sorted_set(p);
        let t = sorted_set(p);
        assert(s =~= p.push(x));
        p.lemma_push_to_set_commute(x);
        if t.contains(x) {
            assert(t.to_set().contains(x));
            assert(s.to_set() =~= t.to_set());
            lemma_is_sorted_set(t, s);
        } else {
            lemma_insert_le_sorted(t, x);
            lemma_insert_le_contains(t, x);
            assert(insert_le(t, x).to_set() =~= t.to_set().insert(x));
            lemma_is_sorted_set(insert_le(t, x), s);
        }
    }
}

/// A well-formed map with one key holding `k` is exactly that entry.
pub proof fn lemma_single_entry<V: DeepView>(m: TextMap<V>, k: Seq<char>, v: V::V)
    requires
        m.wf(),
        m.spec_get(k) == Some(v),
        forall|q: Seq<char>| #[trigger] m.spec_get(q).is_some() ==> q == k,
    ensures
        m.spec_entries() == seq![(k, v)],
{
    let e = m.spec_entries();
    let i = choose|i: int| 0 <= i < e.len() && e[i].0 == k;
    lemma_lookup_at(e, i);
    assert forall|j: int| #![trigger e[j]] 0 <= j < e.len() implies j == i by {
        lemma_lookup_at(e, j);
        assert(m.spec_get(e[j].0).is_some());
        if j != i {
            lemma_sorted_unique(e, i, j);
        }
    }
    if e.len() > 1 {
        let _ = e[0];
        let _ = e[1];
        assert(false);
    }
    assert(e.len() == 1);
    assert(e =~= seq![(k, v)]);
}

} // verus!
