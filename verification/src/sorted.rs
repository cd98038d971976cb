use vstd::prelude::*;

use crate::utils::chars_of;

verus! {

// Name-keyed maps, kept as lists of (name, value) pairs sorted by name with each name once,
// the way an ordered map lists its entries.

/// `a` comes before `b` in dictionary order of their characters (the order of `String`).
pub open spec fn seq_lt(a: Seq<char>, b: Seq<char>) -> bool
    decreases a.len(),
{
    if b.len() == 0 {
        false
    } else if a.len() == 0 {
        true
    } else if a[0] != b[0] {
        a[0] < b[0]
    } else {
        seq_lt(a.drop_first(), b.drop_first())
    }
}

/// The map `m` with `k` set to `v`: an entry with the same name is replaced, otherwise the new
/// entry goes before the first entry whose name comes after `k`. `kf` gives an entry's name.
pub open spec fn insert_sorted<K, V>(m: Seq<(K, V)>, k: K, v: V, kf: spec_fn(K) -> Seq<char>) -> Seq<(K, V)>
    decreases m.len(),
{
    if m.len() == 0 {
        seq![(k, v)]
    } else if kf(m[0].0) == kf(k) {
        seq![(k, v)] + m.drop_first()
    } else if seq_lt(kf(k), kf(m[0].0)) {
        seq![(k, v)] + m
    } else {
        seq![m[0]] + insert_sorted(m.drop_first(), k, v, kf)
    }
}

/// The map made by setting each pair of `pairs` in turn, starting from no entries
/// (a later pair with a name replaces an earlier one).
pub open spec fn from_pairs<K, V>(pairs: Seq<(K, V)>, kf: spec_fn(K) -> Seq<char>) -> Seq<(K, V)>
    decreases pairs.len(),
{
    if pairs.len() == 0 {
        Seq::empty()
    } else {
        insert_sorted(from_pairs(pairs.drop_last(), kf), pairs.last().0, pairs.last().1, kf)
    }
}

/// The name of a string key.
pub open spec fn string_key(s: String) -> Seq<char> {
    s@
}

/// The name of a key that is already a sequence of characters.
pub open spec fn seq_key(s: Seq<char>) -> Seq<char> {
    s
}

/// Pairs of a map seen through the views of their names and the function `vf` on their values.
pub open spec fn view_pairs<V, W>(m: Seq<(String, V)>, vf: spec_fn(V) -> W) -> Seq<(Seq<char>, W)> {
    Seq::new(m.len(), |i: int| (m[i].0@, vf(m[i].1)))
}

/// Index of the entry named `k`, if any.
pub open spec fn find_key<K, V>(m: Seq<(K, V)>, k: Seq<char>, kf: spec_fn(K) -> Seq<char>) -> Option<int>
    decreases m.len(),
{
    if m.len() == 0 {
        None
    } else if kf(m[0].0) == k {
        Some(0)
    } else {
        match find_key(m.drop_first(), k, kf) {
            Some(i) => Some(i + 1),
            None => None,
        }
    }
}

/// Whether `a` comes before `b` in dictionary order.
pub fn string_lt(a: &String, b: &String) -> (r: bool)
    ensures
        r == seq_lt(a@, b@),
{
    let av = chars_of(a.as_str());
    let bv = chars_of(b.as_str());
    let mut i: usize = 0;
    proof {
        assert(a@.skip(0) =~= a@);
        assert(b@.skip(0) =~= b@);
    }
    while i < av.len() && i < bv.len() && av[i] == bv[i]
        invariant
            av@ == a@,
            bv@ == b@,
            i <= av@.len(),
            i <= bv@.len(),
            seq_lt(a@, b@) == seq_lt(a@.skip(i as int), b@.skip(i as int)),
        decreases av.len() - i,
    {
        proof {
            assert(a@.skip(i as int).drop_first() =~= a@.skip(i + 1));
            assert(b@.skip(i as int).drop_first() =~= b@.skip(i + 1));
        }
        i += 1;
    }
    if i >= bv.len() {
        false
    } else if i >= av.len() {
        true
    } else {
        av[i] < bv[i]
    }
}

proof fn lemma_insert_sorted_at<K, V>(m: Seq<(K, V)>, k: K, v: V, kf: spec_fn(K) -> Seq<char>, i: int)
    requires
        0 <= i <= m.len(),
        forall|j: int| 0 <= j < i ==> kf(#[trigger] m[j].0) != kf(k) && !seq_lt(kf(k), kf(m[j].0)),
        i < m.len() ==> kf(m[i].0) == kf(k) || seq_lt(kf(k), kf(m[i].0)),
    ensures
        insert_sorted(m, k, v, kf) == if i < m.len() && kf(m[i].0) == kf(k) {
            m.take(i) + seq![(k, v)] + m.skip(i + 1)
        } else {
            m.take(i) + seq![(k, v)] + m.skip(i)
        },
    decreases m.len(),
{
    if m.len() == 0 {
        assert(m.take(i) + seq![(k, v)] + m.skip(i) =~= seq![(k, v)]);
    } else if i == 0 {
        assert(m.take(0) + seq![(k, v)] + m.skip(1) =~= seq![(k, v)] + m.drop_first());
        assert(m.take(0) + seq![(k, v)] + m.skip(0) =~= seq![(k, v)] + m);
    } else {
        let t = m.drop_first();
        assert forall|j: int| 0 <= j < i - 1 implies kf(#[trigger] t[j].0) != kf(k) && !seq_lt(kf(k), kf(t[j].0)) by {
            assert(t[j] == m[j + 1]);
        }
        assert(m[0] == m[0]);
        lemma_insert_sorted_at(t, k, v, kf, i - 1);
        if i < m.len() && kf(m[i].0) == kf(k) {
            assert(seq![m[0]] + (t.take(i - 1) + seq![(k, v)] + t.skip(i)) =~= m.take(i) + seq![(k, v)] + m.skip(i + 1));
        } else {
            assert(seq![m[0]] + (t.take(i - 1) + seq![(k, v)] + t.skip(i - 1)) =~= m.take(i) + seq![(k, v)] + m.skip(i));
        }
    }
}

/// Sets the entry named `k` to `v`.
pub fn insert_named<V>(m: &mut Vec<(String, V)>, k: String, v: V)
    ensures
        final(m)@ == insert_sorted(old(m)@, k, v, |s: String| string_key(s)),
{
    let ghost kf = |s: String| string_key(s);
    let mut i: usize = 0;
    while i < m.len() && !m[i].0.eq(&k) && !string_lt(&k, &m[i].0)
        invariant
            i <= m@.len(),
            *m == *old(m),
            forall|j: int| 0 <= j < i ==> (#[trigger] m@[j].0)@ != k@ && !seq_lt(k@, m@[j].0@),
        decreases m.len() - i,
    {
        i += 1;
    }
    proof {
        lemma_insert_sorted_at(m@, k, v, kf, i as int);
    }
    if i < m.len() && m[i].0.eq(&k) {
        let ghost before = m@;
        m.remove(i);
        m.insert(i, (k, v));
        proof {
            assert(m@ =~= before.take(i as int) + seq![(k, v)] + before.skip(i + 1));
        }
    } else {
        let ghost before = m@;
        m.insert(i, (k, v));
        proof {
            assert(m@ =~= before.take(i as int) + seq![(k, v)] + before.skip(i as int));
        }
    }
}

/// Builds the map that setting each pair in turn gives.
pub fn collect_named<V>(pairs: Vec<(String, V)>) -> (r: Vec<(String, V)>)
    ensures
        r@ == from_pairs(pairs@, |s: String| string_key(s)),
{
    let ghost kf = |s: String| string_key(s);
    let ghost all = pairs@;
    let mut m: Vec<(String, V)> = Vec::new();
    let len = pairs.len();
    let mut rest = pairs;
    let ghost n = len as int;
    let mut i: usize = 0;
    while rest.len() > 0
        invariant
            n == all.len(),
            n <= usize::MAX,
            rest@.len() + i == n,
            rest@ == all.skip(i as int),
            m@ == from_pairs(all.take(i as int), |s: String| string_key(s)),
        decreases rest.len(),
    {
        let e = rest.remove(0);
        proof {
            assert(all[i as int] == e);
            assert(all.take(i + 1).drop_last() =~= all.take(i as int));
            assert(rest@ =~= all.skip(i + 1));
        }
        let (k, v) = e;
        insert_named(&mut m, k, v);
        i += 1;
    }
    proof {
        assert(all.take(n as int) =~= all);
    }
    m
}

/// The value of the entry named `k`, if any.
pub fn get_named<'a, V>(m: &'a Vec<(String, V)>, k: &String) -> (r: Option<&'a V>)
    ensures
        r == match find_key(m@, k@, |s: String| string_key(s)) {
            Some(i) => Some(&m@[i].1),
            None => None,
        },
{
    let mut i: usize = 0;
    proof {
        assert(m@.skip(0) =~= m@);
    }
    while i < m.len()
        invariant
            i <= m@.len(),
            find_key(m@, k@, |s: String| string_key(s)) == match find_key(m@.skip(i as int), k@, |s: String| string_key(s)) {
                Some(j) => Some(j + i),
                None => None::<int>,
            },
        decreases m.len() - i,
    {
        proof {
            assert(m@.skip(i as int).drop_first() =~= m@.skip(i + 1));
        }
        if m[i].0.eq(k) {
            return Some(&m[i].1);
        }
        i += 1;
    }
    None
}

pub proof fn lemma_view_insert<V, W>(m: Seq<(String, V)>, k: String, v: V, vf: spec_fn(V) -> W)
    ensures
        view_pairs(insert_sorted(m, k, v, |s: String| string_key(s)), vf)
            == insert_sorted(view_pairs(m, vf), k@, vf(v), |s: Seq<char>| seq_key(s)),
    decreases m.len(),
{
    let kf = |s: String| string_key(s);
    let sf = |s: Seq<char>| seq_key(s);
    let vm = view_pairs(m, vf);
    if m.len() == 0 {
        assert(view_pairs(seq![(k, v)], vf) =~= seq![(k@, vf(v))]);
    } else {
        assert(vm[0] == (m[0].0@, vf(m[0].1)));
        assert(view_pairs(m.drop_first(), vf) =~= vm.drop_first());
        if kf(m[0].0) == kf(k) {
            assert(view_pairs(seq![(k, v)] + m.drop_first(), vf) =~= seq![(k@, vf(v))] + vm.drop_first());
        } else if seq_lt(kf(k), kf(m[0].0)) {
            assert(view_pairs(seq![(k, v)] + m, vf) =~= seq![(k@, vf(v))] + vm);
        } else {
            lemma_view_insert(m.drop_first(), k, v, vf);
            assert(view_pairs(seq![m[0]] + insert_sorted(m.drop_first(), k, v, kf), vf) =~= seq![vm[0]]
                + view_pairs(insert_sorted(m.drop_first(), k, v, kf), vf));
        }
    }
}

pub proof fn lemma_view_from_pairs<V, W>(pairs: Seq<(String, V)>, vf: spec_fn(V) -> W)
    ensures
        view_pairs(from_pairs(pairs, |s: String| string_key(s)), vf)
            == from_pairs(view_pairs(pairs, vf), |s: Seq<char>| seq_key(s)),
    decreases pairs.len(),
{
    let kf = |s: String| string_key(s);
    let sf = |s: Seq<char>| seq_key(s);
    if pairs.len() == 0 {
        assert(view_pairs(Seq::<(String, V)>::empty(), vf) =~= Seq::empty());
    } else {
        let vp = view_pairs(pairs, vf);
        assert(view_pairs(pairs.drop_last(), vf) =~= vp.drop_last());
        lemma_view_from_pairs(pairs.drop_last(), vf);
        lemma_view_insert(from_pairs(pairs.drop_last(), kf), pairs.last().0, pairs.last().1, vf);
    }
}

/// Looking a name up in a map seen through its views finds the same entry.
pub proof fn lemma_find_key_view<V, W>(m: Seq<(String, V)>, k: Seq<char>, vf: spec_fn(V) -> W)
    ensures
        find_key(view_pairs(m, vf), k, |s: Seq<char>| seq_key(s)) == find_key(m, k, |s: String| string_key(s)),
    decreases m.len(),
{
    if m.len() > 0 {
        assert(view_pairs(m.drop_first(), vf) =~= view_pairs(m, vf).drop_first());
        lemma_find_key_view(m.drop_first(), k, vf);
    }
}

/// The entry `find_key` finds is in range and has the name looked for.
pub proof fn lemma_find_key_found<K, V>(m: Seq<(K, V)>, k: Seq<char>, kf: spec_fn(K) -> Seq<char>)
    ensures
        find_key(m, k, kf) matches Some(i) ==> 0 <= i < m.len() && kf(m[i].0) == k,
    decreases m.len(),
{
    if m.len() > 0 {
        lemma_find_key_found(m.drop_first(), k, kf);
    }
}

/// The names of the entries of `m`.
pub open spec fn names<K, V>(m: Seq<(K, V)>, kf: spec_fn(K) -> Seq<char>) -> Set<Seq<char>> {
    Set::new(|k: Seq<char>| exists|i: int| 0 <= i < m.len() && kf(#[trigger] m[i].0) == k)
}

/// Setting an entry adds its name to the names of a map.
pub proof fn lemma_insert_names<K, V>(m: Seq<(K, V)>, k: K, v: V, kf: spec_fn(K) -> Seq<char>)
    ensures
        names(insert_sorted(m, k, v, kf), kf) == names(m, kf).insert(kf(k)),
    decreases m.len(),
{
    let r = insert_sorted(m, k, v, kf);
    if m.len() == 0 {
        assert(r[0].0 == k);
        assert(names(r, kf) =~= names(m, kf).insert(kf(k)));
    } else if kf(m[0].0) == kf(k) {
        assert forall|x: Seq<char>| names(r, kf).contains(x) <==> names(m, kf).insert(kf(k)).contains(x) by {
            if names(m, kf).contains(x) {
                let i = choose|i: int| 0 <= i < m.len() && kf(#[trigger] m[i].0) == x;
                if i == 0 {
                    assert(kf(r[0].0) == x);
                } else {
                    assert(r[i].0 == m[i].0);
                }
            }
            if names(r, kf).contains(x) {
                let i = choose|i: int| 0 <= i < r.len() && kf(#[trigger] r[i].0) == x;
                if i > 0 {
                    assert(r[i].0 == m[i].0);
                }
            }
            if x == kf(k) {
                assert(kf(r[0].0) == x);
            }
        }
        assert(names(r, kf) =~= names(m, kf).insert(kf(k)));
    } else if seq_lt(kf(k), kf(m[0].0)) {
        assert forall|x: Seq<char>| names(r, kf).contains(x) <==> names(m, kf).insert(kf(k)).contains(x) by {
            if names(m, kf).contains(x) {
                let i = choose|i: int| 0 <= i < m.len() && kf(#[trigger] m[i].0) == x;
                assert(r[i + 1].0 == m[i].0);
            }
            if names(r, kf).contains(x) {
                let i = choose|i: int| 0 <= i < r.len() && kf(#[trigger] r[i].0) == x;
                if i > 0 {
                    assert(r[i].0 == m[i - 1].0);
                }
            }
            if x == kf(k) {
                assert(kf(r[0].0) == x);
            }
        }
        assert(names(r, kf) =~= names(m, kf).insert(kf(k)));
    } else {
        let t = m.drop_first();
        let rt = insert_sorted(t, k, v, kf);
        lemma_insert_names(t, k, v, kf);
        assert forall|x: Seq<char>| names(r, kf).contains(x) <==> names(m, kf).insert(kf(k)).contains(x) by {
            if names(m, kf).contains(x) {
                let i = choose|i: int| 0 <= i < m.len() && kf(#[trigger] m[i].0) == x;
                if i == 0 {
                    assert(kf(r[0].0) == x);
                } else {
                    assert(t[i - 1].0 == m[i].0);
                    assert(names(t, kf).contains(x));
                    assert(names(rt, kf).contains(x));
                    let j = choose|j: int| 0 <= j < rt.len() && kf(#[trigger] rt[j].0) == x;
                    assert(r[j + 1].0 == rt[j].0);
                }
            }
            if names(r, kf).contains(x) {
                let i = choose|i: int| 0 <= i < r.len() && kf(#[trigger] r[i].0) == x;
                if i > 0 {
                    assert(r[i].0 == rt[i - 1].0);
                    assert(names(rt, kf).contains(x));
                    if x != kf(k) {
                        assert(names(t, kf).contains(x));
                        let j = choose|j: int| 0 <= j < t.len() && kf(#[trigger] t[j].0) == x;
                        assert(m[j + 1].0 == t[j].0);
                    }
                } else {
                    assert(r[0].0 == m[0].0);
                }
            }
            if x == kf(k) {
                assert(names(rt, kf).contains(x));
                let j = choose|j: int| 0 <= j < rt.len() && kf(#[trigger] rt[j].0) == x;
                assert(r[j + 1].0 == rt[j].0);
            }
        }
        assert(names(r, kf) =~= names(m, kf).insert(kf(k)));
    }
}

} // verus!
