//! A stable sort by keys, as `slice::sort_by_key` performs one. Keys are pairs of
//! integers, ordered lexicographically.
use vstd::prelude::*;

verus! {

/// A sort key: two integers, compared first by the first, then by the second.
pub type SortKey = (i128, i128);

/// `a` orders at or before `b`.
pub open spec fn key_le(a: SortKey, b: SortKey) -> bool {
    a.0 < b.0 || (a.0 == b.0 && a.1 <= b.1)
}

/// The elements of `s` whose key is `k`, in their order in `s`.
pub open spec fn keyed<T>(s: Seq<(SortKey, T)>, k: SortKey) -> Seq<(SortKey, T)>
    decreases s.len(),
{
    if s.len() == 0 {
        s
    } else if s.last().0 == k {
        keyed(s.drop_last(), k).push(s.last())
    } else {
        keyed(s.drop_last(), k)
    }
}

/// The keys of `s` never decrease.
pub open spec fn sorted_by_key<T>(s: Seq<(SortKey, T)>) -> bool {
    forall|i: int, j: int| 0 <= i <= j < s.len() ==> key_le(s[i].0, s[j].0)
}

/// `out` is `inp` stably sorted by key: its keys ascend, and the elements that share
/// a key keep their order from `inp`.
pub open spec fn is_stable_sort_of<T>(out: Seq<(SortKey, T)>, inp: Seq<(SortKey, T)>) -> bool {
    &&& sorted_by_key(out)
    &&& forall|k: SortKey| #[trigger] keyed(out, k) == keyed(inp, k)
}

/// `inp` stably sorted by key. There is exactly one such sequence.
pub open spec fn stable_sorted<T>(inp: Seq<(SortKey, T)>) -> Seq<(SortKey, T)> {
    choose|out: Seq<(SortKey, T)>| is_stable_sort_of(out, inp)
}

/// Picking by key distributes over concatenation.
pub proof fn lemma_keyed_add<T>(a: Seq<(SortKey, T)>, b: Seq<(SortKey, T)>, k: SortKey)
    ensures
        keyed(a + b, k) == keyed(a, k) + keyed(b, k),
    decreases b.len(),
{
    if b.len() == 0 {
        assert(a + b =~= a);
        assert(keyed(a, k) + keyed(b, k) =~= keyed(a, k));
    } else {
        assert((a + b).drop_last() =~= a + b.drop_last());
        lemma_keyed_add(a, b.drop_last(), k);
        if b.last().0 == k {
            assert(keyed(a, k) + keyed(b, k) =~= (keyed(a, k) + keyed(b.drop_last(), k)).push(
                b.last(),
            ));
        }
    }
}

/// No element of `s` has key `k`, so picking by `k` yields nothing.
pub proof fn lemma_keyed_none<T>(s: Seq<(SortKey, T)>, k: SortKey)
    requires
        forall|i: int| 0 <= i < s.len() ==> s[i].0 != k,
    ensures
        keyed(s, k) == Seq::<(SortKey, T)>::empty(),
    decreases s.len(),
{
    if s.len() > 0 {
        lemma_keyed_none(s.drop_last(), k);
    }
}

/// Something picked by `k` has key `k` and comes from `s`.
proof fn lemma_keyed_some<T>(s: Seq<(SortKey, T)>, k: SortKey)
    requires
        keyed(s, k).len() > 0,
    ensures
        exists|i: int| 0 <= i < s.len() && s[i].0 == k,
    decreases s.len(),
{
    if s.last().0 != k {
        lemma_keyed_some(s.drop_last(), k);
        let i = choose|i: int| 0 <= i < s.drop_last().len() && s.drop_last()[i].0 == k;
        assert(s[i].0 == k);
    }
}

/// Two stable sorts of the same elements are the same sequence.
pub proof fn lemma_stable_sort_unique<T>(o1: Seq<(SortKey, T)>, o2: Seq<(SortKey, T)>)
    requires
        sorted_by_key(o1),
        sorted_by_key(o2),
        forall|k: SortKey| #[trigger] keyed(o1, k) == keyed(o2, k),
    ensures
        o1 == o2,
    decreases o1.len() + o2.len(),
{
    if o1.len() == 0 && o2.len() == 0 {
        assert(o1 =~= o2);
    } else if o1.len() == 0 {
        assert(keyed(o2, o2.last().0).len() > 0);
        assert(keyed(o1, o2.last().0) == keyed(o2, o2.last().0));
    } else if o2.len() == 0 {
        assert(keyed(o1, o1.last().0).len() > 0);
        assert(keyed(o1, o1.last().0) == keyed(o2, o1.last().0));
    } else {
        let k1 = o1.last().0;
        let k2 = o2.last().0;
        assert(keyed(o1, k1).len() > 0);
        assert(keyed(o2, k2).len() > 0);
        assert(keyed(o1, k2) == keyed(o2, k2));
        assert(keyed(o2, k1) == keyed(o1, k1));
        lemma_keyed_some(o2, k1);
        lemma_keyed_some(o1, k2);
        let i2 = choose|i: int| 0 <= i < o2.len() && o2[i].0 == k1;
        let i1 = choose|i: int| 0 <= i < o1.len() && o1[i].0 == k2;
        assert(key_le(o2[i2].0, o2[o2.len() - 1].0));
        assert(key_le(o1[i1].0, o1[o1.len() - 1].0));
        assert(k1 == k2);
        assert(o1.last() == keyed(o1, k1).last());
        assert(o2.last() == keyed(o2, k1).last());
        let d1 = o1.drop_last();
        let d2 = o2.drop_last();
        assert forall|k: SortKey| #[trigger] keyed(d1, k) == keyed(d2, k) by {
            if k == k1 {
                assert(keyed(d1, k) =~= keyed(o1, k).drop_last());
                assert(keyed(d2, k) =~= keyed(o2, k).drop_last());
            } else {
                assert(keyed(o1, k) == keyed(d1, k));
                assert(keyed(o2, k) == keyed(d2, k));
            }
        }
        lemma_stable_sort_unique(d1, d2);
        assert(o1 =~= d1.push(o1.last()));
        assert(o2 =~= d2.push(o2.last()));
    }
}

/// A stable sort of `inp` is the one `stable_sorted` names.
pub proof fn lemma_stable_sorted<T>(out: Seq<(SortKey, T)>, inp: Seq<(SortKey, T)>)
    requires
        is_stable_sort_of(out, inp),
    ensures
        stable_sorted(inp) == out,
{
    let o = stable_sorted(inp);
    assert(is_stable_sort_of(o, inp));
    assert forall|k: SortKey| #[trigger] keyed(o, k) == keyed(out, k) by {
        assert(keyed(o, k) == keyed(inp, k));
        assert(keyed(out, k) == keyed(inp, k));
    }
    lemma_stable_sort_unique(o, out);
}

/// Whether key `a` orders after key `b`.
fn key_gt(a: SortKey, b: SortKey) -> (r: bool)
    ensures
        r == !key_le(a, b),
{
    a.0 > b.0 || (a.0 == b.0 && a.1 > b.1)
}

/// `items` stably sorted by their keys.
pub fn stable_sort_by_key<T>(items: Vec<(SortKey, T)>) -> (out: Vec<(SortKey, T)>)
    ensures
        out@ == stable_sorted(items@),
        is_stable_sort_of(out@, items@),
{
    let ghost orig = items@;
    let mut rest = items;
    let mut out: Vec<(SortKey, T)> = Vec::new();
    let n = rest.len();
    let mut i: usize = 0;
    assert(orig.skip(0) =~= orig);
    while i < n
        invariant
            n == orig.len(),
            i <= n,
            rest@ == orig.skip(i as int),
            sorted_by_key(out@),
            forall|k: SortKey| #[trigger] keyed(out@, k) == keyed(orig.take(i as int), k),
        decreases n - i,
    {
        let x = rest.remove(0);
        assert(x == orig[i as int]);
        assert(rest@ =~= orig.skip(i + 1));
        let key = x.0;
        let mut p = out.len();
        while p > 0 && key_gt(out[p - 1].0, key)
            invariant
                p <= out@.len(),
                sorted_by_key(out@),
                forall|j: int| p <= j < out@.len() ==> !key_le(#[trigger] out@[j].0, key),
            decreases p,
        {
            p -= 1;
        }
        let ghost before = out@;
        proof {
            assert forall|j: int| 0 <= j < p implies key_le(#[trigger] before[j].0, key) by {
                assert(key_le(before[p - 1].0, key));
                assert(key_le(before[j].0, before[p - 1].0));
            }
        }
        out.insert(p, x);
        proof {
            let lo = before.take(p as int);
            let hi = before.skip(p as int);
            assert(before =~= lo + hi);
            assert(out@ =~= lo + seq![x] + hi);
            assert(orig.take(i + 1) =~= orig.take(i as int).push(x));
            assert(orig.take(i + 1).drop_last() =~= orig.take(i as int));
            assert(orig.take(i + 1).last() == x);
            assert forall|k: SortKey| #[trigger] keyed(out@, k) == keyed(orig.take(i + 1), k) by {
                lemma_keyed_add(lo + seq![x], hi, k);
                lemma_keyed_add(lo, seq![x], k);
                lemma_keyed_add(lo, hi, k);
                assert(seq![x].drop_last() =~= Seq::<(SortKey, T)>::empty());
                assert(keyed(Seq::<(SortKey, T)>::empty(), k) =~= Seq::<(SortKey, T)>::empty());
                assert(keyed(seq![x], k) =~= if x.0 == k {
                    seq![x]
                } else {
                    Seq::<(SortKey, T)>::empty()
                });
                if k == key {
                    assert forall|j: int| 0 <= j < hi.len() implies hi[j].0 != k by {
                        assert(hi[j] == before[p + j]);
                    }
                    lemma_keyed_none(hi, k);
                    assert(keyed(orig.take(i + 1), k) == keyed(orig.take(i as int), k).push(x));
                    assert(keyed(out@, k) =~= keyed(before, k).push(x));
                } else {
                    assert(keyed(orig.take(i + 1), k) == keyed(orig.take(i as int), k));
                    assert(keyed(out@, k) =~= keyed(before, k));
                }
            }
            assert forall|a: int, b: int| 0 <= a <= b < out@.len() implies key_le(
                out@[a].0,
                out@[b].0,
            ) by {
                if a < p && b > p {
                    assert(out@[a] == before[a]);
                    assert(out@[b] == before[b - 1]);
                    assert(key_le(before[a].0, key));
                } else if a < p && b < p {
                    assert(out@[a] == before[a] && out@[b] == before[b]);
                } else if a < p && b == p {
                    assert(out@[a] == before[a]);
                } else if a == p && b > p {
                    assert(out@[b] == before[b - 1]);
                } else if a > p {
                    assert(out@[a] == before[a - 1] && out@[b] == before[b - 1]);
                }
            }
        }
        i += 1;
    }
    assert(orig.take(n as int) =~= orig);
    proof {
        lemma_stable_sorted(out@, orig);
    }
    out
}

/// An element is among those its own key picks.
proof fn lemma_keyed_contains<T>(s: Seq<(SortKey, T)>, j: int)
    requires
        0 <= j < s.len(),
    ensures
        keyed(s, s[j].0).contains(s[j]),
    decreases s.len(),
{
    if j == s.len() - 1 {
        assert(keyed(s, s[j].0).last() == s[j]);
    } else {
        lemma_keyed_contains(s.drop_last(), j);
        let k = s[j].0;
        let picked = keyed(s.drop_last(), k);
        let w = choose|w: int| 0 <= w < picked.len() && picked[w] == s[j];
        if s.last().0 == k {
            assert(keyed(s, k)[w] == s[j]);
        }
    }
}

/// What a key picks comes from the sequence.
proof fn lemma_keyed_from<T>(s: Seq<(SortKey, T)>, k: SortKey, x: (SortKey, T))
    requires
        keyed(s, k).contains(x),
    ensures
        s.contains(x),
    decreases s.len(),
{
    if s.len() > 0 {
        let picked = keyed(s, k);
        let w = choose|w: int| 0 <= w < picked.len() && picked[w] == x;
        if s.last().0 == k && w == picked.len() - 1 {
            assert(s[s.len() - 1] == x);
        } else {
            assert(keyed(s.drop_last(), k)[w] == x);
            lemma_keyed_from(s.drop_last(), k, x);
            let v = choose|v: int| 0 <= v < s.drop_last().len() && s.drop_last()[v] == x;
            assert(s[v] == x);
        }
    }
}

/// A stable sort holds only elements of what it sorted, so it keeps every property
/// they all have.
pub proof fn lemma_stable_sort_keeps<T>(
    out: Seq<(SortKey, T)>,
    inp: Seq<(SortKey, T)>,
    p: spec_fn((SortKey, T)) -> bool,
)
    requires
        is_stable_sort_of(out, inp),
        forall|i: int| 0 <= i < inp.len() ==> p(#[trigger] inp[i]),
    ensures
        forall|j: int| 0 <= j < out.len() ==> p(#[trigger] out[j]),
{
    assert forall|j: int| 0 <= j < out.len() implies p(#[trigger] out[j]) by {
        lemma_keyed_contains(out, j);
        assert(keyed(out, out[j].0) == keyed(inp, out[j].0));
        lemma_keyed_from(inp, out[j].0, out[j]);
        let v = choose|v: int| 0 <= v < inp.len() && inp[v] == out[j];
        assert(p(inp[v]));
    }
}

/// `s` with `x` inserted after the last element whose key orders at or before its own,
/// counting from the end: after every element with an equal key.
pub open spec fn insert_by_key<T>(s: Seq<(SortKey, T)>, x: (SortKey, T)) -> Seq<(SortKey, T)>
    decreases s.len(),
{
    if s.len() == 0 {
        seq![x]
    } else if key_le(s.last().0, x.0) {
        s.push(x)
    } else {
        insert_by_key(s.drop_last(), x).push(s.last())
    }
}

/// `inp` sorted by inserting its elements one by one, in order.
pub open spec fn insertion_sorted<T>(inp: Seq<(SortKey, T)>) -> Seq<(SortKey, T)>
    decreases inp.len(),
{
    if inp.len() == 0 {
        inp
    } else {
        insert_by_key(insertion_sorted(inp.drop_last()), inp.last())
    }
}

/// Inserting `x` adds it at the end of the elements with its key.
proof fn lemma_insert_keyed<T>(s: Seq<(SortKey, T)>, x: (SortKey, T), k: SortKey)
    ensures
        keyed(insert_by_key(s, x), k) == if x.0 == k {
            keyed(s, k).push(x)
        } else {
            keyed(s, k)
        },
    decreases s.len(),
{
    if s.len() == 0 {
        assert(seq![x].drop_last() =~= s);
    } else if key_le(s.last().0, x.0) {
        assert(s.push(x).drop_last() =~= s);
    } else {
        let d = s.drop_last();
        lemma_insert_keyed(d, x, k);
        assert(insert_by_key(d, x).push(s.last()).drop_last() =~= insert_by_key(d, x));
    }
}

/// Inserting keeps every key at or before a bound that all keys, and `x`'s, keep to.
proof fn lemma_insert_bound<T>(s: Seq<(SortKey, T)>, x: (SortKey, T), m: SortKey)
    requires
        forall|j: int| 0 <= j < s.len() ==> key_le(#[trigger] s[j].0, m),
        key_le(x.0, m),
    ensures
        forall|i: int| 0 <= i < insert_by_key(s, x).len() ==> key_le(#[trigger] insert_by_key(s, x)[i].0, m),
        insert_by_key(s, x).len() == s.len() + 1,
    decreases s.len(),
{
    if s.len() > 0 && !key_le(s.last().0, x.0) {
        let d = s.drop_last();
        assert forall|j: int| 0 <= j < d.len() implies key_le(#[trigger] d[j].0, m) by {
            assert(d[j] == s[j]);
        }
        lemma_insert_bound(d, x, m);
        let r = insert_by_key(s, x);
        assert forall|i: int| 0 <= i < r.len() implies key_le(#[trigger] r[i].0, m) by {
            if i < r.len() - 1 {
                assert(r[i] == insert_by_key(d, x)[i]);
            }
        }
    }
}

/// Inserting into a sorted sequence keeps it sorted.
proof fn lemma_insert_sorted<T>(s: Seq<(SortKey, T)>, x: (SortKey, T))
    requires
        sorted_by_key(s),
    ensures
        sorted_by_key(insert_by_key(s, x)),
    decreases s.len(),
{
    let r = insert_by_key(s, x);
    if s.len() == 0 {
    } else if key_le(s.last().0, x.0) {
        assert forall|a: int, b: int| 0 <= a <= b < r.len() implies key_le(r[a].0, r[b].0) by {
            if b == s.len() && a < b {
                assert(key_le(s[a].0, s[s.len() - 1].0));
            }
        }
    } else {
        let d = s.drop_last();
        let last = s.last();
        assert forall|a: int, b: int| 0 <= a <= b < d.len() implies key_le(d[a].0, d[b].0) by {
            assert(d[a] == s[a] && d[b] == s[b]);
        }
        lemma_insert_sorted(d, x);
        assert forall|j: int| 0 <= j < d.len() implies key_le(#[trigger] d[j].0, last.0) by {
            assert(d[j] == s[j]);
        }
        lemma_insert_bound(d, x, last.0);
        let inner = insert_by_key(d, x);
        assert forall|a: int, b: int| 0 <= a <= b < r.len() implies key_le(r[a].0, r[b].0) by {
            if b == r.len() - 1 {
                if a < b {
                    assert(r[a] == inner[a]);
                    assert(key_le(inner[a].0, last.0));
                }
            } else {
                assert(r[a] == inner[a] && r[b] == inner[b]);
            }
        }
    }
}

/// Insertion sorting is a stable sort.
proof fn lemma_insertion_sorted<T>(inp: Seq<(SortKey, T)>)
    ensures
        is_stable_sort_of(insertion_sorted(inp), inp),
    decreases inp.len(),
{
    if inp.len() > 0 {
        let d = inp.drop_last();
        lemma_insertion_sorted(d);
        lemma_insert_sorted(insertion_sorted(d), inp.last());
        assert forall|k: SortKey| #[trigger] keyed(insertion_sorted(inp), k) == keyed(inp, k) by {
            lemma_insert_keyed(insertion_sorted(d), inp.last(), k);
            assert(keyed(insertion_sorted(d), k) == keyed(d, k));
        }
    }
}

/// Every sequence has a stable sort, and `stable_sorted` is one: its keys ascend, and
/// the elements of each key are those of the input, in the input's order.
pub proof fn lemma_stable_sorted_exists<T>(inp: Seq<(SortKey, T)>)
    ensures
        is_stable_sort_of(stable_sorted(inp), inp),
{
    lemma_insertion_sorted(inp);
    let w = insertion_sorted(inp);
    assert(is_stable_sort_of(w, inp));
}

} // verus!
