use vstd::prelude::*;

verus! {

/// `s` with `x` put after every element whose key is at most `x`'s, and
/// before the later elements of greater key: one step of a stable sort.
pub open spec fn insert_by_key(s: Seq<int>, x: int, key: spec_fn(int) -> int) -> Seq<int>
    decreases s.len(),
{
    if s.len() == 0 {
        seq![x]
    } else if key(s.last()) <= key(x) {
        s.push(x)
    } else {
        insert_by_key(s.drop_last(), x, key).push(s.last())
    }
}

/// The stable sort of `s` by `key` (`slice::sort_by_key`): ascending keys,
/// elements of equal key in their first order.
pub open spec fn sort_by_key(s: Seq<int>, key: spec_fn(int) -> int) -> Seq<int>
    decreases s.len(),
{
    if s.len() == 0 {
        s
    } else {
        insert_by_key(sort_by_key(s.drop_last(), key), s.last(), key)
    }
}

/// The integers of a vector of indices.
pub open spec fn ints(v: Seq<usize>) -> Seq<int> {
    v.map_values(|u: usize| u as int)
}

/// The key of an index.
pub open spec fn key_of(keys: Seq<i64>) -> spec_fn(int) -> int {
    |i: int| keys[i] as int
}

proof fn lemma_insert_split(s: Seq<int>, x: int, key: spec_fn(int) -> int, p: int)
    requires
        0 < p <= s.len(),
        key(s[p - 1]) > key(x),
    ensures
        insert_by_key(s.take(p), x, key) == insert_by_key(s.take(p - 1), x, key).push(s[p - 1]),
{
    assert(s.take(p).drop_last() == s.take(p - 1));
}

fn insert_index(v: &mut Vec<usize>, x: usize, keys: &Vec<i64>)
    requires
        x < keys.len(),
        forall|i: int| 0 <= i < old(v).len() ==> old(v)@[i] < keys.len(),
    ensures
        ints(final(v)@) == insert_by_key(ints(old(v)@), x as int, key_of(keys@)),
        forall|i: int| 0 <= i < final(v).len() ==> final(v)@[i] < keys.len(),
{
    let ghost s = ints(v@);
    let ghost key = key_of(keys@);
    let mut p: usize = v.len();
    assert(s.take(p as int) == s);
    assert(s.skip(p as int) =~= Seq::<int>::empty());
    while p > 0 && keys[v[p - 1]] > keys[x]
        invariant
            p <= v.len(),
            s == ints(v@),
            key == key_of(keys@),
            x < keys.len(),
            forall|i: int| 0 <= i < v.len() ==> v@[i] < keys.len(),
            insert_by_key(s, x as int, key) == insert_by_key(s.take(p as int), x as int, key) + s.skip(
                p as int,
            ),
        decreases p,
    {
        proof {
            lemma_insert_split(s, x as int, key, p as int);
            assert(s.skip(p - 1) == seq![s[p - 1]] + s.skip(p as int));
        }
        p = p - 1;
    }
    proof {
        if p > 0 {
            assert(s.take(p as int).last() == s[p - 1]);
            assert(insert_by_key(s.take(p as int), x as int, key) == s.take(p as int).push(x as int));
        } else {
            assert(s.take(0) =~= Seq::<int>::empty());
        }
    }
    let ghost before = v@;
    v.insert(p, x);
    assert(ints(v@) =~= s.take(p as int).push(x as int) + s.skip(p as int));
}

/// Indices `0..keys.len()` of the chosen elements, stable-sorted by their keys.
pub fn sort_indices_by_key(chosen: &Vec<usize>, keys: &Vec<i64>) -> (r: Vec<usize>)
    requires
        forall|i: int| 0 <= i < chosen.len() ==> chosen@[i] < keys.len(),
    ensures
        ints(r@) == sort_by_key(ints(chosen@), key_of(keys@)),
        forall|i: int| 0 <= i < r.len() ==> r@[i] < keys.len(),
{
    let mut r: Vec<usize> = Vec::new();
    let mut i: usize = 0;
    while i < chosen.len()
        invariant
            i <= chosen.len(),
            forall|k: int| 0 <= k < chosen.len() ==> chosen@[k] < keys.len(),
            forall|k: int| 0 <= k < r.len() ==> r@[k] < keys.len(),
            ints(r@) == sort_by_key(ints(chosen@).take(i as int), key_of(keys@)),
        decreases chosen.len() - i,
    {
        assert(ints(chosen@).take(i + 1).drop_last() == ints(chosen@).take(i as int));
        assert(ints(chosen@).take(i + 1).last() == chosen@[i as int] as int);
        insert_index(&mut r, chosen[i], keys);
        i = i + 1;
    }
    assert(ints(chosen@).take(chosen.len() as int) == ints(chosen@));
    r
}

proof fn lemma_insert_congruent(t: Seq<int>, x: int, k1: spec_fn(int) -> int, k2: spec_fn(int) -> int)
    requires
        forall|i: int| 0 <= i < t.len() ==> k1(#[trigger] t[i]) == k2(t[i]),
        k1(x) == k2(x),
    ensures
        insert_by_key(t, x, k1) == insert_by_key(t, x, k2),
        forall|i: int|
            0 <= i < insert_by_key(t, x, k1).len() ==> #[trigger] insert_by_key(t, x, k1)[i] == x
                || t.contains(insert_by_key(t, x, k1)[i]),
    decreases t.len(),
{
    if t.len() > 0 {
        assert(k1(t[t.len() - 1]) == k2(t[t.len() - 1]));
        if k1(t.last()) > k1(x) {
            let u = t.drop_last();
            assert forall|i: int| 0 <= i < u.len() implies k1(#[trigger] u[i]) == k2(u[i]) by {
                assert(u[i] == t[i]);
            }
            lemma_insert_congruent(u, x, k1, k2);
            let r = insert_by_key(t, x, k1);
            assert forall|i: int| 0 <= i < r.len() implies #[trigger] r[i] == x || t.contains(r[i]) by {
                if i < r.len() - 1 {
                    let y = insert_by_key(u, x, k1)[i];
                    assert(r[i] == y);
                    if y != x {
                        let j = choose|j: int| 0 <= j < u.len() && u[j] == y;
                        assert(t[j] == y);
                    }
                } else {
                    assert(r[i] == t[t.len() - 1]);
                }
            }
        } else {
            let r = insert_by_key(t, x, k1);
            assert forall|i: int| 0 <= i < r.len() implies #[trigger] r[i] == x || t.contains(r[i]) by {
                if i < t.len() {
                    assert(r[i] == t[i]);
                }
            }
        }
    }
}

/// Sorting depends on the key of the sorted elements only.
pub proof fn lemma_sort_congruent(s: Seq<int>, k1: spec_fn(int) -> int, k2: spec_fn(int) -> int)
    requires
        forall|i: int| 0 <= i < s.len() ==> k1(#[trigger] s[i]) == k2(s[i]),
    ensures
        sort_by_key(s, k1) == sort_by_key(s, k2),
        forall|i: int| 0 <= i < sort_by_key(s, k1).len() ==> s.contains(#[trigger] sort_by_key(s, k1)[i]),
    decreases s.len(),
{
    if s.len() > 0 {
        let u = s.drop_last();
        assert forall|i: int| 0 <= i < u.len() implies k1(#[trigger] u[i]) == k2(u[i]) by {
            assert(u[i] == s[i]);
        }
        lemma_sort_congruent(u, k1, k2);
        let t = sort_by_key(u, k1);
        assert forall|i: int| 0 <= i < t.len() implies k1(#[trigger] t[i]) == k2(t[i]) by {
            let j = choose|j: int| 0 <= j < u.len() && u[j] == t[i];
            assert(u[j] == s[j]);
        }
        assert(k1(s[s.len() - 1]) == k2(s[s.len() - 1]));
        lemma_insert_congruent(t, s.last(), k1, k2);
        let r = sort_by_key(s, k1);
        assert forall|i: int| 0 <= i < r.len() implies s.contains(#[trigger] r[i]) by {
            if r[i] == s.last() {
                assert(s[s.len() - 1] == r[i]);
            } else {
                let j = choose|j: int| 0 <= j < t.len() && t[j] == r[i];
                let m = choose|m: int| 0 <= m < u.len() && u[m] == t[j];
                assert(s[m] == r[i]);
            }
        }
    }
}


/// Keys never decrease along `s`.
pub open spec fn sorted_by(s: Seq<int>, key: spec_fn(int) -> int) -> bool {
    forall|i: int, j: int| 0 <= i < j < s.len() ==> key(#[trigger] s[i]) <= key(#[trigger] s[j])
}

proof fn lemma_insert_sorted(t: Seq<int>, x: int, key: spec_fn(int) -> int)
    requires
        sorted_by(t, key),
    ensures
        sorted_by(insert_by_key(t, x, key), key),
        insert_by_key(t, x, key).len() == t.len() + 1,
    decreases t.len(),
{
    if t.len() > 0 {
        let u = t.drop_last();
        assert(sorted_by(u, key)) by {
            assert forall|i: int, j: int| 0 <= i < j < u.len() implies key(#[trigger] u[i]) <= key(
                #[trigger] u[j],
            ) by {
                assert(u[i] == t[i] && u[j] == t[j]);
            }
        }
        if key(t.last()) <= key(x) {
            let r = t.push(x);
            assert forall|i: int, j: int| 0 <= i < j < r.len() implies key(#[trigger] r[i]) <= key(
                #[trigger] r[j],
            ) by {
                if j == t.len() {
                    if i < t.len() - 1 {
                        assert(key(t[i]) <= key(t[t.len() - 1]));
                    }
                } else {
                    assert(r[i] == t[i] && r[j] == t[j]);
                }
            }
        } else {
            lemma_insert_sorted(u, x, key);
            lemma_insert_congruent(u, x, key, key);
            let p = insert_by_key(u, x, key);
            let r = p.push(t.last());
            assert forall|i: int, j: int| 0 <= i < j < r.len() implies key(#[trigger] r[i]) <= key(
                #[trigger] r[j],
            ) by {
                if j == p.len() {
                    assert(r[j] == t[t.len() - 1]);
                    assert(r[i] == p[i]);
                    if p[i] != x {
                        let m = choose|m: int| 0 <= m < u.len() && u[m] == p[i];
                        assert(u[m] == t[m]);
                        assert(key(t[m]) <= key(t[t.len() - 1]));
                    }
                } else {
                    assert(r[i] == p[i] && r[j] == p[j]);
                }
            }
        }
    }
}

/// Sorting by a key orders the elements by that key and keeps their number.
pub proof fn sorting_orders_by_key(s: Seq<int>, key: spec_fn(int) -> int)
    ensures
        sorted_by(sort_by_key(s, key), key),
        sort_by_key(s, key).len() == s.len(),
    decreases s.len(),
{
    if s.len() > 0 {
        sorting_orders_by_key(s.drop_last(), key);
        lemma_insert_sorted(sort_by_key(s.drop_last(), key), s.last(), key);
    }
}

} // verus!
