//! Stable ordering of items by a `(season, episode)` key: the order the skip
//! guide lists episodes in.
use vstd::prelude::*;

verus! {

/// `(a0, a1)` comes before `(b0, b1)` in lexicographic order, or equal.
pub open spec fn key_le(a: (i32, i32), b: (i32, i32)) -> bool {
    a.0 < b.0 || (a.0 == b.0 && a.1 <= b.1)
}

/// Item `i` precedes item `j`: by key, ties broken by original position.
pub open spec fn precedes(keys: Seq<(i32, i32)>, i: int, j: int) -> bool {
    ||| key_le(keys[i], keys[j]) && keys[i] != keys[j]
    ||| keys[i] == keys[j] && i < j
}

/// `o` lists every index of `keys` once, ascending by key and, among equal
/// keys, by original position (a stable sort).
pub open spec fn is_stable_order(keys: Seq<(i32, i32)>, o: Seq<usize>) -> bool {
    &&& o.len() == keys.len()
    &&& forall|k: int| 0 <= k < o.len() ==> (o[k] as int) < keys.len()
    &&& forall|i: usize| (i as int) < keys.len() ==> #[trigger] o.contains(i)
    &&& forall|a: int, b: int|
        0 <= a < b < o.len() ==> #[trigger] precedes(keys, o[a] as int, o[b] as int)
}

/// The stable order of `keys` (there is exactly one; see `lemma_stable_order_unique`).
pub open spec fn stable_order(keys: Seq<(i32, i32)>) -> Seq<usize> {
    choose|o: Seq<usize>| is_stable_order(keys, o)
}

proof fn lemma_precedes_asym(keys: Seq<(i32, i32)>, i: int, j: int)
    ensures
        !(precedes(keys, i, j) && precedes(keys, j, i)),
{
}

proof fn lemma_agree_upto(keys: Seq<(i32, i32)>, a: Seq<usize>, b: Seq<usize>, k: int)
    requires
        is_stable_order(keys, a),
        is_stable_order(keys, b),
        0 <= k < a.len(),
    ensures
        forall|j: int| 0 <= j <= k ==> a[j] == b[j],
    decreases k,
{
    if k > 0 {
        lemma_agree_upto(keys, a, b, k - 1);
    }
    if a[k] != b[k] {
        assert(a.contains(a[k]));
        let x = a[k];
        assert(b.contains(x)) by {
            assert(0 <= x < keys.len());
        }
        let m = choose|m: int| 0 <= m < b.len() && b[m] == x;
        let y = b[k];
        assert(a.contains(y)) by {
            assert(0 <= y < keys.len());
        }
        let m2 = choose|m2: int| 0 <= m2 < a.len() && a[m2] == y;
        if m < k {
            assert(a[m] == b[m]);
            assert(precedes(keys, a[m] as int, a[k] as int));
            lemma_precedes_asym(keys, a[m] as int, a[k] as int);
        } else if m2 < k {
            assert(a[m2] == b[m2]);
            assert(precedes(keys, b[m2] as int, b[k] as int));
            lemma_precedes_asym(keys, b[m2] as int, b[k] as int);
        } else {
            assert(m != k && m2 != k);
            assert(precedes(keys, b[k] as int, b[m] as int));
            assert(precedes(keys, a[k] as int, a[m2] as int));
            lemma_precedes_asym(keys, x as int, y as int);
        }
    }
}

/// Two stable orders of the same keys are the same sequence.
pub proof fn lemma_stable_order_unique(keys: Seq<(i32, i32)>, a: Seq<usize>, b: Seq<usize>)
    requires
        is_stable_order(keys, a),
        is_stable_order(keys, b),
    ensures
        a == b,
{
    if a.len() > 0 {
        lemma_agree_upto(keys, a, b, a.len() - 1);
    }
    assert(a =~= b);
}

/// Sort the indices `0..keys.len()` stably by key (insertion sort).
pub fn sort_indices(keys: &Vec<(i32, i32)>) -> (o: Vec<usize>)
    ensures
        is_stable_order(keys@, o@),
        o@ == stable_order(keys@),
{
    let n = keys.len();
    let mut o: Vec<usize> = Vec::new();
    let mut i: usize = 0;
    while i < n
        invariant
            n == keys@.len(),
            i <= n,
            o@.len() == i,
            forall|k: int| 0 <= k < o@.len() ==> (o@[k] as int) < i,
            forall|j: usize| j < i ==> #[trigger] o@.contains(j),
            forall|a: int, b: int|
                0 <= a < b < o@.len() ==> #[trigger] precedes(keys@, o@[a] as int, o@[b] as int),
        decreases n - i,
    {
        let ki = keys[i];
        let mut p: usize = o.len();
        while p > 0 && !key_le_exec(keys[o[p - 1]], ki)
            invariant
                n == keys@.len(),
                i < n,
                ki == keys@[i as int],
                p <= o@.len(),
                o@.len() == i,
                forall|k: int| 0 <= k < o@.len() ==> (o@[k] as int) < i,
                forall|q: int| p <= q < o@.len() ==> !key_le(keys@[o@[q] as int], ki),
            decreases p,
        {
            p = p - 1;
        }
        let ghost old_o = o@;
        proof {
            // Everything before `p` has a key no greater than `ki`.
            assert forall|q: int| 0 <= q < p implies key_le(keys@[old_o[q] as int], ki) by {
                if q < p - 1 {
                    assert(precedes(keys@, old_o[q] as int, old_o[p - 1] as int));
                }
            }
        }
        o.insert(p, i);
        proof {
            let no = o@;
            assert(no == old_o.insert(p as int, i));
            assert forall|a: int, b: int| 0 <= a < b < no.len() implies #[trigger] precedes(
                keys@,
                no[a] as int,
                no[b] as int,
            ) by {
                if b < p {
                    assert(no[a] == old_o[a] && no[b] == old_o[b]);
                } else if a > p {
                    assert(no[a] == old_o[a - 1] && no[b] == old_o[b - 1]);
                    assert(precedes(keys@, old_o[a - 1] as int, old_o[b - 1] as int));
                } else if a == p {
                    assert(no[b] == old_o[b - 1]);
                    assert(!key_le(keys@[old_o[b - 1] as int], ki));
                } else if b == p {
                    assert(no[a] == old_o[a]);
                    assert(key_le(keys@[old_o[a] as int], ki));
                } else {
                    assert(no[a] == old_o[a] && no[b] == old_o[b - 1]);
                    assert(key_le(keys@[old_o[a] as int], ki));
                    assert(!key_le(keys@[old_o[b - 1] as int], ki));
                }
            }
            assert forall|j: usize| j < i + 1 implies #[trigger] no.contains(j) by {
                if j == i {
                    assert(no[p as int] == i);
                } else {
                    assert(old_o.contains(j));
                    let m = choose|m: int| 0 <= m < old_o.len() && old_o[m] == j;
                    if m < p {
                        assert(no[m] == j);
                    } else {
                        assert(no[m + 1] == j);
                    }
                }
            }
            assert forall|k: int| 0 <= k < no.len() implies (no[k] as int) < i + 1 by {
                if k < p {
                    assert(no[k] == old_o[k]);
                } else if k > p {
                    assert(no[k] == old_o[k - 1]);
                }
            }
        }
        i = i + 1;
    }
    proof {
        assert(is_stable_order(keys@, o@));
        lemma_stable_order_unique(keys@, o@, stable_order(keys@));
    }
    o
}

fn key_le_exec(a: (i32, i32), b: (i32, i32)) -> (r: bool)
    ensures
        r == key_le(a, b),
{
    a.0 < b.0 || (a.0 == b.0 && a.1 <= b.1)
}

} // verus!
