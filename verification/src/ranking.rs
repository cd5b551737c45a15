//! Stable descending ranking of entries by a two-part key: the ordering that
//! both the auction's bid ranking and the referral leaderboard use.
use vstd::prelude::*;

verus! {

/// Entry `i` ranks before entry `j`: a higher primary key first, then a lower
/// secondary key, then the earlier position.
pub open spec fn ranks_before(keys: Seq<(u128, u64)>, i: int, j: int) -> bool {
    ||| keys[i].0 > keys[j].0
    ||| keys[i].0 == keys[j].0 && keys[i].1 < keys[j].1
    ||| keys[i].0 == keys[j].0 && keys[i].1 == keys[j].1 && i < j
}

/// `order` lists every position of `keys` exactly once, best-ranked first.
pub open spec fn is_ranking(keys: Seq<(u128, u64)>, order: Seq<usize>) -> bool {
    &&& order.len() == keys.len()
    &&& forall|i: int| 0 <= i < order.len() ==> (#[trigger] order[i]) < keys.len()
    &&& forall|x: usize| x < keys.len() ==> #[trigger] order.contains(x)
    &&& forall|i: int, j: int|
        0 <= i < j < order.len() ==> ranks_before(keys, #[trigger] order[i] as int, #[trigger] order[j] as int)
}

/// The ranking of `keys`; there is exactly one (see `lemma_ranking_unique`).
pub open spec fn ranking(keys: Seq<(u128, u64)>) -> Seq<usize> {
    choose|order: Seq<usize>| is_ranking(keys, order)
}

proof fn lemma_ranks_before_asymmetric(keys: Seq<(u128, u64)>, i: int, j: int)
    ensures
        ranks_before(keys, i, j) ==> !ranks_before(keys, j, i),
        ranks_before(keys, i, j) ==> i != j,
        i != j ==> ranks_before(keys, i, j) || ranks_before(keys, j, i),
{
}

/// A ranking of a key list is unique: two rankings of the same keys agree.
pub proof fn lemma_ranking_unique(keys: Seq<(u128, u64)>, o1: Seq<usize>, o2: Seq<usize>)
    requires
        is_ranking(keys, o1),
        is_ranking(keys, o2),
    ensures
        o1 == o2,
{
    assert forall|i: int| 0 <= i < o1.len() implies o1[i] == o2[i] by {
        lemma_ranking_unique_at(keys, o1, o2, i);
    }
    assert(o1 =~= o2);
}

proof fn lemma_ranking_unique_at(keys: Seq<(u128, u64)>, o1: Seq<usize>, o2: Seq<usize>, i: int)
    requires
        is_ranking(keys, o1),
        is_ranking(keys, o2),
        0 <= i < o1.len(),
    ensures
        o1[i] == o2[i],
    decreases i,
{
    let a = o1[i];
    let b = o2[i];
    if a != b {
        assert(o1[i] < keys.len());
        assert(o2[i] < keys.len());
        assert(o1.contains(b));
        assert(o2.contains(a));
        let p = choose|p: int| 0 <= p < o1.len() && o1[p] == b;
        let q = choose|q: int| 0 <= q < o2.len() && o2[q] == a;
        if p < i {
            lemma_ranking_unique_at(keys, o1, o2, p);
            assert(o2[p] == b);
            lemma_ranks_before_asymmetric(keys, b as int, b as int);
        }
        if q < i {
            lemma_ranking_unique_at(keys, o1, o2, q);
            assert(o1[q] == a);
            lemma_ranks_before_asymmetric(keys, a as int, a as int);
        }
        assert(p > i) by {
            if p == i {
                assert(o1[p] == a);
            }
        }
        assert(q > i) by {
            if q == i {
                assert(o2[q] == b);
            }
        }
        assert(ranks_before(keys, a as int, b as int));
        assert(ranks_before(keys, b as int, a as int));
        lemma_ranks_before_asymmetric(keys, a as int, b as int);
    }
}

/// The ranking that `rank_order` computes is the one `ranking` names.
pub proof fn lemma_is_the_ranking(keys: Seq<(u128, u64)>, order: Seq<usize>)
    requires
        is_ranking(keys, order),
    ensures
        ranking(keys) == order,
{
    lemma_ranking_unique(keys, ranking(keys), order);
}

fn ranks_before_exec(keys: &Vec<(u128, u64)>, i: usize, j: usize) -> (r: bool)
    requires
        i < keys.len(),
        j < keys.len(),
    ensures
        r == ranks_before(keys@, i as int, j as int),
{
    let a = keys[i];
    let b = keys[j];
    a.0 > b.0 || (a.0 == b.0 && a.1 < b.1) || (a.0 == b.0 && a.1 == b.1 && i < j)
}

/// Orders the positions of `keys` best-ranked first, by repeatedly taking
/// the best remaining entry (a stable selection sort).
pub fn rank_order(keys: &Vec<(u128, u64)>) -> (order: Vec<usize>)
    ensures
        is_ranking(keys@, order@),
        order@ == ranking(keys@),
{
    let n = keys.len();
    let mut remaining: Vec<usize> = Vec::new();
    let mut x: usize = 0;
    while x < n
        invariant
            x <= n,
            n == keys.len(),
            remaining@.len() == x,
            forall|i: int| 0 <= i < x ==> remaining@[i] == i,
        decreases n - x,
    {
        remaining.push(x);
        x = x + 1;
    }
    let mut order: Vec<usize> = Vec::new();
    proof {
        assert forall|y: usize| y < n implies #[trigger] order@.contains(y) || remaining@.contains(y) by {
            assert(remaining@[y as int] == y);
        }
    }
    while remaining.len() > 0
        invariant
            n == keys.len(),
            order@.len() + remaining@.len() == n,
            forall|i: int| 0 <= i < order@.len() ==> (#[trigger] order@[i]) < n,
            forall|i: int| 0 <= i < remaining@.len() ==> (#[trigger] remaining@[i]) < n,
            forall|i: int, j: int| 0 <= i < j < remaining@.len() ==> remaining@[i] != remaining@[j],
            forall|y: usize| y < n ==> #[trigger] order@.contains(y) || remaining@.contains(y),
            forall|i: int, j: int|
                0 <= i < j < order@.len() ==> ranks_before(keys@, #[trigger] order@[i] as int, #[trigger] order@[j] as int),
            forall|i: int, j: int|
                0 <= i < order@.len() && 0 <= j < remaining@.len() ==> ranks_before(
                    keys@,
                    #[trigger] order@[i] as int,
                    #[trigger] remaining@[j] as int,
                ),
        decreases remaining@.len(),
    {
        let mut best: usize = 0;
        let mut k: usize = 1;
        while k < remaining.len()
            invariant
                n == keys.len(),
                0 <= best < k <= remaining@.len(),
                forall|i: int| 0 <= i < remaining@.len() ==> (#[trigger] remaining@[i]) < n,
                forall|i: int, j: int| 0 <= i < j < remaining@.len() ==> remaining@[i] != remaining@[j],
                forall|j: int|
                    0 <= j < k && j != best ==> ranks_before(
                        keys@,
                        remaining@[best as int] as int,
                        #[trigger] remaining@[j] as int,
                    ),
            decreases remaining@.len() - k,
        {
            if ranks_before_exec(keys, remaining[k], remaining[best]) {
                proof {
                    assert forall|j: int| 0 <= j < k + 1 && j != k implies ranks_before(
                        keys@,
                        remaining@[k as int] as int,
                        #[trigger] remaining@[j] as int,
                    ) by {
                        if j != best {
                            lemma_ranks_before_asymmetric(keys@, remaining@[best as int] as int, remaining@[j] as int);
                            lemma_ranks_before_asymmetric(keys@, remaining@[k as int] as int, remaining@[j] as int);
                            assert(keys@[remaining@[k as int] as int] == keys@[remaining@[k as int] as int]);
                        }
                    }
                }
                best = k;
            } else {
                proof {
                    lemma_ranks_before_asymmetric(keys@, remaining@[best as int] as int, remaining@[k as int] as int);
                }
            }
            k = k + 1;
        }
        let ghost r0 = remaining@;
        let ghost o0 = order@;
        let b = remaining.remove(best);
        order.push(b);
        proof {
            let bi = best as int;
            assert forall|y: usize| y < n implies #[trigger] order@.contains(y) || remaining@.contains(
                y,
            ) by {
                if o0.contains(y) {
                    let p = choose|p: int| 0 <= p < o0.len() && o0[p] == y;
                    assert(order@[p] == y);
                } else {
                    assert(r0.contains(y));
                    let p = choose|p: int| 0 <= p < r0.len() && r0[p] == y;
                    if p == bi {
                        assert(order@[o0.len() as int] == y);
                    } else if p < bi {
                        assert(remaining@[p] == y);
                    } else {
                        assert(remaining@[p - 1] == y);
                    }
                }
            }
            assert forall|i: int, j: int| 0 <= i < j < remaining@.len() implies remaining@[i] != remaining@[j] by {
                let i0 = if i < bi { i } else { i + 1 };
                let j0 = if j < bi { j } else { j + 1 };
                assert(remaining@[i] == r0[i0]);
                assert(remaining@[j] == r0[j0]);
            }
            assert forall|i: int, j: int|
                0 <= i < order@.len() && 0 <= j < remaining@.len() implies ranks_before(
                keys@,
                #[trigger] order@[i] as int,
                #[trigger] remaining@[j] as int,
            ) by {
                let j0 = if j < bi { j } else { j + 1 };
                assert(remaining@[j] == r0[j0]);
                if i < o0.len() {
                    assert(order@[i] == o0[i]);
                } else {
                    assert(order@[i] == r0[bi]);
                    assert(j0 != bi);
                }
            }
            assert forall|i: int, j: int|
                0 <= i < j < order@.len() implies ranks_before(keys@, #[trigger] order@[i] as int, #[trigger] order@[j] as int) by {
                if j < o0.len() {
                    assert(order@[i] == o0[i]);
                    assert(order@[j] == o0[j]);
                } else {
                    assert(order@[j] == r0[bi]);
                    assert(order@[i] == o0[i]);
                }
            }
        }
    }
    proof {
        lemma_is_the_ranking(keys@, order@);
    }
    order
}

/// Where `x` goes in a sorted list so that it stays sorted.
spec fn insert_pos(keys: Seq<(u128, u64)>, o: Seq<usize>, x: int) -> int
    decreases o.len(),
{
    if o.len() == 0 {
        0
    } else if ranks_before(keys, x, o.last() as int) {
        insert_pos(keys, o.drop_last(), x)
    } else {
        o.len() as int
    }
}

proof fn lemma_insert_pos(keys: Seq<(u128, u64)>, o: Seq<usize>, x: int)
    requires
        forall|i: int, j: int| 0 <= i < j < o.len() ==> ranks_before(keys, #[trigger] o[i] as int, #[trigger] o[j] as int),
        forall|i: int| 0 <= i < o.len() ==> (#[trigger] o[i]) as int != x,
    ensures
        0 <= insert_pos(keys, o, x) <= o.len(),
        forall|i: int| 0 <= i < insert_pos(keys, o, x) ==> ranks_before(keys, #[trigger] o[i] as int, x),
        forall|i: int| insert_pos(keys, o, x) <= i < o.len() ==> ranks_before(keys, x, #[trigger] o[i] as int),
    decreases o.len(),
{
    if o.len() > 0 {
        let last = o.last() as int;
        if ranks_before(keys, x, last) {
            let d = o.drop_last();
            assert forall|i: int, j: int| 0 <= i < j < d.len() implies ranks_before(keys, #[trigger] d[i] as int, #[trigger] d[j] as int) by {
                assert(d[i] == o[i] && d[j] == o[j]);
            }
            assert forall|i: int| 0 <= i < d.len() implies (#[trigger] d[i]) as int != x by {
                assert(d[i] == o[i]);
            }
            lemma_insert_pos(keys, d, x);
            let p = insert_pos(keys, o, x);
            assert forall|i: int| 0 <= i < p implies ranks_before(keys, #[trigger] o[i] as int, x) by {
                assert(d[i] == o[i]);
            }
            assert forall|i: int| p <= i < o.len() implies ranks_before(keys, x, #[trigger] o[i] as int) by {
                if i < o.len() - 1 {
                    assert(d[i] == o[i]);
                }
            }
        } else {
            assert(last != x);
            lemma_ranks_before_asymmetric(keys, x, last);
            assert forall|i: int| 0 <= i < o.len() implies ranks_before(keys, #[trigger] o[i] as int, x) by {
                if i < o.len() - 1 {
                    assert(ranks_before(keys, o[i] as int, o[o.len() - 1] as int));
                }
            }
        }
    }
}

/// Rankings of the first `n` positions.
spec fn ranks_prefix(keys: Seq<(u128, u64)>, n: int, o: Seq<usize>) -> bool {
    &&& o.len() == n
    &&& forall|i: int| 0 <= i < o.len() ==> (#[trigger] o[i]) < n
    &&& forall|x: usize| x < n ==> #[trigger] o.contains(x)
    &&& forall|i: int, j: int| 0 <= i < j < o.len() ==> ranks_before(keys, #[trigger] o[i] as int, #[trigger] o[j] as int)
}

proof fn lemma_ranks_prefix_exists(keys: Seq<(u128, u64)>, n: int)
    requires
        0 <= n <= keys.len(),
        keys.len() <= usize::MAX,
    ensures
        exists|o: Seq<usize>| #[trigger] ranks_prefix(keys, n, o),
    decreases n,
{
    if n == 0 {
        assert(ranks_prefix(keys, 0, Seq::<usize>::empty()));
    } else {
        lemma_ranks_prefix_exists(keys, n - 1);
        let o = choose|o: Seq<usize>| #[trigger] ranks_prefix(keys, n - 1, o);
        let x = n - 1;
        assert forall|i: int| 0 <= i < o.len() implies (#[trigger] o[i]) as int != x by {
        }
        lemma_insert_pos(keys, o, x);
        let p = insert_pos(keys, o, x);
        let o2 = o.insert(p, x as usize);
        assert(o2.len() == n);
        assert forall|i: int| 0 <= i < o2.len() implies (#[trigger] o2[i]) < n by {
            if i < p {
                assert(o2[i] == o[i]);
            } else if i > p {
                assert(o2[i] == o[i - 1]);
            }
        }
        assert forall|y: usize| y < n implies #[trigger] o2.contains(y) by {
            if y as int == x {
                assert(o2[p] == y);
            } else {
                assert(o.contains(y));
                let q = choose|q: int| 0 <= q < o.len() && o[q] == y;
                if q < p {
                    assert(o2[q] == y);
                } else {
                    assert(o2[q + 1] == y);
                }
            }
        }
        assert forall|i: int, j: int| 0 <= i < j < o2.len() implies ranks_before(keys, #[trigger] o2[i] as int, #[trigger] o2[j] as int) by {
            if j < p {
                assert(o2[i] == o[i] && o2[j] == o[j]);
            } else if j == p {
                assert(o2[i] == o[i]);
            } else if i < p {
                assert(o2[i] == o[i] && o2[j] == o[j - 1]);
                assert(ranks_before(keys, o[i] as int, o[j - 1] as int));
            } else if i == p {
                assert(o2[j] == o[j - 1]);
            } else {
                assert(o2[i] == o[i - 1] && o2[j] == o[j - 1]);
            }
        }
        assert(ranks_prefix(keys, n, o2));
    }
}

/// Every key list has a ranking.
pub proof fn lemma_ranking_exists(keys: Seq<(u128, u64)>)
    requires
        keys.len() <= usize::MAX,
    ensures
        is_ranking(keys, ranking(keys)),
{
    lemma_ranks_prefix_exists(keys, keys.len() as int);
    let o = choose|o: Seq<usize>| #[trigger] ranks_prefix(keys, keys.len() as int, o);
    assert(is_ranking(keys, o));
}

} // verus!
