use vstd::prelude::*;

verus! {

/// Every pair names an old mode below `nq` and a new one below `nj`.
pub open spec fn pairs_in_range(order: Seq<(usize, usize)>, nq: nat, nj: nat) -> bool {
    forall|k: int| 0 <= k < order.len() ==> (#[trigger] order[k]).0 < nq && order[k].1 < nj
}

/// The matching after the first `k` pairs, best first: which new mode each
/// old mode follows, and which new modes are taken. A pair is taken when
/// neither of its modes is taken yet.
pub open spec fn matched_upto(order: Seq<(usize, usize)>, nq: nat, nj: nat, k: int) -> (
    Seq<Option<usize>>,
    Seq<bool>,
)
    decreases k,
{
    if k <= 0 {
        (Seq::new(nq, |i: int| None::<usize>), Seq::new(nj, |i: int| false))
    } else {
        let (asg, used) = matched_upto(order, nq, nj, k - 1);
        let (q, j) = order[k - 1];
        if asg[q as int] is Some || used[j as int] {
            (asg, used)
        } else {
            (asg.update(q as int, Some(j)), used.update(j as int, true))
        }
    }
}

/// The greedy matching of all the pairs.
pub open spec fn matched(order: Seq<(usize, usize)>, nq: nat, nj: nat) -> Seq<Option<usize>> {
    matched_upto(order, nq, nj, order.len() as int).0
}

/// Follows modes from one frequency to the next. `order` lists pairs of an
/// old mode and a new one, the most alike first; each old mode takes the
/// first new mode in that order that no other old mode has taken. The
/// answer gives, for each old mode, the new mode it follows, if any.
pub fn match_modes(order: &Vec<(usize, usize)>, nq: usize, nj: usize) -> (out: Vec<Option<usize>>)
    requires
        pairs_in_range(order@, nq as nat, nj as nat),
    ensures
        out@ == matched(order@, nq as nat, nj as nat),
{
    let mut asg: Vec<Option<usize>> = Vec::new();
    let mut i: usize = 0;
    while i < nq
        invariant
            i <= nq,
            asg@ == Seq::new(i as nat, |k: int| None::<usize>),
        decreases nq - i,
    {
        asg.push(None);
        assert(asg@ =~= Seq::new((i + 1) as nat, |k: int| None::<usize>));
        i = i + 1;
    }
    let mut used: Vec<bool> = Vec::new();
    let mut i: usize = 0;
    while i < nj
        invariant
            i <= nj,
            used@ == Seq::new(i as nat, |k: int| false),
        decreases nj - i,
    {
        used.push(false);
        assert(used@ =~= Seq::new((i + 1) as nat, |k: int| false));
        i = i + 1;
    }
    let mut k: usize = 0;
    while k < order.len()
        invariant
            k <= order@.len(),
            pairs_in_range(order@, nq as nat, nj as nat),
            (asg@, used@) == matched_upto(order@, nq as nat, nj as nat, k as int),
            asg@.len() == nq,
            used@.len() == nj,
        decreases order@.len() - k,
    {
        let (q, j) = order[k];
        assert(order@[k as int].0 < nq && order@[k as int].1 < nj);
        if asg[q].is_none() && !used[j] {
            asg.set(q, Some(j));
            used.set(j, true);
        }
        k = k + 1;
    }
    asg
}

proof fn lemma_matched(order: Seq<(usize, usize)>, nq: nat, nj: nat, k: int)
    requires
        pairs_in_range(order, nq, nj),
        0 <= k <= order.len(),
    ensures
        ({
            let (asg, used) = matched_upto(order, nq, nj, k);
            &&& asg.len() == nq
            &&& used.len() == nj
            &&& forall|q: int|
                0 <= q < nq && (#[trigger] asg[q]) is Some ==> asg[q]->0 < nj && used[asg[q]->0 as int]
            &&& forall|q1: int, q2: int|
                0 <= q1 < nq && 0 <= q2 < nq && (#[trigger] asg[q1]) is Some && asg[q1] == #[trigger] asg[q2]
                    ==> q1 == q2
            &&& forall|m: int|
                0 <= m < k ==> (#[trigger] asg[order[m].0 as int]) is Some || used[order[m].1 as int]
            &&& forall|q: int|
                0 <= q < nq && (#[trigger] asg[q]) is Some ==> exists|m: int|
                    0 <= m < k && order[m] == (q as usize, asg[q]->0)
        }),
    decreases k,
{
    if k > 0 {
        lemma_matched(order, nq, nj, k - 1);
        let (a0, u0) = matched_upto(order, nq, nj, k - 1);
        let (q, j) = order[k - 1];
        assert(order[k - 1].0 < nq && order[k - 1].1 < nj);
        let (asg, used) = matched_upto(order, nq, nj, k);
        if !(a0[q as int] is Some || u0[j as int]) {
            assert(asg == a0.update(q as int, Some(j)));
            assert(used == u0.update(j as int, true));
            assert forall|q1: int, q2: int|
                0 <= q1 < nq && 0 <= q2 < nq && (#[trigger] asg[q1]) is Some && asg[q1] == #[trigger] asg[q2]
                    implies q1 == q2 by {
                if q1 != q as int && q2 != q as int {
                    assert(a0[q1] == asg[q1] && a0[q2] == asg[q2]);
                } else if q1 == q as int && q2 != q as int {
                    assert(a0[q2] == Some(j));
                    assert(u0[j as int]);
                } else if q2 == q as int && q1 != q as int {
                    assert(a0[q1] == Some(j));
                    assert(u0[j as int]);
                }
            }
            assert forall|m: int| 0 <= m < k implies (#[trigger] asg[order[m].0 as int]) is Some
                || used[order[m].1 as int] by {
                if m < k - 1 {
                    assert(order[m].0 < nq && order[m].1 < nj);
                    if a0[order[m].0 as int] is Some {
                        if order[m].0 != q {
                            assert(asg[order[m].0 as int] == a0[order[m].0 as int]);
                        }
                    } else {
                        assert(u0[order[m].1 as int]);
                    }
                }
            }
            assert forall|q1: int| 0 <= q1 < nq && (#[trigger] asg[q1]) is Some implies exists|m: int|
                0 <= m < k && order[m] == (q1 as usize, asg[q1]->0) by {
                if q1 == q as int {
                    assert(order[k - 1] == (q1 as usize, asg[q1]->0));
                } else {
                    assert(asg[q1] == a0[q1]);
                    let m = choose|m: int| 0 <= m < k - 1 && order[m] == (q1 as usize, a0[q1]->0);
                }
            }
            assert forall|q1: int| 0 <= q1 < nq && (#[trigger] asg[q1]) is Some implies asg[q1]->0 < nj
                && used[asg[q1]->0 as int] by {
                if q1 != q as int {
                    assert(asg[q1] == a0[q1]);
                }
            }
        } else {
            assert forall|m: int| 0 <= m < k implies (#[trigger] asg[order[m].0 as int]) is Some
                || used[order[m].1 as int] by {
                if m < k - 1 {
                    assert(order[m].0 < nq && order[m].1 < nj);
                }
            }
            assert forall|q1: int| 0 <= q1 < nq && (#[trigger] asg[q1]) is Some implies exists|m: int|
                0 <= m < k && order[m] == (q1 as usize, asg[q1]->0) by {
                let m = choose|m: int| 0 <= m < k - 1 && order[m] == (q1 as usize, a0[q1]->0);
            }
        }
    }
}

/// The greedy matching is a matching of listed pairs, and leaves no listed
/// pair whose two modes are both unmatched: no two old modes follow the
/// same new mode, every old mode follows a new mode it was paired with, and
/// for every listed pair the old mode or the new mode is taken.
pub proof fn the_matching_is_greedy(order: Seq<(usize, usize)>, nq: nat, nj: nat)
    requires
        pairs_in_range(order, nq, nj),
    ensures
        ({
            let asg = matched(order, nq, nj);
            &&& asg.len() == nq
            &&& forall|q1: int, q2: int|
                0 <= q1 < nq && 0 <= q2 < nq && (#[trigger] asg[q1]) is Some && asg[q1] == #[trigger] asg[q2]
                    ==> q1 == q2
            &&& forall|q: int|
                0 <= q < nq && (#[trigger] asg[q]) is Some ==> exists|m: int|
                    0 <= m < order.len() && order[m] == (q as usize, asg[q]->0)
            &&& forall|m: int|
                0 <= m < order.len() ==> (#[trigger] asg[order[m].0 as int]) is Some || exists|q: int|
                    0 <= q < nq && asg[q] == Some(order[m].1)
        }),
{
    let k = order.len() as int;
    lemma_matched(order, nq, nj, k);
    lemma_used_taken(order, nq, nj, k);
    let (asg, used) = matched_upto(order, nq, nj, k);
    assert forall|m: int| 0 <= m < order.len() implies (#[trigger] asg[order[m].0 as int]) is Some
        || exists|q: int| 0 <= q < nq && asg[q] == Some(order[m].1) by {
        assert(order[m].0 < nq && order[m].1 < nj);
        if !(asg[order[m].0 as int] is Some) {
            assert(used[order[m].1 as int]);
        }
    }
}

proof fn lemma_used_taken(order: Seq<(usize, usize)>, nq: nat, nj: nat, k: int)
    requires
        pairs_in_range(order, nq, nj),
        0 <= k <= order.len(),
    ensures
        ({
            let (asg, used) = matched_upto(order, nq, nj, k);
            forall|j: int| 0 <= j < nj && #[trigger] used[j] ==> exists|q: int| 0 <= q < nq && asg[q] == Some(j as usize)
        }),
    decreases k,
{
    if k > 0 {
        lemma_used_taken(order, nq, nj, k - 1);
        lemma_matched(order, nq, nj, k - 1);
        let (a0, u0) = matched_upto(order, nq, nj, k - 1);
        let (q, j) = order[k - 1];
        assert(order[k - 1].0 < nq && order[k - 1].1 < nj);
        let (asg, used) = matched_upto(order, nq, nj, k);
        if !(a0[q as int] is Some || u0[j as int]) {
            assert forall|j1: int| 0 <= j1 < nj && #[trigger] used[j1] implies exists|q1: int|
                0 <= q1 < nq && asg[q1] == Some(j1 as usize) by {
                if j1 == j as int {
                    assert(asg[q as int] == Some(j));
                } else {
                    assert(u0[j1]);
                    let q1 = choose|q1: int| 0 <= q1 < nq && a0[q1] == Some(j1 as usize);
                    assert(q1 != q as int);
                    assert(asg[q1] == a0[q1]);
                }
            }
        }
    }
}

} // verus!
