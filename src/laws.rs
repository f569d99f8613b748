use vstd::prelude::*;
use crate::race::{first_true, is_leftmost_ready, lemma_leftmost_is_first_true, losers};

verus! {

/// When exactly one member of a race of two or more has completed, that
/// member wins.
pub proof fn lemma_sole_ready_wins(s: Seq<bool>, i: int)
    requires
        s.len() >= 2,
        0 <= i < s.len(),
        s[i],
        forall|j: int| 0 <= j < s.len() && j != i ==> !s[j],
    ensures
        first_true(s) == Some(i),
{
    lemma_leftmost_is_first_true(s, i);
}

/// When every member of a race has completed, the first member wins.
pub proof fn lemma_all_ready_first_wins(s: Seq<bool>)
    requires
        s.len() >= 2,
        forall|j: int| 0 <= j < s.len() ==> s[j],
    ensures
        first_true(s) == Some(0int),
{
    lemma_leftmost_is_first_true(s, 0);
}

/// A round of polls has at most one winner: two positions that both are the
/// leftmost completed member are the same.
pub proof fn lemma_winner_unique(s: Seq<bool>, i: int, j: int)
    requires
        is_leftmost_ready(s, i),
        is_leftmost_ready(s, j),
    ensures
        i == j,
{
    if i < j {
        assert(!s[i]);
    } else if j < i {
        assert(!s[j]);
    }
}

/// `v` stands in `l` at exactly one position.
pub open spec fn occurs_once(l: Seq<usize>, v: usize) -> bool {
    exists|k: int|
        0 <= k < l.len() && #[trigger] l[k] == v && forall|m: int|
            0 <= m < l.len() && #[trigger] l[m] == v ==> m == k
}

/// Once member `w` of a race of `n` has won, the cancellation list names
/// every other member exactly once, never the winner, and nothing outside
/// the race.
pub proof fn lemma_losers_cancelled_once(n: usize, w: usize)
    requires
        n >= 2,
        w < n,
    ensures
        losers(n, w).len() == n - 1,
        forall|k: int| 0 <= k < losers(n, w).len() ==> losers(n, w)[k] < n,
        !losers(n, w).contains(w),
        forall|j: usize| j < n && j != w ==> #[trigger] occurs_once(losers(n, w), j),
{
    let l = losers(n, w);
    assert forall|j: usize| j < n && j != w implies #[trigger] occurs_once(l, j) by {
        let k: int = if j < w { j as int } else { j - 1 };
        assert(l[k] == j);
    }
}

} // verus!
