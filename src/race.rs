use vstd::prelude::*;

verus! {

/// The position of the leftmost `true` in `s`, if any.
///
/// Written as the binary composition of a race: the first member against the
/// race of all the others.
pub open spec fn first_true(s: Seq<bool>) -> Option<int>
    decreases s.len(),
{
    if s.len() == 0 {
        None
    } else if s[0] {
        Some(0)
    } else {
        match first_true(s.drop_first()) {
            Some(i) => Some(i + 1),
            None => None,
        }
    }
}

/// Which members of a round of polls have completed.
pub open spec fn readiness<T>(polls: Seq<Option<T>>) -> Seq<bool> {
    polls.map_values(|p: Option<T>| p is Some)
}

/// `i` is the leftmost completed member of `s`.
pub open spec fn is_leftmost_ready(s: Seq<bool>, i: int) -> bool {
    &&& 0 <= i < s.len()
    &&& s[i]
    &&& forall|j: int| 0 <= j < i ==> !s[j]
}

/// `first_true` is the leftmost completed member, and there is none exactly
/// when no member has completed.
pub proof fn lemma_first_true_leftmost(s: Seq<bool>)
    ensures
        first_true(s) is None <==> (forall|j: int| 0 <= j < s.len() ==> !s[j]),
        first_true(s) matches Some(i) ==> is_leftmost_ready(s, i),
    decreases s.len(),
{
    if s.len() > 0 && !s[0] {
        let t = s.drop_first();
        lemma_first_true_leftmost(t);
        assert forall|j: int| 0 <= j < s.len() && j != 0 implies s[j] == t[j - 1] by {}
    }
}

/// The position of the leftmost completed member of a round, if any.
pub fn first_ready(ready: &Vec<bool>) -> (r: Option<usize>)
    ensures
        r matches Some(i) ==> first_true(ready@) == Some(i as int),
        r is None ==> first_true(ready@) is None,
{
    let mut i: usize = 0;
    while i < ready.len()
        invariant
            i <= ready@.len(),
            forall|j: int| 0 <= j < i ==> !ready@[j],
        decreases ready@.len() - i,
    {
        if ready[i] {
            proof {
                lemma_leftmost_is_first_true(ready@, i as int);
            }
            return Some(i);
        }
        i = i + 1;
    }
    proof {
        lemma_first_true_leftmost(ready@);
    }
    None
}

/// The leftmost completed member is what `first_true` gives.
pub proof fn lemma_leftmost_is_first_true(s: Seq<bool>, i: int)
    requires
        is_leftmost_ready(s, i),
    ensures
        first_true(s) == Some(i),
{
    lemma_first_true_leftmost(s);
    if let Some(k) = first_true(s) {
        assert(k == i) by {
            if k < i {
                assert(!s[k]);
            } else if i < k {
                assert(s[i]);
            }
        }
    }
}

/// The result of a race of any arity whose members all yield one type: the
/// position of the winner (counted from zero) and its value.
#[derive(Debug, Clone, PartialEq)]
pub struct Tagged<T> {
    pub position: usize,
    pub value: T,
}

/// Resolves one round of polls: the leftmost completed member wins, and the
/// values of all the others are dropped.
pub fn take_first<T>(polls: Vec<Option<T>>) -> (r: Option<Tagged<T>>)
    ensures
        r is None <==> first_true(readiness(polls@)) is None,
        r matches Some(t) ==> {
            &&& t.position < polls@.len()
            &&& first_true(readiness(polls@)) == Some(t.position as int)
            &&& polls@[t.position as int] == Some(t.value)
        },
{
    let mut i: usize = 0;
    while i < polls.len()
        invariant
            i <= polls@.len(),
            forall|j: int| 0 <= j < i ==> polls@[j] is None,
        decreases polls@.len() - i,
    {
        if polls[i].is_some() {
            proof {
                let rd = readiness(polls@);
                assert forall|j: int| 0 <= j < i implies !rd[j] by {
                    assert(polls@[j] is None);
                }
                lemma_leftmost_is_first_true(rd, i as int);
            }
            let mut slots = polls;
            return match slots.swap_remove(i) {
                Some(v) => Some(Tagged { position: i, value: v }),
                None => None,
            };
        }
        i = i + 1;
    }
    proof {
        lemma_first_true_leftmost(readiness(polls@));
        assert(forall|j: int| 0 <= j < polls@.len() ==> !readiness(polls@)[j]);
    }
    None
}

/// The members to cancel once member `w` of a race of `n` has won: every
/// other position, in order.
pub open spec fn losers(n: usize, w: usize) -> Seq<usize> {
    Seq::new((n - 1) as nat, |k: int| if k < w { k as usize } else { (k + 1) as usize })
}

/// What a race is, as far as its decisions go: how many members it has, and
/// which of them won, once one has.
pub ghost struct RaceView {
    pub arity: nat,
    pub winner: Option<nat>,
}

/// The decision state of one race. It is `Racing` while `winner` is `None`
/// and `Done` afterwards; a winner is chosen once and never changes.
pub struct Race {
    arity: usize,
    winner: Option<usize>,
}

/// What the host does when a race resolves: hand over the value of member
/// `winner`, and cancel each member listed in `cancel`.
pub struct Settled {
    pub winner: usize,
    pub cancel: Vec<usize>,
}

impl View for Race {
    type V = RaceView;

    closed spec fn view(&self) -> RaceView {
        RaceView {
            arity: self.arity as nat,
            winner: match self.winner {
                Some(w) => Some(w as nat),
                None => None,
            },
        }
    }
}

impl Race {
    /// A race has at least two members, and its winner is one of them.
    pub open spec fn wf(&self) -> bool {
        &&& self@.arity >= 2
        &&& self@.winner matches Some(w) ==> w < self@.arity
    }

    /// A race of `arity` members, none of which has completed yet.
    pub fn new(arity: usize) -> (r: Race)
        requires
            arity >= 2,
        ensures
            r.wf(),
            r@.arity == arity,
            r@.winner is None,
    {
        Race { arity, winner: None }
    }

    pub fn arity(&self) -> (r: usize)
        ensures
            r == self@.arity,
    {
        self.arity
    }

    pub fn winner(&self) -> (r: Option<usize>)
        ensures
            r is None <==> self@.winner is None,
            r matches Some(w) ==> self@.winner == Some(w as nat),
    {
        self.winner
    }

    pub fn is_done(&self) -> (r: bool)
        ensures
            r == self@.winner is Some,
    {
        self.winner.is_some()
    }

    /// Takes one round of polls, `ready[i]` telling whether member `i` has
    /// completed. While racing, the leftmost completed member wins, and every
    /// other member is to be cancelled. Once done, a race decides nothing more.
    pub fn settle(&mut self, ready: &Vec<bool>) -> (r: Option<Settled>)
        requires
            old(self).wf(),
            ready@.len() == old(self)@.arity,
        ensures
            final(self).wf(),
            final(self)@.arity == old(self)@.arity,
            old(self)@.winner is Some ==> r is None && final(self)@ == old(self)@,
            old(self)@.winner is None ==> match first_true(ready@) {
                None => r is None && final(self)@ == old(self)@,
                Some(w) => {
                    &&& r matches Some(s) && s.winner == w && s.cancel@ == losers(
                        old(self)@.arity as usize,
                        s.winner,
                    )
                    &&& final(self)@.winner == Some(w as nat)
                },
            },
    {
        if self.winner.is_some() {
            return None;
        }
        match first_ready(ready) {
            None => None,
            Some(w) => {
                proof {
                    lemma_first_true_leftmost(ready@);
                }
                let cancel = loser_positions(self.arity, w);
                self.winner = Some(w);
                Some(Settled { winner: w, cancel })
            },
        }
    }
}

/// Every position below `n` but `w`, in order.
fn loser_positions(n: usize, w: usize) -> (r: Vec<usize>)
    requires
        w < n,
    ensures
        r@ == losers(n, w),
{
    let mut r: Vec<usize> = Vec::new();
    let mut k: usize = 0;
    while k < n
        invariant
            w < n,
            k <= n,
            r@.len() == if k <= w { k as int } else { k - 1 },
            forall|j: int| 0 <= j < r@.len() ==> r@[j] == if j < w { j } else { j + 1 },
        decreases n - k,
    {
        if k != w {
            r.push(k);
        }
        k = k + 1;
    }
    assert(r@ =~= losers(n, w));
    r
}

} // verus!
