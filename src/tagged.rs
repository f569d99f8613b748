use vstd::prelude::*;
use crate::race::{first_true, lemma_leftmost_is_first_true};

verus! {

/// The result of a race of two members: which one won, with its value.
#[derive(Debug, Clone, PartialEq)]
pub enum E2<A, B> {
    N1(A),
    N2(B),
}

/// The result of a race of three members: which one won, with its value.
#[derive(Debug, Clone, PartialEq)]
pub enum E3<A, B, C> {
    N1(A),
    N2(B),
    N3(C),
}

/// The result of a race of four members: which one won, with its value.
#[derive(Debug, Clone, PartialEq)]
pub enum E4<A, B, C, D> {
    N1(A),
    N2(B),
    N3(C),
    N4(D),
}

impl<A, B> E2<A, B> {
    /// The position of the winner, counted from zero.
    pub open spec fn index(&self) -> int {
        match self {
            E2::N1(_) => 0,
            E2::N2(_) => 1,
        }
    }

    pub fn position(&self) -> (r: usize)
        ensures
            r == self.index(),
    {
        match self {
            E2::N1(_) => 0,
            E2::N2(_) => 1,
        }
    }
}

impl<A, B, C> E3<A, B, C> {
    /// The position of the winner, counted from zero.
    pub open spec fn index(&self) -> int {
        match self {
            E3::N1(_) => 0,
            E3::N2(_) => 1,
            E3::N3(_) => 2,
        }
    }

    pub fn position(&self) -> (r: usize)
        ensures
            r == self.index(),
    {
        match self {
            E3::N1(_) => 0,
            E3::N2(_) => 1,
            E3::N3(_) => 2,
        }
    }
}

impl<A, B, C, D> E4<A, B, C, D> {
    /// The position of the winner, counted from zero.
    pub open spec fn index(&self) -> int {
        match self {
            E4::N1(_) => 0,
            E4::N2(_) => 1,
            E4::N3(_) => 2,
            E4::N4(_) => 3,
        }
    }

    pub fn position(&self) -> (r: usize)
        ensures
            r == self.index(),
    {
        match self {
            E4::N1(_) => 0,
            E4::N2(_) => 1,
            E4::N3(_) => 2,
            E4::N4(_) => 3,
        }
    }
}

/// Resolves one round of a race of two: `a` and `b` are what polling each
/// member gave (`None` while it is pending). The first member wins when it
/// has completed, whatever the second did.
pub fn select2<A, B>(a: Option<A>, b: Option<B>) -> (r: Option<E2<A, B>>)
    ensures
        a matches Some(x) ==> r == Some(E2::<A, B>::N1(x)),
        a is None && b is Some ==> r == Some(E2::<A, B>::N2(b->0)),
        a is None && b is None ==> r is None,
        r matches Some(e) ==> first_true(seq![a is Some, b is Some]) == Some(e.index()),
{
    let r = match a {
        Some(x) => Some(E2::N1(x)),
        None => match b {
            Some(y) => Some(E2::N2(y)),
            None => None,
        },
    };
    proof {
        if r is Some {
            lemma_leftmost_is_first_true(seq![a is Some, b is Some], r->0.index());
        }
    }
    r
}

/// Resolves one round of a race of three, as the first member against the
/// race of the other two: the leftmost completed member wins.
pub fn select3<A, B, C>(a: Option<A>, b: Option<B>, c: Option<C>) -> (r: Option<E3<A, B, C>>)
    ensures
        a matches Some(x) ==> r == Some(E3::<A, B, C>::N1(x)),
        a is None && b is Some ==> r == Some(E3::<A, B, C>::N2(b->0)),
        a is None && b is None && c is Some ==> r == Some(E3::<A, B, C>::N3(c->0)),
        a is None && b is None && c is None ==> r is None,
        r matches Some(e) ==> first_true(seq![a is Some, b is Some, c is Some]) == Some(
            e.index(),
        ),
{
    let r = match select2(a, select2(b, c)) {
        Some(E2::N1(x)) => Some(E3::N1(x)),
        Some(E2::N2(E2::N1(y))) => Some(E3::N2(y)),
        Some(E2::N2(E2::N2(z))) => Some(E3::N3(z)),
        None => None,
    };
    proof {
        if r is Some {
            lemma_leftmost_is_first_true(seq![a is Some, b is Some, c is Some], r->0.index());
        }
    }
    r
}

/// Resolves one round of a race of four, as the first member against the
/// race of the other three: the leftmost completed member wins.
pub fn select4<A, B, C, D>(a: Option<A>, b: Option<B>, c: Option<C>, d: Option<D>) -> (r: Option<
    E4<A, B, C, D>,
>)
    ensures
        a matches Some(x) ==> r == Some(E4::<A, B, C, D>::N1(x)),
        a is None && b is Some ==> r == Some(E4::<A, B, C, D>::N2(b->0)),
        a is None && b is None && c is Some ==> r == Some(E4::<A, B, C, D>::N3(c->0)),
        a is None && b is None && c is None && d is Some ==> r == Some(
            E4::<A, B, C, D>::N4(d->0),
        ),
        a is None && b is None && c is None && d is None ==> r is None,
        r matches Some(e) ==> first_true(seq![a is Some, b is Some, c is Some, d is Some]) == Some(
            e.index(),
        ),
{
    let r = match select2(a, select3(b, c, d)) {
        Some(E2::N1(x)) => Some(E4::N1(x)),
        Some(E2::N2(E3::N1(y))) => Some(E4::N2(y)),
        Some(E2::N2(E3::N2(z))) => Some(E4::N3(z)),
        Some(E2::N2(E3::N3(u))) => Some(E4::N4(u)),
        None => None,
    };
    proof {
        if r is Some {
            lemma_leftmost_is_first_true(
                seq![a is Some, b is Some, c is Some, d is Some],
                r->0.index(),
            );
        }
    }
    r
}

} // verus!
