use vstd::prelude::*;
use crate::term::{Term, DEPTH, app};
use crate::church::apply;

verus! {

/// The fixed-point combinator `λf. S S` with `S = λx. f (λv. x x v)`: the
/// self-application is held back until the recursive call is made, so that
/// it terminates under strict evaluation.
pub fn y_combinator() -> (r: Term)
    ensures
        r == Term::Fix,
{
    Term::Fix
}

/// The fixed point of `λf. λn. if (is_zero n) one (mult n (f (pred n)))`,
/// whose recursive branch is only built when it is selected.
pub fn lc_factorial() -> (r: Term)
    ensures
        r == app(Term::Fix, Term::FactGen, DEPTH as nat),
{
    apply(y_combinator(), Term::FactGen)
}

} // verus!
