use vstd::prelude::*;
use std::rc::Rc;
use crate::term::{Term, DEPTH, app, invoke, copy_term};

verus! {

/// The Church numeral `n`: `succ` applied `n` times to `zero`.
pub open spec fn church(n: nat) -> Term
    decreases n,
{
    if n == 0 {
        Term::False
    } else {
        Term::Succ(Rc::new(church((n - 1) as nat)))
    }
}

/// The first component of a pair: the pair applied to the selector `true`.
pub open spec fn first_of(p: Term, fuel: nat) -> Term {
    app(p, Term::True, fuel)
}

/// The second component of a pair: the pair applied to the selector `false`.
pub open spec fn second_of(p: Term, fuel: nat) -> Term {
    app(p, Term::False, fuel)
}

/// `cond` applied to `then` and then to `else`.
pub open spec fn if_of(c: Term, t: Term, e: Term, fuel: nat) -> Term {
    app(app(c, t, fuel), e, fuel)
}

/// `n` applied to `λ_. false` and then to `true`.
pub open spec fn is_zero_of(n: Term, fuel: nat) -> Term {
    app(app(n, Term::Const(Rc::new(Term::False)), fuel), Term::True, fuel)
}

/// `n` steps of `Shift` from `pair(zero, zero)`, then the first component.
pub open spec fn pred_of(n: Term, fuel: nat) -> Term {
    let start = Term::Pair(Rc::new(Term::False), Rc::new(Term::False));
    first_of(app(app(n, Term::Shift, fuel), start, fuel), fuel)
}

/// `n` applied to `PredStep` and then to `m`: `m` less `n`, stopping at zero.
pub open spec fn monus_of(m: Term, n: Term, fuel: nat) -> Term {
    app(app(n, Term::PredStep, fuel), m, fuel)
}

/// Whether `m` less `n`, stopping at zero, is zero.
pub open spec fn leq_of(m: Term, n: Term, fuel: nat) -> Term {
    is_zero_of(monus_of(m, n, fuel), fuel)
}

/// `if a then b else false`.
pub open spec fn and_of(a: Term, b: Term, fuel: nat) -> Term {
    if_of(a, b, Term::False, fuel)
}

/// The integer that a numeral stands for: how often it applies `Inc`,
/// starting from `Lit(0)`.
pub open spec fn decode_int(n: Term) -> Option<u64> {
    match app(app(n, Term::Inc, DEPTH as nat), Term::Lit(0), DEPTH as nat) {
        Term::Lit(k) => Some(k),
        _ => None,
    }
}

/// The truth value that a boolean stands for: which of two literals it selects.
pub open spec fn decode_bool(b: Term) -> Option<bool> {
    match app(app(b, Term::Lit(1), DEPTH as nat), Term::Lit(0), DEPTH as nat) {
        Term::Lit(k) => if k == 1 {
            Some(true)
        } else if k == 0 {
            Some(false)
        } else {
            None
        },
        _ => None,
    }
}

/// The final unwrap: returns its argument.
pub fn identity(x: Term) -> (r: Term)
    ensures
        r == x,
{
    x
}

/// Calls `f` with the continuation `λ_. x`.
pub fn apply(f: Term, x: Term) -> (r: Term)
    ensures
        r == app(f, x, DEPTH as nat),
{
    invoke(&f, &Term::Const(Rc::new(x)), DEPTH)
}

pub fn lc_true() -> (r: Term)
    ensures
        r == Term::True,
{
    Term::True
}

pub fn lc_false() -> (r: Term)
    ensures
        r == Term::False,
{
    Term::False
}

/// `cond` applied to both branches; the chosen one comes back unwrapped.
pub fn lc_if(condition: Term, then_clause: Term, else_clause: Term) -> (r: Term)
    ensures
        r == if_of(condition, then_clause, else_clause, DEPTH as nat),
{
    apply(apply(condition, then_clause), else_clause)
}

/// `λx. x I`: applied to a value, returns it.
pub fn i_combinator() -> (r: Term)
    ensures
        r == Term::Force,
{
    Term::Force
}

/// `λx. λy. x I`: keeps the first of two values.
pub fn k_combinator() -> (r: Term)
    ensures
        r == Term::True,
{
    Term::True
}

/// `λx. λy. y I`: keeps the second of two values.
pub fn ki_combinator() -> (r: Term)
    ensures
        r == Term::False,
{
    Term::False
}

pub fn lc_zero() -> (r: Term)
    ensures
        r == church(0),
{
    Term::False
}

pub fn lc_succ(n: Term) -> (r: Term)
    ensures
        r == Term::Succ(Rc::new(n)),
{
    Term::Succ(Rc::new(n))
}

/// Counts how often `n` applies its function, with an accumulator passed by
/// value; `None` where the result is not a literal.
pub fn church_to_int(n: Term) -> (r: Option<u64>)
    ensures
        r == decode_int(n),
{
    match apply(apply(n, Term::Inc), Term::Lit(0)) {
        Term::Lit(k) => Some(k),
        _ => None,
    }
}

/// The truth value that `b` selects; `None` where it selects neither.
pub fn church_to_bool(b: Term) -> (r: Option<bool>)
    ensures
        r == decode_bool(b),
{
    match apply(apply(b, Term::Lit(1)), Term::Lit(0)) {
        Term::Lit(k) => if k == 1 {
            Some(true)
        } else if k == 0 {
            Some(false)
        } else {
            None
        },
        _ => None,
    }
}

pub fn lc_add(m: Term, n: Term) -> (r: Term)
    ensures
        r == Term::Add(Rc::new(m), Rc::new(n)),
{
    Term::Add(Rc::new(m), Rc::new(n))
}

pub fn lc_mult(m: Term, n: Term) -> (r: Term)
    ensures
        r == Term::Mult(Rc::new(m), Rc::new(n)),
{
    Term::Mult(Rc::new(m), Rc::new(n))
}

pub fn lc_pair(x: Term, y: Term) -> (r: Term)
    ensures
        r == Term::Pair(Rc::new(x), Rc::new(y)),
{
    Term::Pair(Rc::new(x), Rc::new(y))
}

pub fn lc_first(p: Term) -> (r: Term)
    ensures
        r == first_of(p, DEPTH as nat),
{
    apply(p, Term::True)
}

pub fn lc_second(p: Term) -> (r: Term)
    ensures
        r == second_of(p, DEPTH as nat),
{
    apply(p, Term::False)
}

pub fn lc_nil() -> (r: Term)
    ensures
        r == Term::Pair(Rc::new(Term::True), Rc::new(Term::True)),
{
    lc_pair(lc_true(), lc_true())
}

pub fn lc_cons(head: Term, tail: Term) -> (r: Term)
    ensures
        r == Term::Pair(
            Rc::new(Term::False),
            Rc::new(Term::Pair(Rc::new(head), Rc::new(tail))),
        ),
{
    lc_pair(lc_false(), lc_pair(head, tail))
}

pub fn lc_is_nil(list: Term) -> (r: Term)
    ensures
        r == first_of(list, DEPTH as nat),
{
    lc_first(list)
}

pub fn lc_head(list: Term) -> (r: Term)
    ensures
        r == first_of(second_of(list, DEPTH as nat), DEPTH as nat),
{
    lc_first(lc_second(list))
}

pub fn lc_tail(list: Term) -> (r: Term)
    ensures
        r == second_of(second_of(list, DEPTH as nat), DEPTH as nat),
{
    lc_second(lc_second(list))
}

pub fn lc_is_zero(n: Term) -> (r: Term)
    ensures
        r == is_zero_of(n, DEPTH as nat),
{
    apply(apply(n, Term::Const(Rc::new(Term::False))), Term::True)
}

/// The predecessor by pair shifting: `n` steps of `Shift` from
/// `pair(zero, zero)`, then the first component.
pub fn lc_pred(n: Term) -> (r: Term)
    ensures
        r == pred_of(n, DEPTH as nat),
{
    let start = lc_pair(lc_zero(), lc_zero());
    lc_first(apply(apply(n, Term::Shift), start))
}

/// Whether `m` less `n`, stopping at zero, is zero.
pub fn lc_leq(m: Term, n: Term) -> (r: Term)
    ensures
        r == leq_of(m, n, DEPTH as nat),
{
    lc_is_zero(apply(apply(n, Term::PredStep), m))
}

pub fn lc_and(a: Term, b: Term) -> (r: Term)
    ensures
        r == and_of(a, b, DEPTH as nat),
{
    lc_if(a, b, lc_false())
}

pub fn lc_eq(m: Term, n: Term) -> (r: Term)
    ensures
        r == and_of(leq_of(m, n, DEPTH as nat), leq_of(n, m, DEPTH as nat), DEPTH as nat),
{
    let m2 = copy_term(&m);
    let n2 = copy_term(&n);
    lc_and(lc_leq(m, n), lc_leq(n2, m2))
}

} // verus!
