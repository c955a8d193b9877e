use vstd::prelude::*;
use std::rc::Rc;
use crate::term::{Term, DEPTH, app, copy_term};
use crate::church::{
    first_of, second_of, apply, lc_is_nil, lc_head, lc_tail, lc_nil, lc_cons,
};

verus! {

/// The empty list: `pair(true, true)`.
pub open spec fn nil_term() -> Term {
    Term::Pair(Rc::new(Term::True), Rc::new(Term::True))
}

/// A list cell: `pair(false, pair(head, tail))`.
pub open spec fn cons_term(head: Term, tail: Term) -> Term {
    Term::Pair(Rc::new(Term::False), Rc::new(Term::Pair(Rc::new(head), Rc::new(tail))))
}

/// The first component of the second component of a list cell.
pub open spec fn head_of(list: Term, fuel: nat) -> Term {
    first_of(second_of(list, fuel), fuel)
}

/// The second component of the second component of a list cell.
pub open spec fn tail_of(list: Term, fuel: nat) -> Term {
    second_of(second_of(list, fuel), fuel)
}

/// `f` applied to each element, for at most `budget` cells; `Bottom` where a
/// cell is tagged neither empty nor non-empty, or the budget runs out.
pub open spec fn map_of(f: Term, list: Term, budget: nat) -> Term
    decreases budget,
{
    if budget == 0 {
        Term::Bottom
    } else {
        match first_of(list, DEPTH as nat) {
            Term::True => nil_term(),
            Term::False => cons_term(
                app(f, head_of(list, DEPTH as nat), DEPTH as nat),
                map_of(f, tail_of(list, DEPTH as nat), (budget - 1) as nat),
            ),
            _ => Term::Bottom,
        }
    }
}

/// The elements for which `pred` yields `true`, in order.
pub open spec fn filter_of(pred: Term, list: Term, budget: nat) -> Term
    decreases budget,
{
    if budget == 0 {
        Term::Bottom
    } else {
        match first_of(list, DEPTH as nat) {
            Term::True => nil_term(),
            Term::False => {
                let rest = filter_of(pred, tail_of(list, DEPTH as nat), (budget - 1) as nat);
                match app(pred, head_of(list, DEPTH as nat), DEPTH as nat) {
                    Term::True => cons_term(head_of(list, DEPTH as nat), rest),
                    Term::False => rest,
                    _ => Term::Bottom,
                }
            },
            _ => Term::Bottom,
        }
    }
}

/// `f acc h1`, then `f` of that and `h2`, and so on to the end of the list.
pub open spec fn fold_of(f: Term, acc: Term, list: Term, budget: nat) -> Term
    decreases budget,
{
    if budget == 0 {
        Term::Bottom
    } else {
        match first_of(list, DEPTH as nat) {
            Term::True => acc,
            Term::False => fold_of(
                f,
                app(app(f, acc, DEPTH as nat), head_of(list, DEPTH as nat), DEPTH as nat),
                tail_of(list, DEPTH as nat),
                (budget - 1) as nat,
            ),
            _ => Term::Bottom,
        }
    }
}

fn map_within(f: &Term, list: Term, budget: u64) -> (r: Term)
    ensures
        r == map_of(*f, list, budget as nat),
    decreases budget,
{
    if budget == 0 {
        return Term::Bottom;
    }
    match lc_is_nil(copy_term(&list)) {
        Term::True => lc_nil(),
        Term::False => {
            let h = apply(copy_term(f), lc_head(copy_term(&list)));
            let t = map_within(f, lc_tail(list), budget - 1);
            lc_cons(h, t)
        },
        _ => Term::Bottom,
    }
}

fn filter_within(pred: &Term, list: Term, budget: u64) -> (r: Term)
    ensures
        r == filter_of(*pred, list, budget as nat),
    decreases budget,
{
    if budget == 0 {
        return Term::Bottom;
    }
    match lc_is_nil(copy_term(&list)) {
        Term::True => lc_nil(),
        Term::False => {
            let h = lc_head(copy_term(&list));
            let rest = filter_within(pred, lc_tail(list), budget - 1);
            match apply(copy_term(pred), copy_term(&h)) {
                Term::True => lc_cons(h, rest),
                Term::False => rest,
                _ => Term::Bottom,
            }
        },
        _ => Term::Bottom,
    }
}

fn fold_within(f: &Term, acc: Term, list: Term, budget: u64) -> (r: Term)
    ensures
        r == fold_of(*f, acc, list, budget as nat),
    decreases budget,
{
    if budget == 0 {
        return Term::Bottom;
    }
    match lc_is_nil(copy_term(&list)) {
        Term::True => acc,
        Term::False => {
            let next = apply(apply(copy_term(f), acc), lc_head(copy_term(&list)));
            fold_within(f, next, lc_tail(list), budget - 1)
        },
        _ => Term::Bottom,
    }
}

/// The list of `f` applied to each element of `list`.
pub fn lc_map(f: Term, list: Term) -> (r: Term)
    ensures
        r == map_of(f, list, DEPTH as nat),
{
    map_within(&f, list, DEPTH)
}

/// The elements of `list` for which `pred` yields `true`.
pub fn lc_filter(pred: Term, list: Term) -> (r: Term)
    ensures
        r == filter_of(pred, list, DEPTH as nat),
{
    filter_within(&pred, list, DEPTH)
}

/// `f` folded over `list` from the left, starting at `acc`.
pub fn lc_fold(f: Term, acc: Term, list: Term) -> (r: Term)
    ensures
        r == fold_of(f, acc, list, DEPTH as nat),
{
    fold_within(&f, acc, list, DEPTH)
}

} // verus!
