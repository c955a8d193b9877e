use vstd::prelude::*;
use std::rc::Rc;
use crate::term::{Term, DEPTH, eval, app};
use crate::church::{
    church, first_of, second_of, if_of, is_zero_of, pred_of, leq_of, and_of, decode_int,
    decode_bool,
};
use crate::lists::{nil_term, cons_term, head_of, tail_of};

verus! {

/// What `app(church(n), g, fuel)` yields once there is depth for one call.
pub open spec fn iterating(n: nat, g: Term) -> Term {
    if n == 0 {
        Term::Force
    } else {
        Term::SuccWith(Rc::new(church((n - 1) as nat)), Rc::new(Term::Const(Rc::new(g))))
    }
}

/// `g` adds `b` to every literal that does not overflow, given `c` levels of depth.
pub open spec fn adds(g: Term, b: nat, c: nat) -> bool {
    forall|j: u64, fuel: nat|
        j + b <= u64::MAX && fuel >= c ==> #[trigger] app(g, Term::Lit(j), fuel) == Term::Lit(
            (j + b) as u64,
        )
}

proof fn lemma_app_church(n: nat, g: Term, fuel: nat)
    requires
        fuel >= 1,
    ensures
        app(church(n), g, fuel) == iterating(n, g),
{
}

proof fn lemma_inc_adds_one()
    ensures
        adds(Term::Inc, 1, 2),
{
    assert forall|j: u64, fuel: nat| j + 1 <= u64::MAX && fuel >= 2 implies #[trigger] app(
        Term::Inc,
        Term::Lit(j),
        fuel,
    ) == Term::Lit((j + 1) as u64) by {
        assert(eval(Term::Const(Rc::new(Term::Lit(j))), Term::Identity, (fuel - 1) as nat)
            == Term::Lit(j));
    }
}

/// A numeral `n` iterates a function that adds `b`: it adds `n * b`.
proof fn lemma_iterate_adds(n: nat, g: Term, b: nat, c: nat, j: u64, fuel: nat)
    requires
        adds(g, b, c),
        fuel >= n + c + 2,
        j + n * b <= u64::MAX,
    ensures
        app(iterating(n, g), Term::Lit(j), fuel) == Term::Lit((j + n * b) as u64),
    decreases n,
{
    let d: nat = (fuel - 1) as nat;
    let x = Term::Const(Rc::new(Term::Lit(j)));
    assert(eval(x, Term::Identity, d) == Term::Lit(j));
    if n > 0 {
        let p = church((n - 1) as nat);
        let f = Term::Const(Rc::new(g));
        assert(eval(f, Term::Identity, d) == g);
        assert((n - 1) * b <= n * b) by (nonlinear_arith)
            requires n >= 1;
        assert(j + (n - 1) * b + b == j + n * b) by (nonlinear_arith)
            requires n >= 1;
        lemma_app_church((n - 1) as nat, g, d);
        lemma_iterate_adds((n - 1) as nat, g, b, c, j, d);
        let inner = Term::Lit((j + (n - 1) * b) as u64);
        assert(app(g, inner, d) == Term::Lit((j + n * b) as u64));
    }
}

proof fn lemma_numeral_adds(b: nat)
    requires
        b + 4 <= u64::MAX,
    ensures
        adds(iterating(b, Term::Inc), b, b + 4),
{
    lemma_inc_adds_one();
    assert forall|j: u64, fuel: nat| j + b <= u64::MAX && fuel >= b + 4 implies #[trigger] app(
        iterating(b, Term::Inc),
        Term::Lit(j),
        fuel,
    ) == Term::Lit((j + b) as u64) by {
        lemma_iterate_adds(b, Term::Inc, 1, 2, j, fuel);
    }
}

/// Decoding the numeral built by `n` successors of zero gives `n`.
pub proof fn law_church_to_int(n: nat)
    requires
        n + 10 <= DEPTH,
    ensures
        decode_int(church(n)) == Some(n as u64),
{
    lemma_inc_adds_one();
    lemma_app_church(n, Term::Inc, DEPTH as nat);
    lemma_iterate_adds(n, Term::Inc, 1, 2, 0, DEPTH as nat);
}

/// The sum of two numerals decodes to the sum of the integers.
pub proof fn law_add(a: nat, b: nat)
    requires
        a + b + 10 <= DEPTH,
    ensures
        decode_int(Term::Add(Rc::new(church(a)), Rc::new(church(b)))) == Some((a + b) as u64),
{
    let fuel: nat = DEPTH as nat;
    let d: nat = (fuel - 1) as nat;
    lemma_inc_adds_one();
    let f = Term::Const(Rc::new(Term::Inc));
    assert(eval(f, Term::Identity, d) == Term::Inc);
    assert(eval(Term::Const(Rc::new(Term::Lit(0))), Term::Identity, d) == Term::Lit(0));
    lemma_app_church(b, Term::Inc, d);
    lemma_iterate_adds(b, Term::Inc, 1, 2, 0, d);
    lemma_app_church(a, Term::Inc, d);
    lemma_iterate_adds(a, Term::Inc, 1, 2, b as u64, d);
}

/// The product of two numerals decodes to the product of the integers.
pub proof fn law_mult(a: nat, b: nat)
    requires
        a + b + 10 <= DEPTH,
        a * b <= u64::MAX,
    ensures
        decode_int(Term::Mult(Rc::new(church(a)), Rc::new(church(b)))) == Some((a * b) as u64),
{
    let fuel: nat = DEPTH as nat;
    let d: nat = (fuel - 1) as nat;
    let f = Term::Const(Rc::new(Term::Inc));
    assert(eval(f, Term::Identity, d) == Term::Inc);
    assert(eval(Term::Const(Rc::new(Term::Lit(0))), Term::Identity, d) == Term::Lit(0));
    lemma_app_church(b, Term::Inc, d);
    let h = iterating(b, Term::Inc);
    lemma_numeral_adds(b);
    lemma_app_church(a, h, d);
    lemma_iterate_adds(a, h, b, b + 4, 0, d);
}


/// `a` less one, stopping at zero.
pub open spec fn minus_one(a: nat) -> nat {
    if a == 0 {
        0
    } else {
        (a - 1) as nat
    }
}

/// `m` less `n`, stopping at zero.
pub open spec fn monus(m: nat, n: nat) -> nat {
    if m >= n {
        (m - n) as nat
    } else {
        0
    }
}

/// The pair that `k` steps of `Shift` reach from `pair(zero, zero)`.
pub open spec fn shifted(k: nat) -> Term {
    Term::Pair(Rc::new(church(minus_one(k))), Rc::new(church(k)))
}

proof fn lemma_projections(a: Term, b: Term, fuel: nat)
    requires
        fuel >= 3,
    ensures
        first_of(Term::Pair(Rc::new(a), Rc::new(b)), fuel) == a,
        second_of(Term::Pair(Rc::new(a), Rc::new(b)), fuel) == b,
{
    let d: nat = (fuel - 1) as nat;
    let ca = Term::Const(Rc::new(a));
    let cb = Term::Const(Rc::new(b));
    assert(eval(Term::Const(Rc::new(Term::True)), Term::Identity, d) == Term::True);
    assert(eval(Term::True, ca, d) == Term::TrueWith(Rc::new(ca)));
    assert(eval(ca, Term::Identity, (d - 1) as nat) == a);
    assert(eval(Term::TrueWith(Rc::new(ca)), cb, d) == a);
    assert(eval(Term::Const(Rc::new(Term::False)), Term::Identity, d) == Term::False);
    assert(eval(Term::False, ca, d) == Term::Force);
    assert(eval(cb, Term::Identity, (d - 1) as nat) == b);
    assert(eval(Term::Force, cb, d) == b);
}

proof fn lemma_shift_step(k: nat, fuel: nat)
    requires
        fuel >= 5,
    ensures
        app(Term::Shift, shifted(k), fuel) == shifted(k + 1),
{
    let d: nat = (fuel - 1) as nat;
    assert(eval(Term::Const(Rc::new(shifted(k))), Term::Identity, d) == shifted(k));
    lemma_projections(church(minus_one(k)), church(k), d);
    assert(church(k + 1) == Term::Succ(Rc::new(church(k))));
}

proof fn lemma_iterate_shift(n: nat, fuel: nat)
    requires
        fuel >= n + 7,
    ensures
        app(iterating(n, Term::Shift), shifted(0), fuel) == shifted(n),
    decreases n,
{
    let d: nat = (fuel - 1) as nat;
    assert(eval(Term::Const(Rc::new(shifted(0))), Term::Identity, d) == shifted(0));
    if n > 0 {
        let f = Term::Const(Rc::new(Term::Shift));
        assert(eval(f, Term::Identity, d) == Term::Shift);
        lemma_app_church((n - 1) as nat, Term::Shift, d);
        lemma_iterate_shift((n - 1) as nat, d);
        lemma_shift_step((n - 1) as nat, d);
    }
}

proof fn lemma_pred(k: nat, fuel: nat)
    requires
        fuel >= k + 8,
    ensures
        pred_of(church(k), fuel) == church(minus_one(k)),
{
    lemma_app_church(k, Term::Shift, fuel);
    lemma_iterate_shift(k, fuel);
    lemma_projections(church(minus_one(k)), church(k), fuel);
}

proof fn lemma_pred_step(k: nat, fuel: nat)
    requires
        fuel >= k + 10,
    ensures
        app(Term::PredStep, church(k), fuel) == church(minus_one(k)),
{
    let d: nat = (fuel - 1) as nat;
    assert(eval(Term::Const(Rc::new(church(k))), Term::Identity, d) == church(k));
    lemma_pred(k, d);
}

proof fn lemma_iterate_pred(n: nat, m: nat, fuel: nat)
    requires
        fuel >= n + m + 12,
    ensures
        app(iterating(n, Term::PredStep), church(m), fuel) == church(monus(m, n)),
    decreases n,
{
    let d: nat = (fuel - 1) as nat;
    assert(eval(Term::Const(Rc::new(church(m))), Term::Identity, d) == church(m));
    if n > 0 {
        let f = Term::Const(Rc::new(Term::PredStep));
        assert(eval(f, Term::Identity, d) == Term::PredStep);
        lemma_app_church((n - 1) as nat, Term::PredStep, d);
        lemma_iterate_pred((n - 1) as nat, m, d);
        lemma_pred_step(monus(m, (n - 1) as nat), d);
    }
}

proof fn lemma_is_zero(a: nat, fuel: nat)
    requires
        fuel >= 3,
    ensures
        is_zero_of(church(a), fuel) == (if a == 0 {
            Term::True
        } else {
            Term::False
        }),
{
    let d: nat = (fuel - 1) as nat;
    lemma_app_church(a, Term::Const(Rc::new(Term::False)), fuel);
    assert(eval(Term::Const(Rc::new(Term::True)), Term::Identity, d) == Term::True);
    let never = Term::Const(Rc::new(Term::False));
    let ct = Term::Const(Rc::new(Term::True));
    assert(eval(Term::Const(Rc::new(never)), Term::Identity, d) == never);
    if a == 0 {
        assert(app(Term::Force, Term::True, fuel) == Term::True);
    } else {
        let p = church((a - 1) as nat);
        let inner = eval(
            eval(p, Term::Const(Rc::new(never)), d),
            Term::Const(Rc::new(Term::True)),
            d,
        );
        assert(eval(never, Term::Const(Rc::new(inner)), d) == Term::False);
        assert(app(iterating(a, never), Term::True, fuel) == Term::False);
    }
}

proof fn lemma_booleans()
    ensures
        decode_bool(Term::True) == Some(true),
        decode_bool(Term::False) == Some(false),
        forall|t: Term, e: Term, fuel: nat| fuel >= 3 ==> #[trigger] if_of(Term::True, t, e, fuel) == t,
        forall|t: Term, e: Term, fuel: nat| fuel >= 3 ==> #[trigger] if_of(Term::False, t, e, fuel) == e,
{
    let d: nat = (DEPTH - 1) as nat;
    assert(eval(Term::Const(Rc::new(Term::Lit(1))), Term::Identity, d) == Term::Lit(1));
    assert(eval(Term::Const(Rc::new(Term::Lit(0))), Term::Identity, d) == Term::Lit(0));
    assert forall|t: Term, e: Term, fuel: nat| fuel >= 3 implies #[trigger] if_of(Term::True, t, e, fuel) == t by {
        assert(eval(Term::Const(Rc::new(t)), Term::Identity, (fuel - 1) as nat) == t);
    }
    assert forall|t: Term, e: Term, fuel: nat| fuel >= 3 implies #[trigger] if_of(Term::False, t, e, fuel) == e by {
        assert(eval(Term::Const(Rc::new(e)), Term::Identity, (fuel - 1) as nat) == e);
    }
}

/// The predecessor of the numeral `a` is the numeral `a - 1`, and that of
/// zero is zero.
pub proof fn law_pred(a: nat)
    requires
        a + 10 <= DEPTH,
    ensures
        pred_of(church(a), DEPTH as nat) == church(minus_one(a)),
        decode_int(pred_of(church(a), DEPTH as nat)) == Some(minus_one(a) as u64),
{
    lemma_pred(a, DEPTH as nat);
    law_church_to_int(minus_one(a));
}

/// `is_zero` of the numeral `a` is the boolean `true` exactly when `a` is zero.
pub proof fn law_is_zero(a: nat)
    ensures
        decode_bool(is_zero_of(church(a), DEPTH as nat)) == Some(a == 0),
{
    lemma_is_zero(a, DEPTH as nat);
    lemma_booleans();
}

/// `leq` of two numerals is `true` exactly when the first integer is at most
/// the second, and `eq` exactly when they are equal.
pub proof fn law_leq_eq(m: nat, n: nat)
    requires
        m + n + 20 <= DEPTH,
    ensures
        decode_bool(leq_of(church(m), church(n), DEPTH as nat)) == Some(m <= n),
        decode_bool(
            and_of(
                leq_of(church(m), church(n), DEPTH as nat),
                leq_of(church(n), church(m), DEPTH as nat),
                DEPTH as nat,
            ),
        ) == Some(m == n),
{
    let fuel: nat = DEPTH as nat;
    lemma_booleans();
    lemma_app_church(n, Term::PredStep, fuel);
    lemma_iterate_pred(n, m, fuel);
    lemma_is_zero(monus(m, n), fuel);
    lemma_app_church(m, Term::PredStep, fuel);
    lemma_iterate_pred(m, n, fuel);
    lemma_is_zero(monus(n, m), fuel);
}

/// Reading a two-element list back gives its elements in order, then the
/// empty list.
pub proof fn law_list_round_trip(h1: Term, h2: Term)
    ensures
        first_of(cons_term(h1, cons_term(h2, nil_term())), DEPTH as nat) == Term::False,
        head_of(cons_term(h1, cons_term(h2, nil_term())), DEPTH as nat) == h1,
        tail_of(cons_term(h1, cons_term(h2, nil_term())), DEPTH as nat) == cons_term(h2, nil_term()),
        first_of(cons_term(h2, nil_term()), DEPTH as nat) == Term::False,
        head_of(cons_term(h2, nil_term()), DEPTH as nat) == h2,
        tail_of(cons_term(h2, nil_term()), DEPTH as nat) == nil_term(),
        first_of(nil_term(), DEPTH as nat) == Term::True,
{
    let fuel: nat = DEPTH as nat;
    let rest = cons_term(h2, nil_term());
    lemma_projections(Term::False, Term::Pair(Rc::new(h1), Rc::new(rest)), fuel);
    lemma_projections(h1, rest, fuel);
    lemma_projections(Term::False, Term::Pair(Rc::new(h2), Rc::new(nil_term())), fuel);
    lemma_projections(h2, nil_term(), fuel);
    lemma_projections(Term::True, Term::True, fuel);
}

} // verus!
