use vstd::prelude::*;
use std::rc::Rc;

verus! {

/// A lambda-calculus value: a closure from `Term` to `Term`, written out as
/// the closed set of closure forms that the encodings build.  Each variant
/// holds what its closure captured; `eval` says what calling it does.
///
/// Arguments arrive as continuations: `apply(f, x)` calls `f` with `Const(x)`,
/// and a body that needs the value of an argument forces it by calling it
/// with `Identity`.
#[derive(Clone, Debug)]
pub enum Term {
    /// The result of an evaluation that ran out of depth or called a
    /// value that is not a function.
    Bottom,
    /// A host integer, the accumulator of numeral decoding.
    Lit(u64),
    /// `λk. k + 1` on a forced `Lit`.
    Inc,
    /// `λx. x`, the final unwrap.
    Identity,
    /// `λ_. a`, the continuation that `apply` builds.
    Const(Rc<Term>),
    /// `λx. x I`: forces its argument (the `I` combinator).
    Force,
    /// `λx. λy. x I`: true, and the `K` combinator.
    True,
    /// `True` after its first argument.
    TrueWith(Rc<Term>),
    /// `λx. λy. y I`: false, the `KI` combinator and the numeral zero.
    False,
    /// `λf. λx. f (n f x)`.
    Succ(Rc<Term>),
    /// `Succ(n)` after its first argument.
    SuccWith(Rc<Term>, Rc<Term>),
    /// `λn. succ n`: the successor as a value.
    SuccFn,
    /// `λf. λx. m f (n f x)`.
    Add(Rc<Term>, Rc<Term>),
    /// `Add(m, n)` after its first argument.
    AddWith(Rc<Term>, Rc<Term>, Rc<Term>),
    /// `λm. λn. add m n`: addition as a value.
    AddFn,
    /// `AddFn` after its first argument.
    AddFnWith(Rc<Term>),
    /// `λf. λx. m (n f) x`.
    Mult(Rc<Term>, Rc<Term>),
    /// `Mult(m, n)` after its first argument.
    MultWith(Rc<Term>, Rc<Term>, Rc<Term>),
    /// `λs. s a b`.
    Pair(Rc<Term>, Rc<Term>),
    /// `λp. pair(second p, succ(second p))`, the step of the predecessor.
    Shift,
    /// `λn. pred n`.
    PredStep,
    /// `λf. S S` where `S = SelfApply(f)`: the fixed-point combinator.
    Fix,
    /// `λx. f (Delay(x))`.
    SelfApply(Rc<Term>),
    /// `λv. x x v`: the self-application, held back until it is called.
    Delay(Rc<Term>),
    /// `λr. FactStep(r)`: the generator whose fixed point is factorial.
    FactGen,
    /// `λn. if (is_zero n) one (FactRest(r, n))`, the branch held back.
    FactStep(Rc<Term>),
    /// `λ_. mult n (r (pred n))`.
    FactRest(Rc<Term>, Rc<Term>),
}

/// The depth of nested calls that an evaluation may reach.
pub const DEPTH: u64 = 1_000_000;

/// What calling `f` with the argument `x` yields, within `fuel` nested calls.
pub open spec fn eval(f: Term, x: Term, fuel: nat) -> Term
    decreases fuel,
{
    if fuel == 0 {
        Term::Bottom
    } else {
        let d: nat = (fuel - 1) as nat;
        match f {
            Term::Bottom => Term::Bottom,
            Term::Lit(_) => Term::Bottom,
            Term::Inc => match eval(x, Term::Identity, d) {
                Term::Lit(k) => if k < u64::MAX {
                    Term::Lit((k + 1) as u64)
                } else {
                    Term::Bottom
                },
                _ => Term::Bottom,
            },
            Term::Identity => x,
            Term::Const(a) => *a,
            Term::Force => eval(x, Term::Identity, d),
            Term::True => Term::TrueWith(Rc::new(x)),
            Term::TrueWith(a) => eval(*a, Term::Identity, d),
            Term::False => Term::Force,
            Term::Succ(n) => Term::SuccWith(n, Rc::new(x)),
            Term::SuccWith(n, f) => {
                let g = eval(*f, Term::Identity, d);
                let y = eval(x, Term::Identity, d);
                let inner = eval(eval(*n, Term::Const(Rc::new(g)), d), Term::Const(Rc::new(y)), d);
                eval(g, Term::Const(Rc::new(inner)), d)
            },
            Term::SuccFn => Term::Succ(Rc::new(eval(x, Term::Identity, d))),
            Term::AddFn => Term::AddFnWith(Rc::new(eval(x, Term::Identity, d))),
            Term::AddFnWith(m) => Term::Add(m, Rc::new(eval(x, Term::Identity, d))),
            Term::Add(m, n) => Term::AddWith(m, n, Rc::new(x)),
            Term::AddWith(m, n, f) => {
                let g = eval(*f, Term::Identity, d);
                let y = eval(x, Term::Identity, d);
                let inner = eval(eval(*n, Term::Const(Rc::new(g)), d), Term::Const(Rc::new(y)), d);
                eval(eval(*m, Term::Const(Rc::new(g)), d), Term::Const(Rc::new(inner)), d)
            },
            Term::Mult(m, n) => Term::MultWith(m, n, Rc::new(x)),
            Term::MultWith(m, n, f) => {
                let g = eval(*f, Term::Identity, d);
                let y = eval(x, Term::Identity, d);
                let h = eval(*n, Term::Const(Rc::new(g)), d);
                eval(eval(*m, Term::Const(Rc::new(h)), d), Term::Const(Rc::new(y)), d)
            },
            Term::Pair(a, b) => {
                let s = eval(x, Term::Identity, d);
                eval(eval(s, Term::Const(a), d), Term::Const(b), d)
            },
            Term::Shift => {
                let p = eval(x, Term::Identity, d);
                let b = eval(p, Term::Const(Rc::new(Term::False)), d);
                Term::Pair(Rc::new(b), Rc::new(Term::Succ(Rc::new(b))))
            },
            Term::PredStep => {
                let n = eval(x, Term::Identity, d);
                let start = Term::Pair(Rc::new(Term::False), Rc::new(Term::False));
                let p = eval(eval(n, Term::Const(Rc::new(Term::Shift)), d), Term::Const(Rc::new(start)), d);
                eval(p, Term::Const(Rc::new(Term::True)), d)
            },
            Term::Fix => {
                let s = Term::SelfApply(Rc::new(eval(x, Term::Identity, d)));
                eval(s, Term::Const(Rc::new(s)), d)
            },
            Term::SelfApply(g) => {
                let y = eval(x, Term::Identity, d);
                eval(*g, Term::Const(Rc::new(Term::Delay(Rc::new(y)))), d)
            },
            Term::Delay(s) => {
                let v = eval(x, Term::Identity, d);
                eval(eval(*s, Term::Const(s), d), Term::Const(Rc::new(v)), d)
            },
            Term::FactGen => Term::FactStep(Rc::new(eval(x, Term::Identity, d))),
            Term::FactStep(r) => {
                let n = eval(x, Term::Identity, d);
                let c = eval(
                    eval(n, Term::Const(Rc::new(Term::Const(Rc::new(Term::False)))), d),
                    Term::Const(Rc::new(Term::True)),
                    d,
                );
                let one = Term::Succ(Rc::new(Term::False));
                eval(eval(c, Term::Const(Rc::new(one)), d), Term::FactRest(r, Rc::new(n)), d)
            },
            Term::FactRest(r, n) => {
                let p = eval(Term::PredStep, Term::Const(n), d);
                let rec = eval(*r, Term::Const(Rc::new(p)), d);
                Term::Mult(n, Rc::new(rec))
            },
        }
    }
}

/// Applying `f` to the value `x`: `f` is called with the continuation `λ_. x`.
pub open spec fn app(f: Term, x: Term, fuel: nat) -> Term {
    eval(f, Term::Const(Rc::new(x)), fuel)
}

/// Relies on `Rc::clone`: the new handle points at the same value.
#[verifier::external_body]
fn share(t: &Rc<Term>) -> (r: Rc<Term>)
    ensures
        r == *t,
{
    Rc::clone(t)
}

/// A new handle on the same term; the captured parts are shared, not copied.
pub fn copy_term(t: &Term) -> (r: Term)
    ensures
        r == *t,
{
    match t {
        Term::Bottom => Term::Bottom,
        Term::Lit(k) => Term::Lit(*k),
        Term::Inc => Term::Inc,
        Term::Identity => Term::Identity,
        Term::Const(a) => Term::Const(share(a)),
        Term::Force => Term::Force,
        Term::True => Term::True,
        Term::TrueWith(a) => Term::TrueWith(share(a)),
        Term::False => Term::False,
        Term::Succ(n) => Term::Succ(share(n)),
        Term::SuccWith(n, f) => Term::SuccWith(share(n), share(f)),
        Term::SuccFn => Term::SuccFn,
        Term::AddFn => Term::AddFn,
        Term::AddFnWith(m) => Term::AddFnWith(share(m)),
        Term::Add(m, n) => Term::Add(share(m), share(n)),
        Term::AddWith(m, n, f) => Term::AddWith(share(m), share(n), share(f)),
        Term::Mult(m, n) => Term::Mult(share(m), share(n)),
        Term::MultWith(m, n, f) => Term::MultWith(share(m), share(n), share(f)),
        Term::Pair(a, b) => Term::Pair(share(a), share(b)),
        Term::Shift => Term::Shift,
        Term::PredStep => Term::PredStep,
        Term::Fix => Term::Fix,
        Term::SelfApply(g) => Term::SelfApply(share(g)),
        Term::Delay(s) => Term::Delay(share(s)),
        Term::FactGen => Term::FactGen,
        Term::FactStep(r) => Term::FactStep(share(r)),
        Term::FactRest(r, n) => Term::FactRest(share(r), share(n)),
    }
}

fn constant(t: Term) -> (r: Term)
    ensures
        r == Term::Const(Rc::new(t)),
{
    Term::Const(Rc::new(t))
}

/// Calls `x` with the identity continuation, within `fuel` nested calls.
fn force(x: &Term, fuel: u64) -> (r: Term)
    ensures
        r == eval(*x, Term::Identity, fuel as nat),
    decreases fuel, 3nat,
{
    invoke(x, &Term::Identity, fuel)
}

/// Calls `f` with the continuation `x`, within `fuel` nested calls.
pub fn invoke(f: &Term, x: &Term, fuel: u64) -> (r: Term)
    ensures
        r == eval(*f, *x, fuel as nat),
    decreases fuel, 2nat,
{
    if fuel == 0 {
        return Term::Bottom;
    }
    let d: u64 = fuel - 1;
    match f {
        Term::Bottom => Term::Bottom,
        Term::Lit(_) => Term::Bottom,
        Term::Inc => match force(x, d) {
            Term::Lit(k) => if k < u64::MAX {
                Term::Lit(k + 1)
            } else {
                Term::Bottom
            },
            _ => Term::Bottom,
        },
        Term::Identity => copy_term(x),
        Term::Const(a) => copy_term(&**a),
        Term::Force => force(x, d),
        Term::True => Term::TrueWith(Rc::new(copy_term(x))),
        Term::TrueWith(a) => force(&**a, d),
        Term::False => Term::Force,
        Term::Succ(n) => Term::SuccWith(share(n), Rc::new(copy_term(x))),
        Term::SuccWith(n, f) => {
            let g = force(&**f, d);
            let y = force(x, d);
            let partial = invoke(&**n, &constant(copy_term(&g)), d);
            let inner = invoke(&partial, &constant(y), d);
            invoke(&g, &constant(inner), d)
        },
        Term::SuccFn => Term::Succ(Rc::new(force(x, d))),
        Term::AddFn => Term::AddFnWith(Rc::new(force(x, d))),
        Term::AddFnWith(m) => Term::Add(share(m), Rc::new(force(x, d))),
        Term::Add(m, n) => Term::AddWith(share(m), share(n), Rc::new(copy_term(x))),
        Term::AddWith(m, n, f) => {
            let g = force(&**f, d);
            let y = force(x, d);
            let partial = invoke(&**n, &constant(copy_term(&g)), d);
            let inner = invoke(&partial, &constant(y), d);
            let outer = invoke(&**m, &constant(g), d);
            invoke(&outer, &constant(inner), d)
        },
        Term::Mult(m, n) => Term::MultWith(share(m), share(n), Rc::new(copy_term(x))),
        Term::MultWith(m, n, f) => {
            let g = force(&**f, d);
            let y = force(x, d);
            let h = invoke(&**n, &constant(g), d);
            let outer = invoke(&**m, &constant(h), d);
            invoke(&outer, &constant(y), d)
        },
        Term::Pair(a, b) => {
            let s = force(x, d);
            let partial = invoke(&s, &Term::Const(share(a)), d);
            invoke(&partial, &Term::Const(share(b)), d)
        },
        Term::Shift => {
            let p = force(x, d);
            let b = Rc::new(invoke(&p, &constant(Term::False), d));
            Term::Pair(share(&b), Rc::new(Term::Succ(b)))
        },
        Term::PredStep => {
            let n = force(x, d);
            let start = Term::Pair(Rc::new(Term::False), Rc::new(Term::False));
            let partial = invoke(&n, &constant(Term::Shift), d);
            let p = invoke(&partial, &constant(start), d);
            invoke(&p, &constant(Term::True), d)
        },
        Term::Fix => {
            let s = Term::SelfApply(Rc::new(force(x, d)));
            invoke(&s, &constant(copy_term(&s)), d)
        },
        Term::SelfApply(g) => {
            let y = force(x, d);
            invoke(&**g, &constant(Term::Delay(Rc::new(y))), d)
        },
        Term::Delay(s) => {
            let v = force(x, d);
            let partial = invoke(&**s, &Term::Const(share(s)), d);
            invoke(&partial, &constant(v), d)
        },
        Term::FactGen => Term::FactStep(Rc::new(force(x, d))),
        Term::FactStep(r) => {
            let n = force(x, d);
            let never = constant(constant(Term::False));
            let partial = invoke(&n, &never, d);
            let c = invoke(&partial, &constant(Term::True), d);
            let one = Term::Succ(Rc::new(Term::False));
            let chosen = invoke(&c, &constant(one), d);
            invoke(&chosen, &Term::FactRest(share(r), Rc::new(n)), d)
        },
        Term::FactRest(r, n) => {
            let p = invoke(&Term::PredStep, &Term::Const(share(n)), d);
            let rec = invoke(&**r, &constant(p), d);
            Term::Mult(share(n), Rc::new(rec))
        },
    }
}

} // verus!
