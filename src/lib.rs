// An evaluator for the untyped lambda calculus in which every value is a
// closure from terms to terms.  The closures are the variants of `term::Term`,
// each holding what it captured; `term::eval` states what calling one does, and
// `term::invoke` does it.
//
// Evaluation is strict.  Every call runs within a budget of nested calls
// (`term::DEPTH`); a call that exceeds it, or that calls something that is not
// a function, yields `Term::Bottom` instead of running on.  The fixed-point
// combinator holds its self-application back behind a closure (`Term::Delay`),
// so that recursion through it unfolds only when a recursive call is made, and
// the recursive branch of factorial is only built once it has been selected.
// Numerals are decoded by threading a host integer through them by value.
pub mod term;
pub mod church;
pub mod lists;
pub mod fixpoint;
pub mod laws;
