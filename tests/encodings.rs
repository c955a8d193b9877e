use lambda_calculus::church::{
    apply, church_to_bool, church_to_int, i_combinator, identity, k_combinator, ki_combinator,
    lc_add, lc_and, lc_cons, lc_eq, lc_false, lc_first, lc_head, lc_if, lc_is_nil, lc_is_zero,
    lc_leq, lc_mult, lc_nil, lc_pair, lc_pred, lc_second, lc_succ, lc_tail, lc_true, lc_zero,
};
use lambda_calculus::fixpoint::{lc_factorial, y_combinator};
use lambda_calculus::lists::{lc_filter, lc_fold, lc_map};
use lambda_calculus::term::Term;

fn numeral(n: u64) -> Term {
    let mut t = lc_zero();
    for _ in 0..n {
        t = lc_succ(t);
    }
    t
}

fn list_of(values: &[u64]) -> Term {
    let mut l = lc_nil();
    for v in values.iter().rev() {
        l = lc_cons(numeral(*v), l);
    }
    l
}

fn decode_list(list: Term) -> Vec<u64> {
    let mut out = Vec::new();
    let mut l = list;
    while church_to_bool(lc_is_nil(l.clone())) == Some(false) {
        out.push(church_to_int(lc_head(l.clone())).unwrap());
        l = lc_tail(l);
    }
    assert_eq!(church_to_bool(lc_is_nil(l)), Some(true));
    out
}

#[test]
fn zero_decodes_to_zero() {
    assert_eq!(church_to_int(lc_zero()), Some(0));
}

#[test]
fn successors_decode_to_their_count() {
    for n in 0..30u64 {
        assert_eq!(church_to_int(numeral(n)), Some(n));
    }
}

#[test]
fn one_plus_two_is_three() {
    let one = lc_succ(lc_zero());
    let two = lc_succ(one.clone());
    assert_eq!(church_to_int(lc_add(one, two)), Some(3));
}

#[test]
fn addition_matches_integers() {
    for a in 0..8u64 {
        for b in 0..8u64 {
            assert_eq!(church_to_int(lc_add(numeral(a), numeral(b))), Some(a + b));
        }
    }
}

#[test]
fn multiplication_matches_integers() {
    for a in 0..7u64 {
        for b in 0..7u64 {
            assert_eq!(church_to_int(lc_mult(numeral(a), numeral(b))), Some(a * b));
        }
    }
}

#[test]
fn predecessor_stops_at_zero() {
    assert_eq!(church_to_int(lc_pred(lc_zero())), Some(0));
    for a in 1..12u64 {
        assert_eq!(church_to_int(lc_pred(numeral(a))), Some(a - 1));
    }
}

#[test]
fn is_zero_only_on_zero() {
    assert_eq!(church_to_bool(lc_is_zero(lc_zero())), Some(true));
    for a in 1..10u64 {
        assert_eq!(church_to_bool(lc_is_zero(numeral(a))), Some(false));
    }
}

#[test]
fn leq_and_eq_follow_integer_order() {
    for m in 0..6u64 {
        for n in 0..6u64 {
            assert_eq!(church_to_bool(lc_leq(numeral(m), numeral(n))), Some(m <= n));
            assert_eq!(church_to_bool(lc_eq(numeral(m), numeral(n))), Some(m == n));
        }
    }
}

#[test]
fn booleans_select_a_branch() {
    let a = numeral(4);
    let b = numeral(9);
    assert_eq!(church_to_int(lc_if(lc_true(), a.clone(), b.clone())), Some(4));
    assert_eq!(church_to_int(lc_if(lc_false(), a, b)), Some(9));
    assert_eq!(church_to_bool(lc_true()), Some(true));
    assert_eq!(church_to_bool(lc_false()), Some(false));
}

#[test]
fn and_is_conjunction() {
    assert_eq!(church_to_bool(lc_and(lc_true(), lc_true())), Some(true));
    assert_eq!(church_to_bool(lc_and(lc_true(), lc_false())), Some(false));
    assert_eq!(church_to_bool(lc_and(lc_false(), lc_true())), Some(false));
    assert_eq!(church_to_bool(lc_and(lc_false(), lc_false())), Some(false));
}

#[test]
fn combinators_pick_their_argument() {
    assert_eq!(church_to_int(apply(i_combinator(), numeral(5))), Some(5));
    assert_eq!(church_to_int(apply(apply(k_combinator(), numeral(2)), numeral(7))), Some(2));
    assert_eq!(church_to_int(apply(apply(ki_combinator(), numeral(2)), numeral(7))), Some(7));
    assert_eq!(church_to_int(identity(numeral(3))), Some(3));
}

#[test]
fn pairs_project_their_components() {
    let p = lc_pair(numeral(3), numeral(8));
    assert_eq!(church_to_int(lc_first(p.clone())), Some(3));
    assert_eq!(church_to_int(lc_second(p)), Some(8));
}

#[test]
fn list_round_trip() {
    let l = lc_cons(numeral(1), lc_cons(numeral(2), lc_nil()));
    assert_eq!(church_to_bool(lc_is_nil(l.clone())), Some(false));
    assert_eq!(church_to_int(lc_head(l.clone())), Some(1));
    let t = lc_tail(l);
    assert_eq!(church_to_bool(lc_is_nil(t.clone())), Some(false));
    assert_eq!(church_to_int(lc_head(t.clone())), Some(2));
    assert_eq!(church_to_bool(lc_is_nil(lc_tail(t))), Some(true));
    assert_eq!(church_to_bool(lc_is_nil(lc_nil())), Some(true));
}

#[test]
fn map_successor_over_list() {
    let l = lc_map(Term::SuccFn, list_of(&[0, 1, 2]));
    assert_eq!(decode_list(l), vec![1, 2, 3]);
    assert_eq!(decode_list(lc_map(Term::SuccFn, lc_nil())), Vec::<u64>::new());
}

#[test]
fn filter_keeps_nonzero_elements() {
    // The pair (λ_. true, false) applied to a numeral n yields n (λ_. true) false.
    let nonzero = lc_pair(apply(lc_true(), lc_true()), lc_false());
    let l = lc_filter(nonzero, list_of(&[0, 3, 0, 1]));
    assert_eq!(decode_list(l), vec![3, 1]);
}

#[test]
fn fold_sums_a_list() {
    let sum = lc_fold(Term::AddFn, lc_zero(), list_of(&[1, 2, 3]));
    assert_eq!(church_to_int(sum), Some(6));
    assert_eq!(church_to_int(lc_fold(Term::AddFn, numeral(4), lc_nil())), Some(4));
}

#[test]
fn factorial_of_five() {
    let five = lc_succ(lc_succ(lc_succ(lc_succ(lc_succ(lc_zero())))));
    assert_eq!(church_to_int(apply(lc_factorial(), five)), Some(120));
}

#[test]
fn factorial_of_zero_and_three() {
    assert_eq!(church_to_int(apply(lc_factorial(), lc_zero())), Some(1));
    assert_eq!(church_to_int(apply(lc_factorial(), numeral(3))), Some(6));
}

#[test]
fn fixed_point_is_a_closure() {
    assert!(matches!(y_combinator(), Term::Fix));
}

#[test]
fn decoding_a_non_numeral_fails() {
    assert_eq!(church_to_int(lc_true()), None);
    assert_eq!(church_to_bool(lc_zero()), Some(false));
    assert_eq!(church_to_bool(numeral(2)), None);
}
