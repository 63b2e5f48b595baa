use std::borrow::{Borrow, BorrowMut};
use std::cell::RefCell;

use tapl::eval::{EvaluationStep, Evaluator as AbstractEvaluator};
use tapl::term::Term as AbstractTerm;
use tapl::unty_arith::eval::{Construct, EvaluationError, Evaluator};
use tapl::unty_arith::term::Term;

fn succ(t: Term) -> Term {
    Term::Succ(Box::new(t))
}

fn pred(t: Term) -> Term {
    Term::Pred(Box::new(t))
}

fn is_zero(t: Term) -> Term {
    Term::IsZero(Box::new(t))
}

fn if_else(condition: Term, true_br: Term, false_br: Term) -> Term {
    Term::IfElse {
        condition: Box::new(condition),
        true_br: Box::new(true_br),
        false_br: Box::new(false_br),
    }
}

/// One step of `t`, written as `-> reduct`, `halt value` or the error's text.
fn step(t: Term) -> String {
    match Evaluator.eval_one_step(t) {
        Ok(EvaluationStep::Step(u)) => format!("-> {}", u.to_string()),
        Ok(EvaluationStep::Halt(u)) => format!("halt {}", u.to_string()),
        Err(e) => e.to_string(),
    }
}

/// The terms shown to the monitor while `t` is evaluated, and the outcome.
fn run(t: Term) -> (Vec<String>, Result<String, String>) {
    let seen = RefCell::new(Vec::new());
    let result = Evaluator.eval_with_monitor(t, |u: &Term| seen.borrow_mut().push(u.to_string()));
    let result = match result {
        Ok(nf) => Ok(nf.to_string()),
        Err(e) => Err(e.to_string()),
    };
    (seen.into_inner(), result)
}

#[test]
fn step_variant_is_told_apart() {
    let s = EvaluationStep::Step(Term::Zero);
    assert!(s.is_step());
    assert!(!s.is_halt());
}

#[test]
fn halt_variant_is_told_apart() {
    let h = EvaluationStep::Halt(Term::Zero);
    assert!(h.is_halt());
    assert!(!h.is_step());
}

#[test]
fn as_term_borrows_the_term_of_either_variant() {
    let s = EvaluationStep::Step(succ(Term::Zero));
    let h = EvaluationStep::Halt(Term::True);
    assert_eq!(s.as_term().to_string(), "succ 0");
    assert_eq!(h.as_term().to_string(), "true");
}

#[test]
fn as_term_mut_writes_through_and_keeps_the_variant() {
    let mut s = EvaluationStep::Step(Term::Zero);
    *s.as_term_mut() = Term::True;
    assert!(s.is_step());
    assert_eq!(s.as_term().to_string(), "true");
    let mut h = EvaluationStep::Halt(Term::Zero);
    *h.as_term_mut() = succ(Term::Zero);
    assert!(h.is_halt());
    assert_eq!(h.into_term().to_string(), "succ 0");
}

#[test]
fn into_term_gives_the_term_of_either_variant() {
    assert_eq!(EvaluationStep::Step(7u8).into_term(), 7);
    assert_eq!(EvaluationStep::Halt(9u8).into_term(), 9);
}

#[test]
fn conversions_reach_the_term_of_a_step() {
    let mut s = EvaluationStep::Step(1u8);
    let r: &u8 = s.as_ref();
    assert_eq!(*r, 1);
    let m: &mut u8 = s.as_mut();
    *m = 2;
    let b: &u8 = s.borrow();
    assert_eq!(*b, 2);
    let bm: &mut u8 = s.borrow_mut();
    *bm = 3;
    assert!(s.is_step());
    assert_eq!(s.into_term(), 3);
}

#[test]
fn values_halt_unchanged() {
    assert_eq!(step(Term::True), "halt true");
    assert_eq!(step(Term::False), "halt false");
    assert_eq!(step(Term::Zero), "halt 0");
    assert_eq!(step(succ(succ(Term::Zero))), "halt succ succ 0");
}

#[test]
fn if_true_steps_to_the_true_branch() {
    assert_eq!(step(if_else(Term::True, Term::Zero, succ(Term::Zero))), "-> 0");
}

#[test]
fn if_false_steps_to_the_false_branch() {
    assert_eq!(step(if_else(Term::False, Term::Zero, succ(Term::Zero))), "-> succ 0");
}

#[test]
fn if_steps_its_condition() {
    let t = if_else(is_zero(Term::Zero), Term::Zero, succ(Term::Zero));
    assert_eq!(step(t), "-> if true then 0 else succ 0");
}

#[test]
fn if_leaves_its_branches_alone() {
    let t = if_else(Term::True, pred(Term::Zero), is_zero(Term::Zero));
    assert_eq!(step(t), "-> pred 0");
}

#[test]
fn succ_steps_its_operand() {
    assert_eq!(step(succ(pred(Term::Zero))), "-> succ 0");
}

#[test]
fn pred_of_zero_is_zero() {
    assert_eq!(step(pred(Term::Zero)), "-> 0");
}

#[test]
fn pred_strips_one_succ_of_a_numeral() {
    assert_eq!(step(pred(succ(succ(Term::Zero)))), "-> succ 0");
}

#[test]
fn pred_steps_an_operand_that_is_no_numeral() {
    assert_eq!(step(pred(succ(pred(Term::Zero)))), "-> pred succ 0");
    assert_eq!(step(pred(pred(Term::Zero))), "-> pred 0");
}

#[test]
fn iszero_of_zero_is_true() {
    assert_eq!(step(is_zero(Term::Zero)), "-> true");
}

#[test]
fn iszero_of_a_positive_numeral_is_false() {
    assert_eq!(step(is_zero(succ(Term::Zero))), "-> false");
}

#[test]
fn iszero_steps_an_operand_that_is_no_numeral() {
    assert_eq!(step(is_zero(pred(succ(Term::Zero)))), "-> iszero 0");
    assert_eq!(step(is_zero(succ(pred(Term::Zero)))), "-> iszero succ 0");
}

#[test]
fn a_numeral_as_condition_is_an_error() {
    assert_eq!(
        step(if_else(Term::Zero, Term::True, Term::False)),
        "eval error: 0 is a non-boolean normal form but it appears as the condition of a if-else term"
    );
}

#[test]
fn a_boolean_under_succ_is_an_error() {
    assert_eq!(
        step(succ(Term::True)),
        "eval error: true is non-numerical normal form but it appears as the operand of a succ term"
    );
}

#[test]
fn a_boolean_under_pred_is_an_error() {
    assert_eq!(
        step(pred(Term::False)),
        "eval error: false is non-numeric normal form but it appears as the opperand of a pred term"
    );
}

#[test]
fn a_boolean_under_iszero_is_an_error() {
    assert_eq!(
        step(is_zero(Term::True)),
        "eval error: true is non-numeric normal form but it appears as the operand of an iszero term"
    );
}

#[test]
fn an_error_names_each_term_it_passed_through() {
    let t = if_else(is_zero(pred(succ(Term::True))), Term::Zero, Term::Zero);
    assert_eq!(
        step(t),
        "eval error: true is non-numerical normal form but it appears as the operand of a succ term\
         \n\tduring the evaluation of a pred term\
         \n\tduring the evaluation of an iszero term\
         \n\tduring evaluation of an if-else term"
    );
}

#[test]
fn succ_passes_an_error_on() {
    let t = succ(succ(if_else(Term::Zero, Term::Zero, Term::Zero)));
    assert_eq!(
        step(t),
        "eval error: 0 is a non-boolean normal form but it appears as the condition of a if-else term\
         \n\tduring evaluation of a succ term\
         \n\tduring evaluation of a succ term"
    );
}

#[test]
fn an_error_holds_its_parts() {
    let t = pred(succ(is_zero(Term::False)));
    let e = match Evaluator.eval_one_step(t) {
        Err(e) => e,
        Ok(_) => panic!("the term is stuck"),
    };
    assert_eq!(e.normal_form().to_string(), "false");
    assert_eq!(e.construct(), Construct::IsZero);
    assert_eq!(e.context(), &vec![Construct::Succ, Construct::Pred]);
    assert_eq!(
        e.message(),
        "false is non-numeric normal form but it appears as the operand of an iszero term\
         \n\tduring evaluation of a succ term\
         \n\tduring the evaluation of a pred term"
    );
}

#[test]
fn an_error_is_built_from_its_parts() {
    let e = EvaluationError::new(succ(Term::Zero), Construct::IfElse).within(Construct::IsZero);
    assert_eq!(e.construct(), Construct::IfElse);
    assert_eq!(e.context(), &vec![Construct::IsZero]);
    assert_eq!(
        e.to_string(),
        "eval error: succ 0 is a non-boolean normal form but it appears as the condition of a if-else term\
         \n\tduring the evaluation of an iszero term"
    );
}

#[test]
fn eval_reaches_the_normal_form() {
    let t = if_else(is_zero(pred(succ(Term::Zero))), succ(pred(Term::Zero)), Term::Zero);
    let nf = Evaluator.eval(t);
    assert_eq!(nf.map(|t| t.to_string()).map_err(|e| e.to_string()), Ok("succ 0".to_string()));
}

#[test]
fn eval_of_a_value_is_the_value() {
    let nf = Evaluator.eval(succ(Term::Zero));
    assert_eq!(nf.map(|t| t.to_string()).map_err(|e| e.to_string()), Ok("succ 0".to_string()));
}

#[test]
fn eval_fails_when_a_later_term_is_stuck() {
    // The condition is fine; the branch taken is stuck.
    let t = if_else(Term::True, succ(Term::False), Term::Zero);
    let r = Evaluator.eval(t);
    assert_eq!(
        r.map(|t| t.to_string()).map_err(|e| e.to_string()),
        Err("eval error: false is non-numerical normal form but it appears as the operand of a succ term".to_string())
    );
}

#[test]
fn monitor_sees_the_conditional_and_its_branch() {
    let (seen, result) = run(if_else(Term::True, Term::Zero, succ(Term::Zero)));
    assert_eq!(seen, vec!["if true then 0 else succ 0", "0"]);
    assert_eq!(result, Ok("0".to_string()));
}

#[test]
fn monitor_sees_every_step_of_iszero_pred_succ_zero() {
    let (seen, result) = run(is_zero(pred(succ(Term::Zero))));
    assert_eq!(seen, vec!["iszero pred succ 0", "iszero 0", "true"]);
    assert_eq!(result, Ok("true".to_string()));
}

#[test]
fn pred_of_two_is_one_in_one_step() {
    let (seen, result) = run(pred(succ(succ(Term::Zero))));
    assert_eq!(seen, vec!["pred succ succ 0", "succ 0"]);
    assert_eq!(result, Ok("succ 0".to_string()));
}

#[test]
fn monitor_sees_a_value_once() {
    let (seen, result) = run(Term::False);
    assert_eq!(seen, vec!["false"]);
    assert_eq!(result, Ok("false".to_string()));
}

#[test]
fn succ_true_fails_to_evaluate() {
    let (seen, result) = run(succ(Term::True));
    assert_eq!(seen, vec!["succ true"]);
    assert_eq!(
        result,
        Err("eval error: true is non-numerical normal form but it appears as the operand of a succ term".to_string())
    );
}

#[test]
fn if_zero_fails_to_evaluate() {
    let (seen, result) = run(if_else(Term::Zero, Term::True, Term::False));
    assert_eq!(seen, vec!["if 0 then true else false"]);
    assert_eq!(
        result,
        Err("eval error: 0 is a non-boolean normal form but it appears as the condition of a if-else term".to_string())
    );
}

#[test]
fn monitor_sees_the_terms_before_a_stuck_one() {
    let (seen, result) = run(is_zero(if_else(Term::False, Term::Zero, Term::True)));
    assert_eq!(seen, vec!["iszero if false then 0 else true", "iszero true"]);
    assert_eq!(
        result,
        Err("eval error: true is non-numeric normal form but it appears as the operand of an iszero term".to_string())
    );
}

#[test]
fn evaluation_takes_fewer_steps_than_the_term_has_nodes() {
    // Eleven nodes; each step takes at least one away.
    let t = if_else(
        is_zero(pred(succ(Term::Zero))),
        pred(succ(succ(Term::Zero))),
        Term::Zero,
    );
    let (seen, result) = run(t);
    assert_eq!(
        seen,
        vec![
            "if iszero pred succ 0 then pred succ succ 0 else 0",
            "if iszero 0 then pred succ succ 0 else 0",
            "if true then pred succ succ 0 else 0",
            "pred succ succ 0",
            "succ 0",
        ]
    );
    assert!(seen.len() - 1 < 11);
    assert_eq!(result, Ok("succ 0".to_string()));
}

#[test]
fn one_step_gives_the_same_outcome_each_time() {
    let t = if_else(is_zero(Term::Zero), succ(Term::True), Term::Zero);
    assert_eq!(step(t.clone()), step(t.clone()));
    assert_eq!(step(t), "-> if true then succ true else 0");
}
