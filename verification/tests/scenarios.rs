use tapl::eval::Evaluator as AbstractEvaluator;
use tapl::parser::Parser as AbstractParser;
use tapl::term::Term as AbstractTerm;
use tapl::unty_arith::eval::Evaluator;
use tapl::unty_arith::parser::Parser;
use tapl::unty_arith::term::Term;

/// Parses and evaluates `input`: the lines that the monitor printed, and
/// the value reached or the text of the error.
fn interpret(input: &str) -> (Vec<String>, Result<String, String>) {
    let term = match Parser.parse(input) {
        Ok(term) => term,
        Err(e) => return (Vec::new(), Err(e.to_string())),
    };
    let mut lines = Vec::new();
    let mut first = true;
    let result = Evaluator.eval_with_monitor(term, |t: &Term| {
        let arrow = if first { "   " } else { "-> " };
        first = false;
        lines.push(format!("{}{}", arrow, t.to_string()));
    });
    let result = match result {
        Ok(value) => Ok(value.to_string()),
        Err(e) => Err(e.to_string()),
    };
    (lines, result)
}

#[test]
fn a_conditional_on_true_takes_its_first_branch() {
    let (lines, result) = interpret("if true then 0 else succ 0");
    assert_eq!(lines, vec!["   if true then 0 else succ 0", "-> 0"]);
    assert_eq!(result, Ok("0".to_string()));
}

#[test]
fn iszero_pred_succ_zero_is_true_in_two_steps() {
    let (lines, result) = interpret("iszero pred succ 0");
    assert_eq!(lines, vec!["   iszero pred succ 0", "-> iszero 0", "-> true"]);
    assert_eq!(result, Ok("true".to_string()));
}

#[test]
fn pred_succ_succ_zero_is_succ_zero_in_one_step() {
    let (lines, result) = interpret("pred succ succ 0");
    assert_eq!(lines, vec!["   pred succ succ 0", "-> succ 0"]);
    assert_eq!(result, Ok("succ 0".to_string()));
}

#[test]
fn succ_true_parses_but_is_stuck() {
    let (lines, result) = interpret("succ true");
    assert_eq!(lines, vec!["   succ true"]);
    assert_eq!(
        result,
        Err("eval error: true is non-numerical normal form but it appears as the operand of a succ term".to_string())
    );
}

#[test]
fn if_zero_parses_but_is_stuck() {
    let (lines, result) = interpret("if 0 then true else false");
    assert_eq!(lines, vec!["   if 0 then true else false"]);
    assert_eq!(
        result,
        Err("eval error: 0 is a non-boolean normal form but it appears as the condition of a if-else term".to_string())
    );
}

#[test]
fn a_conditional_without_else_does_not_parse() {
    let (lines, result) = interpret("if true then 0");
    assert!(lines.is_empty());
    assert_eq!(
        result,
        Err("parse error: unexpected end of token stream: expected \"else\"".to_string())
    );
}

#[test]
fn a_stuck_operand_deep_in_a_condition_names_its_way_out() {
    let (lines, result) = interpret("if iszero succ pred false then 0 else 0");
    assert_eq!(lines, vec!["   if iszero succ pred false then 0 else 0"]);
    assert_eq!(
        result,
        Err("eval error: false is non-numeric normal form but it appears as the opperand of a pred term\
             \n\tduring evaluation of a succ term\
             \n\tduring the evaluation of an iszero term\
             \n\tduring evaluation of an if-else term"
            .to_string())
    );
}

#[test]
fn a_longer_program_runs_to_its_value() {
    let (lines, result) =
        interpret("if iszero pred pred succ 0\n  then succ if false then 0 else succ 0\n  else false\n");
    assert_eq!(
        lines,
        vec![
            "   if iszero pred pred succ 0 then succ if false then 0 else succ 0 else false",
            "-> if iszero pred 0 then succ if false then 0 else succ 0 else false",
            "-> if iszero 0 then succ if false then 0 else succ 0 else false",
            "-> if true then succ if false then 0 else succ 0 else false",
            "-> succ if false then 0 else succ 0",
            "-> succ succ 0",
        ]
    );
    assert_eq!(result, Ok("succ succ 0".to_string()));
}
