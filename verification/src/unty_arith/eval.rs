use crate::eval::{EvaluationStep, Evaluator as AbstractEvaluator, Semantics};
use crate::term::Term as AbstractTerm;
use crate::unty_arith::term::Term;
use vstd::prelude::*;

verus! {

/// The evaluator of the untyped arithmetic calculus.
pub struct Evaluator;

/// The forms of term that have an operand to evaluate: the condition of an
/// if-else term, or what `succ`, `pred` or `iszero` is applied to.
#[derive(Clone, Copy, Debug, PartialEq, Eq, Structural)]
pub enum Construct {
    IfElse,
    Succ,
    Pred,
    IsZero,
}

impl Construct {
    /// What is wrong with a normal form that a term of this kind cannot have
    /// as its operand; it follows the text of the normal form.
    pub open spec fn complaint(self) -> Seq<char> {
        match self {
            Construct::IfElse =>
                " is a non-boolean normal form but it appears as the condition of a if-else term"@,
            Construct::Succ =>
                " is non-numerical normal form but it appears as the operand of a succ term"@,
            Construct::Pred =>
                " is non-numeric normal form but it appears as the opperand of a pred term"@,
            Construct::IsZero =>
                " is non-numeric normal form but it appears as the operand of an iszero term"@,
        }
    }

    /// The line that a term of this kind adds when it passes an error on.
    pub open spec fn frame(self) -> Seq<char> {
        match self {
            Construct::IfElse => "\n\tduring evaluation of an if-else term"@,
            Construct::Succ => "\n\tduring evaluation of a succ term"@,
            Construct::Pred => "\n\tduring the evaluation of a pred term"@,
            Construct::IsZero => "\n\tduring the evaluation of an iszero term"@,
        }
    }

    fn complaint_str(self) -> (s: &'static str)
        ensures
            s@ == self.complaint(),
    {
        match self {
            Construct::IfElse =>
                " is a non-boolean normal form but it appears as the condition of a if-else term",
            Construct::Succ =>
                " is non-numerical normal form but it appears as the operand of a succ term",
            Construct::Pred =>
                " is non-numeric normal form but it appears as the opperand of a pred term",
            Construct::IsZero =>
                " is non-numeric normal form but it appears as the operand of an iszero term",
        }
    }

    fn frame_str(self) -> (s: &'static str)
        ensures
            s@ == self.frame(),
    {
        match self {
            Construct::IfElse => "\n\tduring evaluation of an if-else term",
            Construct::Succ => "\n\tduring evaluation of a succ term",
            Construct::Pred => "\n\tduring the evaluation of a pred term",
            Construct::IsZero => "\n\tduring the evaluation of an iszero term",
        }
    }
}

/// The lines that the terms of `context` add, innermost first.
pub open spec fn frames(context: Seq<Construct>) -> Seq<char>
    decreases context.len(),
{
    if context.len() == 0 {
        Seq::empty()
    } else {
        frames(context.drop_last()) + context.last().frame()
    }
}

/// Why a term is stuck: a normal form stands where a term of `construct`
/// cannot have it, below the terms of `context`, innermost first.
pub struct Stuck {
    pub normal_form: Term,
    pub construct: Construct,
    pub context: Seq<Construct>,
}

impl Stuck {
    /// The report of `normal_form` standing as the operand of `construct`.
    pub open spec fn at(normal_form: Term, construct: Construct) -> Stuck {
        Stuck { normal_form, construct, context: Seq::empty() }
    }

    /// The same report, seen from a term of `construct` around the stuck one.
    pub open spec fn within(self, construct: Construct) -> Stuck {
        Stuck { context: self.context.push(construct), ..self }
    }

    /// The normal form and what is wrong with it, then one line for each term
    /// of the context.
    pub open spec fn message(self) -> Seq<char> {
        self.normal_form.text() + self.construct.complaint() + frames(self.context)
    }
}

/// The term that `t` reduces to in one step, if a rule applies to `t`.
///
/// A value reduces to nothing. Of the other terms, an if-else term with a
/// literal condition reduces to the branch chosen, `pred 0` to `0`,
/// `pred succ nv` to the numeric value `nv`, `iszero 0` to `true` and
/// `iszero succ nv` to `false`; any other term reduces as its operand does.
pub open spec fn reduct(t: Term) -> Option<Term>
    decreases t,
{
    if t.value() {
        None
    } else {
        match t {
            Term::IfElse { condition, true_br, false_br } => match *condition {
                Term::True => Some(*true_br),
                Term::False => Some(*false_br),
                _ => match reduct(*condition) {
                    Some(c) => Some(Term::IfElse { condition: Box::new(c), true_br, false_br }),
                    None => None,
                },
            },
            Term::Succ(operand) => match reduct(*operand) {
                Some(u) => Some(Term::Succ(Box::new(u))),
                None => None,
            },
            Term::Pred(operand) => if *operand is Zero {
                Some(Term::Zero)
            } else if *operand is Succ && operand->Succ_0.numeric_value() {
                Some(*operand->Succ_0)
            } else {
                match reduct(*operand) {
                    Some(u) => Some(Term::Pred(Box::new(u))),
                    None => None,
                }
            },
            Term::IsZero(operand) => if *operand is Zero {
                Some(Term::True)
            } else if *operand is Succ && operand->Succ_0.numeric_value() {
                Some(Term::False)
            } else {
                match reduct(*operand) {
                    Some(u) => Some(Term::IsZero(Box::new(u))),
                    None => None,
                }
            },
            _ => None,
        }
    }
}

/// The operand that a term evaluates when none of its own rules applies.
pub open spec fn operand(t: Term) -> Option<(Term, Construct)> {
    match t {
        Term::IfElse { condition, .. } => Some((*condition, Construct::IfElse)),
        Term::Succ(operand) => Some((*operand, Construct::Succ)),
        Term::Pred(operand) => Some((*operand, Construct::Pred)),
        Term::IsZero(operand) => Some((*operand, Construct::IsZero)),
        _ => None,
    }
}

/// Why `t` is stuck, if it is: `t` is no value and no rule applies to it.
///
/// Then the operand of `t` is a value of the wrong kind, or is stuck itself.
pub open spec fn stuck(t: Term) -> Option<Stuck>
    decreases t,
{
    if t.value() || reduct(t) is Some {
        None
    } else {
        match operand(t) {
            Some((inner, construct)) => if inner.value() {
                Some(Stuck::at(inner, construct))
            } else {
                match stuck(inner) {
                    Some(s) => Some(s.within(construct)),
                    None => None,
                }
            },
            None => None,
        }
    }
}

/// The evaluation relation, rule by rule: whether `t` evaluates to `u` in one
/// step.
pub open spec fn steps_to(t: Term, u: Term) -> bool
    decreases t,
{
    match t {
        Term::IfElse { condition, true_br, false_br } => {
            // E-IfTrue
            ||| *condition is True && u == *true_br
            // E-IfFalse
            ||| *condition is False && u == *false_br
            // E-If
            ||| u is IfElse && steps_to(*condition, *u->condition) && u->true_br == true_br
                && u->false_br == false_br
        },
        // E-Succ
        Term::Succ(operand) => u is Succ && steps_to(*operand, *u->Succ_0),
        Term::Pred(operand) => {
            // E-PredZero
            ||| *operand is Zero && u is Zero
            // E-PredSucc
            ||| *operand is Succ && operand->Succ_0.numeric_value() && u == *operand->Succ_0
            // E-Pred
            ||| u is Pred && steps_to(*operand, *u->Pred_0)
        },
        Term::IsZero(operand) => {
            // E-IszeroZero
            ||| *operand is Zero && u is True
            // E-IszeroSucc
            ||| *operand is Succ && operand->Succ_0.numeric_value() && u is False
            // E-IsZero
            ||| u is IsZero && steps_to(*operand, *u->IsZero_0)
        },
        _ => false,
    }
}

/// No rule applies to a value.
pub proof fn lemma_values_do_not_step(v: Term, u: Term)
    requires
        v.value(),
    ensures
        !steps_to(v, u),
    decreases v,
{
    if v is Succ && u is Succ {
        lemma_values_do_not_step(*v->Succ_0, *u->Succ_0);
    }
}

/// `reduct` is the evaluation relation: `t` evaluates to `u` in one step just
/// when `u` is the reduct of `t`.
pub proof fn lemma_reduct_is_the_step(t: Term, u: Term)
    ensures
        steps_to(t, u) <==> reduct(t) == Some(u),
    decreases t,
{
    if t.value() {
        lemma_values_do_not_step(t, u);
    } else {
        match t {
            Term::IfElse { condition, true_br, false_br } => {
                if condition.value() {
                    if u is IfElse {
                        lemma_values_do_not_step(*condition, *u->condition);
                    }
                } else if u is IfElse {
                    lemma_reduct_is_the_step(*condition, *u->condition);
                }
            },
            Term::Succ(operand) => {
                if u is Succ {
                    lemma_reduct_is_the_step(*operand, *u->Succ_0);
                }
            },
            Term::Pred(operand) => {
                if u is Pred {
                    if operand.value() {
                        lemma_values_do_not_step(*operand, *u->Pred_0);
                    } else {
                        lemma_reduct_is_the_step(*operand, *u->Pred_0);
                    }
                }
            },
            Term::IsZero(operand) => {
                if u is IsZero {
                    if operand.value() {
                        lemma_values_do_not_step(*operand, *u->IsZero_0);
                    } else {
                        lemma_reduct_is_the_step(*operand, *u->IsZero_0);
                    }
                }
            },
            _ => {},
        }
    }
}

/// Evaluation is deterministic: a term evaluates to at most one term in one
/// step.
pub proof fn lemma_step_is_deterministic(t: Term, u: Term, v: Term)
    requires
        steps_to(t, u),
        steps_to(t, v),
    ensures
        u == v,
{
    lemma_reduct_is_the_step(t, u);
    lemma_reduct_is_the_step(t, v);
}

/// Every term is of exactly one of three kinds: a value, a term to which a
/// rule applies, or a stuck term.
pub proof fn lemma_one_outcome(t: Term)
    ensures
        t.value() ==> reduct(t) is None && stuck(t) is None,
        reduct(t) is Some ==> !t.value() && stuck(t) is None,
        stuck(t) is Some ==> !t.value() && reduct(t) is None,
        t.value() || reduct(t) is Some || stuck(t) is Some,
    decreases t,
{
    if !t.value() && reduct(t) is None {
        let (inner, construct) = operand(t).unwrap();
        if !inner.value() {
            lemma_one_outcome(inner);
        }
    }
}

impl Evaluator {
    /// Evaluates an if-else term, given in its parts, by one step.
    fn eval_if_else(&mut self, condition: Box<Term>, true_br: Box<Term>, false_br: Box<Term>) -> (r:
        Result<Term, EvaluationError>)
        ensures
            match r {
                Ok(u) => reduct(Term::IfElse { condition, true_br, false_br }) == Some(u),
                Err(e) => stuck(Term::IfElse { condition, true_br, false_br }) == Some(e@),
            },
        decreases *condition, 1nat,
    {
        // Try to apply rule `E-IfTrue` or rule `E-IfFalse`.
        match &*condition {
            Term::True => return Ok(*true_br),
            Term::False => return Ok(*false_br),
            _ => (),
        };

        // Try to apply rule `E-If`.
        match self.eval_one_step(*condition) {
            Ok(EvaluationStep::Step(t)) => Ok(
                Term::IfElse { condition: Box::new(t), true_br, false_br },
            ),
            Ok(EvaluationStep::Halt(t)) => Err(EvaluationError::new(t, Construct::IfElse)),
            Err(e) => Err(e.within(Construct::IfElse)),
        }
    }

    /// Evaluates `succ t` by one step.
    ///
    /// Over a numeric value `succ t` is a value, and halts unchanged; over any
    /// other normal form it is stuck.
    fn eval_succ(&mut self, t: Box<Term>) -> (r: Result<EvaluationStep<Term>, EvaluationError>)
        ensures
            match r {
                Ok(EvaluationStep::Halt(v)) => t.numeric_value() && v == Term::Succ(t),
                Ok(EvaluationStep::Step(u)) => !t.numeric_value() && reduct(Term::Succ(t)) == Some(
                    u,
                ),
                Err(e) => !t.numeric_value() && stuck(Term::Succ(t)) == Some(e@),
            },
        decreases *t, 1nat,
    {
        // Try to apply rule `E-Succ`.
        match self.eval_one_step(*t) {
            Ok(EvaluationStep::Step(t)) => Ok(EvaluationStep::Step(Term::Succ(Box::new(t)))),
            Ok(EvaluationStep::Halt(t)) => {
                if t.is_numeric_value() {
                    Ok(EvaluationStep::Halt(Term::Succ(Box::new(t))))
                } else {
                    Err(EvaluationError::new(t, Construct::Succ))
                }
            },
            Err(e) => Err(e.within(Construct::Succ)),
        }
    }

    /// Evaluates `pred t` by one step.
    fn eval_pred(&mut self, t: Box<Term>) -> (r: Result<Term, EvaluationError>)
        ensures
            match r {
                Ok(u) => reduct(Term::Pred(t)) == Some(u),
                Err(e) => stuck(Term::Pred(t)) == Some(e@),
            },
        decreases *t, 1nat,
    {
        // Try to apply rule `E-PredZero` or rule `E-PredSucc`.
        let t = match *t {
            Term::Zero => return Ok(Term::Zero),
            Term::Succ(nv) => {
                if nv.is_numeric_value() {
                    return Ok(*nv);
                }
                Term::Succ(nv)
            },
            t => t,
        };

        // Try to apply rule `E-Pred`.
        match self.eval_one_step(t) {
            Ok(EvaluationStep::Step(t)) => Ok(Term::Pred(Box::new(t))),
            Ok(EvaluationStep::Halt(t)) => Err(EvaluationError::new(t, Construct::Pred)),
            Err(e) => Err(e.within(Construct::Pred)),
        }
    }

    /// Evaluates `iszero t` by one step.
    fn eval_is_zero(&mut self, t: Box<Term>) -> (r: Result<Term, EvaluationError>)
        ensures
            match r {
                Ok(u) => reduct(Term::IsZero(t)) == Some(u),
                Err(e) => stuck(Term::IsZero(t)) == Some(e@),
            },
        decreases *t, 1nat,
    {
        // Try to apply rule `E-IszeroZero` or rule `E-IszeroSucc`.
        let t = match *t {
            Term::Zero => return Ok(Term::True),
            Term::Succ(nv) => {
                if nv.is_numeric_value() {
                    return Ok(Term::False);
                }
                Term::Succ(nv)
            },
            t => t,
        };

        // Try to apply rule `E-IsZero`.
        match self.eval_one_step(t) {
            Ok(EvaluationStep::Step(t)) => Ok(Term::IsZero(Box::new(t))),
            Ok(EvaluationStep::Halt(t)) => Err(EvaluationError::new(t, Construct::IsZero)),
            Err(e) => Err(e.within(Construct::IsZero)),
        }
    }
}

impl Semantics<Term> for Evaluator {
    open spec fn is_value(t: Term) -> bool {
        t.value()
    }

    open spec fn reduct(t: Term) -> Option<Term> {
        reduct(t)
    }

    /// The size of the term.
    open spec fn fuel(t: Term) -> nat {
        t.size()
    }

    proof fn lemma_value_is_normal(t: Term) {
    }

    proof fn lemma_step_burns_fuel(t: Term) {
        lemma_reduct_is_smaller(t);
    }
}

/// Every rule takes at least one node away.
pub proof fn lemma_reduct_is_smaller(t: Term)
    requires
        reduct(t) is Some,
    ensures
        reduct(t).unwrap().size() < t.size(),
    decreases t,
{
    let u = reduct(t).unwrap();
    match t {
        Term::IfElse { condition, true_br, false_br } => {
            if !(*condition is True) && !(*condition is False) {
                lemma_reduct_is_smaller(*condition);
                let c = reduct(*condition).unwrap();
                assert(u == Term::IfElse { condition: Box::new(c), true_br, false_br });
                assert(u.size() == 1 + c.size() + true_br.size() + false_br.size());
            }
        },
        Term::Succ(operand) => {
            lemma_reduct_is_smaller(*operand);
            assert(u.size() == 1 + reduct(*operand).unwrap().size());
        },
        Term::Pred(operand) => {
            if *operand is Zero {
            } else if *operand is Succ && operand->Succ_0.numeric_value() {
                assert(operand.size() == 1 + operand->Succ_0.size());
            } else {
                lemma_reduct_is_smaller(*operand);
                assert(u.size() == 1 + reduct(*operand).unwrap().size());
            }
        },
        Term::IsZero(operand) => {
            if *operand is Zero {
            } else if *operand is Succ && operand->Succ_0.numeric_value() {
            } else {
                lemma_reduct_is_smaller(*operand);
                assert(u.size() == 1 + reduct(*operand).unwrap().size());
            }
        },
        _ => {},
    }
}

impl AbstractEvaluator<Term> for Evaluator {
    type Err = EvaluationError;

    open spec fn reports(t: Term, e: EvaluationError) -> bool {
        stuck(t) == Some(e@)
    }

    fn eval_one_step(&mut self, t: Term) -> (r: Result<EvaluationStep<Term>, Self::Err>)
        decreases t, 0nat,
    {
        if t.is_value() {
            return Ok(EvaluationStep::Halt(t));
        }
        match t {
            Term::IfElse { condition, true_br, false_br } => stepped(
                self.eval_if_else(condition, true_br, false_br),
            ),
            Term::Succ(t) => self.eval_succ(t),
            Term::Pred(t) => stepped(self.eval_pred(t)),
            Term::IsZero(t) => stepped(self.eval_is_zero(t)),
            _ => unreached(),
        }
    }
}

/// Marks the term that a rule gave as a step.
fn stepped(r: Result<Term, EvaluationError>) -> (s: Result<EvaluationStep<Term>, EvaluationError>)
    ensures
        match r {
            Ok(u) => s matches Ok(EvaluationStep::Step(v)) && v == u,
            Err(e) => s matches Err(f) && f == e,
        },
{
    match r {
        Ok(u) => Ok(EvaluationStep::Step(u)),
        Err(e) => Err(e),
    }
}

/// The error of an evaluation that came upon a stuck term.
#[derive(Debug)]
pub struct EvaluationError {
    normal_form: Term,
    construct: Construct,
    context: Vec<Construct>,
}

impl View for EvaluationError {
    type V = Stuck;

    closed spec fn view(&self) -> Stuck {
        Stuck {
            normal_form: self.normal_form,
            construct: self.construct,
            context: self.context@,
        }
    }
}

impl EvaluationError {
    /// The error of `normal_form` standing as the operand of `construct`.
    pub fn new(normal_form: Term, construct: Construct) -> (e: Self)
        ensures
            e@ == Stuck::at(normal_form, construct),
    {
        Self { normal_form, construct, context: Vec::new() }
    }

    /// The same error, passed on by a term of `construct` around the stuck one.
    pub fn within(self, construct: Construct) -> (e: Self)
        ensures
            e@ == self@.within(construct),
    {
        let mut e = self;
        e.context.push(construct);
        e
    }

    /// The normal form that stands where it cannot.
    pub fn normal_form(&self) -> (t: &Term)
        ensures
            *t == self@.normal_form,
    {
        &self.normal_form
    }

    /// The kind of term that cannot have the normal form as its operand.
    pub fn construct(&self) -> (c: Construct)
        ensures
            c == self@.construct,
    {
        self.construct
    }

    /// The kinds of the terms around the stuck one, innermost first.
    pub fn context(&self) -> (context: &Vec<Construct>)
        ensures
            context@ == self@.context,
    {
        &self.context
    }

    /// The normal form and what is wrong with it, then one line for each term
    /// that passed the error on.
    pub fn message(&self) -> (s: String)
        ensures
            s@ == self@.message(),
    {
        let mut s = self.normal_form.to_string();
        s.append(self.construct.complaint_str());
        let ghost head = s@;
        let mut i: usize = 0;
        while i < self.context.len()
            invariant
                i <= self.context.len(),
                s@ == head + frames(self.context@.take(i as int)),
            decreases self.context.len() - i,
        {
            s.append(self.context[i].frame_str());
            proof {
                assert(self.context@.take(i + 1).drop_last() == self.context@.take(i as int));
            }
            i += 1;
        }
        proof {
            assert(self.context@.take(i as int) == self.context@);
        }
        s
    }

    /// The message, marked as that of an evaluation error.
    pub fn to_string(&self) -> (s: String)
        ensures
            s@ == "eval error: "@ + self@.message(),
    {
        let mut s = String::from_str("eval error: ");
        s.append(self.message().as_str());
        s
    }
}

} // verus!
