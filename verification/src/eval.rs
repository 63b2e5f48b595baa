use crate::term::Term;
use std::borrow::{Borrow, BorrowMut};
use vstd::prelude::*;

verus! {

/// The small-step semantics of a calculus whose terms are of type `T`.
///
/// It says which terms are values, which term a term reduces to in one step,
/// and gives a measure that every step makes smaller, so that evaluation ends.
pub trait Semantics<T>: Sized {
    /// Whether `t` is a value: a normal form in which evaluation ends well.
    spec fn is_value(t: T) -> bool;

    /// The term that `t` reduces to in one step, if a rule applies to `t`.
    spec fn reduct(t: T) -> Option<T>;

    /// A measure of `t` that bounds the number of steps left to take.
    spec fn fuel(t: T) -> nat;

    /// No rule applies to a value.
    proof fn lemma_value_is_normal(t: T)
        requires
            Self::is_value(t),
        ensures
            Self::reduct(t) is None,
    ;

    /// Each step makes the measure smaller.
    proof fn lemma_step_burns_fuel(t: T)
        requires
            Self::reduct(t) is Some,
        ensures
            Self::fuel(Self::reduct(t).unwrap()) < Self::fuel(t),
    ;
}

/// An evaluator evaluates a term into the corresponding normal form.
pub trait Evaluator<T: Term>: Semantics<T> {
    /// The error type that can be produced during evaluation.
    type Err;

    /// Whether `e` is the report of `t`, a normal form that is no value.
    spec fn reports(t: T, e: Self::Err) -> bool;

    /// Evaluate the given term one step towards its normal form.
    ///
    /// A value halts unchanged, a term to which a rule applies steps to its
    /// reduct, and any other term is stuck and reported.
    fn eval_one_step(&mut self, t: T) -> (r: Result<EvaluationStep<T>, Self::Err>)
        ensures
            Self::is_value(t) ==> (r matches Ok(EvaluationStep::Halt(u)) && u == t),
            match r {
                Ok(EvaluationStep::Halt(u)) => Self::is_value(t) && u == t,
                Ok(EvaluationStep::Step(u)) => !Self::is_value(t) && Self::reduct(t) == Some(u),
                Err(e) => !Self::is_value(t) && Self::reduct(t) is None && Self::reports(t, e),
            },
    ;

    /// Evaluate the given term one or more steps until its normal form.
    fn eval(&mut self, t: T) -> (r: Result<T, Self::Err>)
        ensures
            match r {
                Ok(nf) => nf == normal_form::<T, Self>(t) && Self::is_value(nf),
                Err(e) => !Self::is_value(normal_form::<T, Self>(t)) && Self::reports(
                    normal_form::<T, Self>(t),
                    e,
                ),
            },
    {
        let mut current = t;
        loop
            invariant
                normal_form::<T, Self>(current) == normal_form::<T, Self>(t),
            decreases Self::fuel(current),
        {
            let ghost before = current;
            match self.eval_one_step(current) {
                Ok(EvaluationStep::Step(st)) => {
                    proof {
                        Self::lemma_step_burns_fuel(before);
                        lemma_normal_form_of_reduct::<T, Self>(before);
                    }
                    current = st;
                },
                Ok(EvaluationStep::Halt(nf)) => {
                    proof {
                        Self::lemma_value_is_normal(before);
                        lemma_normal_form_of_normal::<T, Self>(before);
                    }
                    return Ok(nf);
                },
                Err(e) => {
                    proof {
                        lemma_normal_form_of_normal::<T, Self>(before);
                    }
                    return Err(e);
                },
            }
        }
    }

    /// Evaluate the given term until its normal form, and show `monitor` each
    /// term on the way: the given term first, the normal form last.
    fn eval_with_monitor<F: FnMut(&T)>(&mut self, t: T, monitor: F) -> (r: Result<
        T,
        Self::Err,
    >)
        requires
            forall|i: int|
                0 <= i < trace::<T, Self>(t).len() ==> call_requires(
                    monitor,
                    (&#[trigger] trace::<T, Self>(t)[i],),
                ),
        ensures
            forall|i: int|
                0 <= i < trace::<T, Self>(t).len() ==> call_ensures(
                    monitor,
                    (&#[trigger] trace::<T, Self>(t)[i],),
                    (),
                ),
            match r {
                Ok(nf) => nf == normal_form::<T, Self>(t) && Self::is_value(nf),
                Err(e) => !Self::is_value(normal_form::<T, Self>(t)) && Self::reports(
                    normal_form::<T, Self>(t),
                    e,
                ),
            },
    {
        let mut current = t;
        let ghost mut seen: int = 0;
        let mut observe = monitor;
        proof {
            lemma_trace_starts::<T, Self>(t);
        }
        loop
            invariant
                observe == monitor,
                0 <= seen < trace::<T, Self>(t).len(),
                trace::<T, Self>(t).skip(seen) == trace::<T, Self>(current),
                forall|i: int|
                    0 <= i < trace::<T, Self>(t).len() ==> call_requires(
                        monitor,
                        (&#[trigger] trace::<T, Self>(t)[i],),
                    ),
                forall|i: int|
                    0 <= i < seen ==> call_ensures(
                        monitor,
                        (&#[trigger] trace::<T, Self>(t)[i],),
                        (),
                    ),
            decreases Self::fuel(current),
        {
            proof {
                lemma_trace_starts::<T, Self>(current);
            }
            let ghost before = current;
            observe(&current);
            match self.eval_one_step(current) {
                Ok(EvaluationStep::Step(st)) => {
                    proof {
                        Self::lemma_step_burns_fuel(before);
                        lemma_trace_starts::<T, Self>(st);
                        assert(trace::<T, Self>(t).skip(seen + 1) == trace::<T, Self>(t).skip(
                            seen,
                        ).skip(1));
                        seen = seen + 1;
                    }
                    current = st;
                },
                Ok(EvaluationStep::Halt(nf)) => {
                    proof {
                        Self::lemma_value_is_normal(before);
                        lemma_normal_form_of_normal::<T, Self>(before);
                    }
                    return Ok(nf);
                },
                Err(e) => {
                    proof {
                        lemma_normal_form_of_normal::<T, Self>(before);
                    }
                    return Err(e);
                },
            }
        }
    }
}

/// The terms that evaluation goes through, from `t` to its normal form.
pub open spec fn trace<T, S: Semantics<T>>(t: T) -> Seq<T>
    decreases S::fuel(t),
{
    match S::reduct(t) {
        Some(u) => {
            proof {
                S::lemma_step_burns_fuel(t);
            }
            seq![t] + trace::<T, S>(u)
        },
        None => seq![t],
    }
}

/// The normal form of `t`: the term in which its trace ends.
pub open spec fn normal_form<T, S: Semantics<T>>(t: T) -> T {
    trace::<T, S>(t).last()
}

/// A trace starts with its term.
pub proof fn lemma_trace_starts<T, S: Semantics<T>>(t: T)
    ensures
        trace::<T, S>(t).len() >= 1,
        trace::<T, S>(t)[0] == t,
{
    if S::reduct(t) is Some {
        S::lemma_step_burns_fuel(t);
    }
}

/// A term to which no rule applies is its own normal form.
pub proof fn lemma_normal_form_of_normal<T, S: Semantics<T>>(t: T)
    requires
        S::reduct(t) is None,
    ensures
        trace::<T, S>(t) == seq![t],
        normal_form::<T, S>(t) == t,
{
}

/// A term and its reduct have the same normal form.
pub proof fn lemma_normal_form_of_reduct<T, S: Semantics<T>>(t: T)
    requires
        S::reduct(t) is Some,
    ensures
        normal_form::<T, S>(S::reduct(t).unwrap()) == normal_form::<T, S>(t),
{
    S::lemma_step_burns_fuel(t);
    let u = S::reduct(t).unwrap();
    lemma_trace_starts::<T, S>(u);
}

/// The result of evaluating a term in one step.
pub enum EvaluationStep<T> {
    /// The input term is reduced toward its normal form.
    Step(T),
    /// The input term is in its normal form and cannot be reduced further.
    Halt(T),
}

impl<T> EvaluationStep<T> {
    /// The term that the step holds, whichever variant it is.
    pub open spec fn term(self) -> T {
        match self {
            EvaluationStep::Step(t) => t,
            EvaluationStep::Halt(t) => t,
        }
    }

    /// Determine whether this `EvaluationStep` is a `Step`.
    pub fn is_step(&self) -> (b: bool)
        ensures
            b == (*self is Step),
    {
        match self {
            Self::Step(_) => true,
            _ => false,
        }
    }

    /// Determine whether this `EvaluationStep` is a `Halt`.
    pub fn is_halt(&self) -> (b: bool)
        ensures
            b == (*self is Halt),
    {
        match self {
            Self::Halt(_) => true,
            _ => false,
        }
    }

    /// Get an immutable reference to the term in the evaluation result.
    pub fn as_term(&self) -> (t: &T)
        ensures
            *t == self.term(),
    {
        match self {
            Self::Step(t) => t,
            Self::Halt(t) => t,
        }
    }

    /// Get a mutable reference to the term in the evaluation result.
    ///
    /// What is written through the reference becomes the term of the step,
    /// which stays the variant it was.
    pub fn as_term_mut(&mut self) -> (t: &mut T)
        ensures
            *t == old(self).term(),
            final(self).term() == *final(t),
            *final(self) is Step <==> *old(self) is Step,
    {
        match self {
            Self::Step(t) => t,
            Self::Halt(t) => t,
        }
    }

    /// Consume the `EvaluationStep` value and get the term contained in it.
    pub fn into_term(self) -> (t: T)
        ensures
            t == self.term(),
    {
        match self {
            Self::Step(t) => t,
            Self::Halt(t) => t,
        }
    }
}

impl<T> AsMut<T> for EvaluationStep<T> {
    /// The same as `as_term_mut`.
    fn as_mut(&mut self) -> (t: &mut T)
        ensures
            *t == old(self).term(),
            final(self).term() == *final(t),
            *final(self) is Step <==> *old(self) is Step,
    {
        self.as_term_mut()
    }
}

impl<T> AsRef<T> for EvaluationStep<T> {
    /// The same as `as_term`.
    fn as_ref(&self) -> (t: &T)
        ensures
            *t == self.term(),
    {
        self.as_term()
    }
}

impl<T> Borrow<T> for EvaluationStep<T> {
    /// The same as `as_term`.
    fn borrow(&self) -> &T
        returns
            &self.term(),
    {
        self.as_term()
    }
}

impl<T> BorrowMut<T> for EvaluationStep<T> {
    /// The same as `as_term_mut`: what is written through the reference
    /// becomes the term of the step, which stays the variant it was.
    fn borrow_mut(&mut self) -> (t: &mut T)
        ensures
            *t === old(self).term(),
            final(self).term() === *final(t),
            *final(self) is Step <==> *old(self) is Step,
    {
        self.as_term_mut()
    }
}

} // verus!
