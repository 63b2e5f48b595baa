use crate::eval::{normal_form, trace};
use crate::unty_arith::eval::{lemma_reduct_is_smaller, reduct, Evaluator};
use crate::unty_arith::term::Term;
use vstd::prelude::*;

verus! {

/// What a term can evaluate to, as far as its shape tells.
pub enum Sort {
    /// A boolean value.
    Boolean,
    /// A numeric value.
    Numeric,
    /// A value of either kind: the branches of a conditional differ.
    Either,
}

impl Sort {
    /// The sort of a conditional whose branches are of the two sorts.
    pub open spec fn join(self, other: Sort) -> Sort {
        if self == other {
            self
        } else {
            Sort::Either
        }
    }

    /// Whether a term of this sort may stand where one of `other` stood.
    pub open spec fn refines(self, other: Sort) -> bool {
        self == other || other is Either
    }
}

/// The sort of a well-formed term; a term that is not well-formed has none.
///
/// In a well-formed term every condition is of the boolean sort and every
/// operand of `succ`, `pred` and `iszero` is of the numeric sort.
pub open spec fn sort_of(t: Term) -> Option<Sort>
    decreases t,
{
    match t {
        Term::True | Term::False => Some(Sort::Boolean),
        Term::Zero => Some(Sort::Numeric),
        Term::IfElse { condition, true_br, false_br } => if sort_of(*condition) == Some(
            Sort::Boolean,
        ) && sort_of(*true_br) is Some && sort_of(*false_br) is Some {
            Some(sort_of(*true_br).unwrap().join(sort_of(*false_br).unwrap()))
        } else {
            None
        },
        Term::Succ(operand) | Term::Pred(operand) => if sort_of(*operand) == Some(Sort::Numeric) {
            Some(Sort::Numeric)
        } else {
            None
        },
        Term::IsZero(operand) => if sort_of(*operand) == Some(Sort::Numeric) {
            Some(Sort::Boolean)
        } else {
            None
        },
    }
}

/// Whether no condition and no operand of `t` is of the wrong sort.
pub open spec fn well_formed(t: Term) -> bool {
    sort_of(t) is Some
}

/// A value is well-formed, and of the sort of its kind.
pub proof fn lemma_sort_of_value(v: Term)
    requires
        v.value(),
    ensures
        v.bool_value() ==> sort_of(v) == Some(Sort::Boolean),
        v.numeric_value() ==> sort_of(v) == Some(Sort::Numeric),
    decreases v,
{
    if v is Succ {
        lemma_sort_of_value(*v->Succ_0);
    }
}

/// A well-formed term is not stuck: it is a value, or a rule applies to it.
pub proof fn lemma_progress(t: Term)
    requires
        well_formed(t),
    ensures
        t.value() || reduct(t) is Some,
    decreases t,
{
    match t {
        Term::IfElse { condition, true_br, false_br } => {
            lemma_progress(*condition);
            if condition.value() {
                lemma_sort_of_value(*condition);
            }
        },
        Term::Succ(operand) => {
            lemma_progress(*operand);
            if operand.value() {
                lemma_sort_of_value(*operand);
            }
        },
        Term::Pred(operand) => {
            lemma_progress(*operand);
            if operand.value() {
                lemma_sort_of_value(*operand);
            }
        },
        Term::IsZero(operand) => {
            lemma_progress(*operand);
            if operand.value() {
                lemma_sort_of_value(*operand);
            }
        },
        _ => {},
    }
}

/// The reduct of a well-formed term is well-formed, and of the same sort
/// unless the term could be of either.
pub proof fn lemma_preservation(t: Term)
    requires
        well_formed(t),
        reduct(t) is Some,
    ensures
        well_formed(reduct(t).unwrap()),
        sort_of(reduct(t).unwrap()).unwrap().refines(sort_of(t).unwrap()),
    decreases t,
{
    match t {
        Term::IfElse { condition, true_br, false_br } => {
            if !(*condition is True) && !(*condition is False) {
                lemma_preservation(*condition);
            }
        },
        Term::Succ(operand) => {
            lemma_preservation(*operand);
        },
        Term::Pred(operand) => {
            if *operand is Zero {
            } else if *operand is Succ && operand->Succ_0.numeric_value() {
            } else {
                lemma_preservation(*operand);
            }
        },
        Term::IsZero(operand) => {
            if *operand is Zero {
            } else if *operand is Succ && operand->Succ_0.numeric_value() {
            } else {
                lemma_preservation(*operand);
            }
        },
        _ => {},
    }
}

/// Evaluation takes fewer steps than the term has nodes.
pub proof fn lemma_trace_is_short(t: Term)
    ensures
        trace::<Term, Evaluator>(t).len() <= t.size(),
    decreases t.size(),
{
    if reduct(t) is Some {
        lemma_reduct_is_smaller(t);
        lemma_trace_is_short(reduct(t).unwrap());
    }
}

/// Evaluation of a well-formed term ends in a value, after fewer steps than
/// the term has nodes.
pub proof fn lemma_well_formed_terms_evaluate(t: Term)
    requires
        well_formed(t),
    ensures
        normal_form::<Term, Evaluator>(t).value(),
        well_formed(normal_form::<Term, Evaluator>(t)),
        trace::<Term, Evaluator>(t).len() <= t.size(),
    decreases t.size(),
{
    lemma_trace_is_short(t);
    if reduct(t) is Some {
        let u = reduct(t).unwrap();
        lemma_reduct_is_smaller(t);
        lemma_preservation(t);
        lemma_well_formed_terms_evaluate(u);
    } else {
        lemma_progress(t);
    }
}

} // verus!
