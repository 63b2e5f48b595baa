use crate::term::Term as AbstractTerm;
use vstd::prelude::*;

verus! {

/// A term of the untyped arithmetic calculus.
#[derive(Debug)]
pub enum Term {
    True,
    False,
    Zero,
    IfElse { condition: Box<Term>, true_br: Box<Term>, false_br: Box<Term> },
    Succ(Box<Term>),
    Pred(Box<Term>),
    IsZero(Box<Term>),
}

impl Term {
    /// A boolean value is one of the two boolean literals.
    pub open spec fn bool_value(self) -> bool {
        self is True || self is False
    }

    /// A numeric value is `Zero` under any number of `Succ`.
    pub open spec fn numeric_value(self) -> bool
        decreases self,
    {
        match self {
            Term::Zero => true,
            Term::Succ(t) => t.numeric_value(),
            _ => false,
        }
    }

    /// A value is a boolean value or a numeric value.
    pub open spec fn value(self) -> bool {
        self.bool_value() || self.numeric_value()
    }

    /// The number of nodes of the term.
    pub open spec fn size(self) -> nat
        decreases self,
    {
        match self {
            Term::True | Term::False | Term::Zero => 1,
            Term::IfElse { condition, true_br, false_br } => 1 + condition.size() + true_br.size()
                + false_br.size(),
            Term::Succ(t) | Term::Pred(t) | Term::IsZero(t) => 1 + t.size(),
        }
    }

    /// Tells whether the term is a value.
    pub fn is_value(&self) -> (b: bool)
        ensures
            b == self.value(),
    {
        self.is_bool_value() || self.is_numeric_value()
    }

    /// Tells whether the term is a boolean value.
    pub fn is_bool_value(&self) -> (b: bool)
        ensures
            b == self.bool_value(),
    {
        match self {
            Self::True | Self::False => true,
            _ => false,
        }
    }

    /// Tells whether the term is a numeric value.
    pub fn is_numeric_value(&self) -> (b: bool)
        ensures
            b == self.numeric_value(),
        decreases self,
    {
        match self {
            Self::Zero => true,
            Self::Succ(t) => t.is_numeric_value(),
            _ => false,
        }
    }
}

/// The two kinds of value keep apart: the boolean literals are boolean
/// values, a numeric value is a value, and no term is of both kinds.
pub proof fn lemma_value_kinds(t: Term)
    ensures
        Term::True.bool_value(),
        Term::False.bool_value(),
        t.numeric_value() ==> t.value(),
        t.bool_value() ==> t.value(),
        !(t.bool_value() && t.numeric_value()),
{
}

impl AbstractTerm for Term {
    /// Keywords and operands are separated by one space, and nothing is put in
    /// parentheses.
    open spec fn text(&self) -> Seq<char>
        decreases self,
    {
        match self {
            Term::True => "true"@,
            Term::False => "false"@,
            Term::Zero => "0"@,
            Term::IfElse { condition, true_br, false_br } => "if "@ + condition.text() + " then "@
                + true_br.text() + " else "@ + false_br.text(),
            Term::Succ(t) => "succ "@ + t.text(),
            Term::Pred(t) => "pred "@ + t.text(),
            Term::IsZero(t) => "iszero "@ + t.text(),
        }
    }

    fn to_string(&self) -> (s: String)
        decreases self,
    {
        match self {
            Self::True => String::from_str("true"),
            Self::False => String::from_str("false"),
            Self::Zero => String::from_str("0"),
            Self::IfElse { condition, true_br, false_br } => {
                let mut s = String::from_str("if ");
                s.append(condition.to_string().as_str());
                s.append(" then ");
                s.append(true_br.to_string().as_str());
                s.append(" else ");
                s.append(false_br.to_string().as_str());
                s
            },
            Self::Succ(t) => {
                let mut s = String::from_str("succ ");
                s.append(t.to_string().as_str());
                s
            },
            Self::Pred(t) => {
                let mut s = String::from_str("pred ");
                s.append(t.to_string().as_str());
                s
            },
            Self::IsZero(t) => {
                let mut s = String::from_str("iszero ");
                s.append(t.to_string().as_str());
                s
            },
        }
    }
}

impl Clone for Term {
    fn clone(&self) -> (r: Self)
        ensures
            r == *self,
        decreases self,
    {
        match self {
            Term::True => Term::True,
            Term::False => Term::False,
            Term::Zero => Term::Zero,
            Term::IfElse { condition, true_br, false_br } => Term::IfElse {
                condition: Box::new((**condition).clone()),
                true_br: Box::new((**true_br).clone()),
                false_br: Box::new((**false_br).clone()),
            },
            Term::Succ(t) => Term::Succ(Box::new((**t).clone())),
            Term::Pred(t) => Term::Pred(Box::new((**t).clone())),
            Term::IsZero(t) => Term::IsZero(Box::new((**t).clone())),
        }
    }
}

} // verus!
