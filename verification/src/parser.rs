use crate::term::Term;
use vstd::prelude::*;

verus! {

/// A parser parses an input string into a syntax tree.
///
/// The language is given by two specification functions: the term that a
/// text stands for, if it stands for one, and what is reported of a text that
/// stands for none.
pub trait Parser<T: Term> {
    /// The type of parsing errors produced by the parser.
    type Err;

    /// The term that `input` stands for, if it is a text of the language.
    spec fn parsed(input: Seq<char>) -> Option<T>;

    /// Whether `e` is the report of `input`, a text that stands for no term.
    spec fn reports(input: Seq<char>, e: Self::Err) -> bool;

    /// Parse the given input string into a syntax tree.
    fn parse(&mut self, input: &str) -> (r: Result<T, Self::Err>)
        ensures
            match r {
                Ok(t) => Self::parsed(input@) == Some(t),
                Err(e) => Self::parsed(input@) is None && Self::reports(input@, e),
            },
    ;
}

} // verus!
