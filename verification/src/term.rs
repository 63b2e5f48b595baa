use vstd::prelude::*;

verus! {

/// A term of some calculus.
///
/// Every term has a canonical text, in which it is shown to the user.
pub trait Term {
    /// The canonical text of the term.
    spec fn text(&self) -> Seq<char>;

    /// Writes the term out as its canonical text.
    fn to_string(&self) -> (s: String)
        ensures
            s@ == self.text(),
    ;
}

} // verus!
