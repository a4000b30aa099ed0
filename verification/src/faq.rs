//! The record type for the frequently-asked-question tags the surrounding
//! chat layer serves. The question texts themselves live with that layer;
//! the library only defines their shape.

use vstd::prelude::*;

verus! {

/// One tagged question: a short tag name, the question, and its answer.
#[derive(Debug, Clone, Copy)]
pub struct FaqQuestion {
    pub name: &'static str,
    pub question: &'static str,
    pub answer: &'static str,
}

impl FaqQuestion {
    pub fn new(name: &'static str, q: &'static str, a: &'static str) -> (r: FaqQuestion)
        ensures
            r.name@ == name@,
            r.question@ == q@,
            r.answer@ == a@,
    {
        FaqQuestion { name, question: q, answer: a }
    }
}

} // verus!
