//! The "balloon" condition: a Boolean-like value whose two sides are queried
//! independently, so that the validator and the compiler can explore both
//! arms of a conditional branch while the evaluator takes exactly one.

use vstd::prelude::*;

verus! {

/// A condition value supporting independent `maybe_true` / `maybe_false`
/// queries. For a two-valued balloon exactly one side answers `true`; for the
/// universal balloon both sides do.
pub trait Balloon {
    /// What `maybe_true` answers.
    spec fn spec_maybe_true(&self) -> bool;

    /// What `maybe_false` answers.
    spec fn spec_maybe_false(&self) -> bool;

    /// May the condition be true?
    fn maybe_true(&self) -> (r: bool)
        ensures
            r == self.spec_maybe_true(),
    ;

    /// May the condition be false?
    fn maybe_false(&self) -> (r: bool)
        ensures
            r == self.spec_maybe_false(),
    ;
}

/// The evaluator's balloon: an ordinary boolean, one side true.
impl Balloon for bool {
    open spec fn spec_maybe_true(&self) -> bool {
        *self
    }

    open spec fn spec_maybe_false(&self) -> bool {
        !*self
    }

    fn maybe_true(&self) -> (r: bool) {
        *self
    }

    fn maybe_false(&self) -> (r: bool) {
        !*self
    }
}

/// The validator's universal balloon: both sides are always true, so both
/// arms of a conditional branch are explored.
pub struct Idk;

impl Balloon for Idk {
    open spec fn spec_maybe_true(&self) -> bool {
        true
    }

    open spec fn spec_maybe_false(&self) -> bool {
        true
    }

    fn maybe_true(&self) -> (r: bool) {
        true
    }

    fn maybe_false(&self) -> (r: bool) {
        true
    }
}

/// The abstract compiler tracks conditions as symbolic variable indices; a
/// symbolic condition may go either way.
impl Balloon for usize {
    open spec fn spec_maybe_true(&self) -> bool {
        true
    }

    open spec fn spec_maybe_false(&self) -> bool {
        true
    }

    fn maybe_true(&self) -> (r: bool) {
        true
    }

    fn maybe_false(&self) -> (r: bool) {
        true
    }
}

} // verus!
