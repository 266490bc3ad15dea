//! A pair of values, one for each outcome.

use crate::outcome::Outcome;
use std::ops::{Index, IndexMut};
use vstd::prelude::*;

verus! {

/// Holds exactly one value of type `T` for `Yes` and one for `No`.
#[derive(Debug, Clone, PartialEq, Eq, Hash)]
pub struct YesNoValues<T> {
    pub yes: T,
    pub no: T,
}

impl<T> YesNoValues<T> {
    /// The value held for `outcome`.
    pub open spec fn spec_get(self, outcome: Outcome) -> T {
        match outcome {
            Outcome::Yes => self.yes,
            Outcome::No => self.no,
        }
    }

    /// The pair that holds `value` for `outcome` and is otherwise unchanged.
    pub open spec fn spec_set(self, outcome: Outcome, value: T) -> YesNoValues<T> {
        match outcome {
            Outcome::Yes => YesNoValues { yes: value, no: self.no },
            Outcome::No => YesNoValues { yes: self.yes, no: value },
        }
    }

    /// Stores both values as given.
    pub fn new(yes: T, no: T) -> (pair: Self)
        ensures
            pair == (YesNoValues { yes, no }),
    {
        Self { yes, no }
    }

    /// Borrows the value held for `outcome`.
    pub fn get(&self, outcome: Outcome) -> (value: &T)
        ensures
            *value == self.spec_get(outcome),
    {
        match outcome {
            Outcome::Yes => &self.yes,
            Outcome::No => &self.no,
        }
    }

    /// Replaces the value held for `outcome`, leaving the other one alone.
    pub fn set(&mut self, outcome: Outcome, value: T)
        ensures
            *final(self) == old(self).spec_set(outcome, value),
    {
        match outcome {
            Outcome::Yes => { self.yes = value; },
            Outcome::No => { self.no = value; },
        }
    }

    /// Applies `f` to each of the two values independently.
    pub fn map<U, F: Fn(&T) -> U>(&self, f: F) -> (mapped: YesNoValues<U>)
        requires
            f.requires((&self.yes,)),
            f.requires((&self.no,)),
        ensures
            f.ensures((&self.yes,), mapped.yes),
            f.ensures((&self.no,), mapped.no),
    {
        YesNoValues { yes: f(&self.yes), no: f(&self.no) }
    }
}

impl<T> Index<Outcome> for YesNoValues<T> {
    type Output = T;

    /// `pair[outcome]` is the value held for `outcome`.
    fn index(&self, outcome: Outcome) -> (value: &T)
        ensures
            *value == self.spec_get(outcome),
    {
        self.get(outcome)
    }
}

impl<T> vstd::std_specs::core::IndexSpecImpl<Outcome> for YesNoValues<T> {
    /// Every outcome has a value, so indexing never fails.
    open spec fn index_req(&self, index: &Outcome) -> bool {
        true
    }
}

impl<T> IndexMut<Outcome> for YesNoValues<T> {
    /// Lends out the value held for `outcome`; what is written through the
    /// borrow becomes that value, and the other one stays as it is.
    fn index_mut(&mut self, outcome: Outcome) -> (value: &mut T)
        ensures
            *value == old(self).spec_get(outcome),
            *final(self) == old(self).spec_set(outcome, *final(value)),
    {
        match outcome {
            Outcome::Yes => &mut self.yes,
            Outcome::No => &mut self.no,
        }
    }
}

} // verus!
