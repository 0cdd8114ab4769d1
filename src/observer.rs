use vstd::prelude::*;
use crate::components::{CharacterAnimator, CharacterState};

verus! {

/// A value that can be compared for change detection.
pub trait ObservedValue: Copy + Sized {
    fn same(&self, other: &Self) -> (r: bool)
        ensures
            r == (*self == *other);
}

impl ObservedValue for bool {
    fn same(&self, other: &bool) -> (r: bool) {
        *self == *other
    }
}

impl ObservedValue for CharacterState {
    fn same(&self, other: &CharacterState) -> (r: bool) {
        *self == *other
    }
}

/// A component from which an observed value of type `V` is derived.
pub trait Observe<V> {
    spec fn observed_spec(&self) -> V;

    fn observed(&self) -> (r: V)
        ensures
            r == self.observed_spec();
}

/// An animator is observed through whether its clip has ended.
impl Observe<bool> for CharacterAnimator {
    open spec fn observed_spec(&self) -> bool {
        self.at_end
    }

    fn observed(&self) -> (r: bool) {
        self.at_end
    }
}

/// A character state is observed as itself.
impl Observe<CharacterState> for CharacterState {
    open spec fn observed_spec(&self) -> CharacterState {
        *self
    }

    fn observed(&self) -> (r: CharacterState) {
        *self
    }
}

/// Edge detector: the last value seen and whether the latest `diff` saw a change.
#[derive(Debug)]
pub struct ValueObserver<V> {
    pub value: V,
    pub changed: bool,
}

/// The observer after a `diff` against `current`.
pub open spec fn diffed<V>(o: ValueObserver<V>, current: V) -> ValueObserver<V> {
    ValueObserver { value: current, changed: o.value != current }
}

/// The observer after a `capture` of `current`.
pub open spec fn captured<V>(current: V) -> ValueObserver<V> {
    ValueObserver { value: current, changed: false }
}

impl<V: ObservedValue> ValueObserver<V> {
    pub fn new(value: V) -> (r: Self)
        ensures
            r == captured(value),
    {
        ValueObserver { value, changed: false }
    }

    /// Stores `current` as the baseline without comparing.
    pub fn capture(&mut self, current: V)
        ensures
            *final(self) == captured(current),
    {
        self.value = current;
        self.changed = false;
    }

    /// Records whether `current` differs from the stored value, then stores it.
    pub fn diff(&mut self, current: V)
        ensures
            *final(self) == diffed(*old(self), current),
    {
        self.changed = !self.value.same(&current);
        self.value = current;
    }

    pub fn is_changed(&self) -> (r: bool)
        ensures
            r == self.changed,
    {
        self.changed
    }

    pub fn value(&self) -> (r: V)
        ensures
            r == self.value,
    {
        self.value
    }
}

/// Two `diff`s of the same value in a row: the second reports no change.
pub proof fn lemma_diff_idempotent<V>(o: ValueObserver<V>, current: V)
    ensures
        !diffed(diffed(o, current), current).changed,
        diffed(diffed(o, current), current).value == current,
{
}

} // verus!
