//! Wires between modules: a value and whether it is valid.
use vstd::prelude::*;

verus! {

/// A wire: the value it carries and whether the value is valid.
#[derive(Clone)]
pub struct Wire<T: Clone> {
    pub value: T,
    pub valid: bool,
}

impl<T: Clone> Wire<T> {
    /// A wire that carries `value`, not yet valid.
    pub fn new(value: T) -> (w: Self)
        ensures
            w.value == value,
            !w.valid,
    {
        Wire { value, valid: false }
    }

    /// Drives `value` onto the wire; it is valid.
    pub fn set(&mut self, value: T)
        ensures
            final(self).value == value,
            final(self).valid,
    {
        self.value = value;
        self.valid = true;
    }

    /// Marks the wire's value invalid; the value stays.
    pub fn clear(&mut self)
        ensures
            final(self).value == old(self).value,
            !final(self).valid,
    {
        self.valid = false;
    }
}

impl<T: Clone + Default> Default for Wire<T> {
    /// A wire that carries the default value, not valid.
    fn default() -> (w: Self)
        ensures
            !w.valid,
    {
        Wire { value: T::default(), valid: false }
    }
}

} // verus!
