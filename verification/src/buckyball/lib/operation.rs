//! The two faces of a unit's operation: an external one, driven by an
//! input (a submodule changes its state here), and an internal one that
//! updates the unit and yields an output (a top module changes its state
//! here; taking the output changes nothing).
use vstd::prelude::*;

verus! {

/// An operation driven from outside. Whether it can take an input speaks
/// of the unit alone; control signals are agreed on separately.
pub trait ExternalOp {
    type Input;

    /// The unit can execute `input` in its present state.
    spec fn accepts(&self, input: &Self::Input) -> bool;

    fn can_input(&self, ctrl: bool) -> bool;

    fn has_input(&self, input: &Self::Input) -> bool;

    fn execute(&mut self, input: &Self::Input)
        requires
            old(self).accepts(input),
    ;
}

/// An operation that updates the unit and yields an output; `output` only
/// reads the unit.
pub trait InternalOp {
    type Output;

    /// The unit can update in its present state.
    spec fn ready(&self) -> bool;

    fn has_output(&self) -> bool;

    fn update(&mut self)
        requires
            old(self).ready(),
    ;

    fn output(&mut self) -> Self::Output;
}

} // verus!
