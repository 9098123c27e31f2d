//! The front-end reservation station: holds the instruction the ROB
//! dispatched, `(funct, xs1, xs2, domain, rob_id)`, until it is issued to
//! its domain.
use vstd::prelude::*;
use crate::buckyball::lib::operation::{ExternalOp, InternalOp};

verus! {

/// The reservation station.
pub struct Rs {
    pub inst_to_issue: Option<(u32, u32, u64, u64, u32)>,
}

impl Rs {
    /// An empty station.
    pub fn new() -> (r: Self)
        ensures
            r.inst_to_issue is None,
    {
        Rs { inst_to_issue: None }
    }

    /// The dispatch from the ROB into this station.
    pub fn dispatch(&mut self) -> (op: RsInstDispatchExt<'_>)
        ensures
            *op.0 == *old(self),
            *final(self) == *final(op.0),
    {
        RsInstDispatchExt(self)
    }

    /// The issue from this station to a domain.
    pub fn issue_to_specific_domain(&mut self) -> (op: RsIssueToSpecificDomainInt<'_>)
        ensures
            *op.0 == *old(self),
            *final(self) == *final(op.0),
    {
        RsIssueToSpecificDomainInt(self)
    }
}

/// The dispatch operation.
pub struct RsInstDispatchExt<'a>(pub &'a mut Rs);

impl<'a> ExternalOp for RsInstDispatchExt<'a> {
    type Input = Option<(u32, u32, u64, u64, u32)>;

    open spec fn accepts(&self, input: &Self::Input) -> bool {
        true
    }

    /// The station takes an instruction whenever the control allows.
    fn can_input(&self, ctrl: bool) -> (r: bool)
        ensures
            r == ctrl,
    {
        ctrl
    }

    fn has_input(&self, input: &Self::Input) -> (r: bool)
        ensures
            r == input is Some,
    {
        input.is_some()
    }

    /// Holds the instruction given, in place of the one held; nothing
    /// happens without one.
    fn execute(&mut self, input: &Self::Input)
        ensures
            input is Some ==> final(self).0.inst_to_issue == *input,
            input is None ==> *final(self).0 == *old(self).0,
            *final(final(self).0) == *final(old(self).0),
    {
        if input.is_some() {
            self.0.inst_to_issue = *input;
        }
    }
}

/// The issue operation.
pub struct RsIssueToSpecificDomainInt<'a>(pub &'a mut Rs);

impl<'a> InternalOp for RsIssueToSpecificDomainInt<'a> {
    type Output = Option<(u32, u32, u64, u64, u32)>;

    open spec fn ready(&self) -> bool {
        true
    }

    fn has_output(&self) -> (r: bool)
        ensures
            r == old(self.0).inst_to_issue is Some,
    {
        self.0.inst_to_issue.is_some()
    }

    fn update(&mut self)
        ensures
            *final(self).0 == *old(self).0,
            *final(final(self).0) == *final(old(self).0),
    {
    }

    /// Hands out the instruction held, which stays.
    fn output(&mut self) -> (r: Self::Output)
        ensures
            r == old(self).0.inst_to_issue,
            *final(self).0 == *old(self).0,
            *final(final(self).0) == *final(old(self).0),
    {
        self.0.inst_to_issue
    }
}

} // verus!
