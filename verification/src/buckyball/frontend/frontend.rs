//! The front end: decoder, reorder buffer and reservation station in a
//! pipeline. A new instruction feeds every stage from what the stage before
//! handed over on the last update; an update moves each stage's result on.
use vstd::prelude::*;
use crate::buckyball::frontend::decoder::{decoded, Decoder};
use crate::buckyball::frontend::rob::{
    allocate_step,
    dispatch_step,
    has_status,
    idle_entry,
    EntryStatus,
    Rob,
};
use crate::buckyball::frontend::rs::Rs;
use crate::buckyball::lib::operation::{ExternalOp, InternalOp};

verus! {

/// The front end: its stages, what each handed over, and the back-pressure
/// flags that gate them.
pub struct Frontend {
    pub decoder: Decoder,
    pub rob: Rob,
    pub rs: Rs,
    pub decoded_inst: Option<(u32, u64, u64, u32)>,
    pub rob_dispatched_inst: Option<(u32, u32, u64, u64, u32)>,
    pub rs_issued_inst: Option<(u32, u32, u64, u64, u32)>,
    pub decoder_bp: bool,
    pub rob_bp: bool,
    pub rs_bp: bool,
}

impl Frontend {
    /// Empty stages, a reorder buffer of sixteen idle entries, nothing
    /// handed over and no back-pressure.
    pub fn new() -> (f: Self)
        ensures
            f.decoder.decoded_inst is None,
            f.rob.rob_buffer@ == Seq::new(16, |i: int| idle_entry()),
            f.rob.allocated_id == 0,
            f.rob.dispatched_inst is None,
            f.rob.inst_insert is None,
            f.rob.commit_rob_id is None,
            !f.rob.fence_csr,
            f.rs.inst_to_issue is None,
            f.decoded_inst is None,
            f.rob_dispatched_inst is None,
            f.rs_issued_inst is None,
            !f.decoder_bp,
            !f.rob_bp,
            !f.rs_bp,
    {
        Frontend {
            decoder: Decoder::new(),
            rob: Rob::new(16),
            rs: Rs::new(),
            decoded_inst: None,
            rob_dispatched_inst: None,
            rs_issued_inst: None,
            decoder_bp: false,
            rob_bp: false,
            rs_bp: false,
        }
    }

    /// The new-instruction operation.
    pub fn new_inst(&mut self) -> (op: FrontendNewInstExt<'_>)
        ensures
            *op.0 == *old(self),
            *final(self) == *final(op.0),
    {
        FrontendNewInstExt(self)
    }

    /// The issue operation.
    pub fn issue_inst(&mut self) -> (op: FrontendIssueInstInt<'_>)
        ensures
            *op.0 == *old(self),
            *final(self) == *final(op.0),
    {
        FrontendIssueInstInt(self)
    }
}

/// The new-instruction operation: a raw instruction `(funct, xs1, xs2)`.
pub struct FrontendNewInstExt<'a>(pub &'a mut Frontend);

impl<'a> ExternalOp for FrontendNewInstExt<'a> {
    type Input = Option<(u32, u64, u64)>;

    /// Each stage that takes input this step has something to take: the
    /// reorder buffer a decoded instruction, the station a dispatched one.
    open spec fn accepts(&self, input: &Self::Input) -> bool {
        let f = *self.0;
        input is Some ==> {
            &&& (!f.rob_bp && has_status(f.rob.rob_buffer@, EntryStatus::Idle)) ==> f.decoded_inst is Some
            &&& !f.rs_bp ==> f.rob_dispatched_inst is Some
        }
    }

    /// An instruction is taken when the control allows and the decoder is
    /// not held back.
    fn can_input(&self, ctrl: bool) -> (r: bool)
        ensures
            r == (ctrl && !old(self.0).decoder_bp),
    {
        ctrl && !self.0.decoder_bp
    }

    fn has_input(&self, input: &Self::Input) -> (r: bool)
        ensures
            r == input is Some,
    {
        input.is_some()
    }

    /// The decoder decodes the instruction given, the reorder buffer
    /// allocates the instruction decoded before, and the station takes the
    /// instruction dispatched before, each unless held back (the buffer
    /// also when it has no idle entry). Nothing happens without an
    /// instruction.
    fn execute(&mut self, input: &Self::Input)
        ensures
            ({
                let f = *old(self).0;
                let g = *final(self).0;
                match *input {
                    Some((funct, xs1, xs2)) => {
                        &&& g.decoder.decoded_inst == (if !f.decoder_bp {
                            decoded(funct, xs1, xs2)
                        } else {
                            f.decoder.decoded_inst
                        })
                        &&& (if !f.rob_bp && has_status(f.rob.rob_buffer@, EntryStatus::Idle) {
                            allocate_step(f.rob, g.rob, f.decoded_inst->Some_0)
                        } else {
                            g.rob == f.rob
                        })
                        &&& g.rs.inst_to_issue == (if !f.rs_bp {
                            f.rob_dispatched_inst
                        } else {
                            f.rs.inst_to_issue
                        })
                        &&& g.decoded_inst == f.decoded_inst
                        &&& g.rob_dispatched_inst == f.rob_dispatched_inst
                        &&& g.rs_issued_inst == f.rs_issued_inst
                        &&& g.decoder_bp == f.decoder_bp && g.rob_bp == f.rob_bp && g.rs_bp == f.rs_bp
                    },
                    None => g == f,
                }
            }),
            *final(final(self).0) == *final(old(self).0),
    {
        if let Some(raw) = *input {
            if self.0.decoder.decode().can_input(!self.0.decoder_bp) {
                self.0.decoder.decode().execute(&Some(raw));
            }
            if self.0.rob.allocate().can_input(!self.0.rob_bp) {
                let decoded = self.0.decoded_inst.unwrap();
                self.0.rob.allocate().execute(&Some(decoded));
            }
            if self.0.rs.dispatch().can_input(!self.0.rs_bp) {
                let dispatched = self.0.rob_dispatched_inst.unwrap();
                self.0.rs.dispatch().execute(&Some(dispatched));
            }
        }
    }
}

/// The issue operation.
pub struct FrontendIssueInstInt<'a>(pub &'a mut Frontend);

impl<'a> InternalOp for FrontendIssueInstInt<'a> {
    type Output = Option<(u32, u32, u64, u64, u32)>;

    open spec fn ready(&self) -> bool {
        true
    }

    fn has_output(&self) -> (r: bool)
        ensures
            r == old(self.0).rs_issued_inst is Some,
    {
        self.0.rs_issued_inst.is_some()
    }

    /// Moves each stage's result on: the decoded instruction, the one the
    /// reorder buffer dispatches (see `dispatch_step`), and the one the
    /// station issues, each when there is one; then the reorder buffer is
    /// held back when the station can take input, and the decoder when the
    /// buffer cannot.
    fn update(&mut self)
        ensures
            ({
                let f = *old(self).0;
                let g = *final(self).0;
                &&& g.decoder == f.decoder
                &&& g.decoded_inst == (if f.decoder.decoded_inst is Some {
                    f.decoder.decoded_inst
                } else {
                    f.decoded_inst
                })
                &&& exists|r: Rob|
                    #[trigger] dispatch_step(f.rob, r) && g.rob == r && (if r.dispatched_inst is Some {
                        g.rob_dispatched_inst == r.dispatched_inst
                    } else {
                        g.rob_dispatched_inst == f.rob_dispatched_inst
                    })
                &&& g.rs == f.rs
                &&& g.rs_issued_inst == (if f.rs.inst_to_issue is Some {
                    f.rs.inst_to_issue
                } else {
                    f.rs_issued_inst
                })
                &&& g.rob_bp == !f.rs_bp
                &&& g.decoder_bp == f.rs_bp
                &&& g.rs_bp == f.rs_bp
            }),
            *final(final(self).0) == *final(old(self).0),
    {
        let decoded = {
            let mut push = self.0.decoder.push_to_rob();
            push.update();
            if push.has_output() {
                Some(push.output())
            } else {
                None
            }
        };
        if let Some(d) = decoded {
            self.0.decoded_inst = d;
        }
        let ghost r0 = self.0.rob;
        let dispatched = {
            let mut dispatch = self.0.rob.dispatch();
            dispatch.update();
            let ghost r = *dispatch.0;
            assert(dispatch_step(r0, r));
            if dispatch.has_output() {
                Some(dispatch.output())
            } else {
                None
            }
        };
        if let Some(d) = dispatched {
            self.0.rob_dispatched_inst = d;
        }
        let issued = {
            let mut issue = self.0.rs.issue_to_specific_domain();
            issue.update();
            if issue.has_output() {
                Some(issue.output())
            } else {
                None
            }
        };
        if let Some(i) = issued {
            self.0.rs_issued_inst = i;
        }
        self.0.rob_bp = self.0.rs.dispatch().can_input(!self.0.rs_bp);
        self.0.decoder_bp = self.0.decoder.decode().can_input(!self.0.rob_bp);
    }

    /// Hands out the issued instruction, which stays.
    fn output(&mut self) -> (r: Self::Output)
        ensures
            r == old(self).0.rs_issued_inst,
            *final(self).0 == *old(self).0,
            *final(final(self).0) == *final(old(self).0),
    {
        if self.has_output() {
            return self.0.rs_issued_inst;
        }
        return None;
    }
}

} // verus!
