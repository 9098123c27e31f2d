//! A scratchpad bank of the memory domain: `bank_depth` words of 128 bits,
//! read by address into a response register and written by address.
use vstd::prelude::*;
use crate::buckyball::lib::operation::{ExternalOp, InternalOp};

verus! {

/// A bank: its words, and the response of the last read, until taken.
pub struct Bank {
    pub bank_id: u32,
    pub bank_width: u32,
    pub bank_depth: u32,
    pub bank_data: Vec<u128>,
    pub read_resp: Option<u128>,
}

impl Bank {
    /// A bank of `bank_depth` zero words.
    pub fn new(bank_id: u32, bank_width: u32, bank_depth: u32) -> (b: Self)
        ensures
            b.bank_id == bank_id,
            b.bank_width == bank_width,
            b.bank_depth == bank_depth,
            b.bank_data@ == Seq::new(bank_depth as nat, |i: int| 0u128),
            b.read_resp is None,
    {
        let mut bank_data: Vec<u128> = Vec::new();
        let mut i: u32 = 0;
        while i < bank_depth
            invariant
                i <= bank_depth,
                bank_data@ == Seq::new(i as nat, |j: int| 0u128),
            decreases bank_depth - i,
        {
            bank_data.push(0);
            i = i + 1;
        }
        Bank { bank_id, bank_width, bank_depth, bank_data, read_resp: None }
    }

    /// The read request on this bank.
    pub fn read_req(&mut self) -> (op: BankReadReq<'_>)
        ensures
            *op.0 == *old(self),
            *final(self) == *final(op.0),
    {
        BankReadReq(self)
    }

    /// The write request on this bank.
    pub fn write_req(&mut self) -> (op: BankWriteReq<'_>)
        ensures
            *op.0 == *old(self),
            *final(self) == *final(op.0),
    {
        BankWriteReq(self)
    }

    /// The read response of this bank.
    pub fn read_resp(&mut self) -> (op: BankReadResp<'_>)
        ensures
            *op.0 == *old(self),
            *final(self) == *final(op.0),
    {
        BankReadResp(self)
    }
}

/// The read request: an address.
pub struct BankReadReq<'a>(pub &'a mut Bank);

impl<'a> ExternalOp for BankReadReq<'a> {
    type Input = Option<u32>;

    /// The address is one of the bank's words.
    open spec fn accepts(&self, input: &Self::Input) -> bool {
        match *input {
            Some(addr) => addr < self.0.bank_data@.len(),
            None => true,
        }
    }

    /// A read is taken whenever the control allows.
    fn can_input(&self, ctrl: bool) -> (r: bool)
        ensures
            r == ctrl,
    {
        ctrl
    }

    fn has_input(&self, input: &Self::Input) -> (r: bool)
        ensures
            r == input is Some,
    {
        input.is_some()
    }

    /// Puts the word at the address given into the response; nothing
    /// happens without an address.
    fn execute(&mut self, input: &Self::Input)
        ensures
            match *input {
                Some(addr) => *final(self).0 == (Bank {
                    read_resp: Some(old(self).0.bank_data@[addr as int]),
                    ..*old(self).0
                }),
                None => *final(self).0 == *old(self).0,
            },
            *final(final(self).0) == *final(old(self).0),
    {
        if let Some(addr) = *input {
            let data = self.0.bank_data[addr as usize];
            self.0.read_resp = Some(data);
        }
    }
}

/// The write request: an address and a word.
pub struct BankWriteReq<'a>(pub &'a mut Bank);

impl<'a> ExternalOp for BankWriteReq<'a> {
    type Input = Option<(u32, u128)>;

    /// The address is one of the bank's words.
    open spec fn accepts(&self, input: &Self::Input) -> bool {
        match *input {
            Some((addr, _)) => addr < self.0.bank_data@.len(),
            None => true,
        }
    }

    /// A write is taken whenever the control allows.
    fn can_input(&self, ctrl: bool) -> (r: bool)
        ensures
            r == ctrl,
    {
        ctrl
    }

    fn has_input(&self, input: &Self::Input) -> (r: bool)
        ensures
            r == input is Some,
    {
        input.is_some()
    }

    /// Stores the word at the address given; nothing happens without one.
    fn execute(&mut self, input: &Self::Input)
        ensures
            match *input {
                Some((addr, data)) => final(self).0.bank_data@ == old(self).0.bank_data@.update(
                    addr as int,
                    data,
                ) && final(self).0.read_resp == old(self).0.read_resp && final(self).0.bank_id == old(
                    self,
                ).0.bank_id && final(self).0.bank_width == old(self).0.bank_width
                    && final(self).0.bank_depth == old(self).0.bank_depth,
                None => *final(self).0 == *old(self).0,
            },
            *final(final(self).0) == *final(old(self).0),
    {
        if let Some((addr, data)) = *input {
            self.0.bank_data.set(addr as usize, data);
        }
    }
}

/// The read response.
pub struct BankReadResp<'a>(pub &'a mut Bank);

impl<'a> InternalOp for BankReadResp<'a> {
    type Output = Option<u128>;

    open spec fn ready(&self) -> bool {
        true
    }

    fn has_output(&self) -> (r: bool)
        ensures
            r == old(self.0).read_resp is Some,
    {
        self.0.read_resp.is_some()
    }

    fn update(&mut self)
        ensures
            *final(self).0 == *old(self).0,
            *final(final(self).0) == *final(old(self).0),
    {
    }

    /// Hands out the response, which stays until the next read.
    fn output(&mut self) -> (r: Self::Output)
        ensures
            r == old(self).0.read_resp,
            *final(self).0 == *old(self).0,
            *final(final(self).0) == *final(old(self).0),
    {
        self.0.read_resp
    }
}

} // verus!
