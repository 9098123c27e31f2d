//! A ring buffer of decoded instructions for the reorder buffer: a FIFO
//! queue of fixed capacity.
use crate::buckyball::frontend::unit::rob::bundles::decoder_rob::DecodedInstruction;
use vstd::prelude::*;

verus! {

/// A ring buffer: `size` instructions from slot `head` on, wrapping
/// around; new instructions go to slot `tail`.
pub struct RingBuffer {
    buffer: Vec<Option<DecodedInstruction>>,
    head: usize,
    tail: usize,
    size: usize,
    capacity: usize,
}

/// Slot `x` of a ring of `cap` slots, for `x < 2 * cap`.
pub open spec fn wrap(x: int, cap: int) -> int {
    if x < cap {
        x
    } else {
        x - cap
    }
}

proof fn lemma_wrap_mod(x: int, cap: int)
    requires
        0 <= x < 2 * cap,
    ensures
        x % cap == wrap(x, cap),
{
    if x < cap {
        vstd::arithmetic::div_mod::lemma_small_mod(x as nat, cap as nat);
    } else {
        vstd::arithmetic::div_mod::lemma_small_mod((x - cap) as nat, cap as nat);
        vstd::arithmetic::div_mod::lemma_mod_sub_multiples_vanish(x, cap);
    }
}

impl View for RingBuffer {
    type V = Seq<DecodedInstruction>;

    /// The instructions held, oldest first.
    closed spec fn view(&self) -> Seq<DecodedInstruction> {
        Seq::new(
            self.size as nat,
            |i: int| self.buffer@[wrap(self.head + i, self.capacity as int)]->Some_0,
        )
    }
}

impl RingBuffer {
    /// The number of slots.
    pub closed spec fn cap(&self) -> nat {
        self.capacity as nat
    }

    /// The buffer is consistent: one slot per unit of capacity, the
    /// pointers inside it, `tail` just past the last instruction, and a
    /// value in every slot that holds one.
    pub closed spec fn wf(&self) -> bool {
        &&& self.buffer@.len() == self.capacity
        &&& self.size <= self.capacity
        &&& self.capacity == 0 ==> self.head == 0 && self.tail == 0
        &&& self.capacity > 0 ==> {
            &&& self.head < self.capacity
            &&& self.tail == wrap(self.head + self.size, self.capacity as int)
        }
        &&& forall|i: int|
            0 <= i < self.size ==> #[trigger] self.buffer@[wrap(self.head + i, self.capacity as int)] is Some
    }

    /// A consistent buffer holds at most its capacity.
    pub proof fn lemma_len_le_cap(&self)
        requires
            self.wf(),
        ensures
            self@.len() <= self.cap(),
    {
    }

    /// An empty buffer of `capacity` slots.
    pub fn new(capacity: usize) -> (rb: Self)
        ensures
            rb.wf(),
            rb@.len() == 0,
            rb.cap() == capacity,
    {
        let mut buffer: Vec<Option<DecodedInstruction>> = Vec::new();
        let mut i: usize = 0;
        while i < capacity
            invariant
                i <= capacity,
                buffer@.len() == i,
            decreases capacity - i,
        {
            buffer.push(None);
            i = i + 1;
        }
        let rb = RingBuffer { buffer, head: 0, tail: 0, size: 0, capacity };
        assert(rb@ =~= Seq::<DecodedInstruction>::empty());
        rb
    }

    /// Appends `inst` at the back; `false`, with nothing changed, when the
    /// buffer is full.
    pub fn push_in_rob(&mut self, inst: DecodedInstruction) -> (r: bool)
        requires
            old(self).wf(),
        ensures
            final(self).wf(),
            final(self).cap() == old(self).cap(),
            r == (old(self)@.len() < old(self).cap()),
            r ==> final(self)@ == old(self)@.push(inst),
            !r ==> final(self)@ == old(self)@,
    {
        if self.is_full() {
            return false;
        }
        let ghost old_view = self@;
        let ghost cap = self.capacity as int;
        let ghost head = self.head as int;
        proof {
            lemma_wrap_mod(self.tail + 1, cap);
        }
        self.buffer.set(self.tail, Some(inst));
        self.tail = (self.tail + 1) % self.capacity;
        self.size = self.size + 1;
        proof {
            assert forall|i: int| 0 <= i < self.size implies #[trigger] self.buffer@[wrap(head + i, cap)] is Some by {
                if i < self.size - 1 {
                    assert(wrap(head + i, cap) != wrap(head + self.size - 1, cap));
                }
            }
            assert forall|i: int| 0 <= i < old_view.len() implies #[trigger] self@[i] == old_view[i] by {
                assert(wrap(head + i, cap) != wrap(head + self.size - 1, cap));
            }
            assert(self@ =~= old_view.push(inst));
        }
        true
    }

    /// Takes the instruction at the front; `None`, with nothing changed,
    /// when the buffer is empty.
    pub fn pop_out_rob(&mut self) -> (r: Option<DecodedInstruction>)
        requires
            old(self).wf(),
        ensures
            final(self).wf(),
            final(self).cap() == old(self).cap(),
            old(self)@.len() == 0 ==> r is None && final(self)@ == old(self)@,
            old(self)@.len() > 0 ==> r == Some(old(self)@[0]) && final(self)@ == old(self)@.drop_first(),
    {
        if self.is_empty() {
            return None;
        }
        let ghost old_view = self@;
        let ghost cap = self.capacity as int;
        let ghost head = self.head as int;
        assert(self.buffer@[wrap(head + 0, cap)] is Some);
        let inst = self.buffer[self.head];
        self.buffer.set(self.head, None);
        proof {
            lemma_wrap_mod(self.head + 1, cap);
        }
        self.head = (self.head + 1) % self.capacity;
        self.size = self.size - 1;
        proof {
            let nh = self.head as int;
            assert forall|i: int| 0 <= i < self.size implies #[trigger] wrap(nh + i, cap) == wrap(head + i + 1, cap) by {}
            assert forall|i: int| 0 <= i < self.size implies #[trigger] self.buffer@[wrap(nh + i, cap)] is Some by {
                assert(wrap(head + i + 1, cap) != head);
                assert(old(self).buffer@[wrap(head + (i + 1), cap)] is Some);
            }
            assert forall|i: int| 0 <= i < self@.len() implies #[trigger] self@[i] == old_view.drop_first()[i] by {
                assert(wrap(head + i + 1, cap) != head);
            }
            assert(self@ =~= old_view.drop_first());
        }
        inst
    }

    /// The instruction at the front, if any.
    pub fn peek(&self) -> (r: Option<&DecodedInstruction>)
        requires
            self.wf(),
        ensures
            self@.len() == 0 ==> r is None,
            self@.len() > 0 ==> r == Some(&self@[0]),
    {
        if self.is_empty() {
            None
        } else {
            assert(self.buffer@[wrap(self.head + 0, self.capacity as int)] is Some);
            self.buffer[self.head].as_ref()
        }
    }

    /// Whether no instruction is held.
    pub fn is_empty(&self) -> (r: bool)
        ensures
            r == (self@.len() == 0),
    {
        self.size == 0
    }

    /// Whether every slot holds an instruction.
    pub fn is_full(&self) -> (r: bool)
        ensures
            r == (self@.len() == self.cap()),
    {
        self.size == self.capacity
    }

    /// The number of instructions held.
    pub fn len(&self) -> (r: usize)
        ensures
            r == self@.len(),
    {
        self.size
    }

    /// The number of slots.
    pub fn capacity(&self) -> (r: usize)
        ensures
            r == self.cap(),
    {
        self.capacity
    }
}

/// What goes in comes out in the same order: pushing onto a buffer with
/// room and then popping gives the front of the buffer before the push, or
/// the pushed instruction when it was empty.
pub proof fn lemma_fifo_order(before: Seq<DecodedInstruction>, inst: DecodedInstruction)
    ensures
        before.push(inst)[0] == (if before.len() == 0 {
            inst
        } else {
            before[0]
        }),
        before.push(inst).drop_first() == (if before.len() == 0 {
            Seq::<DecodedInstruction>::empty()
        } else {
            before.drop_first().push(inst)
        }),
{
    if before.len() == 0 {
        assert(before.push(inst).drop_first() =~= Seq::<DecodedInstruction>::empty());
    } else {
        assert(before.push(inst).drop_first() =~= before.drop_first().push(inst));
    }
}

} // verus!
