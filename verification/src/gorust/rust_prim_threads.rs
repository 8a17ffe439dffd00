use std::collections::VecDeque;
use vstd::prelude::*;

verus! {

/// A bounded first-in first-out channel without a close operation.
///
/// A send must find room and a receive must find a value: a blocking
/// channel would make the caller wait for them, so their `requires` say
/// so, and whoever shares the channel between threads waits until they hold.
pub struct StandardChannel<T> {
    buffer: VecDeque<T>,
    capacity: usize,
}

impl<T> View for StandardChannel<T> {
    type V = Seq<T>;

    /// The buffered values, oldest first.
    closed spec fn view(&self) -> Seq<T> {
        self.buffer@
    }
}

impl<T> StandardChannel<T> {
    #[verifier::type_invariant]
    spec fn bounded(&self) -> bool {
        self.buffer@.len() <= self.capacity
    }

    /// The bound on how many values the channel buffers.
    pub closed spec fn bound(&self) -> nat {
        self.capacity as nat
    }

    /// An empty channel that buffers up to `capacity` values.
    pub fn new(capacity: usize) -> (ch: Self)
        ensures
            ch@ == Seq::<T>::empty(),
            ch.bound() == capacity,
            ch@.len() <= ch.bound(),
    {
        StandardChannel { buffer: VecDeque::new(), capacity }
    }

    /// Puts `value` at the back of the buffer.
    pub fn send(&mut self, value: T)
        requires
            old(self)@.len() < old(self).bound(),
        ensures
            final(self)@ == old(self)@.push(value),
            final(self).bound() == old(self).bound(),
            final(self)@.len() <= final(self).bound(),
    {
        proof {
            use_type_invariant(&*self);
        }
        let mut buffer = VecDeque::new();
        std::mem::swap(&mut buffer, &mut self.buffer);
        buffer.push_back(value);
        self.buffer = buffer;
    }

    /// Takes the oldest buffered value.
    pub fn recv(&mut self) -> (v: T)
        requires
            old(self)@.len() > 0,
        ensures
            v == old(self)@[0],
            final(self)@ == old(self)@.drop_first(),
            final(self).bound() == old(self).bound(),
            final(self)@.len() <= final(self).bound(),
    {
        proof {
            use_type_invariant(&*self);
        }
        let mut buffer = VecDeque::new();
        std::mem::swap(&mut buffer, &mut self.buffer);
        let v = buffer.pop_front().unwrap();
        self.buffer = buffer;
        v
    }

    /// How many values are buffered.
    pub fn len(&self) -> (n: usize)
        ensures
            n == self@.len(),
            self@.len() <= self.bound(),
    {
        proof {
            use_type_invariant(self);
        }
        self.buffer.len()
    }

    /// Whether `send` can go ahead: fewer values than the bound are buffered.
    pub fn has_room(&self) -> (b: bool)
        ensures
            b == (self@.len() < self.bound()),
            self@.len() <= self.bound(),
    {
        proof {
            use_type_invariant(self);
        }
        self.buffer.len() < self.capacity
    }
}

} // verus!
