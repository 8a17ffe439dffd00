use std::collections::VecDeque;
use vstd::prelude::*;

verus! {

/// Why a value could not be sent; the value is handed back.
#[derive(Debug)]
pub enum SendError<T> {
    /// The channel holds `capacity` values. A sender waits there instead,
    /// so no operation of this crate reports it.
    Full(T),
    /// The channel was closed.
    Disconnected(T),
}

/// Why a value could not be sent before its deadline; the value is handed back.
#[derive(Debug)]
pub enum SendTimeoutError<T> {
    /// The channel stayed full until the deadline.
    Timeout(T),
    /// The channel was closed.
    Disconnected(T),
}

/// Why no value was received.
#[derive(Debug)]
pub enum RecvError {
    /// Nothing was buffered until the deadline and the channel is open.
    Empty,
    /// Nothing is buffered and the channel was closed.
    Disconnected,
}

/// The abstract state of a channel: the buffered values, oldest first,
/// the bound on how many may be buffered, and whether it was closed.
pub ghost struct ChannelState<T> {
    pub items: Seq<T>,
    pub capacity: nat,
    pub closed: bool,
}

/// A state that a channel can be in: never more values than its capacity.
pub open spec fn state_ok<T>(s: ChannelState<T>) -> bool {
    s.items.len() <= s.capacity
}

/// A send can finish now: the channel is closed, or it has room. Otherwise
/// a sender waits (for a receiver to make room, or for `close`).
pub open spec fn send_ready<T>(s: ChannelState<T>) -> bool {
    s.closed || s.items.len() < s.capacity
}

/// A receive can finish now: a value is buffered, or the channel is closed.
/// Otherwise a receiver waits (for a sender, or for `close`).
pub open spec fn recv_ready<T>(s: ChannelState<T>) -> bool {
    s.items.len() > 0 || s.closed
}

/// What a send of `v` does once it can finish: a closed channel refuses it
/// and hands it back, otherwise `v` joins the back of the buffer.
pub open spec fn send_step<T>(s: ChannelState<T>, v: T) -> (ChannelState<T>, Result<(), SendError<T>>) {
    if s.closed {
        (s, Err(SendError::Disconnected(v)))
    } else {
        (ChannelState { items: s.items.push(v), capacity: s.capacity, closed: s.closed }, Ok(()))
    }
}

/// What a send with a deadline does once it can finish or its deadline has
/// passed: a closed channel refuses `v`, a channel with room takes it, and a
/// full one reports the timeout; `v` is handed back when refused.
pub open spec fn send_timeout_step<T>(s: ChannelState<T>, v: T) -> (ChannelState<T>, Result<(), SendTimeoutError<T>>) {
    if s.closed {
        (s, Err(SendTimeoutError::Disconnected(v)))
    } else if s.items.len() < s.capacity {
        (ChannelState { items: s.items.push(v), capacity: s.capacity, closed: s.closed }, Ok(()))
    } else {
        (s, Err(SendTimeoutError::Timeout(v)))
    }
}

/// What a receive does once it can finish: the oldest buffered value
/// leaves, even after the channel was closed; with nothing buffered the
/// channel is closed and the receive reports `Disconnected`.
pub open spec fn recv_step<T>(s: ChannelState<T>) -> (ChannelState<T>, Result<T, RecvError>) {
    if s.items.len() > 0 {
        (ChannelState { items: s.items.drop_first(), capacity: s.capacity, closed: s.closed }, Ok(s.items[0]))
    } else {
        (s, Err(RecvError::Disconnected))
    }
}

/// What a receive with a deadline does once it can finish or its deadline
/// has passed: as `recv_step`, and with nothing buffered in an open
/// channel it reports `Empty`.
pub open spec fn recv_timeout_step<T>(s: ChannelState<T>) -> (ChannelState<T>, Result<T, RecvError>) {
    if s.items.len() > 0 {
        (ChannelState { items: s.items.drop_first(), capacity: s.capacity, closed: s.closed }, Ok(s.items[0]))
    } else if s.closed {
        (s, Err(RecvError::Disconnected))
    } else {
        (s, Err(RecvError::Empty))
    }
}

/// What closing does: the buffer stays, the channel is closed.
pub open spec fn close_step<T>(s: ChannelState<T>) -> ChannelState<T> {
    ChannelState { items: s.items, capacity: s.capacity, closed: true }
}

/// A bounded first-in first-out channel that can be closed.
///
/// The value is the channel's state. A blocking channel makes a sender wait
/// while it is open and full, and a receiver while it is open and empty;
/// here each operation `requires` that its wait is over (`send_ready`,
/// `recv_ready`, or for the timed ones that the deadline has passed), and
/// whoever shares the channel between threads does the waiting. Once the
/// wait is over, each operation decides exactly as the blocking channel does.
pub struct Channelish<T> {
    buffer: VecDeque<T>,
    capacity: usize,
    closed: bool,
}

impl<T> View for Channelish<T> {
    type V = ChannelState<T>;

    closed spec fn view(&self) -> ChannelState<T> {
        ChannelState { items: self.buffer@, capacity: self.capacity as nat, closed: self.closed }
    }
}

impl<T> Channelish<T> {
    #[verifier::type_invariant]
    spec fn bounded(&self) -> bool {
        self.buffer@.len() <= self.capacity
    }

    /// An open, empty channel that buffers up to `capacity` values.
    pub fn new(capacity: usize) -> (ch: Self)
        ensures
            ch@.items == Seq::<T>::empty(),
            ch@.capacity == capacity,
            !ch@.closed,
            state_ok(ch@),
    {
        Channelish { buffer: VecDeque::new(), capacity, closed: false }
    }

    /// Puts `value` at the back of the buffer; a closed channel refuses it
    /// with `Disconnected`, handing it back. Never reports `Full`: a send
    /// to a full open channel waits, so it is not called there.
    pub fn send(&mut self, value: T) -> (r: Result<(), SendError<T>>)
        requires
            send_ready(old(self)@),
        ensures
            (final(self)@, r) == send_step(old(self)@, value),
            state_ok(final(self)@),
    {
        proof {
            use_type_invariant(&*self);
        }
        if self.closed {
            return Err(SendError::Disconnected(value));
        }
        self.push_back(value);
        Ok(())
    }

    /// Sends with a deadline: called once the channel is ready for a send
    /// or `deadline_passed`. A closed channel refuses `value`, a channel with
    /// room takes it, and a full one reports `Timeout`, which happens only
    /// after the deadline; a refused `value` is handed back.
    pub fn send_timeout(&mut self, value: T, deadline_passed: bool) -> (r: Result<(), SendTimeoutError<T>>)
        requires
            send_ready(old(self)@) || deadline_passed,
        ensures
            (final(self)@, r) == send_timeout_step(old(self)@, value),
            r matches Err(SendTimeoutError::Timeout(_)) ==> deadline_passed,
            state_ok(final(self)@),
    {
        proof {
            use_type_invariant(&*self);
        }
        if self.closed {
            return Err(SendTimeoutError::Disconnected(value));
        }
        if self.buffer.len() < self.capacity {
            self.push_back(value);
            Ok(())
        } else {
            Err(SendTimeoutError::Timeout(value))
        }
    }

    /// Takes the oldest buffered value, also after `close`; a closed channel
    /// with nothing buffered reports `Disconnected`. Never reports `Empty`:
    /// a receive from an empty open channel waits, so it is not called there.
    pub fn recv(&mut self) -> (r: Result<T, RecvError>)
        requires
            recv_ready(old(self)@),
        ensures
            (final(self)@, r) == recv_step(old(self)@),
            state_ok(final(self)@),
    {
        match self.pop_front() {
            Some(v) => Ok(v),
            None => Err(RecvError::Disconnected),
        }
    }

    /// Receives with a deadline: called once the channel is ready for a
    /// receive or `deadline_passed`. Takes the oldest buffered value; with
    /// nothing buffered reports `Disconnected` if the channel is closed and
    /// `Empty` if not, which happens only after the deadline.
    pub fn recv_timeout(&mut self, deadline_passed: bool) -> (r: Result<T, RecvError>)
        requires
            recv_ready(old(self)@) || deadline_passed,
        ensures
            (final(self)@, r) == recv_timeout_step(old(self)@),
            r matches Err(RecvError::Empty) ==> deadline_passed,
            state_ok(final(self)@),
    {
        match self.pop_front() {
            Some(v) => Ok(v),
            None => {
                if self.closed {
                    Err(RecvError::Disconnected)
                } else {
                    Err(RecvError::Empty)
                }
            },
        }
    }

    /// Closes the channel; buffered values can still be received.
    pub fn close(&mut self)
        ensures
            final(self)@ == close_step(old(self)@),
            state_ok(final(self)@),
    {
        proof {
            use_type_invariant(&*self);
        }
        self.closed = true;
    }

    /// How many values are buffered.
    pub fn len(&self) -> (n: usize)
        ensures
            n == self@.items.len(),
            state_ok(self@),
    {
        proof {
            use_type_invariant(self);
        }
        self.buffer.len()
    }

    /// Whether nothing is buffered.
    pub fn is_empty(&self) -> (b: bool)
        ensures
            b == (self@.items.len() == 0),
            state_ok(self@),
    {
        proof {
            use_type_invariant(self);
        }
        self.len() == 0
    }

    /// How many values the channel can buffer.
    pub fn capacity(&self) -> (c: usize)
        ensures
            c == self@.capacity,
            state_ok(self@),
    {
        proof {
            use_type_invariant(self);
        }
        self.capacity
    }

    /// Whether the channel was closed.
    pub fn is_closed(&self) -> (b: bool)
        ensures
            b == self@.closed,
            state_ok(self@),
    {
        proof {
            use_type_invariant(self);
        }
        self.closed
    }

    /// Appends `value` to a buffer with room.
    fn push_back(&mut self, value: T)
        requires
            old(self)@.items.len() < old(self)@.capacity,
        ensures
            final(self)@ == (ChannelState { items: old(self)@.items.push(value), ..old(self)@ }),
    {
        let mut buffer = VecDeque::new();
        std::mem::swap(&mut buffer, &mut self.buffer);
        buffer.push_back(value);
        self.buffer = buffer;
    }

    /// Removes the oldest buffered value, if any.
    fn pop_front(&mut self) -> (front: Option<T>)
        ensures
            old(self)@.items.len() > 0 ==> front == Some(old(self)@.items[0]) && final(self)@ == (
                ChannelState { items: old(self)@.items.drop_first(), ..old(self)@ }),
            old(self)@.items.len() == 0 ==> front is None && final(self)@ == old(self)@,
            state_ok(final(self)@),
    {
        proof {
            use_type_invariant(&*self);
        }
        let mut buffer = VecDeque::new();
        std::mem::swap(&mut buffer, &mut self.buffer);
        let front = buffer.pop_front();
        self.buffer = buffer;
        front
    }
}

} // verus!
