use vstd::prelude::*;
use crate::gorust::rust_prim_tools::{
    close_step, recv_ready, recv_step, recv_timeout_step, send_ready, send_step, send_timeout_step,
    state_ok, ChannelState, RecvError, SendError, SendTimeoutError,
};

verus! {

/// One call on a channel, with its argument: the value sent, and for the
/// timed calls whether the deadline has passed.
pub ghost enum ChannelOp<T> {
    Send(T),
    SendTimeout(T, bool),
    Recv,
    RecvTimeout(bool),
    Close,
}

/// Whether the call may be made in state `s`: exactly the `requires` of the
/// matching method of `Channelish` (`close` may always be called).
pub open spec fn op_allowed<T>(s: ChannelState<T>, op: ChannelOp<T>) -> bool {
    match op {
        ChannelOp::Send(_) => send_ready(s),
        ChannelOp::SendTimeout(_, passed) => send_ready(s) || passed,
        ChannelOp::Recv => recv_ready(s),
        ChannelOp::RecvTimeout(passed) => recv_ready(s) || passed,
        ChannelOp::Close => true,
    }
}

/// What the call does, as the matching method's `ensures` states it: the
/// state after, the value the channel accepted (if any), and the value
/// received (if any).
pub open spec fn apply_op<T>(s: ChannelState<T>, op: ChannelOp<T>) -> (ChannelState<T>, Seq<T>, Seq<T>) {
    match op {
        ChannelOp::Send(v) => {
            let r = send_step(s, v);
            (r.0, if r.1 is Ok { seq![v] } else { Seq::empty() }, Seq::empty())
        },
        ChannelOp::SendTimeout(v, _) => {
            let r = send_timeout_step(s, v);
            (r.0, if r.1 is Ok { seq![v] } else { Seq::empty() }, Seq::empty())
        },
        ChannelOp::Recv => {
            let r = recv_step(s);
            (r.0, Seq::empty(), match r.1 { Ok(v) => seq![v], Err(_) => Seq::empty() })
        },
        ChannelOp::RecvTimeout(_) => {
            let r = recv_timeout_step(s);
            (r.0, Seq::empty(), match r.1 { Ok(v) => seq![v], Err(_) => Seq::empty() })
        },
        ChannelOp::Close => (close_step(s), Seq::empty(), Seq::empty()),
    }
}

/// Whether every call of `ops`, made in turn from state `s`, is allowed.
pub open spec fn ops_allowed<T>(s: ChannelState<T>, ops: Seq<ChannelOp<T>>) -> bool
    decreases ops.len(),
{
    ops.len() == 0 || (op_allowed(s, ops[0]) && ops_allowed(apply_op(s, ops[0]).0, ops.drop_first()))
}

/// Making the calls of `ops` in turn from state `s`: the state after, all
/// values accepted by sends in order, and all values received in order.
pub open spec fn run_ops<T>(s: ChannelState<T>, ops: Seq<ChannelOp<T>>) -> (ChannelState<T>, Seq<T>, Seq<T>)
    decreases ops.len(),
{
    if ops.len() == 0 {
        (s, Seq::empty(), Seq::empty())
    } else {
        let first = apply_op(s, ops[0]);
        let rest = run_ops(first.0, ops.drop_first());
        (rest.0, first.1 + rest.1, first.2 + rest.2)
    }
}

/// First in, first out, over any interleaving of sends, receives, timed
/// calls and closes: what was buffered at the start followed by every value
/// accepted, in order, equals every value received, in order, followed by
/// what is still buffered. Nothing is lost, duplicated or reordered. The
/// capacity never changes, and the buffer never exceeds it.
pub proof fn law_interleaved_fifo<T>(s: ChannelState<T>, ops: Seq<ChannelOp<T>>)
    requires
        state_ok(s),
        ops_allowed(s, ops),
    ensures
        s.items + run_ops(s, ops).1 == run_ops(s, ops).2 + run_ops(s, ops).0.items,
        run_ops(s, ops).0.capacity == s.capacity,
        state_ok(run_ops(s, ops).0),
    decreases ops.len(),
{
    if ops.len() > 0 {
        let first = apply_op(s, ops[0]);
        let rest = run_ops(first.0, ops.drop_first());
        law_interleaved_fifo(first.0, ops.drop_first());
        assert(s.items + first.1 =~= first.2 + first.0.items) by {
            match ops[0] {
                ChannelOp::Recv => {
                    if s.items.len() > 0 {
                        assert(s.items =~= seq![s.items[0]] + s.items.drop_first());
                    }
                },
                ChannelOp::RecvTimeout(_) => {
                    if s.items.len() > 0 {
                        assert(s.items =~= seq![s.items[0]] + s.items.drop_first());
                    }
                },
                _ => {},
            }
        }
        assert(s.items + (first.1 + rest.1) =~= (first.2 + rest.2) + rest.0.items) by {
            assert(s.items + (first.1 + rest.1) =~= (s.items + first.1) + rest.1);
            assert((first.2 + first.0.items) + rest.1 =~= first.2 + (first.0.items + rest.1));
            assert(first.2 + (rest.2 + rest.0.items) =~= (first.2 + rest.2) + rest.0.items);
        }
    }
}

/// From a new channel (empty, open, capacity `c`), after any allowed
/// calls: the values received are a prefix of the values accepted, the
/// values still buffered are the rest of them, the length is accepted minus
/// received and at most `c`, and the capacity is still `c`.
pub proof fn law_new_channel_history<T>(c: nat, ops: Seq<ChannelOp<T>>)
    requires
        ops_allowed(ChannelState { items: Seq::empty(), capacity: c, closed: false }, ops),
    ensures
        ({
            let r = run_ops(ChannelState { items: Seq::<T>::empty(), capacity: c, closed: false }, ops);
            &&& r.2 == r.1.take(r.2.len() as int)
            &&& r.0.items == r.1.skip(r.2.len() as int)
            &&& r.0.items.len() == r.1.len() - r.2.len()
            &&& r.0.items.len() <= c
            &&& r.0.capacity == c
        }),
{
    let s = ChannelState { items: Seq::<T>::empty(), capacity: c, closed: false };
    law_interleaved_fifo(s, ops);
    let r = run_ops(s, ops);
    assert(s.items + r.1 =~= r.1);
    assert((r.2 + r.0.items).take(r.2.len() as int) =~= r.2);
    assert((r.2 + r.0.items).skip(r.2.len() as int) =~= r.0.items);
}

/// A timed call reports a timeout (`Timeout` for a send, `Empty` for a
/// receive) only when its deadline has passed.
pub proof fn law_timeouts_only_after_deadline<T>(s: ChannelState<T>, v: T, passed: bool)
    ensures
        op_allowed(s, ChannelOp::SendTimeout(v, passed)) && (send_timeout_step(s, v).1 matches Err(SendTimeoutError::Timeout(_))) ==> passed,
        op_allowed(s, ChannelOp::<T>::RecvTimeout(passed)) && (recv_timeout_step(s).1 matches Err(RecvError::Empty)) ==> passed,
{
}

/// The plain operations never report a wait: a send gives `Ok` or
/// `Disconnected` (never `Full`), a receive a value or `Disconnected`
/// (never `Empty`).
pub proof fn law_plain_calls_never_report_waiting<T>(s: ChannelState<T>, v: T)
    ensures
        !(send_step(s, v).1 matches Err(SendError::Full(_))),
        !(recv_step(s).1 matches Err(RecvError::Empty)),
{
}

/// What a send's outcome means, for any state a send may be made in:
/// it is refused exactly when the channel is closed, and then as
/// `Disconnected` with the value handed back and the channel unchanged;
/// otherwise the value joins the back of the buffer. It never reports
/// `Full`, never closes the channel, and never changes the capacity.
pub proof fn law_send_outcomes<T>(s: ChannelState<T>, v: T)
    requires
        state_ok(s),
        send_ready(s),
    ensures
        ({
            let (t, r) = send_step(s, v);
            &&& t.closed == s.closed
            &&& t.capacity == s.capacity
            &&& (r is Ok <==> !s.closed)
            &&& (r is Ok ==> t.items == s.items.push(v) && t.items.len() <= t.capacity)
            &&& ((r matches Err(SendError::Disconnected(_))) <==> s.closed)
            &&& (r matches Err(SendError::Disconnected(w)) ==> w == v)
            &&& !(r matches Err(SendError::Full(_)))
            &&& (r is Err ==> t == s)
        }),
{
}

/// What a timed send's outcome means, for any state it may be made in:
/// `Disconnected` exactly when the channel is closed; `Timeout` exactly when
/// it is open and full, which it may be only once the deadline has passed;
/// otherwise the value joins the back of the buffer. A refused value is
/// handed back and the channel is unchanged; the call never closes the
/// channel and never changes the capacity.
pub proof fn law_send_timeout_outcomes<T>(s: ChannelState<T>, v: T, deadline_passed: bool)
    requires
        state_ok(s),
        send_ready(s) || deadline_passed,
    ensures
        ({
            let (t, r) = send_timeout_step(s, v);
            &&& t.closed == s.closed
            &&& t.capacity == s.capacity
            &&& (r is Ok <==> !s.closed && s.items.len() < s.capacity)
            &&& (r is Ok ==> t.items == s.items.push(v))
            &&& ((r matches Err(SendTimeoutError::Disconnected(_))) <==> s.closed)
            &&& (r matches Err(SendTimeoutError::Disconnected(w)) ==> w == v)
            &&& ((r matches Err(SendTimeoutError::Timeout(_))) <==> !s.closed && s.items.len() >= s.capacity)
            &&& (r matches Err(SendTimeoutError::Timeout(w)) ==> w == v)
            &&& (r matches Err(SendTimeoutError::Timeout(_)) ==> deadline_passed)
            &&& (r is Err ==> t == s)
        }),
{
}

/// What a receive's outcome means, for any state it may be made in: a
/// value exactly when one is buffered, and then the oldest, with the rest
/// kept in order; otherwise (closed and drained) `Disconnected` with the
/// channel unchanged. It never reports `Empty`, never changes whether the
/// channel is closed, and never changes the capacity.
pub proof fn law_recv_outcomes<T>(s: ChannelState<T>)
    requires
        recv_ready(s),
    ensures
        ({
            let (t, r) = recv_step(s);
            &&& t.closed == s.closed
            &&& t.capacity == s.capacity
            &&& (r is Ok <==> s.items.len() > 0)
            &&& (r matches Ok(x) ==> x == s.items[0] && s.items == seq![x] + t.items)
            &&& ((r matches Err(RecvError::Disconnected)) <==> s.closed && s.items.len() == 0)
            &&& !(r matches Err(RecvError::Empty))
            &&& (r is Err ==> t == s)
        }),
{
    if s.items.len() > 0 {
        assert(s.items =~= seq![s.items[0]] + s.items.drop_first());
    }
}

/// What a timed receive's outcome means, for any state it may be made in:
/// a value exactly when one is buffered, and then the oldest, with the rest
/// kept in order; `Disconnected` exactly when the channel is closed and
/// drained; `Empty` exactly when it is open and empty, which it may be only
/// once the deadline has passed. A refused receive leaves the channel
/// unchanged; the call never changes whether the channel is closed, and
/// never changes the capacity.
pub proof fn law_recv_timeout_outcomes<T>(s: ChannelState<T>, deadline_passed: bool)
    requires
        recv_ready(s) || deadline_passed,
    ensures
        ({
            let (t, r) = recv_timeout_step(s);
            &&& t.closed == s.closed
            &&& t.capacity == s.capacity
            &&& (r is Ok <==> s.items.len() > 0)
            &&& (r matches Ok(x) ==> x == s.items[0] && s.items == seq![x] + t.items)
            &&& ((r matches Err(RecvError::Disconnected)) <==> s.closed && s.items.len() == 0)
            &&& ((r matches Err(RecvError::Empty)) <==> !s.closed && s.items.len() == 0)
            &&& (r matches Err(RecvError::Empty) ==> deadline_passed)
            &&& (r is Err ==> t == s)
        }),
{
    if s.items.len() > 0 {
        assert(s.items =~= seq![s.items[0]] + s.items.drop_first());
    }
}

/// Closing keeps the buffered values, in order, and the capacity, and
/// leaves the channel closed.
pub proof fn law_close_outcome<T>(s: ChannelState<T>)
    ensures
        close_step(s).closed,
        close_step(s).items == s.items,
        close_step(s).capacity == s.capacity,
{
}

/// Only `close` closes a channel: over any allowed sequence of calls with
/// no `close`, the channel ends closed exactly when it started closed.
pub proof fn law_only_close_closes<T>(s: ChannelState<T>, ops: Seq<ChannelOp<T>>)
    requires
        state_ok(s),
        ops_allowed(s, ops),
        forall|i: int| 0 <= i < ops.len() ==> !(#[trigger] ops[i] is Close),
    ensures
        run_ops(s, ops).0.closed == s.closed,
    decreases ops.len(),
{
    if ops.len() > 0 {
        let first = apply_op(s, ops[0]);
        assert(!(ops[0] is Close));
        law_capacity_respected(s, ops[0]);
        assert forall|i: int| 0 <= i < ops.drop_first().len() implies !(#[trigger] ops.drop_first()[i] is Close) by {
            assert(ops.drop_first()[i] == ops[i + 1]);
        }
        law_only_close_closes(first.0, ops.drop_first());
    }
}

/// The state after sending each value of `vs` in turn.
pub open spec fn send_all<T>(s: ChannelState<T>, vs: Seq<T>) -> ChannelState<T>
    decreases vs.len(),
{
    if vs.len() == 0 {
        s
    } else {
        send_all(send_step(s, vs[0]).0, vs.drop_first())
    }
}

/// Receiving `n` times: the state after, and the values that came out, in
/// the order they came out.
pub open spec fn recv_all<T>(s: ChannelState<T>, n: nat) -> (ChannelState<T>, Seq<T>)
    decreases n,
{
    if n == 0 {
        (s, Seq::empty())
    } else {
        let first = recv_step(s);
        let rest = recv_all(first.0, (n - 1) as nat);
        match first.1 {
            Ok(v) => (rest.0, seq![v] + rest.1),
            Err(_) => rest,
        }
    }
}

/// Sending to an open channel with room for all of `vs`: every send may go
/// ahead and is accepted, and the values join the back of the buffer in the
/// order sent.
pub proof fn law_sends_append_in_order<T>(s: ChannelState<T>, vs: Seq<T>)
    requires
        !s.closed,
        s.items.len() + vs.len() <= s.capacity,
    ensures
        send_all(s, vs) == (ChannelState { items: s.items + vs, capacity: s.capacity, closed: false }),
        forall|i: int|
            0 <= i < vs.len() ==> send_ready(send_all(s, vs.take(i))) && (#[trigger] send_step(
                send_all(s, vs.take(i)),
                vs[i],
            )).1 is Ok,
    decreases vs.len(),
{
    if vs.len() == 0 {
        assert(s.items + vs =~= s.items);
    } else {
        let s1 = send_step(s, vs[0]).0;
        law_sends_append_in_order(s1, vs.drop_first());
        assert(s.items.push(vs[0]) + vs.drop_first() =~= s.items + vs);
        assert forall|i: int| 0 <= i < vs.len() implies send_ready(send_all(s, vs.take(i)))
            && (#[trigger] send_step(send_all(s, vs.take(i)), vs[i])).1 is Ok by {
            if i == 0 {
                assert(vs.take(0) =~= Seq::<T>::empty());
            } else {
                assert(vs.take(i)[0] == vs[0]);
                assert(vs.take(i).drop_first() =~= vs.drop_first().take(i - 1));
                assert(vs.drop_first()[i - 1] == vs[i]);
                assert(send_all(s, vs.take(i)) == send_all(s1, vs.drop_first().take(i - 1)));
                assert(send_ready(send_all(s1, vs.drop_first().take(i - 1))));
                assert(send_step(send_all(s1, vs.drop_first().take(i - 1)), vs.drop_first()[i - 1]).1 is Ok);
            }
        }
    }
}

/// Receiving `n` times from a channel that buffers at least `n` values
/// gives the `n` oldest values, oldest first, and leaves the rest buffered.
pub proof fn law_recvs_in_order<T>(s: ChannelState<T>, n: nat)
    requires
        n <= s.items.len(),
    ensures
        recv_all(s, n).1 == s.items.take(n as int),
        recv_all(s, n).0 == (ChannelState { items: s.items.skip(n as int), capacity: s.capacity, closed: s.closed }),
    decreases n,
{
    if n == 0 {
        assert(s.items.take(0) =~= Seq::<T>::empty());
        assert(s.items.skip(0) =~= s.items);
    } else {
        let s1 = recv_step(s).0;
        law_recvs_in_order(s1, (n - 1) as nat);
        assert(seq![s.items[0]] + s.items.drop_first().take(n - 1) =~= s.items.take(n as int));
        assert(s.items.drop_first().skip(n - 1) =~= s.items.skip(n as int));
    }
}

/// First in, first out: values sent to an open channel with room for them
/// are received after the values already buffered, in the order sent.
pub proof fn law_fifo<T>(s: ChannelState<T>, vs: Seq<T>)
    requires
        !s.closed,
        s.items.len() + vs.len() <= s.capacity,
    ensures
        recv_all(send_all(s, vs), s.items.len() + vs.len()).1 == s.items + vs,
{
    law_sends_append_in_order(s, vs);
    law_recvs_in_order(send_all(s, vs), s.items.len() + vs.len());
    assert((s.items + vs).take((s.items.len() + vs.len()) as int) =~= s.items + vs);
}

/// A value sent to an empty open channel with room comes straight back out
/// of the next receive, and the channel is as it was before.
pub proof fn law_send_then_recv<T>(s: ChannelState<T>, v: T)
    requires
        !s.closed,
        s.items.len() == 0,
        s.capacity > 0,
    ensures
        send_ready(s),
        recv_ready(send_step(s, v).0),
        recv_step(send_step(s, v).0) == (s, Ok::<T, RecvError>(v)),
{
    assert(s.items.push(v).drop_first() =~= s.items);
}

/// No allowed call lets a channel hold more values than its capacity, and
/// no call changes the capacity.
pub proof fn law_capacity_respected<T>(s: ChannelState<T>, op: ChannelOp<T>)
    requires
        state_ok(s),
        op_allowed(s, op),
    ensures
        state_ok(apply_op(s, op).0),
        apply_op(s, op).0.capacity == s.capacity,
{
}

/// A refused send leaves the channel unchanged and hands the value back.
pub proof fn law_refused_send_returns_value<T>(s: ChannelState<T>, v: T)
    ensures
        send_step(s, v).1 is Err ==> send_step(s, v).0 == s,
        send_step(s, v).1 matches Err(SendError::Disconnected(w)) ==> w == v,
        send_timeout_step(s, v).1 is Err ==> send_timeout_step(s, v).0 == s,
        send_timeout_step(s, v).1 matches Err(SendTimeoutError::Timeout(w)) ==> w == v,
        send_timeout_step(s, v).1 matches Err(SendTimeoutError::Disconnected(w)) ==> w == v,
{
}

/// Where a plain call may go ahead, its timed form decides the same: the
/// same state after, a send accepted exactly when the plain send is, the
/// same value received, `Disconnected` exactly where the plain call reports it.
pub proof fn law_timed_calls_agree_when_ready<T>(s: ChannelState<T>, v: T)
    ensures
        send_ready(s) ==> send_timeout_step(s, v).0 == send_step(s, v).0,
        send_ready(s) ==> (send_timeout_step(s, v).1 is Ok <==> send_step(s, v).1 is Ok),
        send_ready(s) ==> (send_timeout_step(s, v).1 matches Err(SendTimeoutError::Disconnected(_))
            <==> send_step(s, v).1 matches Err(SendError::Disconnected(_))),
        recv_ready(s) ==> recv_timeout_step(s) == recv_step(s),
{
}

/// After `close`, every call may go ahead at once: every send is refused as
/// `Disconnected` with the value handed back; the values buffered before
/// still come out in order, and after them every receive reports
/// `Disconnected`. Closing twice is closing once.
pub proof fn law_closed_channel<T>(s: ChannelState<T>, v: T, extra: nat)
    ensures
        close_step(close_step(s)) == close_step(s),
        close_step(s).items == s.items,
        send_ready(close_step(s)),
        recv_ready(close_step(s)),
        send_step(close_step(s), v) == (close_step(s), Err::<(), SendError<T>>(SendError::Disconnected(v))),
        recv_all(close_step(s), s.items.len() + extra).1 == s.items,
        recv_step(recv_all(close_step(s), s.items.len() + extra).0) == (
            recv_all(close_step(s), s.items.len() + extra).0,
            Err::<T, RecvError>(RecvError::Disconnected),
        ),
{
    let c = close_step(s);
    law_recvs_in_order(c, s.items.len());
    assert(s.items.take(s.items.len() as int) =~= s.items);
    assert(s.items.skip(s.items.len() as int) =~= Seq::<T>::empty());
    lemma_recv_all_split(c, s.items.len(), extra);
    lemma_recv_closed_empty(recv_all(c, s.items.len()).0, extra);
    assert(s.items + Seq::<T>::empty() =~= s.items);
}

/// The channel without a close operation behaves as an open `Channelish`
/// of the same bound: where `StandardChannel::send` may go ahead (room left)
/// an open channel accepts the value at the back of the same buffer, and
/// where `StandardChannel::recv` may go ahead (a value buffered) an open
/// channel gives the same oldest value and keeps the same rest.
pub proof fn law_standard_channel_is_open_channelish<T>(q: Seq<T>, bound: nat, v: T)
    ensures
        q.len() < bound ==> send_step(ChannelState { items: q, capacity: bound, closed: false }, v) == (
            ChannelState { items: q.push(v), capacity: bound, closed: false },
            Ok::<(), SendError<T>>(()),
        ),
        q.len() > 0 ==> recv_step(ChannelState { items: q, capacity: bound, closed: false }) == (
            ChannelState { items: q.drop_first(), capacity: bound, closed: false },
            Ok::<T, RecvError>(q[0]),
        ),
{
}

/// Receiving `a + b` times is receiving `a` times, then `b` times.
proof fn lemma_recv_all_split<T>(s: ChannelState<T>, a: nat, b: nat)
    ensures
        recv_all(s, a + b).0 == recv_all(recv_all(s, a).0, b).0,
        recv_all(s, a + b).1 == recv_all(s, a).1 + recv_all(recv_all(s, a).0, b).1,
    decreases a,
{
    if a == 0 {
        assert(Seq::<T>::empty() + recv_all(s, b).1 =~= recv_all(s, b).1);
    } else {
        let s1 = recv_step(s).0;
        lemma_recv_all_split(s1, (a - 1) as nat, b);
        assert((a + b - 1) as nat == ((a - 1) as nat + b) as nat);
        match recv_step(s).1 {
            Ok(v) => {
                assert(seq![v] + (recv_all(s1, (a - 1) as nat).1 + recv_all(recv_all(s1, (a - 1) as nat).0, b).1)
                    =~= (seq![v] + recv_all(s1, (a - 1) as nat).1) + recv_all(recv_all(s1, (a - 1) as nat).0, b).1);
            },
            Err(_) => {},
        }
    }
}

/// A closed channel with nothing buffered stays so, and gives nothing.
proof fn lemma_recv_closed_empty<T>(s: ChannelState<T>, n: nat)
    requires
        s.closed,
        s.items.len() == 0,
    ensures
        recv_all(s, n) == (s, Seq::<T>::empty()),
        recv_step(s) == (s, Err::<T, RecvError>(RecvError::Disconnected)),
    decreases n,
{
    if n > 0 {
        lemma_recv_closed_empty(s, (n - 1) as nat);
    }
}

} // verus!
