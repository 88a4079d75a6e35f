//! Bounded FIFO message queue for IPC (a ring buffer).

use super::message::Message;
use vstd::prelude::*;

verus! {

/// Default queue capacity.
pub const DEFAULT_QUEUE_SIZE: usize = 16;

/// Queue errors.
#[derive(Debug, Clone, Copy, PartialEq, Eq, Structural)]
pub enum QueueError {
    Full,
    Empty,
    Closed,
    InvalidCapacity,
}

/// `n` is a power of two (exactly one bit set).
pub open spec fn is_pow2(n: usize) -> bool {
    n != 0 && n & ((n - 1) as usize) == 0
}

/// The default queue size is a power of two.
pub proof fn lemma_default_size_pow2()
    ensures
        is_pow2(DEFAULT_QUEUE_SIZE),
{
    assert(16usize & 15usize == 0usize) by (bit_vector);
}

/// Whether `n` is a power of two.
pub fn is_power_of_two(n: usize) -> (b: bool)
    ensures
        b == is_pow2(n),
{
    n != 0 && (n & (n - 1)) == 0
}

/// A bounded FIFO ring buffer of messages that can be closed.
pub struct MessageQueue {
    buffer: Vec<Option<Message>>,
    capacity: usize,
    head: usize,
    len: usize,
    is_closed: bool,
}

impl MessageQueue {
    /// The pending messages, oldest first.
    pub closed spec fn view(&self) -> Seq<Message> {
        Seq::new(self.len as nat, |i: int| self.buffer@[(self.head + i) % (self.capacity as int)]->Some_0)
    }

    /// The queue's capacity.
    pub closed spec fn cap(&self) -> nat {
        self.capacity as nat
    }

    /// The queue has been closed.
    pub closed spec fn closed(&self) -> bool {
        self.is_closed
    }

    /// The queue's internal invariant.
    pub closed spec fn wf(&self) -> bool {
        &&& self.capacity > 0
        &&& is_pow2(self.capacity)
        &&& self.buffer@.len() == self.capacity
        &&& self.head < self.capacity
        &&& self.len <= self.capacity
        &&& forall|i: int| 0 <= i < self.len ==> (#[trigger] self.buffer@[(self.head + i) % (self.capacity as int)]) is Some
    }

    /// An empty, open queue of the given capacity, which must be a power of two.
    pub fn new(capacity: usize) -> (r: Result<Self, QueueError>)
        ensures
            !is_pow2(capacity) ==> r == Err::<MessageQueue, QueueError>(QueueError::InvalidCapacity),
            is_pow2(capacity) ==> (r matches Ok(q) && (q.wf() && q@ == Seq::<Message>::empty() && q.cap() == capacity && !q.closed())),
    {
        if capacity == 0 || !is_power_of_two(capacity) {
            return Err(QueueError::InvalidCapacity);
        }
        let mut buffer: Vec<Option<Message>> = Vec::new();
        let mut i: usize = 0;
        while i < capacity
            invariant
                i <= capacity,
                buffer@.len() == i,
            decreases capacity - i,
        {
            buffer.push(None);
            i = i + 1;
        }
        let q = MessageQueue { buffer, capacity, head: 0, len: 0, is_closed: false };
        assert(q@ =~= Seq::<Message>::empty());
        Ok(q)
    }

    /// Append a message, unless the queue is closed or full.
    pub fn try_push(&mut self, msg: Message) -> (r: Result<(), QueueError>)
        requires
            old(self).wf(),
        ensures
            final(self).wf(),
            final(self).cap() == old(self).cap(),
            final(self).closed() == old(self).closed(),
            old(self).closed() ==> r == Err::<(), QueueError>(QueueError::Closed) && final(self)@ == old(self)@,
            !old(self).closed() && old(self)@.len() >= old(self).cap() ==> r == Err::<(), QueueError>(QueueError::Full) && final(self)@ == old(self)@,
            !old(self).closed() && old(self)@.len() < old(self).cap() ==> r == Ok::<(), QueueError>(()) && final(self)@ == old(self)@.push(msg),
    {
        if self.is_closed {
            return Err(QueueError::Closed);
        }
        if self.len >= self.capacity {
            return Err(QueueError::Full);
        }
        let room = self.capacity - self.head;
        let idx = if self.len < room { self.head + self.len } else { self.len - room };
        proof {
            let c = self.capacity as int;
            if self.len < room {
                lemma_mod_small(self.head + self.len, c);
            } else {
                vstd::arithmetic::div_mod::lemma_fundamental_div_mod_converse(self.head + self.len, c, 1, self.len - room);
            }
            assert(idx == (self.head + self.len) % c);
        }
        let ghost before = self@;
        self.buffer.set(idx, Some(msg));
        self.len = self.len + 1;
        proof {
            let c = self.capacity as int;
            assert forall|i: int| 0 <= i < self.len implies (#[trigger] self.buffer@[(self.head + i) % c]) is Some by {
                if i < self.len - 1 {
                    lemma_distinct_slots(self.head as int, i, (self.len - 1) as int, c);
                }
            }
            assert forall|i: int| 0 <= i < self.len implies #[trigger] self@[i] == before.push(msg)[i] by {
                if i < self.len - 1 {
                    lemma_distinct_slots(self.head as int, i, (self.len - 1) as int, c);
                }
            }
            assert(self@ =~= before.push(msg));
        }
        Ok(())
    }

    /// Remove the oldest message; when there is none, report whether the
    /// queue is closed or just empty.
    pub fn try_pop(&mut self) -> (r: Result<Message, QueueError>)
        requires
            old(self).wf(),
        ensures
            final(self).wf(),
            final(self).cap() == old(self).cap(),
            final(self).closed() == old(self).closed(),
            old(self)@.len() == 0 ==> r == Err::<Message, QueueError>(if old(self).closed() { QueueError::Closed } else { QueueError::Empty })
                && final(self)@ == old(self)@,
            old(self)@.len() > 0 ==> r == Ok::<Message, QueueError>(old(self)@[0]) && final(self)@ == old(self)@.drop_first(),
    {
        if self.len == 0 {
            if self.is_closed {
                return Err(QueueError::Closed);
            }
            return Err(QueueError::Empty);
        }
        let ghost before = self@;
        let idx = self.head;
        let msg = match &self.buffer[idx] {
            Some(m) => *m,
            None => {
                proof {
                    assert(self.buffer@[(self.head + 0) % (self.capacity as int)] is Some);
                    lemma_mod_small(self.head as int, self.capacity as int);
                }
                return Err(QueueError::Empty);
            },
        };
        proof {
            lemma_mod_small(self.head as int, self.capacity as int);
        }
        self.buffer.set(idx, None);
        self.head = (self.head + 1) % self.capacity;
        self.len = self.len - 1;
        proof {
            let c = self.capacity as int;
            let h0 = idx as int;
            assert forall|i: int| 0 <= i < self.len implies (#[trigger] self.buffer@[(self.head + i) % c]) is Some && self.buffer@[(self.head + i) % c] == old(self).buffer@[(h0 + (i + 1)) % c] by {
                lemma_mod_shift(h0, i, c);
                lemma_distinct_slots(h0, 0, i + 1, c);
                lemma_mod_small(h0, c);
            }
            assert(self@ =~= before.drop_first());
        }
        Ok(msg)
    }

    /// The oldest message, if any.
    pub fn peek(&self) -> (r: Option<&Message>)
        requires
            self.wf(),
        ensures
            self@.len() == 0 ==> r is None,
            self@.len() > 0 ==> (r matches Some(m) && *m == self@[0]),
    {
        if self.len == 0 {
            return None;
        }
        proof {
            lemma_mod_small(self.head as int, self.capacity as int);
        }
        self.buffer[self.head].as_ref()
    }

    /// Number of pending messages.
    pub fn len(&self) -> (n: usize)
        ensures
            n == self@.len(),
    {
        self.len
    }

    /// No message is pending.
    pub fn is_empty(&self) -> (b: bool)
        ensures
            b == (self@.len() == 0),
    {
        self.len == 0
    }

    /// The queue holds as many messages as its capacity.
    pub fn is_full(&self) -> (b: bool)
        ensures
            b == (self@.len() >= self.cap()),
    {
        self.len >= self.capacity
    }

    /// Close the queue: no further pushes succeed.
    pub fn close(&mut self)
        requires
            old(self).wf(),
        ensures
            final(self).wf(),
            final(self).closed(),
            final(self)@ == old(self)@,
            final(self).cap() == old(self).cap(),
    {
        self.is_closed = true;
    }

    /// The queue is closed.
    pub fn is_closed(&self) -> (b: bool)
        ensures
            b == self.closed(),
    {
        self.is_closed
    }

    /// The queue's capacity.
    pub fn capacity(&self) -> (n: usize)
        ensures
            n == self.cap(),
    {
        self.capacity
    }

    /// Free places left.
    pub fn remaining(&self) -> (n: usize)
        requires
            self.wf(),
        ensures
            n == self.cap() - self@.len(),
    {
        self.capacity - self.len
    }

    /// Capacity, length and closed state together.
    pub fn stats(&self) -> (s: QueueStats)
        ensures
            s.capacity == self.cap(),
            s.len == self@.len(),
            s.is_closed == self.closed(),
    {
        QueueStats { capacity: self.capacity, len: self.len, is_closed: self.is_closed }
    }
}

/// Within one lap of the ring, different offsets name different slots.
proof fn lemma_distinct_slots(h: int, i: int, j: int, c: int)
    requires
        0 <= h < c,
        0 <= i < j < c,
    ensures
        (h + i) % c != (h + j) % c,
{
    if h + j < c {
        assert((h + i) % c == h + i) by {
            vstd::arithmetic::div_mod::lemma_small_mod((h + i) as nat, c as nat);
        }
        assert((h + j) % c == h + j) by {
            vstd::arithmetic::div_mod::lemma_small_mod((h + j) as nat, c as nat);
        }
    } else if h + i >= c {
        assert((h + i) % c == h + i - c) by {
            vstd::arithmetic::div_mod::lemma_fundamental_div_mod_converse(h + i, c, 1, h + i - c);
        }
        assert((h + j) % c == h + j - c) by {
            vstd::arithmetic::div_mod::lemma_fundamental_div_mod_converse(h + j, c, 1, h + j - c);
        }
    } else {
        assert((h + i) % c == h + i) by {
            vstd::arithmetic::div_mod::lemma_small_mod((h + i) as nat, c as nat);
        }
        assert((h + j) % c == h + j - c) by {
            vstd::arithmetic::div_mod::lemma_fundamental_div_mod_converse(h + j, c, 1, h + j - c);
        }
    }
}

proof fn lemma_mod_small(x: int, c: int)
    requires
        0 <= x < c,
    ensures
        (x + 0) % c == x,
        x % c == x,
{
    vstd::arithmetic::div_mod::lemma_small_mod(x as nat, c as nat);
}

/// Advancing the head by one slot shifts every offset by one.
proof fn lemma_mod_shift(h: int, i: int, c: int)
    requires
        0 <= h < c,
        0 <= i,
    ensures
        ((h + 1) % c + i) % c == (h + (i + 1)) % c,
{
    vstd::arithmetic::div_mod::lemma_add_mod_noop_right(i, h + 1, c);
    assert(i + (h + 1) % c == (h + 1) % c + i);
    assert(i + (h + 1) == h + (i + 1));
}

/// Queue statistics.
#[derive(Debug, Clone, Copy, PartialEq, Eq, Structural)]
pub struct QueueStats {
    pub capacity: usize,
    pub len: usize,
    pub is_closed: bool,
}

/// What a pop gives back of a push: in an empty open queue, pushing a
/// message and then popping yields that message and leaves the queue empty.
pub proof fn lemma_push_then_pop(q0: MessageQueue, q1: MessageQueue, q2: MessageQueue, msg: Message, popped: Message)
    requires
        q0@.len() == 0,
        q1@ == q0@.push(msg),
        q1@.len() > 0,
        popped == q1@[0],
        q2@ == q1@.drop_first(),
    ensures
        popped == msg,
        q2@.len() == 0,
{
}

/// The queue's messages after pushing each of `msgs` in turn.
pub open spec fn pushed_all(q: Seq<Message>, msgs: Seq<Message>) -> Seq<Message>
    decreases msgs.len(),
{
    if msgs.len() == 0 {
        q
    } else {
        pushed_all(q.push(msgs[0]), msgs.drop_first())
    }
}

/// The messages `k` pops in turn give, oldest first.
pub open spec fn popped_all(q: Seq<Message>, k: nat) -> Seq<Message>
    decreases k,
{
    if k == 0 || q.len() == 0 {
        Seq::empty()
    } else {
        seq![q[0]] + popped_all(q.drop_first(), (k - 1) as nat)
    }
}

/// The queue's messages after `k` pops in turn.
pub open spec fn left_after_pops(q: Seq<Message>, k: nat) -> Seq<Message>
    decreases k,
{
    if k == 0 || q.len() == 0 {
        q
    } else {
        left_after_pops(q.drop_first(), (k - 1) as nat)
    }
}

proof fn lemma_pushed_all(q: Seq<Message>, msgs: Seq<Message>)
    ensures
        pushed_all(q, msgs) == q + msgs,
    decreases msgs.len(),
{
    if msgs.len() > 0 {
        lemma_pushed_all(q.push(msgs[0]), msgs.drop_first());
        assert(q.push(msgs[0]) + msgs.drop_first() =~= q + msgs);
    }
}

proof fn lemma_popped_all(q: Seq<Message>, k: nat)
    requires
        k <= q.len(),
    ensures
        popped_all(q, k) == q.take(k as int),
        left_after_pops(q, k) == q.skip(k as int),
    decreases k,
{
    if k > 0 {
        lemma_popped_all(q.drop_first(), (k - 1) as nat);
        assert(seq![q[0]] + q.drop_first().take(k - 1) =~= q.take(k as int));
        assert(q.drop_first().skip(k - 1) =~= q.skip(k as int));
    } else {
        assert(q.take(0) =~= Seq::<Message>::empty());
        assert(q.skip(0) =~= q);
    }
}

/// First in, first out: pushing messages in turn onto a queue holding `q`
/// and then popping as many as it holds gives the messages of `q`, then
/// the pushed ones in the order they were pushed, and leaves it empty.
pub proof fn lemma_fifo(q: Seq<Message>, msgs: Seq<Message>)
    ensures
        popped_all(pushed_all(q, msgs), (q.len() + msgs.len()) as nat) == q + msgs,
        left_after_pops(pushed_all(q, msgs), (q.len() + msgs.len()) as nat).len() == 0,
{
    lemma_pushed_all(q, msgs);
    lemma_popped_all(q + msgs, (q.len() + msgs.len()) as nat);
    assert((q + msgs).take((q.len() + msgs.len()) as int) =~= q + msgs);
}

/// Running queue operations on an open queue holding `q` with capacity
/// `cap`, each step as `try_push` and `try_pop` state it: `Some(m)` pushes
/// `m` (accepted while the queue holds fewer than `cap`), `None` pops (the
/// oldest message, when there is one). Gives the messages left, the
/// messages popped in order, and the messages accepted in order.
pub open spec fn run_ops(q: Seq<Message>, cap: nat, ops: Seq<Option<Message>>) -> (Seq<Message>, Seq<Message>, Seq<Message>)
    decreases ops.len(),
{
    if ops.len() == 0 {
        (q, Seq::empty(), Seq::empty())
    } else {
        let rest = ops.drop_first();
        match ops[0] {
            Some(m) => if q.len() < cap {
                let r = run_ops(q.push(m), cap, rest);
                (r.0, r.1, seq![m] + r.2)
            } else {
                run_ops(q, cap, rest)
            },
            None => if q.len() > 0 {
                let r = run_ops(q.drop_first(), cap, rest);
                (r.0, seq![q[0]] + r.1, r.2)
            } else {
                run_ops(q, cap, rest)
            },
        }
    }
}

/// First in, first out over any sequence of pushes and pops: the messages
/// held at the start followed by those accepted equal the messages popped
/// followed by those left, so the pops give the messages in the order they
/// went in.
pub proof fn lemma_fifo_ops(q: Seq<Message>, cap: nat, ops: Seq<Option<Message>>)
    ensures
        ({
            let r = run_ops(q, cap, ops);
            q + r.2 == r.1 + r.0
        }),
    decreases ops.len(),
{
    if ops.len() > 0 {
        let rest = ops.drop_first();
        match ops[0] {
            Some(m) => {
                if q.len() < cap {
                    lemma_fifo_ops(q.push(m), cap, rest);
                    let r = run_ops(q.push(m), cap, rest);
                    assert(q + (seq![m] + r.2) =~= q.push(m) + r.2);
                } else {
                    lemma_fifo_ops(q, cap, rest);
                }
            },
            None => {
                if q.len() > 0 {
                    lemma_fifo_ops(q.drop_first(), cap, rest);
                    let r = run_ops(q.drop_first(), cap, rest);
                    assert(q + r.2 =~= seq![q[0]] + (q.drop_first() + r.2));
                    assert((seq![q[0]] + r.1) + r.0 =~= seq![q[0]] + (r.1 + r.0));
                } else {
                    lemma_fifo_ops(q, cap, rest);
                }
            },
        }
    }
}

} // verus!
