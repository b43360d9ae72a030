use vstd::prelude::*;
use crate::event::ParameterUpdateEvent;

verus! {

/// Returned by `send` once the consumer side has closed the ring.
#[derive(Clone, Copy, Debug, PartialEq, Eq, Structural)]
pub struct ChannelClosed;

/// Position in a ring of `cap` slots that lies `i` after `head`.
pub open spec fn slot_at(head: int, i: int, cap: int) -> int {
    if head + i < cap {
        head + i
    } else {
        head + i - cap
    }
}

/// The pending events after `e` is sent to an open ring of `cap` slots that
/// held `q`: appended, and the oldest dropped when the ring was full.
pub open spec fn after_send(
    q: Seq<ParameterUpdateEvent>,
    cap: nat,
    e: ParameterUpdateEvent,
) -> Seq<ParameterUpdateEvent> {
    if q.len() < cap {
        q.push(e)
    } else {
        q.drop_first().push(e)
    }
}

/// The pending events after each of `es` is sent, in order, to an open ring
/// of `cap` slots that held `q`.
pub open spec fn after_sends(
    q: Seq<ParameterUpdateEvent>,
    cap: nat,
    es: Seq<ParameterUpdateEvent>,
) -> Seq<ParameterUpdateEvent>
    decreases es.len(),
{
    if es.len() == 0 {
        q
    } else {
        after_sends(after_send(q, cap, es[0]), cap, es.drop_first())
    }
}

/// What `n` successive `try_receive` calls return from a ring holding `q`,
/// in call order.
pub open spec fn receive_results(q: Seq<ParameterUpdateEvent>, n: nat) -> Seq<
    Option<ParameterUpdateEvent>,
>
    decreases n,
{
    if n == 0 {
        Seq::empty()
    } else if q.len() == 0 {
        seq![None].add(receive_results(q, (n - 1) as nat))
    } else {
        seq![Some(q[0])].add(receive_results(q.drop_first(), (n - 1) as nat))
    }
}

/// The last `cap` items of `s`, or all of them when there are fewer.
pub open spec fn newest(s: Seq<ParameterUpdateEvent>, cap: nat) -> Seq<ParameterUpdateEvent> {
    if s.len() <= cap {
        s
    } else {
        s.skip(s.len() - cap)
    }
}

/// Fixed-capacity single-producer, single-consumer event queue.
///
/// All slots are allocated when the ring is made; neither side allocates or
/// frees afterwards. When the ring is full, `send` overwrites the oldest
/// pending event, so a slow consumer never faces a backlog deeper than the
/// capacity.
pub struct EventRing {
    slots: Vec<Option<ParameterUpdateEvent>>,
    head: usize,
    len: usize,
    closed: bool,
}

impl View for EventRing {
    type V = Seq<ParameterUpdateEvent>;

    /// The pending events, oldest first.
    closed spec fn view(&self) -> Seq<ParameterUpdateEvent> {
        Seq::new(
            self.len as nat,
            |i: int| self.slots@[slot_at(self.head as int, i, self.slots@.len() as int)]->Some_0,
        )
    }
}

impl EventRing {
    /// The number of slots.
    pub closed spec fn cap(&self) -> nat {
        self.slots@.len()
    }

    /// Whether the consumer side has closed the ring.
    pub closed spec fn is_closed_spec(&self) -> bool {
        self.closed
    }

    /// The ring's invariant: its pending events never outnumber its slots.
    pub closed spec fn wf(&self) -> bool {
        &&& self.slots@.len() > 0
        &&& self.head < self.slots@.len()
        &&& self.len <= self.slots@.len()
        &&& forall|i: int|
            0 <= i < self.len ==> (#[trigger] self.slots@[slot_at(
                self.head as int,
                i,
                self.slots@.len() as int,
            )]) is Some
    }

    /// An open, empty ring with room for `capacity` events.
    pub fn new(capacity: usize) -> (r: EventRing)
        requires
            capacity > 0,
        ensures
            r.wf(),
            r@ == Seq::<ParameterUpdateEvent>::empty(),
            r.cap() == capacity,
            !r.is_closed_spec(),
    {
        let mut slots: Vec<Option<ParameterUpdateEvent>> = Vec::with_capacity(capacity);
        let mut i: usize = 0;
        while i < capacity
            invariant
                i <= capacity,
                slots@.len() == i,
            decreases capacity - i,
        {
            slots.push(None);
            i = i + 1;
        }
        let r = EventRing { slots, head: 0, len: 0, closed: false };
        assert(r@ =~= Seq::<ParameterUpdateEvent>::empty());
        r
    }

    /// Number of pending events.
    pub fn len(&self) -> (r: usize)
        requires
            self.wf(),
        ensures
            r == self@.len(),
            r <= self.cap(),
    {
        self.len
    }

    /// Whether no event is pending.
    pub fn is_empty(&self) -> (r: bool)
        requires
            self.wf(),
        ensures
            r == (self@.len() == 0),
    {
        self.len == 0
    }

    /// Number of events the ring holds at most.
    pub fn capacity(&self) -> (r: usize)
        requires
            self.wf(),
        ensures
            r == self.cap(),
    {
        self.slots.len()
    }

    /// Whether the consumer side has closed the ring.
    pub fn is_closed(&self) -> (r: bool)
        ensures
            r == self.is_closed_spec(),
    {
        self.closed
    }

    /// Producer side: appends `e`.
    ///
    /// On a closed ring nothing changes and `ChannelClosed` is returned. On a
    /// full ring the oldest pending event is dropped to make room.
    pub fn send(&mut self, e: ParameterUpdateEvent) -> (r: Result<(), ChannelClosed>)
        requires
            old(self).wf(),
        ensures
            final(self).wf(),
            final(self).cap() == old(self).cap(),
            final(self).is_closed_spec() == old(self).is_closed_spec(),
            old(self).is_closed_spec() ==> r == Err::<(), ChannelClosed>(ChannelClosed)
                && final(self)@ == old(self)@,
            !old(self).is_closed_spec() ==> r is Ok && final(self)@ == after_send(
                old(self)@,
                old(self).cap(),
                e,
            ),
    {
        if self.closed {
            return Err(ChannelClosed);
        }
        let cap = self.slots.len();
        let ghost before = self@;
        if self.len < cap {
            let at: usize = if self.head < cap - self.len {
                self.head + self.len
            } else {
                self.len - (cap - self.head)
            };
            self.slots.set(at, Some(e));
            self.len = self.len + 1;
            assert forall|i: int| 0 <= i < self.len implies (#[trigger] self.slots@[slot_at(
                self.head as int,
                i,
                cap as int,
            )]) is Some by {
                if i < self.len - 1 {
                    assert(old(self).slots@[slot_at(self.head as int, i, cap as int)] is Some);
                }
            }
            assert(self@ =~= before.push(e)) by {
                assert forall|i: int| 0 <= i < before.len() implies self@[i] == before[i] by {
                    assert(slot_at(self.head as int, i, cap as int) != at);
                }
            }
        } else {
            let at: usize = self.head;
            self.slots.set(at, Some(e));
            self.head = if self.head + 1 < cap {
                self.head + 1
            } else {
                0
            };
            assert forall|i: int| 0 <= i < self.len implies (#[trigger] self.slots@[slot_at(
                self.head as int,
                i,
                cap as int,
            )]) is Some by {
                if i < self.len - 1 {
                    assert(old(self).slots@[slot_at(old(self).head as int, i + 1, cap as int)]
                        is Some);
                }
            }
            assert(self@ =~= before.drop_first().push(e)) by {
                assert forall|i: int| 0 <= i < before.len() - 1 implies self@[i] == before[i
                    + 1] by {
                    assert(slot_at(self.head as int, i, cap as int) == slot_at(
                        old(self).head as int,
                        i + 1,
                        cap as int,
                    ));
                }
            }
        }
        Ok(())
    }

    /// Consumer side: takes the oldest pending event, if any. Never blocks
    /// and never allocates.
    pub fn try_receive(&mut self) -> (r: Option<ParameterUpdateEvent>)
        requires
            old(self).wf(),
        ensures
            final(self).wf(),
            final(self).cap() == old(self).cap(),
            final(self).is_closed_spec() == old(self).is_closed_spec(),
            old(self)@.len() == 0 ==> r is None && final(self)@ == old(self)@,
            old(self)@.len() > 0 ==> r == Some(old(self)@[0]) && final(self)@ == old(
                self,
            )@.drop_first(),
    {
        if self.len == 0 {
            return None;
        }
        let cap = self.slots.len();
        let ghost before = self@;
        let e = self.slots[self.head];
        assert(old(self).slots@[slot_at(self.head as int, 0, cap as int)] is Some);
        self.slots.set(self.head, None);
        self.head = if self.head + 1 < cap {
            self.head + 1
        } else {
            0
        };
        self.len = self.len - 1;
        assert forall|i: int| 0 <= i < self.len implies (#[trigger] self.slots@[slot_at(
            self.head as int,
            i,
            cap as int,
        )]) is Some by {
            assert(old(self).slots@[slot_at(old(self).head as int, i + 1, cap as int)] is Some);
            assert(slot_at(self.head as int, i, cap as int) == slot_at(
                old(self).head as int,
                i + 1,
                cap as int,
            ));
        }
        assert(self@ =~= before.drop_first()) by {
            assert forall|i: int| 0 <= i < before.len() - 1 implies self@[i] == before[i + 1] by {
                assert(slot_at(self.head as int, i, cap as int) == slot_at(
                    old(self).head as int,
                    i + 1,
                    cap as int,
                ));
            }
        }
        e
    }

    /// Consumer side: closes the ring, so that every later `send` fails.
    /// Pending events stay.
    pub fn close(&mut self)
        requires
            old(self).wf(),
        ensures
            final(self).wf(),
            final(self).cap() == old(self).cap(),
            final(self)@ == old(self)@,
            final(self).is_closed_spec(),
    {
        self.closed = true;
    }
}

proof fn lemma_sends_within_room(
    q: Seq<ParameterUpdateEvent>,
    cap: nat,
    es: Seq<ParameterUpdateEvent>,
)
    requires
        q.len() + es.len() <= cap,
    ensures
        after_sends(q, cap, es) == q + es,
    decreases es.len(),
{
    if es.len() > 0 {
        lemma_sends_within_room(q.push(es[0]), cap, es.drop_first());
        assert(q.push(es[0]) + es.drop_first() =~= q + es);
    }
}

proof fn lemma_receive_all(q: Seq<ParameterUpdateEvent>)
    ensures
        receive_results(q, q.len() + 1) == q.map_values(|e: ParameterUpdateEvent| Some(e)).push(
            None,
        ),
    decreases q.len(),
{
    if q.len() == 0 {
        assert(receive_results(q, 0) =~= Seq::<Option<ParameterUpdateEvent>>::empty());
        assert(receive_results(q, 1) =~= q.map_values(|e: ParameterUpdateEvent| Some(e)).push(
            None,
        ));
    } else {
        let rest = q.drop_first();
        lemma_receive_all(rest);
        assert(receive_results(q, q.len() + 1) =~= q.map_values(
            |e: ParameterUpdateEvent| Some(e),
        ).push(None));
    }
}

/// Events come out in the order they went in, each exactly once: after
/// `e1..eN` are sent to an empty open ring with room for them all, `N + 1`
/// receives return `e1..eN` and then nothing.
pub proof fn lemma_fifo(es: Seq<ParameterUpdateEvent>, cap: nat)
    requires
        es.len() <= cap,
    ensures
        after_sends(Seq::empty(), cap, es) == es,
        receive_results(after_sends(Seq::empty(), cap, es), es.len() + 1) == es.map_values(
            |e: ParameterUpdateEvent| Some(e),
        ).push(None),
{
    lemma_sends_within_room(Seq::empty(), cap, es);
    assert(Seq::<ParameterUpdateEvent>::empty() + es =~= es);
    lemma_receive_all(es);
}

/// A full ring keeps only the newest events: after any sends to an open ring
/// of `cap` slots, it holds the last `cap` of its earlier contents followed
/// by the events sent.
pub proof fn lemma_overflow_keeps_newest(
    q: Seq<ParameterUpdateEvent>,
    cap: nat,
    es: Seq<ParameterUpdateEvent>,
)
    requires
        0 < cap,
        q.len() <= cap,
    ensures
        after_sends(q, cap, es) == newest(q + es, cap),
    decreases es.len(),
{
    if es.len() == 0 {
        assert(q + es =~= q);
    } else {
        let e = es[0];
        let q1 = after_send(q, cap, e);
        assert(q1 == newest(q.push(e), cap)) by {
            if q.len() == cap {
                assert(q.drop_first().push(e) =~= q.push(e).skip(1));
            }
        }
        lemma_overflow_keeps_newest(q1, cap, es.drop_first());
        let s = q.push(e);
        let t = es.drop_first();
        assert(q + es =~= s + t);
        assert(newest(newest(s, cap) + t, cap) =~= newest(s + t, cap));
    }
}

} // verus!
