//! The subscription registry: the live set of observer sinks, each with a
//! bounded delivery queue, and fan-out of change events to all of them.
use std::collections::VecDeque;
use vstd::prelude::*;

use crate::event::ChangeEvent;

verus! {

/// How many undelivered events a sink holds unless configured otherwise.
pub const DEFAULT_QUEUE_CAPACITY: usize = 64;

/// Identifies one observer's sink inside a registry.
#[derive(Debug, Clone, Copy, PartialEq, Eq, Hash, Structural)]
pub struct SubscriberHandle(pub u64);

struct Sink {
    handle: u64,
    queue: VecDeque<ChangeEvent>,
}

/// The live observer sinks, in order of registration.
pub struct Subscribers {
    sinks: Vec<Sink>,
    capacity: usize,
    next_handle: u64,
}

/// What a registry holds: each registered handle with its undelivered events
/// (oldest first), the bound on each queue, and the handle that the next
/// registration receives.
pub struct RegistryView {
    pub sinks: Seq<(u64, Seq<ChangeEvent>)>,
    pub capacity: nat,
    pub next_handle: nat,
}

/// A delivery queue after an event was offered to it: the event is appended
/// when there is room and dropped otherwise.
pub open spec fn enqueue(q: Seq<ChangeEvent>, e: ChangeEvent, capacity: nat) -> Seq<ChangeEvent> {
    if q.len() < capacity {
        q.push(e)
    } else {
        q
    }
}

impl RegistryView {
    pub open spec fn wf(self) -> bool {
        &&& self.capacity >= 1
        &&& self.next_handle <= u64::MAX
        &&& forall|i: int| 0 <= i < self.sinks.len() ==> #[trigger] self.sinks[i].0 < self.next_handle
        &&& forall|i: int| 0 <= i < self.sinks.len() ==> #[trigger] self.sinks[i].1.len() <= self.capacity
        &&& forall|i: int, j: int|
            0 <= i < j < self.sinks.len() ==> #[trigger] self.sinks[i].0 < #[trigger] self.sinks[j].0
    }

    /// Whether a sink with this handle is registered.
    pub open spec fn contains(self, h: u64) -> bool {
        exists|i: int| 0 <= i < self.sinks.len() && #[trigger] self.sinks[i].0 == h
    }

    /// The position of a registered handle.
    pub open spec fn position(self, h: u64) -> int {
        choose|i: int| 0 <= i < self.sinks.len() && #[trigger] self.sinks[i].0 == h
    }

    /// The undelivered events of a handle; none for a handle not registered.
    pub open spec fn queue(self, h: u64) -> Seq<ChangeEvent> {
        if self.contains(h) {
            self.sinks[self.position(h)].1
        } else {
            Seq::empty()
        }
    }

    /// The registry after a new sink was added.
    pub open spec fn register(self) -> RegistryView {
        RegistryView {
            sinks: self.sinks.push((self.next_handle as u64, Seq::empty())),
            next_handle: self.next_handle + 1,
            ..self
        }
    }

    /// The registry after a handle's sink was removed, if it was there.
    pub open spec fn unregister(self, h: u64) -> RegistryView {
        if self.contains(h) {
            RegistryView { sinks: self.sinks.remove(self.position(h)), ..self }
        } else {
            self
        }
    }

    /// The registry after an event was offered to every sink.
    pub open spec fn broadcast(self, e: ChangeEvent) -> RegistryView {
        RegistryView {
            sinks: Seq::new(
                self.sinks.len(),
                |i: int| (self.sinks[i].0, enqueue(self.sinks[i].1, e, self.capacity)),
            ),
            ..self
        }
    }

    /// The registry after the oldest undelivered event of a handle was taken.
    pub open spec fn take(self, h: u64) -> RegistryView {
        if self.contains(h) && self.queue(h).len() > 0 {
            RegistryView {
                sinks: self.sinks.update(self.position(h), (h, self.queue(h).drop_first())),
                ..self
            }
        } else {
            self
        }
    }
}

impl View for Subscribers {
    type V = RegistryView;

    closed spec fn view(&self) -> RegistryView {
        RegistryView {
            sinks: Seq::new(
                self.sinks@.len(),
                |i: int| (self.sinks@[i].handle, self.sinks@[i].queue@),
            ),
            capacity: self.capacity as nat,
            next_handle: self.next_handle as nat,
        }
    }
}

proof fn lemma_position(v: RegistryView, i: int)
    requires
        v.wf(),
        0 <= i < v.sinks.len(),
    ensures
        v.contains(v.sinks[i].0),
        v.position(v.sinks[i].0) == i,
{
    let h = v.sinks[i].0;
    assert(v.sinks[i].0 == h);
    let j = v.position(h);
    if j < i {
        assert(v.sinks[j].0 < v.sinks[i].0);
    } else if i < j {
        assert(v.sinks[i].0 < v.sinks[j].0);
    }
}

/// Broadcasting offers the event to each sink on its own: a registered
/// subscriber with room in its queue receives the event exactly once, after
/// the events already waiting; one whose queue is full misses only this
/// event; which handles are registered, and where, does not change.
pub proof fn lemma_broadcast_queue(v: RegistryView, e: ChangeEvent, h: u64)
    requires
        v.wf(),
    ensures
        v.broadcast(e).wf(),
        v.broadcast(e).capacity == v.capacity,
        v.broadcast(e).sinks.len() == v.sinks.len(),
        v.broadcast(e).contains(h) == v.contains(h),
        v.broadcast(e).queue(h) == (if v.contains(h) {
            enqueue(v.queue(h), e, v.capacity)
        } else {
            Seq::empty()
        }),
        v.contains(h) && v.queue(h).len() < v.capacity ==> v.broadcast(e).queue(h) == v.queue(
            h,
        ).push(e),
        v.contains(h) && v.queue(h).len() >= v.capacity ==> v.broadcast(e).queue(h) == v.queue(h),
{
    let w = v.broadcast(e);
    assert forall|i: int| 0 <= i < w.sinks.len() implies #[trigger] w.sinks[i].0 < w.next_handle by {
        assert(w.sinks[i].0 == v.sinks[i].0);
    }
    assert forall|i: int| 0 <= i < w.sinks.len() implies #[trigger] w.sinks[i].1.len()
        <= w.capacity by {
        assert(v.sinks[i].1.len() <= v.capacity);
    }
    assert forall|i: int, j: int| 0 <= i < j < w.sinks.len() implies #[trigger] w.sinks[i].0
        < #[trigger] w.sinks[j].0 by {
        assert(v.sinks[i].0 < v.sinks[j].0);
    }
    if v.contains(h) {
        let i = v.position(h);
        lemma_position(v, i);
        assert(w.sinks[i].0 == h);
        lemma_position(w, i);
    } else {
        if w.contains(h) {
            let i = w.position(h);
            assert(v.sinks[i].0 == h);
        }
    }
}

/// A subscriber sees exactly the events broadcast while it is registered: one
/// that registers after an event was broadcast has none waiting, and one
/// registered before it has that event waiting.
pub proof fn lemma_register_and_broadcast(v: RegistryView, e: ChangeEvent)
    requires
        v.wf(),
        v.next_handle < u64::MAX,
    ensures
        v.broadcast(e).register().contains(v.next_handle as u64),
        v.broadcast(e).register().queue(v.next_handle as u64) == Seq::<ChangeEvent>::empty(),
        v.register().contains(v.next_handle as u64),
        v.register().broadcast(e).queue(v.next_handle as u64) == seq![e],
{
    let h = v.next_handle as u64;
    let n = v.sinks.len() as int;
    lemma_broadcast_queue(v, e, h);
    let a = v.broadcast(e);
    lemma_register_wf(a);
    assert(a.register().sinks[n].0 == h);
    lemma_position(a.register(), n);
    lemma_register_wf(v);
    let b = v.register();
    assert(b.sinks[n].0 == h);
    lemma_position(b, n);
    lemma_broadcast_queue(b, e, h);
    assert(Seq::<ChangeEvent>::empty().push(e) =~= seq![e]);
}

proof fn lemma_register_wf(v: RegistryView)
    requires
        v.wf(),
        v.next_handle < u64::MAX,
    ensures
        v.register().wf(),
{
    let w = v.register();
    assert forall|i: int, j: int| 0 <= i < j < w.sinks.len() implies #[trigger] w.sinks[i].0
        < #[trigger] w.sinks[j].0 by {
        if j == v.sinks.len() {
            assert(v.sinks[i].0 < v.next_handle);
        } else {
            assert(v.sinks[i].0 < v.sinks[j].0);
        }
    }
    assert forall|i: int| 0 <= i < w.sinks.len() implies #[trigger] w.sinks[i].0 < w.next_handle by {
        if i < v.sinks.len() {
            assert(v.sinks[i].0 < v.next_handle);
        }
    }
    assert forall|i: int| 0 <= i < w.sinks.len() implies #[trigger] w.sinks[i].1.len()
        <= w.capacity by {
        if i < v.sinks.len() {
            assert(v.sinks[i].1.len() <= v.capacity);
        }
    }
}

impl Subscribers {
    pub closed spec fn wf(&self) -> bool {
        self@.wf()
    }

    /// An empty registry whose sinks hold up to `DEFAULT_QUEUE_CAPACITY`
    /// events each.
    pub fn new() -> (r: Self)
        ensures
            r.wf(),
            r@.sinks.len() == 0,
            r@.capacity == DEFAULT_QUEUE_CAPACITY,
            r@.next_handle == 0,
    {
        Subscribers::with_queue_capacity(DEFAULT_QUEUE_CAPACITY)
    }

    /// An empty registry whose sinks hold up to `capacity` events each.
    pub fn with_queue_capacity(capacity: usize) -> (r: Self)
        requires
            capacity >= 1,
        ensures
            r.wf(),
            r@.sinks.len() == 0,
            r@.capacity == capacity,
            r@.next_handle == 0,
    {
        let r = Subscribers { sinks: Vec::new(), capacity, next_handle: 0 };
        proof {
            assert(r@.sinks =~= Seq::<(u64, Seq<ChangeEvent>)>::empty());
        }
        r
    }

    /// The bound on each sink's queue.
    pub fn queue_capacity(&self) -> (r: usize)
        ensures
            r == self@.capacity,
    {
        self.capacity
    }

    /// How many sinks are registered.
    pub fn len(&self) -> (r: usize)
        ensures
            r == self@.sinks.len(),
    {
        self.sinks.len()
    }

    /// Whether another sink can be registered (handles are never reused).
    pub fn can_register(&self) -> (r: bool)
        ensures
            r == (self@.next_handle < u64::MAX),
    {
        self.next_handle < u64::MAX
    }

    fn find(&self, h: SubscriberHandle) -> (r: Option<usize>)
        requires
            self.wf(),
        ensures
            r is Some <==> self@.contains(h.0),
            r matches Some(i) ==> i < self@.sinks.len() && i == self@.position(h.0),
    {
        let mut i: usize = 0;
        while i < self.sinks.len()
            invariant
                self.wf(),
                i <= self.sinks@.len(),
                forall|j: int| 0 <= j < i ==> #[trigger] self@.sinks[j].0 != h.0,
            decreases self.sinks@.len() - i,
        {
            if self.sinks[i].handle == h.0 {
                proof {
                    lemma_position(self@, i as int);
                }
                return Some(i);
            }
            proof {
                assert(self@.sinks[i as int].0 != h.0);
            }
            i = i + 1;
        }
        None
    }

    /// Whether the handle's sink is registered.
    pub fn is_registered(&self, h: SubscriberHandle) -> (r: bool)
        requires
            self.wf(),
        ensures
            r == self@.contains(h.0),
    {
        self.find(h).is_some()
    }

    /// How many events wait in the handle's queue (none if not registered).
    pub fn pending(&self, h: SubscriberHandle) -> (r: usize)
        requires
            self.wf(),
        ensures
            r == self@.queue(h.0).len(),
    {
        match self.find(h) {
            Some(i) => self.sinks[i].queue.len(),
            None => 0,
        }
    }

    /// Adds a sink with an empty queue and returns its handle.
    pub fn register(&mut self) -> (r: SubscriberHandle)
        requires
            old(self).wf(),
            old(self)@.next_handle < u64::MAX,
        ensures
            final(self).wf(),
            r.0 == old(self)@.next_handle,
            final(self)@ == old(self)@.register(),
    {
        let h = self.next_handle;
        self.sinks.push(Sink { handle: h, queue: VecDeque::new() });
        self.next_handle = h + 1;
        proof {
            assert(self@.sinks =~= old(self)@.register().sinks);
        }
        SubscriberHandle(h)
    }

    /// Removes the handle's sink and its undelivered events; does nothing for
    /// a handle that is not registered.
    pub fn unregister(&mut self, h: SubscriberHandle)
        requires
            old(self).wf(),
        ensures
            final(self).wf(),
            final(self)@ == old(self)@.unregister(h.0),
            !final(self)@.contains(h.0),
    {
        match self.find(h) {
            Some(i) => {
                self.sinks.remove(i);
                proof {
                    assert(self@.sinks =~= old(self)@.sinks.remove(i as int));
                    assert forall|a: int, b: int| 0 <= a < b < self@.sinks.len() implies
                        #[trigger] self@.sinks[a].0 < #[trigger] self@.sinks[b].0 by {
                        let a0 = if a < i { a } else { a + 1 };
                        let b0 = if b < i { b } else { b + 1 };
                        assert(old(self)@.sinks[a0].0 < old(self)@.sinks[b0].0);
                    }
                    if self@.contains(h.0) {
                        let j = self@.position(h.0);
                        let j0 = if j < i { j } else { j + 1 };
                        assert(old(self)@.sinks[j0].0 == h.0);
                        if j0 < i {
                            assert(old(self)@.sinks[j0].0 < old(self)@.sinks[i as int].0);
                        } else {
                            assert(old(self)@.sinks[i as int].0 < old(self)@.sinks[j0].0);
                        }
                    }
                }
            },
            None => {},
        }
    }

    /// Offers the event to every registered sink. A sink whose queue is full
    /// misses it; the others are not affected.
    pub fn broadcast(&mut self, e: &ChangeEvent)
        requires
            old(self).wf(),
        ensures
            final(self).wf(),
            final(self)@ == old(self)@.broadcast(*e),
    {
        let n = self.sinks.len();
        let mut i: usize = 0;
        while i < n
            invariant
                n == self.sinks@.len(),
                n == old(self)@.sinks.len(),
                i <= n,
                self.capacity == old(self).capacity,
                self.next_handle == old(self).next_handle,
                forall|j: int| 0 <= j < n ==> #[trigger] self@.sinks[j].0 == old(self)@.sinks[j].0,
                forall|j: int|
                    0 <= j < i ==> #[trigger] self@.sinks[j].1 == enqueue(
                        old(self)@.sinks[j].1,
                        *e,
                        old(self)@.capacity,
                    ),
                forall|j: int| i <= j < n ==> #[trigger] self@.sinks[j].1 == old(self)@.sinks[j].1,
                old(self).wf(),
            decreases n - i,
        {
            let ghost before = self@;
            if self.sinks[i].queue.len() < self.capacity {
                let item = e.clone();
                self.sinks[i].queue.push_back(item);
                assert(self@.sinks[i as int].1 == before.sinks[i as int].1.push(*e));
            }
            proof {
                assert(self@.sinks[i as int].0 == before.sinks[i as int].0);
                assert forall|j: int| 0 <= j < n && j != i implies #[trigger] self@.sinks[j]
                    == before.sinks[j] by {}
                assert(self@.sinks[i as int].1 == enqueue(
                    old(self)@.sinks[i as int].1,
                    *e,
                    old(self)@.capacity,
                ));
            }
            i = i + 1;
        }
        proof {
            let want = old(self)@.broadcast(*e);
            assert forall|j: int| 0 <= j < n implies #[trigger] self@.sinks[j] == want.sinks[j] by {
                assert(self@.sinks[j].0 == want.sinks[j].0);
                assert(self@.sinks[j].1 == want.sinks[j].1);
            }
            assert(self@.sinks =~= want.sinks);
        }
    }

    /// Takes the oldest undelivered event of the handle's sink.
    pub fn next_event(&mut self, h: SubscriberHandle) -> (r: Option<ChangeEvent>)
        requires
            old(self).wf(),
        ensures
            final(self).wf(),
            final(self)@ == old(self)@.take(h.0),
            r == (if old(self)@.queue(h.0).len() > 0 {
                Some(old(self)@.queue(h.0)[0])
            } else {
                None::<ChangeEvent>
            }),
    {
        match self.find(h) {
            Some(i) => {
                let r = self.sinks[i].queue.pop_front();
                proof {
                    if old(self)@.queue(h.0).len() > 0 {
                        assert(self@.sinks =~= old(self)@.take(h.0).sinks);
                    } else {
                        assert(self@.sinks =~= old(self)@.sinks);
                    }
                }
                r
            },
            None => None,
        }
    }
}

} // verus!
