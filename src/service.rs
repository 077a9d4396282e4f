//! The mutation orchestrator: every create, update and delete is first
//! written to the store, and only a write the store confirmed is announced to
//! the registry's subscribers, in the order the writes committed.
use vstd::prelude::*;

use crate::data::{
    is_valid_record, record_error, ProcessedAgent, ProcessedAgentId, ValidationError,
};
use crate::event::ChangeEvent;
use crate::pagination::Pagination;
use crate::registry::{lemma_broadcast_queue, RegistryView, Subscribers};
use crate::store::{RecordStore, StoreError, StoreView};

verus! {

/// Why a mutation was not performed.
#[derive(Debug, Clone, Copy, PartialEq, Eq, Structural)]
pub enum Error {
    /// The request was malformed; nothing was written or announced.
    Validation(ValidationError),
    /// The store did not perform the write; nothing was announced.
    Store(StoreError),
}

/// The registry after each event was offered to every sink, in order.
pub open spec fn broadcast_all(v: RegistryView, events: Seq<ChangeEvent>) -> RegistryView
    decreases events.len(),
{
    if events.len() == 0 {
        v
    } else {
        broadcast_all(v, events.drop_last()).broadcast(events.last())
    }
}

/// One `Created` event for each record, paired with its identifier by position.
pub open spec fn created_events(
    ids: Seq<ProcessedAgentId>,
    records: Seq<ProcessedAgent>,
) -> Seq<ChangeEvent> {
    Seq::new(records.len(), |i: int| ChangeEvent::Created(ids[i], records[i]))
}

/// Whether every record of a batch may be stored.
pub open spec fn all_valid(records: Seq<ProcessedAgent>) -> bool {
    forall|i: int| 0 <= i < records.len() ==> is_valid_record(#[trigger] records[i])
}

/// Whether `k` is the first record of a batch that may not be stored.
pub open spec fn is_first_invalid(records: Seq<ProcessedAgent>, k: int) -> bool {
    &&& 0 <= k < records.len()
    &&& !is_valid_record(records[k])
    &&& forall|j: int| 0 <= j < k ==> is_valid_record(#[trigger] records[j])
}

/// The number of events of a sequence that a queue still has room for.
pub open spec fn room_for(v: RegistryView, h: u64, count: nat) -> nat {
    let free = v.capacity - v.queue(h).len();
    if count <= free {
        count
    } else {
        free as nat
    }
}

/// Offering a sequence of events to the registry, one after another, leaves
/// each registered subscriber with the events it already had followed by the
/// events of the sequence, in order, for as long as its queue had room; no
/// subscriber is added or removed.
pub proof fn lemma_broadcast_all_queue(v: RegistryView, events: Seq<ChangeEvent>, h: u64)
    requires
        v.wf(),
    ensures
        broadcast_all(v, events).wf(),
        broadcast_all(v, events).capacity == v.capacity,
        broadcast_all(v, events).contains(h) == v.contains(h),
        v.contains(h) ==> broadcast_all(v, events).queue(h) == v.queue(h) + events.take(
            room_for(v, h, events.len()) as int,
        ),
    decreases events.len(),
{
    if events.len() > 0 {
        let pre = events.drop_last();
        let last = events.last();
        lemma_broadcast_all_queue(v, pre, h);
        let w = broadcast_all(v, pre);
        lemma_broadcast_queue(w, last, h);
        if v.contains(h) {
            let k = room_for(v, h, pre.len());
            assert(v.queue(h).len() <= v.capacity) by {
                let i = v.position(h);
                assert(v.sinks[i].1.len() <= v.capacity);
            }
            assert(w.queue(h).len() == v.queue(h).len() + k);
            if w.queue(h).len() < w.capacity {
                assert(events.take((k + 1) as int) =~= pre.take(k as int).push(last));
            } else {
                assert(events.take(k as int) =~= pre.take(k as int));
            }
        }
    }
}

/// A batch is assigned identifiers in submission order, and every subscriber
/// registered when it is announced receives its `Created` events in that
/// same order (as many as its queue has room for).
pub proof fn lemma_batch_order(
    s: StoreView,
    v: RegistryView,
    records: Seq<ProcessedAgent>,
    h: u64,
)
    requires
        s.wf(),
        v.wf(),
        s.has_room(records.len()),
    ensures
        forall|i: int, j: int|
            0 <= i < j < records.len() ==> (#[trigger] s.fresh_ids(records.len())[i]).0
                < (#[trigger] s.fresh_ids(records.len())[j]).0,
        v.contains(h) ==> broadcast_all(
            v,
            created_events(s.fresh_ids(records.len()), records),
        ).queue(h) == v.queue(h) + created_events(s.fresh_ids(records.len()), records).take(
            room_for(v, h, records.len()) as int,
        ),
        v.contains(h) && v.queue(h).len() + records.len() <= v.capacity ==> broadcast_all(
            v,
            created_events(s.fresh_ids(records.len()), records),
        ).queue(h) == v.queue(h) + created_events(s.fresh_ids(records.len()), records),
{
    let events = created_events(s.fresh_ids(records.len()), records);
    lemma_broadcast_all_queue(v, events, h);
    assert(events.take(events.len() as int) =~= events);
}

/// Announces a create once the store has answered: `Created` on success,
/// nothing on failure.
pub fn finish_create(
    subs: &mut Subscribers,
    record: ProcessedAgent,
    outcome: Result<ProcessedAgentId, StoreError>,
) -> (r: Result<ProcessedAgentId, Error>)
    requires
        old(subs).wf(),
    ensures
        final(subs).wf(),
        match outcome {
            Ok(id) => r == Ok::<ProcessedAgentId, Error>(id) && final(subs)@ == old(subs)@.broadcast(
                ChangeEvent::Created(id, record),
            ),
            Err(e) => r == Err::<ProcessedAgentId, Error>(Error::Store(e)) && final(subs)@ == old(
                subs,
            )@,
        },
{
    match outcome {
        Ok(id) => {
            subs.broadcast(&ChangeEvent::Created(id, record));
            Ok(id)
        },
        Err(e) => Err(Error::Store(e)),
    }
}

/// Announces a batch create once the store has answered: one `Created` per
/// record, in submission order, on success; nothing on failure.
pub fn finish_create_batch(
    subs: &mut Subscribers,
    records: Vec<ProcessedAgent>,
    outcome: Result<Vec<ProcessedAgentId>, StoreError>,
) -> (r: Result<Vec<ProcessedAgentId>, Error>)
    requires
        old(subs).wf(),
        outcome matches Ok(ids) ==> ids@.len() == records@.len(),
    ensures
        final(subs).wf(),
        match outcome {
            Ok(ids) => r matches Ok(rids) && rids@ == ids@ && final(subs)@ == broadcast_all(
                old(subs)@,
                created_events(ids@, records@),
            ),
            Err(e) => r matches Err(re) && re == Error::Store(e) && final(subs)@ == old(subs)@,
        },
{
    match outcome {
        Ok(ids) => {
            let n = records.len();
            let mut i: usize = 0;
            while i < n
                invariant
                    n == records@.len(),
                    n == ids@.len(),
                    i <= n,
                    subs.wf(),
                    subs@ == broadcast_all(
                        old(subs)@,
                        created_events(ids@, records@).subrange(0, i as int),
                    ),
                decreases n - i,
            {
                let ghost before = subs@;
                let e = ChangeEvent::Created(ids[i], records[i].clone());
                subs.broadcast(&e);
                proof {
                    let all = created_events(ids@, records@);
                    assert(all.subrange(0, i + 1).drop_last() =~= all.subrange(0, i as int));
                    assert(all.subrange(0, i + 1).last() == e);
                }
                i = i + 1;
            }
            proof {
                let all = created_events(ids@, records@);
                assert(all.subrange(0, n as int) =~= all);
            }
            Ok(ids)
        },
        Err(e) => Err(Error::Store(e)),
    }
}

/// Announces an update once the store has answered: `Updated` only when the
/// record existed and was replaced.
pub fn finish_update(
    subs: &mut Subscribers,
    id: ProcessedAgentId,
    record: ProcessedAgent,
    outcome: Result<bool, StoreError>,
) -> (r: Result<bool, Error>)
    requires
        old(subs).wf(),
    ensures
        final(subs).wf(),
        match outcome {
            Ok(existed) => r == Ok::<bool, Error>(existed) && final(subs)@ == (if existed {
                old(subs)@.broadcast(ChangeEvent::Updated(id, record))
            } else {
                old(subs)@
            }),
            Err(e) => r == Err::<bool, Error>(Error::Store(e)) && final(subs)@ == old(subs)@,
        },
{
    match outcome {
        Ok(existed) => {
            if existed {
                subs.broadcast(&ChangeEvent::Updated(id, record));
            }
            Ok(existed)
        },
        Err(e) => Err(Error::Store(e)),
    }
}

/// Announces a delete once the store has answered: `Deleted` only when the
/// record existed and was removed.
pub fn finish_delete(
    subs: &mut Subscribers,
    id: ProcessedAgentId,
    outcome: Result<bool, StoreError>,
) -> (r: Result<bool, Error>)
    requires
        old(subs).wf(),
    ensures
        final(subs).wf(),
        match outcome {
            Ok(existed) => r == Ok::<bool, Error>(existed) && final(subs)@ == (if existed {
                old(subs)@.broadcast(ChangeEvent::Deleted(id))
            } else {
                old(subs)@
            }),
            Err(e) => r == Err::<bool, Error>(Error::Store(e)) && final(subs)@ == old(subs)@,
        },
{
    match outcome {
        Ok(existed) => {
            if existed {
                subs.broadcast(&ChangeEvent::Deleted(id));
            }
            Ok(existed)
        },
        Err(e) => Err(Error::Store(e)),
    }
}

/// Checks every record of a batch, in order.
pub fn validate_batch(records: &Vec<ProcessedAgent>) -> (r: Result<(), ValidationError>)
    ensures
        r is Ok <==> all_valid(records@),
        r matches Err(e) ==> exists|k: int|
            is_first_invalid(records@, k) && e == record_error(#[trigger] records@[k]),
{
    let mut i: usize = 0;
    while i < records.len()
        invariant
            i <= records@.len(),
            forall|j: int| 0 <= j < i ==> is_valid_record(#[trigger] records@[j]),
        decreases records@.len() - i,
    {
        match records[i].validate() {
            Ok(()) => {},
            Err(e) => {
                proof {
                    assert(is_first_invalid(records@, i as int));
                }
                return Err(e);
            },
        }
        i = i + 1;
    }
    Ok(())
}

/// Sequences writes to an in-memory record store with their announcements.
pub struct Orchestrator {
    store: RecordStore,
}

impl View for Orchestrator {
    type V = StoreView;

    closed spec fn view(&self) -> StoreView {
        self.store@
    }
}

impl Orchestrator {
    pub closed spec fn wf(&self) -> bool {
        self.store.wf()
    }

    /// An orchestrator over an empty store whose first identifier is 1.
    pub fn new() -> (r: Self)
        ensures
            r.wf(),
            r@.rows.len() == 0,
            r@.next_id == 1,
    {
        Orchestrator { store: RecordStore::new() }
    }

    /// Validates and stores one record, then announces `Created`.
    pub fn create(&mut self, subs: &mut Subscribers, record: ProcessedAgent) -> (r: Result<
        ProcessedAgentId,
        Error,
    >)
        requires
            old(self).wf(),
            old(subs).wf(),
        ensures
            final(self).wf(),
            final(subs).wf(),
            !is_valid_record(record) ==> r == Err::<ProcessedAgentId, Error>(
                Error::Validation(record_error(record)),
            ) && final(self)@ == old(self)@ && final(subs)@ == old(subs)@,
            is_valid_record(record) && !old(self)@.has_room(1) ==> r == Err::<
                ProcessedAgentId,
                Error,
            >(Error::Store(StoreError::WriteFailed)) && final(self)@ == old(self)@ && final(subs)@
                == old(subs)@,
            is_valid_record(record) && old(self)@.has_room(1) ==> r == Ok::<ProcessedAgentId, Error>(
                ProcessedAgentId(old(self)@.next_id as i32),
            ) && final(self)@ == old(self)@.insert(record) && final(subs)@ == old(subs)@.broadcast(
                ChangeEvent::Created(ProcessedAgentId(old(self)@.next_id as i32), record),
            ),
    {
        match record.validate() {
            Ok(()) => {},
            Err(e) => return Err(Error::Validation(e)),
        }
        let announced = record.clone();
        let outcome = self.store.insert(record);
        finish_create(subs, announced, outcome)
    }

    /// Validates and stores a batch, all or nothing, then announces one
    /// `Created` per record in submission order.
    pub fn create_batch(&mut self, subs: &mut Subscribers, records: Vec<ProcessedAgent>) -> (r:
        Result<Vec<ProcessedAgentId>, Error>)
        requires
            old(self).wf(),
            old(subs).wf(),
        ensures
            final(self).wf(),
            final(subs).wf(),
            !all_valid(records@) ==> final(self)@ == old(self)@ && final(subs)@ == old(subs)@ && (
            r matches Err(Error::Validation(e)) && exists|k: int|
                is_first_invalid(records@, k) && e == record_error(#[trigger] records@[k])),
            all_valid(records@) && !old(self)@.has_room(records@.len()) ==> final(self)@ == old(
                self,
            )@ && final(subs)@ == old(subs)@ && r matches Err(Error::Store(StoreError::WriteFailed)),
            all_valid(records@) && old(self)@.has_room(records@.len()) ==> final(self)@ == old(
                self,
            )@.insert_all(records@) && (r matches Ok(ids) && ids@ == old(self)@.fresh_ids(
                records@.len(),
            ) && final(subs)@ == broadcast_all(old(subs)@, created_events(ids@, records@))),
    {
        match validate_batch(&records) {
            Ok(()) => {},
            Err(e) => return Err(Error::Validation(e)),
        }
        let announced = records.clone();
        proof {
            assert(announced@ =~= records@) by {
                assert forall|i: int| 0 <= i < records@.len() implies announced@[i]
                    == records@[i] by {
                    assert(vstd::pervasive::cloned(records@[i], announced@[i]));
                }
            }
        }
        let outcome = self.store.insert_all(records);
        finish_create_batch(subs, announced, outcome)
    }

    /// The record stored under `id`.
    pub fn read(&self, id: ProcessedAgentId) -> (r: Option<ProcessedAgent>)
        requires
            self.wf(),
        ensures
            r == self@.lookup(id.0),
    {
        self.store.get(id)
    }

    /// The records of the requested page, in increasing order of identifier.
    pub fn read_page(&self, pagination: &Pagination) -> (r: Vec<ProcessedAgent>)
        requires
            self.wf(),
        ensures
            r@ == self@.page(pagination.page_number() as nat, pagination.page_size() as nat),
    {
        let page = pagination.page();
        let size = pagination.size().get();
        self.store.page(page, size)
    }

    /// Validates and replaces the record under `id`, then announces `Updated`
    /// if there was one; reports whether there was one.
    pub fn update(
        &mut self,
        subs: &mut Subscribers,
        id: ProcessedAgentId,
        record: ProcessedAgent,
    ) -> (r: Result<bool, Error>)
        requires
            old(self).wf(),
            old(subs).wf(),
        ensures
            final(self).wf(),
            final(subs).wf(),
            !is_valid_record(record) ==> r == Err::<bool, Error>(
                Error::Validation(record_error(record)),
            ) && final(self)@ == old(self)@ && final(subs)@ == old(subs)@,
            is_valid_record(record) ==> r == Ok::<bool, Error>(old(self)@.contains(id.0))
                && final(self)@ == old(self)@.replace(id.0, record) && final(subs)@ == (if old(
                self,
            )@.contains(id.0) {
                old(subs)@.broadcast(ChangeEvent::Updated(id, record))
            } else {
                old(subs)@
            }),
    {
        match record.validate() {
            Ok(()) => {},
            Err(e) => return Err(Error::Validation(e)),
        }
        let announced = record.clone();
        let existed = self.store.replace(id, record);
        finish_update(subs, id, announced, Ok(existed))
    }

    /// Removes the record under `id`, then announces `Deleted` if there was
    /// one; reports whether there was one.
    pub fn delete(&mut self, subs: &mut Subscribers, id: ProcessedAgentId) -> (existed: bool)
        requires
            old(self).wf(),
            old(subs).wf(),
        ensures
            final(self).wf(),
            final(subs).wf(),
            existed == old(self)@.contains(id.0),
            final(self)@ == old(self)@.remove(id.0),
            final(subs)@ == (if existed {
                old(subs)@.broadcast(ChangeEvent::Deleted(id))
            } else {
                old(subs)@
            }),
    {
        let existed = self.store.remove(id);
        match finish_delete(subs, id, Ok(existed)) {
            Ok(b) => b,
            Err(_) => existed,
        }
    }
}

} // verus!
