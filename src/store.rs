//! An in-memory record store: records keyed by store-assigned identifiers,
//! assigned in increasing order and never reused.
use vstd::prelude::*;

use crate::data::{ProcessedAgent, ProcessedAgentId};

verus! {

/// Why the store did not perform a write.
#[derive(Debug, Clone, Copy, PartialEq, Eq, Structural)]
pub enum StoreError {
    /// The store could not be reached.
    Unavailable,
    /// The store refused the write; for the in-memory store, identifiers ran out.
    WriteFailed,
}

/// What a store holds: its records in increasing order of identifier, and
/// the identifier the next insert receives.
pub struct StoreView {
    pub rows: Seq<(i32, ProcessedAgent)>,
    pub next_id: int,
}

impl StoreView {
    pub open spec fn wf(self) -> bool {
        &&& 1 <= self.next_id <= i32::MAX + 1
        &&& forall|i: int| 0 <= i < self.rows.len() ==> 1 <= #[trigger] self.rows[i].0 < self.next_id
        &&& forall|i: int, j: int|
            0 <= i < j < self.rows.len() ==> #[trigger] self.rows[i].0 < #[trigger] self.rows[j].0
    }

    /// Whether a record with this identifier is stored.
    pub open spec fn contains(self, id: i32) -> bool {
        exists|i: int| 0 <= i < self.rows.len() && #[trigger] self.rows[i].0 == id
    }

    /// The position of a stored identifier.
    pub open spec fn position(self, id: i32) -> int {
        choose|i: int| 0 <= i < self.rows.len() && #[trigger] self.rows[i].0 == id
    }

    /// The record stored under an identifier.
    pub open spec fn lookup(self, id: i32) -> Option<ProcessedAgent> {
        if self.contains(id) {
            Some(self.rows[self.position(id)].1)
        } else {
            None
        }
    }

    /// Whether `count` more identifiers can be assigned.
    pub open spec fn has_room(self, count: nat) -> bool {
        self.next_id + count <= i32::MAX + 1
    }

    /// The store after the records were inserted, in order, under fresh
    /// identifiers; unchanged when identifiers would run out.
    pub open spec fn insert_all(self, records: Seq<ProcessedAgent>) -> StoreView {
        if self.has_room(records.len()) {
            StoreView {
                rows: self.rows + Seq::new(
                    records.len(),
                    |i: int| ((self.next_id + i) as i32, records[i]),
                ),
                next_id: self.next_id + records.len(),
            }
        } else {
            self
        }
    }

    /// The identifiers that inserting `count` records assigns.
    pub open spec fn fresh_ids(self, count: nat) -> Seq<ProcessedAgentId> {
        Seq::new(count, |i: int| ProcessedAgentId((self.next_id + i) as i32))
    }

    /// The store after one record was inserted.
    pub open spec fn insert(self, record: ProcessedAgent) -> StoreView {
        self.insert_all(seq![record])
    }

    /// The store after the record under `id` was replaced, if there was one.
    pub open spec fn replace(self, id: i32, record: ProcessedAgent) -> StoreView {
        if self.contains(id) {
            StoreView { rows: self.rows.update(self.position(id), (id, record)), ..self }
        } else {
            self
        }
    }

    /// The store after the record under `id` was removed, if there was one.
    pub open spec fn remove(self, id: i32) -> StoreView {
        if self.contains(id) {
            StoreView { rows: self.rows.remove(self.position(id)), ..self }
        } else {
            self
        }
    }

    /// The records of a page: pages are `size` records long, numbered from 1,
    /// in increasing order of identifier; a page past the end is empty.
    pub open spec fn page(self, page: nat, size: nat) -> Seq<ProcessedAgent> {
        let start = if (page - 1) * size <= self.rows.len() {
            (page - 1) * size
        } else {
            self.rows.len() as int
        };
        let end = if start + size <= self.rows.len() {
            start + size
        } else {
            self.rows.len() as int
        };
        self.rows.subrange(start, end).map_values(|r: (i32, ProcessedAgent)| r.1)
    }
}

proof fn lemma_position(v: StoreView, i: int)
    requires
        v.wf(),
        0 <= i < v.rows.len(),
    ensures
        v.contains(v.rows[i].0),
        v.position(v.rows[i].0) == i,
{
    let id = v.rows[i].0;
    assert(v.rows[i].0 == id);
    let j = v.position(id);
    if j < i {
        assert(v.rows[j].0 < v.rows[i].0);
    } else if i < j {
        assert(v.rows[i].0 < v.rows[j].0);
    }
}

/// A record read back under the identifier its insert assigned is the record
/// that was inserted.
pub proof fn lemma_read_after_insert(s: StoreView, record: ProcessedAgent)
    requires
        s.wf(),
        s.has_room(1),
    ensures
        s.insert(record).wf(),
        s.insert(record).lookup(s.next_id as i32) == Some(record),
{
    let t = s.insert(record);
    let n = s.rows.len() as int;
    assert(t.rows[n] == (s.next_id as i32, record));
    assert forall|i: int| 0 <= i < t.rows.len() implies 1 <= #[trigger] t.rows[i].0 < t.next_id by {
        if i < n {
            assert(s.rows[i] == t.rows[i]);
        }
    }
    assert forall|i: int, j: int| 0 <= i < j < t.rows.len() implies #[trigger] t.rows[i].0
        < #[trigger] t.rows[j].0 by {
        assert(t.rows[i] == s.rows[i]);
        if j < n {
            assert(t.rows[j] == s.rows[j]);
        }
    }
    lemma_position(t, n);
}

struct Row {
    id: i32,
    record: ProcessedAgent,
}

/// Records held in memory, in increasing order of identifier.
pub struct RecordStore {
    rows: Vec<Row>,
    next_id: i64,
}

impl View for RecordStore {
    type V = StoreView;

    closed spec fn view(&self) -> StoreView {
        StoreView {
            rows: Seq::new(self.rows@.len(), |i: int| (self.rows@[i].id, self.rows@[i].record)),
            next_id: self.next_id as int,
        }
    }
}

impl RecordStore {
    pub closed spec fn wf(&self) -> bool {
        self@.wf()
    }

    /// An empty store whose first identifier is 1.
    pub fn new() -> (r: Self)
        ensures
            r.wf(),
            r@.rows.len() == 0,
            r@.next_id == 1,
    {
        let r = RecordStore { rows: Vec::new(), next_id: 1 };
        proof {
            assert(r@.rows =~= Seq::<(i32, ProcessedAgent)>::empty());
        }
        r
    }

    /// How many records are stored.
    pub fn len(&self) -> (r: usize)
        ensures
            r == self@.rows.len(),
    {
        self.rows.len()
    }

    fn find(&self, id: ProcessedAgentId) -> (r: Option<usize>)
        requires
            self.wf(),
        ensures
            r is Some <==> self@.contains(id.0),
            r matches Some(i) ==> i < self@.rows.len() && i == self@.position(id.0),
    {
        let mut i: usize = 0;
        while i < self.rows.len()
            invariant
                self.wf(),
                i <= self.rows@.len(),
                forall|j: int| 0 <= j < i ==> #[trigger] self@.rows[j].0 != id.0,
            decreases self.rows@.len() - i,
        {
            if self.rows[i].id == id.0 {
                proof {
                    lemma_position(self@, i as int);
                }
                return Some(i);
            }
            proof {
                assert(self@.rows[i as int].0 != id.0);
            }
            i = i + 1;
        }
        None
    }

    /// The record stored under `id`.
    pub fn get(&self, id: ProcessedAgentId) -> (r: Option<ProcessedAgent>)
        requires
            self.wf(),
        ensures
            r == self@.lookup(id.0),
    {
        match self.find(id) {
            Some(i) => Some(self.rows[i].record.clone()),
            None => None,
        }
    }

    /// Inserts the records, in order, under fresh identifiers, all or none.
    pub fn insert_all(&mut self, records: Vec<ProcessedAgent>) -> (r: Result<
        Vec<ProcessedAgentId>,
        StoreError,
    >)
        requires
            old(self).wf(),
        ensures
            final(self).wf(),
            final(self)@ == old(self)@.insert_all(records@),
            r is Ok <==> old(self)@.has_room(records@.len()),
            r matches Ok(ids) ==> ids@ == old(self)@.fresh_ids(records@.len()),
            r matches Err(e) ==> e == StoreError::WriteFailed,
    {
        let n = records.len();
        let room: i64 = (i32::MAX as i64) + 1 - self.next_id;
        if n as u64 > room as u64 {
            return Err(StoreError::WriteFailed);
        }
        let ghost old_view = self@;
        let mut ids: Vec<ProcessedAgentId> = Vec::new();
        let mut rest = records;
        let ghost all = rest@;
        let mut taken: usize = 0;
        // Take records from the back, then append them front to back.
        let mut reversed: Vec<ProcessedAgent> = Vec::new();
        while rest.len() > 0
            invariant
                rest@.len() + reversed@.len() == n,
                n == all.len(),
                forall|k: int| 0 <= k < rest@.len() ==> #[trigger] rest@[k] == all[k],
                forall|k: int|
                    0 <= k < reversed@.len() ==> #[trigger] reversed@[k] == all[n - 1 - k],
            decreases rest@.len(),
        {
            let item = rest.pop().unwrap();
            reversed.push(item);
        }
        while taken < n
            invariant
                old_view == old(self)@,
                old_view.wf(),
                old_view.has_room(n as nat),
                n == all.len(),
                taken <= n,
                reversed@.len() == n - taken,
                forall|k: int|
                    0 <= k < reversed@.len() ==> #[trigger] reversed@[k] == all[n - 1 - k],
                self.next_id == old_view.next_id + taken,
                self@.rows == old_view.rows + Seq::new(
                    taken as nat,
                    |i: int| ((old_view.next_id + i) as i32, all[i]),
                ),
                ids@ == old_view.fresh_ids(taken as nat),
            decreases n - taken,
        {
            let item = reversed.pop().unwrap();
            let id = self.next_id as i32;
            proof {
                assert(item == all[taken as int]);
            }
            let ghost before = self@;
            self.rows.push(Row { id, record: item });
            proof {
                assert(self@.rows =~= before.rows.push((id, all[taken as int])));
            }
            ids.push(ProcessedAgentId(id));
            self.next_id = self.next_id + 1;
            taken = taken + 1;
            proof {
                assert(self@.rows =~= old_view.rows + Seq::new(
                    taken as nat,
                    |i: int| ((old_view.next_id + i) as i32, all[i]),
                ));
                assert(ids@ =~= old_view.fresh_ids(taken as nat));
            }
        }
        proof {
            let want = old_view.insert_all(all);
            assert(self@.rows =~= want.rows);
            assert forall|i: int| 0 <= i < self@.rows.len() implies 1 <= #[trigger] self@.rows[i].0
                < self@.next_id by {}
            assert forall|i: int, j: int| 0 <= i < j < self@.rows.len() implies #[trigger] self@.rows[i].0
                < #[trigger] self@.rows[j].0 by {
                if j >= old_view.rows.len() {
                    if i < old_view.rows.len() {
                        assert(old_view.rows[i].0 < old_view.next_id);
                    }
                } else {
                    assert(old_view.rows[i].0 < old_view.rows[j].0);
                }
            }
        }
        Ok(ids)
    }

    /// Inserts one record under a fresh identifier.
    pub fn insert(&mut self, record: ProcessedAgent) -> (r: Result<ProcessedAgentId, StoreError>)
        requires
            old(self).wf(),
        ensures
            final(self).wf(),
            final(self)@ == old(self)@.insert(record),
            r is Ok <==> old(self)@.has_room(1),
            r matches Ok(id) ==> id.0 == old(self)@.next_id,
            r matches Err(e) ==> e == StoreError::WriteFailed,
    {
        let mut one: Vec<ProcessedAgent> = Vec::new();
        one.push(record);
        proof {
            assert(one@ =~= seq![record]);
        }
        match self.insert_all(one) {
            Ok(ids) => Ok(ids[0]),
            Err(e) => Err(e),
        }
    }

    /// Replaces the record under `id`; reports whether there was one.
    pub fn replace(&mut self, id: ProcessedAgentId, record: ProcessedAgent) -> (existed: bool)
        requires
            old(self).wf(),
        ensures
            final(self).wf(),
            existed == old(self)@.contains(id.0),
            final(self)@ == old(self)@.replace(id.0, record),
    {
        match self.find(id) {
            Some(i) => {
                self.rows.set(i, Row { id: id.0, record });
                proof {
                    assert(self@.rows =~= old(self)@.replace(id.0, record).rows);
                }
                true
            },
            None => false,
        }
    }

    /// Removes the record under `id`; reports whether there was one.
    pub fn remove(&mut self, id: ProcessedAgentId) -> (existed: bool)
        requires
            old(self).wf(),
        ensures
            final(self).wf(),
            existed == old(self)@.contains(id.0),
            final(self)@ == old(self)@.remove(id.0),
    {
        match self.find(id) {
            Some(i) => {
                self.rows.remove(i);
                proof {
                    assert(self@.rows =~= old(self)@.rows.remove(i as int));
                    assert forall|a: int, b: int| 0 <= a < b < self@.rows.len() implies
                        #[trigger] self@.rows[a].0 < #[trigger] self@.rows[b].0 by {
                        let a0 = if a < i { a } else { a + 1 };
                        let b0 = if b < i { b } else { b + 1 };
                        assert(old(self)@.rows[a0].0 < old(self)@.rows[b0].0);
                    }
                }
                true
            },
            None => false,
        }
    }

    /// The records of page `page` with `size` records a page, in increasing
    /// order of identifier.
    pub fn page(&self, page: u32, size: u8) -> (r: Vec<ProcessedAgent>)
        requires
            self.wf(),
            page >= 1,
            size >= 1,
        ensures
            r@ == self@.page(page as nat, size as nat),
    {
        let len = self.rows.len();
        proof {
            assert((page - 1) * size <= 0xffff_ffffu64 * 0xffu64) by (nonlinear_arith)
                requires
                    1 <= page <= 0xffff_ffffu64,
                    size <= 0xffu64,
            ;
        }
        let skip: u64 = (page as u64 - 1) * (size as u64);
        let start: usize = if skip <= len as u64 { skip as usize } else { len };
        let end: usize = if size as usize <= len - start {
            start + size as usize
        } else {
            len
        };
        let mut out: Vec<ProcessedAgent> = Vec::new();
        let mut i: usize = start;
        while i < end
            invariant
                self.wf(),
                start <= i <= end,
                end <= self.rows@.len(),
                out@ == self@.rows.subrange(start as int, i as int).map_values(
                    |r: (i32, ProcessedAgent)| r.1,
                ),
            decreases end - i,
        {
            out.push(self.rows[i].record.clone());
            i = i + 1;
            proof {
                assert(out@ =~= self@.rows.subrange(start as int, i as int).map_values(
                    |r: (i32, ProcessedAgent)| r.1,
                ));
            }
        }
        proof {
            assert(start == (if (page - 1) * size <= self@.rows.len() {
                (page - 1) * size
            } else {
                self@.rows.len() as int
            })) by (nonlinear_arith)
                requires
                    skip == (page - 1) * size,
                    start == (if skip <= len { skip as int } else { len as int }),
                    len == self@.rows.len(),
            ;
        }
        out
    }
}

} // verus!
