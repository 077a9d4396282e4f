//! Notifications of committed mutations.
use vstd::prelude::*;

use crate::data::{ProcessedAgent, ProcessedAgentId};

verus! {

/// One committed create, update or delete.
#[derive(Debug, PartialEq, Eq)]
pub enum ChangeEvent {
    Created(ProcessedAgentId, ProcessedAgent),
    Updated(ProcessedAgentId, ProcessedAgent),
    Deleted(ProcessedAgentId),
}

impl Clone for ChangeEvent {
    fn clone(&self) -> (r: Self)
        ensures
            r == *self,
    {
        match self {
            ChangeEvent::Created(id, p) => ChangeEvent::Created(*id, p.clone()),
            ChangeEvent::Updated(id, p) => ChangeEvent::Updated(*id, p.clone()),
            ChangeEvent::Deleted(id) => ChangeEvent::Deleted(*id),
        }
    }
}

impl ChangeEvent {
    /// The identifier of the record the event is about.
    pub fn id(&self) -> (r: ProcessedAgentId)
        ensures
            r == event_id(*self),
    {
        match self {
            ChangeEvent::Created(id, _) => *id,
            ChangeEvent::Updated(id, _) => *id,
            ChangeEvent::Deleted(id) => *id,
        }
    }
}

/// The identifier of the record an event is about.
pub open spec fn event_id(e: ChangeEvent) -> ProcessedAgentId {
    match e {
        ChangeEvent::Created(id, _) => id,
        ChangeEvent::Updated(id, _) => id,
        ChangeEvent::Deleted(id) => id,
    }
}

} // verus!
