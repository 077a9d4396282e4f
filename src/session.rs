//! An observer session: `Connecting`, then `Active` with a sink in the
//! registry, then `Closed`. The transport that carries events to the
//! observer is driven from outside; the session decides what is registered,
//! what is forwarded, and that closing always unregisters.
use vstd::prelude::*;

use crate::event::ChangeEvent;
use crate::registry::{SubscriberHandle, Subscribers};

verus! {

/// Where an observer session stands.
#[derive(Debug, Clone, Copy, PartialEq, Eq, Structural)]
pub enum SessionState {
    Connecting,
    Active(SubscriberHandle),
    Closed,
}

/// One connected observer.
#[derive(Debug)]
pub struct Session {
    state: SessionState,
}

impl Session {
    /// Where the session stands.
    pub closed spec fn state_of(&self) -> SessionState {
        self.state
    }

    /// A session whose transport is still connecting.
    pub fn new() -> (r: Session)
        ensures
            r.state_of() == SessionState::Connecting,
    {
        Session { state: SessionState::Connecting }
    }

    /// Where the session stands.
    pub fn state(&self) -> (r: SessionState)
        ensures
            r == self.state_of(),
    {
        self.state
    }

    /// The transport is up: a connecting session registers a sink and becomes
    /// active; a session in any other state is left as it is.
    pub fn activate(&mut self, subs: &mut Subscribers)
        requires
            old(subs).wf(),
            old(self).state_of() == SessionState::Connecting ==> old(subs)@.next_handle < u64::MAX,
        ensures
            final(subs).wf(),
            old(self).state_of() == SessionState::Connecting ==> final(self).state_of()
                == SessionState::Active(SubscriberHandle(old(subs)@.next_handle as u64))
                && final(subs)@ == old(subs)@.register(),
            old(self).state_of() != SessionState::Connecting ==> {
                &&& final(self).state_of() == old(self).state_of()
                &&& final(subs)@ == old(subs)@
            },
    {
        match self.state {
            SessionState::Connecting => {
                let h = subs.register();
                self.state = SessionState::Active(h);
            },
            _ => {},
        }
    }

    /// The next event to forward to the observer: the oldest one waiting in
    /// an active session's sink; nothing for a session that is not active.
    pub fn next_outgoing(&self, subs: &mut Subscribers) -> (r: Option<ChangeEvent>)
        requires
            old(subs).wf(),
        ensures
            final(subs).wf(),
            match self.state_of() {
                SessionState::Active(h) => {
                    let q = old(subs)@.queue(h.0);
                    &&& final(subs)@ == old(subs)@.take(h.0)
                    &&& r == (if q.len() > 0 {
                        Some(q[0])
                    } else {
                        None::<ChangeEvent>
                    })
                },
                _ => final(subs)@ == old(subs)@ && r is None,
            },
    {
        match self.state {
            SessionState::Active(h) => subs.next_event(h),
            _ => None,
        }
    }

    /// The transport closed or failed, a send failed, or the session is shut
    /// down: the session closes, and an active session's sink is
    /// unregistered. Closing again changes nothing.
    pub fn close(&mut self, subs: &mut Subscribers)
        requires
            old(subs).wf(),
        ensures
            final(subs).wf(),
            final(self).state_of() == SessionState::Closed,
            match old(self).state_of() {
                SessionState::Active(h) => {
                    &&& final(subs)@ == old(subs)@.unregister(h.0)
                    &&& !final(subs)@.contains(h.0)
                },
                _ => final(subs)@ == old(subs)@,
            },
    {
        match self.state {
            SessionState::Active(h) => subs.unregister(h),
            _ => {},
        }
        self.state = SessionState::Closed;
    }
}

} // verus!
