//! Telemetry ingestion core: record model, page validation, the in-memory
//! record store, the subscription registry that fans change events out to
//! live observers, and the orchestrator that persists before it notifies.
use vstd::prelude::*;

pub mod config;
pub mod data;
pub mod event;
pub mod pagination;
pub mod registry;
pub mod service;
pub mod session;
pub mod store;
pub mod text;

verus! {

/// Small combinators for chaining calls on any value.
pub trait KtConvenience: Sized {
    /// Runs `f` on the value for its side effects and returns the value.
    fn also<F: FnOnce(&Self)>(self, f: F) -> (r: Self)
        requires
            f.requires((&self,)),
        ensures
            r == self,
    {
        f(&self);
        self
    }

    /// Runs `f` to change the value and returns the changed value.
    fn apply<F: FnOnce(&mut Self)>(self, f: F) -> (r: Self)
        requires
            forall|v: &mut Self| #[trigger] f.requires((v,)),
        ensures
            exists|v: &mut Self| *v == self && #[trigger] f.ensures((v,), ()) && r == *final(v),
    {
        let mut v = self;
        f(&mut v);
        v
    }

    /// The value if `predicate` holds of it, nothing otherwise.
    fn take_if<F: FnOnce(&Self) -> bool>(self, predicate: F) -> (r: Option<Self>)
        requires
            predicate.requires((&self,)),
        ensures
            r matches Some(v) ==> v == self && predicate.ensures((&self,), true),
            r is None ==> predicate.ensures((&self,), false),
    {
        if predicate(&self) {
            Some(self)
        } else {
            None
        }
    }
}

impl<T> KtConvenience for T {

}

} // verus!
