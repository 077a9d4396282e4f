use lab2::data::{Accelerometer, Agent, Gps, ProcessedAgent, ProcessedAgentId, Timestamp, ValidationError};
use lab2::event::ChangeEvent;
use lab2::registry::Subscribers;
use lab2::service::{finish_create, finish_create_batch, finish_delete, finish_update, Error, Orchestrator};
use lab2::session::{Session, SessionState};
use lab2::store::StoreError;

fn rec(road_state: &str) -> ProcessedAgent {
    ProcessedAgent {
        agent_data: Agent {
            accelerometer: Accelerometer { x: 0.1f64.to_bits(), y: 0.2f64.to_bits(), z: 9.8f64.to_bits() },
            gps: Gps { latitude: 50.0f64.to_bits(), longitude: 30.0f64.to_bits() },
            timestamp: Timestamp { seconds: 1_714_000_000, nanos: 0 },
        },
        road_state: road_state.to_string(),
    }
}

fn id(n: i32) -> ProcessedAgentId {
    ProcessedAgentId::new(n)
}

fn drain(subs: &mut Subscribers, session: &Session) -> Vec<ChangeEvent> {
    let mut out = Vec::new();
    while let Some(e) = session.next_outgoing(subs) {
        out.push(e);
    }
    out
}

#[test]
fn create_then_read_returns_the_record() {
    let mut o = Orchestrator::new();
    let mut subs = Subscribers::new();
    let a = o.create(&mut subs, rec("NORMAL")).unwrap();
    let b = o.create(&mut subs, rec("BUMPY")).unwrap();
    assert_eq!(o.read(a), Some(rec("NORMAL")));
    assert_eq!(o.read(b), Some(rec("BUMPY")));
    assert_eq!(o.read(id(99)), None);
}

#[test]
fn batch_ids_and_events_follow_submission_order() {
    let mut o = Orchestrator::new();
    let mut subs = Subscribers::new();
    let mut s = Session::new();
    s.activate(&mut subs);
    o.create(&mut subs, rec("FIRST")).unwrap();
    let ids = o.create_batch(&mut subs, vec![rec("A"), rec("B"), rec("C")]).unwrap();
    assert_eq!(ids, vec![id(2), id(3), id(4)]);
    assert_eq!(
        drain(&mut subs, &s),
        vec![
            ChangeEvent::Created(id(1), rec("FIRST")),
            ChangeEvent::Created(id(2), rec("A")),
            ChangeEvent::Created(id(3), rec("B")),
            ChangeEvent::Created(id(4), rec("C")),
        ]
    );
    assert_eq!(o.read(id(3)), Some(rec("B")));
}

#[test]
fn batch_with_invalid_record_stores_and_announces_nothing() {
    let mut o = Orchestrator::new();
    let mut subs = Subscribers::new();
    let h = subs.register();
    let mut bad = rec("X");
    bad.agent_data.gps.latitude = f64::NAN.to_bits();
    let r = o.create_batch(&mut subs, vec![rec("A"), bad, rec(&"L".repeat(256))]);
    assert_eq!(r, Err(Error::Validation(ValidationError::NonFiniteReading)));
    assert_eq!(subs.pending(h), 0);
    assert_eq!(o.read(id(1)), None);
    assert_eq!(o.create(&mut subs, rec("A")), Ok(id(1)));
}

#[test]
fn empty_batch_announces_nothing() {
    let mut o = Orchestrator::new();
    let mut subs = Subscribers::new();
    let h = subs.register();
    assert_eq!(o.create_batch(&mut subs, Vec::new()), Ok(Vec::new()));
    assert_eq!(subs.pending(h), 0);
}

#[test]
fn invalid_create_is_not_stored_or_announced() {
    let mut o = Orchestrator::new();
    let mut subs = Subscribers::new();
    let h = subs.register();
    let r = o.create(&mut subs, rec(&"x".repeat(256)));
    assert_eq!(r, Err(Error::Validation(ValidationError::RoadStateTooLong)));
    assert_eq!(subs.pending(h), 0);
    assert_eq!(o.read(id(1)), None);
}

#[test]
fn absent_ids_report_missing_and_announce_nothing() {
    let mut o = Orchestrator::new();
    let mut subs = Subscribers::new();
    let h = subs.register();
    assert_eq!(o.update(&mut subs, id(5), rec("JAMMED")), Ok(false));
    assert!(!o.delete(&mut subs, id(5)));
    assert_eq!(subs.pending(h), 0);
    assert_eq!(o.read(id(5)), None);
}

#[test]
fn update_and_delete_announce_once_to_each_subscriber() {
    let mut o = Orchestrator::new();
    let mut subs = Subscribers::new();
    let a = o.create(&mut subs, rec("NORMAL")).unwrap();
    let h1 = subs.register();
    let h2 = subs.register();
    assert_eq!(o.update(&mut subs, a, rec("JAMMED")), Ok(true));
    for h in [h1, h2] {
        assert_eq!(subs.pending(h), 1);
        assert_eq!(subs.next_event(h), Some(ChangeEvent::Updated(a, rec("JAMMED"))));
        assert_eq!(subs.next_event(h), None);
    }
    assert!(o.delete(&mut subs, a));
    for h in [h1, h2] {
        assert_eq!(subs.next_event(h), Some(ChangeEvent::Deleted(a)));
        assert_eq!(subs.next_event(h), None);
    }
    assert_eq!(o.read(a), None);
}

#[test]
fn invalid_update_changes_nothing() {
    let mut o = Orchestrator::new();
    let mut subs = Subscribers::new();
    let a = o.create(&mut subs, rec("NORMAL")).unwrap();
    let h = subs.register();
    let mut bad = rec("JAMMED");
    bad.agent_data.accelerometer.y = f64::INFINITY.to_bits();
    assert_eq!(o.update(&mut subs, a, bad), Err(Error::Validation(ValidationError::NonFiniteReading)));
    assert_eq!(subs.pending(h), 0);
    assert_eq!(o.read(a), Some(rec("NORMAL")));
}

#[test]
fn late_subscriber_misses_earlier_events() {
    let mut o = Orchestrator::new();
    let mut subs = Subscribers::new();
    let early = subs.register();
    let a = o.create(&mut subs, rec("NORMAL")).unwrap();
    let late = subs.register();
    assert_eq!(subs.pending(late), 0);
    assert_eq!(subs.next_event(early), Some(ChangeEvent::Created(a, rec("NORMAL"))));
    assert!(o.delete(&mut subs, a));
    assert_eq!(subs.next_event(late), Some(ChangeEvent::Deleted(a)));
}

#[test]
fn full_queue_drops_only_its_own_events() {
    let mut o = Orchestrator::new();
    let mut subs = Subscribers::with_queue_capacity(2);
    let slow = subs.register();
    let fast = subs.register();
    let a = o.create(&mut subs, rec("A")).unwrap();
    let b = o.create(&mut subs, rec("B")).unwrap();
    assert_eq!(subs.next_event(fast), Some(ChangeEvent::Created(a, rec("A"))));
    let c = o.create(&mut subs, rec("C")).unwrap();
    assert_eq!(subs.pending(slow), 2);
    assert_eq!(subs.len(), 2);
    assert_eq!(subs.next_event(slow), Some(ChangeEvent::Created(a, rec("A"))));
    assert_eq!(subs.next_event(slow), Some(ChangeEvent::Created(b, rec("B"))));
    assert_eq!(subs.next_event(slow), None);
    assert_eq!(subs.next_event(fast), Some(ChangeEvent::Created(b, rec("B"))));
    assert_eq!(subs.next_event(fast), Some(ChangeEvent::Created(c, rec("C"))));
    let d = o.create(&mut subs, rec("D")).unwrap();
    assert_eq!(subs.next_event(slow), Some(ChangeEvent::Created(d, rec("D"))));
    assert_eq!(o.read(c), Some(rec("C")));
}

#[test]
fn unregister_is_idempotent() {
    let mut subs = Subscribers::new();
    let h = subs.register();
    let other = subs.register();
    subs.unregister(h);
    subs.unregister(h);
    assert!(!subs.is_registered(h));
    assert!(subs.is_registered(other));
    subs.broadcast(&ChangeEvent::Deleted(id(1)));
    assert_eq!(subs.next_event(h), None);
    assert_eq!(subs.next_event(other), Some(ChangeEvent::Deleted(id(1))));
    let again = subs.register();
    assert_ne!(again, h);
}

#[test]
fn create_update_delete_scenario() {
    let mut o = Orchestrator::new();
    let mut subs = Subscribers::new();
    let mut s = Session::new();
    s.activate(&mut subs);
    let a = rec("NORMAL");
    let id1 = o.create(&mut subs, a.clone()).unwrap();
    assert_eq!(id1, id(1));
    assert_eq!(s.next_outgoing(&mut subs), Some(ChangeEvent::Created(id(1), a.clone())));
    let mut a2 = a.clone();
    a2.road_state = "JAMMED".to_string();
    assert_eq!(o.update(&mut subs, id(1), a2.clone()), Ok(true));
    assert_eq!(s.next_outgoing(&mut subs), Some(ChangeEvent::Updated(id(1), a2)));
    assert!(o.delete(&mut subs, id(1)));
    assert_eq!(s.next_outgoing(&mut subs), Some(ChangeEvent::Deleted(id(1))));
    assert!(!o.delete(&mut subs, id(1)));
    assert_eq!(s.next_outgoing(&mut subs), None);
}

#[test]
fn store_failure_is_reported_without_event() {
    let mut subs = Subscribers::new();
    let h = subs.register();
    assert_eq!(
        finish_create(&mut subs, rec("A"), Err(StoreError::Unavailable)),
        Err(Error::Store(StoreError::Unavailable))
    );
    assert_eq!(
        finish_create_batch(&mut subs, vec![rec("A")], Err(StoreError::WriteFailed)),
        Err(Error::Store(StoreError::WriteFailed))
    );
    assert_eq!(
        finish_update(&mut subs, id(1), rec("A"), Err(StoreError::Unavailable)),
        Err(Error::Store(StoreError::Unavailable))
    );
    assert_eq!(finish_delete(&mut subs, id(1), Err(StoreError::WriteFailed)), Err(Error::Store(StoreError::WriteFailed)));
    assert_eq!(subs.pending(h), 0);
}

#[test]
fn confirmed_writes_are_announced() {
    let mut subs = Subscribers::new();
    let h = subs.register();
    assert_eq!(finish_create(&mut subs, rec("A"), Ok(id(8))), Ok(id(8)));
    assert_eq!(
        finish_create_batch(&mut subs, vec![rec("B"), rec("C")], Ok(vec![id(9), id(10)])),
        Ok(vec![id(9), id(10)])
    );
    assert_eq!(finish_update(&mut subs, id(8), rec("D"), Ok(true)), Ok(true));
    assert_eq!(finish_update(&mut subs, id(70), rec("D"), Ok(false)), Ok(false));
    assert_eq!(finish_delete(&mut subs, id(9), Ok(true)), Ok(true));
    assert_eq!(finish_delete(&mut subs, id(71), Ok(false)), Ok(false));
    let mut got = Vec::new();
    while let Some(e) = subs.next_event(h) {
        got.push(e);
    }
    assert_eq!(
        got,
        vec![
            ChangeEvent::Created(id(8), rec("A")),
            ChangeEvent::Created(id(9), rec("B")),
            ChangeEvent::Created(id(10), rec("C")),
            ChangeEvent::Updated(id(8), rec("D")),
            ChangeEvent::Deleted(id(9)),
        ]
    );
}

#[test]
fn session_lifecycle() {
    let mut subs = Subscribers::new();
    let mut s = Session::new();
    assert_eq!(s.state(), SessionState::Connecting);
    assert_eq!(s.next_outgoing(&mut subs), None);
    s.activate(&mut subs);
    let h = match s.state() {
        SessionState::Active(h) => h,
        other => panic!("not active: {other:?}"),
    };
    assert!(subs.is_registered(h));
    s.activate(&mut subs);
    assert_eq!(subs.len(), 1);
    subs.broadcast(&ChangeEvent::Deleted(id(3)));
    s.close(&mut subs);
    assert_eq!(s.state(), SessionState::Closed);
    assert!(!subs.is_registered(h));
    assert_eq!(s.next_outgoing(&mut subs), None);
    s.close(&mut subs);
    assert_eq!(s.state(), SessionState::Closed);
    assert_eq!(subs.len(), 0);
}

#[test]
fn event_ids() {
    assert_eq!(ChangeEvent::Created(id(1), rec("A")).id(), id(1));
    assert_eq!(ChangeEvent::Updated(id(2), rec("A")).id(), id(2));
    assert_eq!(ChangeEvent::Deleted(id(3)).id(), id(3));
}
