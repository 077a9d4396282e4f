use lab2::config::Environment;
use lab2::data::{
    finite_bits, Accelerometer, Agent, Gps, ProcessedAgent, ProcessedAgentDao, ProcessedAgentId,
    ProcessedAgentWithId, Timestamp, ValidationError,
};
use lab2::KtConvenience;

fn reading(road_state: &str, x: f64) -> ProcessedAgent {
    ProcessedAgent {
        agent_data: Agent {
            accelerometer: Accelerometer { x: x.to_bits(), y: 0.5f64.to_bits(), z: 9.81f64.to_bits() },
            gps: Gps { latitude: 50.45f64.to_bits(), longitude: 30.52f64.to_bits() },
            timestamp: Timestamp { seconds: 1_700_000_000, nanos: 250 },
        },
        road_state: road_state.to_string(),
    }
}

#[test]
fn valid_record_passes() {
    assert_eq!(reading("NORMAL", 1.0).validate(), Ok(()));
}

#[test]
fn road_state_of_255_chars_passes() {
    let label: String = std::iter::repeat('\u{436}').take(255).collect();
    assert_eq!(reading(&label, 1.0).validate(), Ok(()));
}

#[test]
fn road_state_of_256_chars_is_rejected() {
    let label = "a".repeat(256);
    assert_eq!(reading(&label, 1.0).validate(), Err(ValidationError::RoadStateTooLong));
}

#[test]
fn non_finite_readings_are_rejected() {
    assert_eq!(reading("NORMAL", f64::NAN).validate(), Err(ValidationError::NonFiniteReading));
    assert_eq!(reading("NORMAL", f64::INFINITY).validate(), Err(ValidationError::NonFiniteReading));
    assert_eq!(
        reading("NORMAL", f64::NEG_INFINITY).validate(),
        Err(ValidationError::NonFiniteReading)
    );
}

#[test]
fn long_label_is_reported_before_bad_reading() {
    let label = "b".repeat(300);
    assert_eq!(reading(&label, f64::NAN).validate(), Err(ValidationError::RoadStateTooLong));
}

#[test]
fn finite_bit_patterns() {
    assert!(finite_bits(0.0f64.to_bits()));
    assert!(finite_bits(f64::MAX.to_bits()));
    assert!(finite_bits((-1.5f64).to_bits()));
    assert!(!finite_bits(f64::NAN.to_bits()));
    assert!(!finite_bits(f64::INFINITY.to_bits()));
}

#[test]
fn record_to_row_and_back() {
    let with_id = ProcessedAgentWithId { id: Some(ProcessedAgentId::new(7)), data: reading("JAMMED", 2.25) };
    let row = ProcessedAgentDao::from(with_id);
    assert_eq!(row.id, Some(ProcessedAgentId::new(7)));
    assert_eq!(row.road_state, "JAMMED");
    assert_eq!(f64::from_bits(row.x), 2.25);
    assert_eq!(f64::from_bits(row.z), 9.81);
    assert_eq!(f64::from_bits(row.latitude), 50.45);
    assert_eq!(f64::from_bits(row.longitude), 30.52);
    assert_eq!(row.timestamp, Timestamp { seconds: 1_700_000_000, nanos: 250 });
    let back = ProcessedAgentWithId::from(row);
    assert_eq!(back.id, Some(ProcessedAgentId::new(7)));
    assert_eq!(back.data, reading("JAMMED", 2.25));
}

#[test]
fn row_to_record_drops_id() {
    let row = ProcessedAgentDao {
        id: None,
        road_state: "NORMAL".to_string(),
        x: 1.0f64.to_bits(),
        y: 0.5f64.to_bits(),
        z: 9.81f64.to_bits(),
        latitude: 50.45f64.to_bits(),
        longitude: 30.52f64.to_bits(),
        timestamp: Timestamp { seconds: 1_700_000_000, nanos: 250 },
    };
    assert_eq!(ProcessedAgent::from(row), reading("NORMAL", 1.0));
}

#[test]
fn id_in_decimal() {
    assert_eq!(ProcessedAgentId::new(0).to_string(), "0");
    assert_eq!(ProcessedAgentId::new(42).to_string(), "42");
    assert_eq!(ProcessedAgentId::new(-7).to_string(), "-7");
    assert_eq!(ProcessedAgentId::new(i32::MAX).to_string(), "2147483647");
    assert_eq!(ProcessedAgentId::new(i32::MIN).to_string(), "-2147483648");
}

#[test]
fn location_path() {
    assert_eq!(ProcessedAgentId::new(1).location(), "/processed-agent-data/1");
    assert_eq!(ProcessedAgentId::new(1305).location(), "/processed-agent-data/1305");
}

#[test]
fn environment_names() {
    assert_eq!(Environment::Local.as_str(), "local");
    assert_eq!(Environment::Production.as_str(), "production");
    assert_eq!(Environment::parse("local"), Ok(Environment::Local));
    assert_eq!("production".parse::<Environment>(), Ok(Environment::Production));
    let err = Environment::parse("staging").unwrap_err();
    assert_eq!(err.name, "staging");
    assert!(Environment::parse("Local").is_err());
    assert!(Environment::parse("").is_err());
}

#[test]
fn convenience_combinators() {
    let mut seen = 0;
    let v = 5.also(|x| seen = *x);
    assert_eq!(v, 5);
    assert_eq!(seen, 5);
    assert_eq!(vec![1, 2].apply(|v| v.push(3)), vec![1, 2, 3]);
    assert_eq!(4.take_if(|x| *x % 2 == 0), Some(4));
    assert_eq!(3.take_if(|x| *x % 2 == 0), None);
}
