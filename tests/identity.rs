use datacenter::identity::{get_current_max_id_reply, get_current_max_id_request, AllocationError, IdentityCounter};
use datacenter::record::{is_finite_number, SensorDataInput, EnergyDataInput, RecordFault};

#[test]
fn reservations_are_disjoint_and_increasing() {
    let mut c = IdentityCounter::new();
    let a = c.reserve(3).unwrap();
    let b = c.reserve(2).unwrap();
    let d = c.reserve(5).unwrap();
    assert_eq!((a, b, d), (0, 3, 5));
    assert!(a + 3 <= b && b + 2 <= d);
    assert_eq!(c.value, 10);
}

#[test]
fn reserving_zero_changes_nothing() {
    let mut c = IdentityCounter::new();
    c.reserve(4).unwrap();
    assert_eq!(c.reserve(0), Ok(0));
    assert_eq!(c.value, 4);
}

#[test]
fn counter_refuses_to_run_past_the_largest_identity() {
    let mut c = IdentityCounter { value: i64::MAX - 1 };
    assert_eq!(c.reserve(2), Err(AllocationError::Exhausted));
    assert_eq!(c.value, i64::MAX - 1);
    assert_eq!(c.reserve(1), Ok(i64::MAX - 1));
}

#[test]
fn request_for_zero_contacts_nothing() {
    assert_eq!(get_current_max_id_request(0), Ok(None));
    assert_eq!(get_current_max_id_request(7), Ok(Some(7)));
    assert_eq!(get_current_max_id_request(u64::MAX), Err(AllocationError::RequestTooLarge(u64::MAX)));
}

#[test]
fn reply_gives_the_value_before_the_block() {
    assert_eq!(get_current_max_id_reply(5, Ok(Some(10))), Ok(10));
    assert_eq!(get_current_max_id_reply(5, Ok(None)), Ok(0));
    assert_eq!(get_current_max_id_reply(5, Ok(Some(-1))), Err(AllocationError::InvalidCounter(-1)));
    assert_eq!(get_current_max_id_reply(5, Ok(Some(i64::MAX - 4))), Err(AllocationError::Exhausted));
    assert_eq!(
        get_current_max_id_reply(5, Err("down".to_string())),
        Err(AllocationError::Unreachable("down".to_string()))
    );
}

#[test]
fn finiteness_follows_the_exponent_bits() {
    assert!(is_finite_number(21.5f64.to_bits()));
    assert!(is_finite_number(0.0f64.to_bits()));
    assert!(is_finite_number(f64::MAX.to_bits()));
    assert!(!is_finite_number(f64::NAN.to_bits()));
    assert!(!is_finite_number(f64::INFINITY.to_bits()));
    assert!(!is_finite_number(f64::NEG_INFINITY.to_bits()));
}

#[test]
fn standalone_readings_are_validated() {
    let good = SensorDataInput {
        timestamp: Some("t".to_string()),
        temperature: Some(1.0f64.to_bits()),
        humidity: Some(2.0f64.to_bits()),
    };
    assert_eq!(good.validate_new_sensordata(), None);
    let missing = SensorDataInput { timestamp: None, temperature: Some(1.0f64.to_bits()), humidity: Some(2.0f64.to_bits()) };
    assert_eq!(missing.validate_new_sensordata(), Some(RecordFault::MissingField));
    let nan = SensorDataInput { timestamp: Some("t".to_string()), temperature: Some(f64::NAN.to_bits()), humidity: Some(2.0f64.to_bits()) };
    assert_eq!(nan.validate_new_sensordata(), Some(RecordFault::NonFinite));
    let energy = EnergyDataInput { timestamp: Some("t".to_string()), energy_cost: Some(0.1f64.to_bits()) };
    assert_eq!(energy.validate_new_energydata(), None);
    let energy = EnergyDataInput { timestamp: Some("t".to_string()), energy_cost: None };
    assert_eq!(energy.validate_new_energydata(), Some(RecordFault::MissingField));
}
