use datacenter::identity::AllocationError;
use datacenter::record::{EnergyInput, RecordInput, SensorInput};
use datacenter::write_fanout::{CreateError, CreateRun, CreateStep, Partition, BATCH_SIZE};

fn record(uuid: &str, temperature: f64) -> RecordInput {
    RecordInput {
        uuid: Some(uuid.to_string()),
        color: Some("red".to_string()),
        sensor: Some(SensorInput {
            temperature: Some(temperature.to_bits()),
            humidity: Some(40.0f64.to_bits()),
        }),
        timestamp: Some("2024-01-01T00:00:00Z".to_string()),
        energy: Some(EnergyInput { consume: Some(0.5f64.to_bits()), cost: Some(0.02f64.to_bits()) }),
    }
}

fn ok() -> Result<(), String> {
    Ok(())
}

#[test]
fn empty_batch_finishes_at_once() {
    let (run, step) = CreateRun::start(&Vec::new()).unwrap();
    assert!(matches!(step, CreateStep::Finished));
    let report = run.into_report();
    assert_eq!(report.processed_count, 0);
    assert!(report.errors.is_empty());
}

#[test]
fn missing_uuid_is_a_validation_error() {
    let mut bad = record("u2", 21.5);
    bad.uuid = None;
    let input = vec![record("u1", 21.5), bad];
    match CreateRun::start(&input) {
        Err(CreateError::Validation { index }) => assert_eq!(index, 1),
        _ => panic!("expected a validation error"),
    }
}

#[test]
fn missing_energy_cost_is_a_validation_error() {
    let mut bad = record("u1", 21.5);
    bad.energy = Some(EnergyInput { consume: Some(1.0f64.to_bits()), cost: None });
    match CreateRun::start(&vec![bad]) {
        Err(CreateError::Validation { index }) => assert_eq!(index, 0),
        _ => panic!("expected a validation error"),
    }
}

#[test]
fn nan_temperature_is_a_serialization_error() {
    let input = vec![record("u1", 21.5), record("u2", f64::NAN)];
    match CreateRun::start(&input) {
        Err(CreateError::Serialization { index }) => assert_eq!(index, 1),
        _ => panic!("expected a serialization error"),
    }
}

#[test]
fn infinite_cost_is_a_serialization_error() {
    let mut bad = record("u1", 21.5);
    bad.energy = Some(EnergyInput { consume: Some(0.5f64.to_bits()), cost: Some(f64::INFINITY.to_bits()) });
    assert!(matches!(CreateRun::start(&vec![bad]), Err(CreateError::Serialization { index: 0 })));
}

#[test]
fn missing_field_is_reported_before_a_later_nan() {
    let mut missing = record("u2", 21.5);
    missing.color = None;
    let input = vec![record("u1", f64::NAN), missing];
    assert!(matches!(CreateRun::start(&input), Err(CreateError::Serialization { index: 0 })));
    let mut missing = record("u2", 21.5);
    missing.color = None;
    let input = vec![missing, record("u1", f64::NAN)];
    assert!(matches!(CreateRun::start(&input), Err(CreateError::Validation { index: 0 })));
}

#[test]
fn one_record_is_written_to_three_partitions() {
    let (mut run, step) = CreateRun::start(&vec![record("u1", 21.5)]).unwrap();
    assert!(matches!(step, CreateStep::Reserve(1)));
    assert!(run.errors.is_empty());
    let batch = match run.on_reserved(Ok(Some(41))) {
        Ok(CreateStep::Write(b)) => b,
        _ => panic!("expected a write"),
    };
    assert_eq!(batch.index, 0);
    assert_eq!(batch.identity_rows.len(), 1);
    assert_eq!(batch.identity_rows[0].id, 42);
    assert_eq!(batch.identity_rows[0].uuid, "u1");
    assert_eq!(batch.identity_rows[0].color, "red");
    assert_eq!(batch.sensor_rows[0].id, 42);
    assert_eq!(f64::from_bits(batch.sensor_rows[0].temperature), 21.5);
    assert_eq!(f64::from_bits(batch.sensor_rows[0].humidity), 40.0);
    assert_eq!(batch.sensor_rows[0].timestamp, "2024-01-01T00:00:00Z");
    assert_eq!(batch.energy_rows[0].id, 42);
    assert_eq!(f64::from_bits(batch.energy_rows[0].energy_consume), 0.5);
    assert_eq!(f64::from_bits(batch.energy_rows[0].energy_cost), 0.02);
    let step = run.on_batch_written(ok(), ok(), ok());
    assert!(matches!(step, CreateStep::Finished));
    let report = run.into_report();
    assert_eq!(report.processed_count, 1);
    assert!(report.errors.is_empty());
}

#[test]
fn fresh_counter_starts_identities_at_one() {
    let (mut run, _) = CreateRun::start(&vec![record("a", 1.0), record("b", 2.0)]).unwrap();
    match run.on_reserved(Ok(None)) {
        Ok(CreateStep::Write(b)) => {
            assert_eq!(b.identity_rows[0].id, 1);
            assert_eq!(b.identity_rows[1].id, 2);
            assert_eq!(b.identity_rows[1].uuid, "b");
        }
        _ => panic!("expected a write"),
    }
}

#[test]
fn failed_partition_drops_the_batch_from_the_count() {
    let (mut run, _) = CreateRun::start(&vec![record("u1", 21.5), record("u2", 22.5)]).unwrap();
    run.on_reserved(Ok(Some(0))).unwrap();
    let step = run.on_batch_written(ok(), ok(), Err("shard 3 down".to_string()));
    assert!(matches!(step, CreateStep::Finished));
    let report = run.into_report();
    assert_eq!(report.processed_count, 0);
    assert_eq!(report.errors.len(), 1);
    assert_eq!(report.errors[0].partition, Partition::Energy);
    assert_eq!(report.errors[0].batch, 0);
    assert_eq!(report.errors[0].message, "shard 3 down");
}

#[test]
fn every_partition_failure_is_recorded() {
    let (mut run, _) = CreateRun::start(&vec![record("u1", 21.5)]).unwrap();
    run.on_reserved(Ok(Some(0))).unwrap();
    run.on_batch_written(Err("a".to_string()), Err("b".to_string()), Err("c".to_string()));
    let report = run.into_report();
    assert_eq!(report.processed_count, 0);
    assert_eq!(report.errors.len(), 3);
    assert_eq!(report.errors[0].partition, Partition::Identity);
    assert_eq!(report.errors[1].partition, Partition::Sensor);
    assert_eq!(report.errors[2].partition, Partition::Energy);
}

#[test]
fn batches_are_bounded_and_counted_separately() {
    let n = BATCH_SIZE + 1;
    let input: Vec<RecordInput> = (0..n).map(|i| record(&format!("u{}", i), 20.0)).collect();
    let (mut run, step) = CreateRun::start(&input).unwrap();
    assert!(matches!(step, CreateStep::Reserve(k) if k == n as u64));
    let first = match run.on_reserved(Ok(Some(100))) {
        Ok(CreateStep::Write(b)) => b,
        _ => panic!("expected a write"),
    };
    assert_eq!(first.identity_rows.len(), BATCH_SIZE);
    assert_eq!(first.identity_rows[0].id, 101);
    let second = match run.on_batch_written(ok(), ok(), ok()) {
        CreateStep::Write(b) => b,
        _ => panic!("expected a second write"),
    };
    assert_eq!(second.index, 1);
    assert_eq!(second.identity_rows.len(), 1);
    assert_eq!(second.identity_rows[0].id, 101 + BATCH_SIZE as i64);
    assert_eq!(second.identity_rows[0].uuid, format!("u{}", BATCH_SIZE));
    let step = run.on_batch_written(ok(), Err("timeout".to_string()), ok());
    assert!(matches!(step, CreateStep::Finished));
    let report = run.into_report();
    assert_eq!(report.processed_count, BATCH_SIZE);
    assert_eq!(report.errors.len(), 1);
    assert_eq!(report.errors[0].batch, 1);
}

#[test]
fn unreachable_counter_fails_the_whole_call() {
    let (mut run, _) = CreateRun::start(&vec![record("u1", 21.5)]).unwrap();
    match run.on_reserved(Err("connection refused".to_string())) {
        Err(CreateError::Allocation(AllocationError::Unreachable(m))) => assert_eq!(m, "connection refused"),
        _ => panic!("expected an allocation error"),
    }
    assert!(!run.reserved);
}

#[test]
fn exhausted_counter_fails_the_whole_call() {
    let (mut run, _) = CreateRun::start(&vec![record("u1", 21.5), record("u2", 1.0)]).unwrap();
    assert!(matches!(
        run.on_reserved(Ok(Some(i64::MAX - 1))),
        Err(CreateError::Allocation(AllocationError::Exhausted))
    ));
}
