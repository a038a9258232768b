use datacenter::read_fanin::{
    assemble_record, assemble_records, check_parent, merge_all, merge_readings, page_window, EnergyReading,
    ParentRow, ReadError, SensorReading,
};
use datacenter::record::{EnergyInput, RecordInput, SensorInput};
use datacenter::write_fanout::{CreateRun, CreateStep};

fn sensor(t: f64, h: f64) -> SensorReading {
    SensorReading { temperature: Some(t.to_bits()), humidity: Some(h.to_bits()) }
}

fn energy(ts: &str, c: f64, k: f64) -> EnergyReading {
    EnergyReading { timestamp: Some(ts.to_string()), energy_consume: Some(c.to_bits()), energy_cost: Some(k.to_bits()) }
}

fn parent(id: i64, uuid: &str, color: &str) -> ParentRow {
    ParentRow { id, uuid: Some(uuid.to_string()), color: Some(color.to_string()) }
}

#[test]
fn merge_pairs_readings_by_position() {
    let b = vec![sensor(1.0, 2.0), sensor(3.0, 4.0)];
    let c = vec![energy("t1", 0.1, 0.2)];
    let m = merge_readings(&b, &c);
    assert_eq!(m.len(), 2);
    assert_eq!(m[0].temperature, Some(1.0f64.to_bits()));
    assert_eq!(m[0].timestamp.as_deref(), Some("t1"));
    assert_eq!(m[0].energy_cost, Some(0.2f64.to_bits()));
    assert_eq!(m[1].temperature, Some(3.0f64.to_bits()));
    assert_eq!(m[1].timestamp, None);
    assert_eq!(m[1].energy_consume, None);
}

#[test]
fn merge_length_is_the_longer_list() {
    let b = vec![sensor(1.0, 2.0)];
    let c = vec![energy("a", 0.1, 0.2), energy("b", 0.3, 0.4), energy("c", 0.5, 0.6)];
    let m = merge_readings(&b, &c);
    assert_eq!(m.len(), 3);
    assert_eq!(m[2].timestamp.as_deref(), Some("c"));
    assert_eq!(m[2].humidity, None);
}

#[test]
fn empty_combinations_are_dropped() {
    let b = vec![SensorReading { temperature: None, humidity: None }, sensor(5.0, 6.0)];
    let c = vec![EnergyReading { timestamp: None, energy_consume: None, energy_cost: None }];
    let m = merge_readings(&b, &c);
    assert_eq!(m.len(), 1);
    assert_eq!(m[0].temperature, Some(5.0f64.to_bits()));
    assert!(merge_readings(&Vec::new(), &Vec::new()).is_empty());
}

#[test]
fn parent_row_must_exist_and_match() {
    assert!(matches!(check_parent(7, Ok(None)), Err(ReadError::NotFound { id: 7 })));
    assert!(matches!(
        check_parent(7, Ok(Some(parent(8, "u", "c")))),
        Err(ReadError::IdMismatch { expected: 7, found: 8 })
    ));
    assert!(matches!(check_parent(7, Err("down".to_string())), Err(ReadError::Query(m)) if m == "down"));
    let p = check_parent(7, Ok(Some(parent(7, "u", "c")))).unwrap();
    assert_eq!(p.uuid.as_deref(), Some("u"));
}

#[test]
fn failed_child_query_degrades_to_no_readings() {
    let r = assemble_record(parent(3, "u3", "blue"), Err("shard 2 down".to_string()), Ok(vec![energy("t", 1.0, 2.0)]));
    assert_eq!(r.id, 3);
    assert_eq!(r.color.as_deref(), Some("blue"));
    assert_eq!(r.sensor_data.len(), 1);
    assert_eq!(r.sensor_data[0].temperature, None);
    assert_eq!(r.sensor_data[0].timestamp.as_deref(), Some("t"));
    let r = assemble_record(parent(3, "u3", "blue"), Err("a".to_string()), Err("b".to_string()));
    assert!(r.sensor_data.is_empty());
}

#[test]
fn rows_are_grouped_by_identity() {
    let parents = vec![parent(1, "u1", "red"), parent(2, "u2", "green")];
    let sensors = vec![(2, sensor(1.0, 1.0)), (1, sensor(2.0, 2.0)), (2, sensor(3.0, 3.0))];
    let energies = vec![(1, energy("e1", 0.1, 0.1)), (3, energy("e3", 0.3, 0.3))];
    let all = merge_all(&parents, &sensors, &energies);
    assert_eq!(all.len(), 2);
    assert_eq!(all[0].id, 1);
    assert_eq!(all[0].sensor_data.len(), 1);
    assert_eq!(all[0].sensor_data[0].temperature, Some(2.0f64.to_bits()));
    assert_eq!(all[0].sensor_data[0].timestamp.as_deref(), Some("e1"));
    assert_eq!(all[1].uuid.as_deref(), Some("u2"));
    assert_eq!(all[1].sensor_data.len(), 2);
    assert_eq!(all[1].sensor_data[1].temperature, Some(3.0f64.to_bits()));
}

#[test]
fn records_follow_the_given_order_and_repeat() {
    let parents = vec![parent(1, "u1", "red")];
    let order = vec![5, 1, 1];
    let r = assemble_records(&order, &parents, &Vec::new(), &Vec::new());
    assert_eq!(r.len(), 3);
    assert_eq!(r[0].id, 5);
    assert_eq!(r[0].uuid, None);
    assert_eq!(r[1].uuid.as_deref(), Some("u1"));
    assert_eq!(r[2].id, 1);
}

#[test]
fn later_parent_row_wins() {
    let parents = vec![parent(1, "old", "red"), parent(1, "new", "blue")];
    let r = assemble_records(&vec![1], &parents, &Vec::new(), &Vec::new());
    assert_eq!(r[0].uuid.as_deref(), Some("new"));
    assert_eq!(r[0].color.as_deref(), Some("blue"));
}

#[test]
fn page_window_clamps_the_page() {
    let w = page_window(60, 2);
    assert_eq!((w.total_pages, w.current_page, w.skip), (3, 2, 25));
    let w = page_window(60, 0);
    assert_eq!((w.total_pages, w.current_page, w.skip), (3, 1, 0));
    let w = page_window(60, 9);
    assert_eq!((w.total_pages, w.current_page, w.skip), (3, 3, 50));
    let w = page_window(50, 2);
    assert_eq!((w.total_pages, w.current_page, w.skip), (2, 2, 25));
    let w = page_window(0, 4);
    assert_eq!((w.total_pages, w.current_page, w.skip), (0, 4, 75));
    let w = page_window(0, u64::MAX);
    assert_eq!(w.skip, u64::MAX);
}

#[test]
fn create_then_read_round_trip() {
    let input = vec![RecordInput {
        uuid: Some("u1".to_string()),
        color: Some("red".to_string()),
        sensor: Some(SensorInput { temperature: Some(21.5f64.to_bits()), humidity: Some(40.0f64.to_bits()) }),
        timestamp: Some("2024-01-01T00:00:00Z".to_string()),
        energy: Some(EnergyInput { consume: Some(0.5f64.to_bits()), cost: Some(0.02f64.to_bits()) }),
    }];
    let (mut run, _) = CreateRun::start(&input).unwrap();
    let batch = match run.on_reserved(Ok(Some(0))) {
        Ok(CreateStep::Write(b)) => b,
        _ => panic!("expected a write"),
    };
    assert!(matches!(run.on_batch_written(Ok(()), Ok(()), Ok(())), CreateStep::Finished));
    assert_eq!(run.into_report().processed_count, 1);
    let id = batch.identity_rows[0].id;
    let a = &batch.identity_rows[0];
    let b = &batch.sensor_rows[0];
    let c = &batch.energy_rows[0];
    let stored_parent = ParentRow { id: a.id, uuid: Some(a.uuid.clone()), color: Some(a.color.clone()) };
    let stored_sensor = SensorReading { temperature: Some(b.temperature), humidity: Some(b.humidity) };
    let stored_energy = EnergyReading {
        timestamp: Some(c.timestamp.clone()),
        energy_consume: Some(c.energy_consume),
        energy_cost: Some(c.energy_cost),
    };
    let p = check_parent(id, Ok(Some(stored_parent))).unwrap();
    let r = assemble_record(p, Ok(vec![stored_sensor]), Ok(vec![stored_energy]));
    assert_eq!(r.uuid.as_deref(), Some("u1"));
    assert_eq!(r.color.as_deref(), Some("red"));
    assert_eq!(r.sensor_data.len(), 1);
    let m = &r.sensor_data[0];
    assert_eq!(f64::from_bits(m.temperature.unwrap()), 21.5);
    assert_eq!(f64::from_bits(m.humidity.unwrap()), 40.0);
    assert_eq!(m.timestamp.as_deref(), Some("2024-01-01T00:00:00Z"));
    assert_eq!(f64::from_bits(m.energy_consume.unwrap()), 0.5);
    assert_eq!(f64::from_bits(m.energy_cost.unwrap()), 0.02);
}

#[test]
fn an_identity_with_two_parent_rows_appears_once() {
    let parents = vec![parent(1, "old", "red"), parent(2, "u2", "green"), parent(1, "new", "blue")];
    let sensors = vec![(1, sensor(1.0, 1.0))];
    let all = merge_all(&parents, &sensors, &Vec::new());
    assert_eq!(all.len(), 2);
    assert_eq!(all[0].id, 1);
    assert_eq!(all[0].uuid.as_deref(), Some("new"));
    assert_eq!(all[0].sensor_data.len(), 1);
    assert_eq!(all[1].id, 2);
}
