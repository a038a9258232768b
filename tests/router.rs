use datacenter::partition::{DatabaseCluster, DbError, Role};
use datacenter::router::{
    error_response_body, error_topic, parse_message_kind, parse_request_kind, read_status, response_topic, router,
    Command, MessageKind, ReadStatus, RequestKind, MAX_JSON_SIZE,
};

#[test]
fn request_kinds_are_parsed() {
    assert_eq!(parse_request_kind("uuid"), Some(RequestKind::Uuid));
    assert_eq!(parse_request_kind("id_energy_cost"), Some(RequestKind::IdEnergyCost));
    assert_eq!(parse_request_kind("addrobotdata"), Some(RequestKind::AddRobotData));
    assert_eq!(parse_request_kind("page"), Some(RequestKind::Page));
    assert_eq!(parse_request_kind("Page"), None);
    assert_eq!(parse_request_kind(""), None);
}

#[test]
fn response_topics() {
    assert_eq!(response_topic("c1", Some(RequestKind::Uuid)), "rust/uuid/c1");
    assert_eq!(response_topic("c1", Some(RequestKind::All)), "rust/response/c1/all");
    assert_eq!(response_topic("c1", Some(RequestKind::IdEnergyConsume)), "rust/response/c1/energy_consume");
    assert_eq!(response_topic("c1", Some(RequestKind::AddSensorData)), "rust/response/c1/add/sensordata");
    assert_eq!(response_topic("c1", None), "rust/response/c1");
    assert_eq!(error_topic("c1", "color"), "rust/response/c1/color");
}

#[test]
fn error_response_quotes_the_message() {
    let body = String::from_utf8(error_response_body("bad \"x\"\n")).unwrap();
    assert_eq!(body, "{\"status\":\"error\",\"message\":\"bad \\\"x\\\"\\n\"}");
}

#[test]
fn commands_are_parsed() {
    assert_eq!(router("reset"), Some(Command::Reset));
    assert_eq!(router("generate"), Some(Command::Generate));
    assert_eq!(router("exit"), Some(Command::Exit));
    assert_eq!(router("help"), Some(Command::Help));
    assert_eq!(router("status"), Some(Command::Status));
    assert_eq!(router("load"), None);
}

#[test]
fn message_kinds_are_parsed() {
    assert_eq!(parse_message_kind("robotdata"), Some(MessageKind::RobotData));
    assert_eq!(parse_message_kind("message"), Some(MessageKind::Message));
    assert_eq!(parse_message_kind("video"), None);
}

#[test]
fn reads_are_classified() {
    assert_eq!(read_status(0), ReadStatus::Closed);
    assert_eq!(read_status(10), ReadStatus::Data);
    assert_eq!(read_status(MAX_JSON_SIZE - 1), ReadStatus::Data);
    assert_eq!(read_status(MAX_JSON_SIZE), ReadStatus::TooLarge);
}

#[test]
fn partitions_are_handed_out_by_role() {
    let mut set = DatabaseCluster::new("main", "system");
    assert_eq!(*set.get_main_db().unwrap(), "main");
    assert_eq!(*set.get_system_db().unwrap(), "system");
    assert!(matches!(set.get(Role::Read, 0), Err(DbError::PartitionUnavailable(Role::Read))));
    set.add(Role::Read, "r0");
    set.add(Role::Read, "r1");
    assert_eq!(*set.get(Role::Read, 0).unwrap(), "r0");
    assert_eq!(*set.get(Role::Read, 3).unwrap(), "r1");
    let empty: DatabaseCluster<u8> = DatabaseCluster::empty();
    assert!(matches!(empty.get_main_db(), Err(DbError::PartitionUnavailable(Role::Write))));
}
