//! Request routing: the kinds of inbound requests and commands, and where
//! their responses go.
use vstd::prelude::*;
use crate::text::{ascii_bytes, push_ascii, push_bytes, same_text};
use crate::publisher::{json_string, json_string_of};

verus! {

/// The kind of a bus request, named by its `request` field.
#[derive(Debug, Clone, Copy, PartialEq, Eq, Structural)]
pub enum RequestKind {
    /// Records by identity.
    Uuid,
    /// Every record.
    All,
    /// Identities with a color.
    Color,
    /// Identities within a time range.
    TimeRange,
    /// Identities with a temperature or humidity.
    TemperatureHumidity,
    /// The reading at a timestamp.
    Timestamp,
    /// Identities with an energy cost.
    IdEnergyCost,
    /// Identities with an energy consumption.
    IdEnergyConsume,
    /// The newest records.
    NewestIds,
    /// The newest sensor readings.
    NewestSensorData,
    /// The newest energy readings.
    NewestEnergyData,
    /// Create records.
    AddRobotData,
    /// Add energy readings.
    AddEnergyData,
    /// Add sensor readings.
    AddSensorData,
    /// Export with relationships.
    Relation,
    /// One page of records.
    Page,
    /// Delete records by identity.
    Delete,
    /// Cheap energy in the next day.
    CheapEnergy,
    /// Topic requests (not served).
    Topic,
}

/// The request kind named `s`, if any.
pub open spec fn request_kind_of(s: Seq<char>) -> Option<RequestKind> {
    if s == "uuid"@ {
        Some(RequestKind::Uuid)
    } else if s == "all"@ {
        Some(RequestKind::All)
    } else if s == "color"@ {
        Some(RequestKind::Color)
    } else if s == "time_range"@ {
        Some(RequestKind::TimeRange)
    } else if s == "temperature_humidity"@ {
        Some(RequestKind::TemperatureHumidity)
    } else if s == "timestamp"@ {
        Some(RequestKind::Timestamp)
    } else if s == "id_energy_cost"@ {
        Some(RequestKind::IdEnergyCost)
    } else if s == "id_energy_consume"@ {
        Some(RequestKind::IdEnergyConsume)
    } else if s == "newestids"@ {
        Some(RequestKind::NewestIds)
    } else if s == "newestsensordata"@ {
        Some(RequestKind::NewestSensorData)
    } else if s == "newestenergydata"@ {
        Some(RequestKind::NewestEnergyData)
    } else if s == "addrobotdata"@ {
        Some(RequestKind::AddRobotData)
    } else if s == "addenergydata"@ {
        Some(RequestKind::AddEnergyData)
    } else if s == "addsensordata"@ {
        Some(RequestKind::AddSensorData)
    } else if s == "relation"@ {
        Some(RequestKind::Relation)
    } else if s == "page"@ {
        Some(RequestKind::Page)
    } else if s == "delete"@ {
        Some(RequestKind::Delete)
    } else if s == "cheap_energy"@ {
        Some(RequestKind::CheapEnergy)
    } else if s == "topic"@ {
        Some(RequestKind::Topic)
    } else {
        None
    }
}

/// The last part of the response topic of a kind.
pub open spec fn topic_suffix_of(k: RequestKind) -> Seq<char> {
    match k {
        RequestKind::Uuid => "uuid"@,
        RequestKind::All => "all"@,
        RequestKind::Color => "color"@,
        RequestKind::TimeRange => "time_range"@,
        RequestKind::TemperatureHumidity => "temperature_humidity"@,
        RequestKind::Timestamp => "timestamp"@,
        RequestKind::IdEnergyCost => "energy_cost"@,
        RequestKind::IdEnergyConsume => "energy_consume"@,
        RequestKind::NewestIds => "newestids"@,
        RequestKind::NewestSensorData => "newestsensordata"@,
        RequestKind::NewestEnergyData => "newestenergydata"@,
        RequestKind::AddRobotData => "add/robotdata"@,
        RequestKind::AddEnergyData => "add/energydata"@,
        RequestKind::AddSensorData => "add/sensordata"@,
        RequestKind::Relation => "relation"@,
        RequestKind::Page => "page"@,
        RequestKind::Delete => "delete"@,
        RequestKind::CheapEnergy => "cheap_energy"@,
        RequestKind::Topic => "topic"@,
    }
}

/// Parses the `request` field of a bus request.
pub fn parse_request_kind(s: &str) -> (r: Option<RequestKind>)
    ensures
        r == request_kind_of(s@),
{
    if same_text(s, "uuid") {
        Some(RequestKind::Uuid)
    } else if same_text(s, "all") {
        Some(RequestKind::All)
    } else if same_text(s, "color") {
        Some(RequestKind::Color)
    } else if same_text(s, "time_range") {
        Some(RequestKind::TimeRange)
    } else if same_text(s, "temperature_humidity") {
        Some(RequestKind::TemperatureHumidity)
    } else if same_text(s, "timestamp") {
        Some(RequestKind::Timestamp)
    } else if same_text(s, "id_energy_cost") {
        Some(RequestKind::IdEnergyCost)
    } else if same_text(s, "id_energy_consume") {
        Some(RequestKind::IdEnergyConsume)
    } else if same_text(s, "newestids") {
        Some(RequestKind::NewestIds)
    } else if same_text(s, "newestsensordata") {
        Some(RequestKind::NewestSensorData)
    } else if same_text(s, "newestenergydata") {
        Some(RequestKind::NewestEnergyData)
    } else if same_text(s, "addrobotdata") {
        Some(RequestKind::AddRobotData)
    } else if same_text(s, "addenergydata") {
        Some(RequestKind::AddEnergyData)
    } else if same_text(s, "addsensordata") {
        Some(RequestKind::AddSensorData)
    } else if same_text(s, "relation") {
        Some(RequestKind::Relation)
    } else if same_text(s, "page") {
        Some(RequestKind::Page)
    } else if same_text(s, "delete") {
        Some(RequestKind::Delete)
    } else if same_text(s, "cheap_energy") {
        Some(RequestKind::CheapEnergy)
    } else if same_text(s, "topic") {
        Some(RequestKind::Topic)
    } else {
        None
    }
}

impl RequestKind {
    /// The last part of the response topic of this kind.
    pub fn topic_suffix(&self) -> (r: &'static str)
        ensures
            r@ == topic_suffix_of(*self),
    {
        match self {
            RequestKind::Uuid => "uuid",
            RequestKind::All => "all",
            RequestKind::Color => "color",
            RequestKind::TimeRange => "time_range",
            RequestKind::TemperatureHumidity => "temperature_humidity",
            RequestKind::Timestamp => "timestamp",
            RequestKind::IdEnergyCost => "energy_cost",
            RequestKind::IdEnergyConsume => "energy_consume",
            RequestKind::NewestIds => "newestids",
            RequestKind::NewestSensorData => "newestsensordata",
            RequestKind::NewestEnergyData => "newestenergydata",
            RequestKind::AddRobotData => "add/robotdata",
            RequestKind::AddEnergyData => "add/energydata",
            RequestKind::AddSensorData => "add/sensordata",
            RequestKind::Relation => "relation",
            RequestKind::Page => "page",
            RequestKind::Delete => "delete",
            RequestKind::CheapEnergy => "cheap_energy",
            RequestKind::Topic => "topic",
        }
    }
}

/// The topic a response goes to: `rust/uuid/<client>` for records by
/// identity, `rust/response/<client>/<suffix>` for the other kinds, and
/// `rust/response/<client>` for an unknown kind.
pub open spec fn response_topic_of(client_id: Seq<char>, kind: Option<RequestKind>) -> Seq<char> {
    match kind {
        Some(RequestKind::Uuid) => "rust/uuid/"@ + client_id,
        Some(k) => "rust/response/"@ + client_id + "/"@ + topic_suffix_of(k),
        None => "rust/response/"@ + client_id,
    }
}

/// The response topic of a request of `kind` from `client_id`.
pub fn response_topic(client_id: &str, kind: Option<RequestKind>) -> (r: String)
    ensures
        r@ == response_topic_of(client_id@, kind),
{
    match kind {
        Some(RequestKind::Uuid) => {
            let mut t = String::from_str("rust/uuid/");
            t.append(client_id);
            t
        },
        Some(k) => {
            let mut t = String::from_str("rust/response/");
            t.append(client_id);
            t.append("/");
            t.append(k.topic_suffix());
            t
        },
        None => {
            let mut t = String::from_str("rust/response/");
            t.append(client_id);
            t
        },
    }
}

/// The topic of an error response: `rust/response/<client>/<request_type>`.
pub fn error_topic(client_id: &str, request_type: &str) -> (r: String)
    ensures
        r@ == "rust/response/"@ + client_id@ + "/"@ + request_type@,
{
    let mut t = String::from_str("rust/response/");
    t.append(client_id);
    t.append("/");
    t.append(request_type);
    t
}

/// The text of an error response: `{"status":"error","message":<message>}`.
pub open spec fn error_body_of(message: Seq<char>) -> Seq<u8> {
    ascii_bytes("{\"status\":\"error\",\"message\":"@) + json_string_of(message) + ascii_bytes("}"@)
}

/// The text of an error response carrying `message`.
pub fn error_response_body(message: &str) -> (r: Vec<u8>)
    ensures
        r@ == error_body_of(message@),
{
    proof {
        reveal_strlit("{\"status\":\"error\",\"message\":");
        reveal_strlit("}");
    }
    let mut out: Vec<u8> = Vec::new();
    push_ascii(&mut out, "{\"status\":\"error\",\"message\":");
    let quoted = json_string(message);
    push_bytes(&mut out, &quoted);
    push_ascii(&mut out, "}");
    assert(out@ =~= error_body_of(message@));
    out
}

/// A command of the TCP command channel.
#[derive(Debug, Clone, Copy, PartialEq, Eq, Structural)]
pub enum Command {
    /// Stop the process.
    Exit,
    /// Delete all data on the system partition.
    Reset,
    /// Generate sample records.
    Generate,
    /// List the commands.
    Help,
    /// Report that the server runs.
    Status,
}

pub open spec fn command_of(s: Seq<char>) -> Option<Command> {
    if s == "exit"@ {
        Some(Command::Exit)
    } else if s == "reset"@ {
        Some(Command::Reset)
    } else if s == "generate"@ {
        Some(Command::Generate)
    } else if s == "help"@ {
        Some(Command::Help)
    } else if s == "status"@ {
        Some(Command::Status)
    } else {
        None
    }
}

/// Parses a command; `None` for an invalid one.
pub fn router(command: &str) -> (r: Option<Command>)
    ensures
        r == command_of(command@),
{
    if same_text(command, "exit") {
        Some(Command::Exit)
    } else if same_text(command, "reset") {
        Some(Command::Reset)
    } else if same_text(command, "generate") {
        Some(Command::Generate)
    } else if same_text(command, "help") {
        Some(Command::Help)
    } else if same_text(command, "status") {
        Some(Command::Status)
    } else {
        None
    }
}

/// The kind of a TCP message, named by its `type` field.
#[derive(Debug, Clone, Copy, PartialEq, Eq, Structural)]
pub enum MessageKind {
    /// A text message, echoed back.
    Message,
    /// A command (see `Command`).
    Command,
    /// Records to create.
    RobotData,
    /// Energy readings to add.
    EnergyData,
    /// Sensor readings to add.
    SensorData,
}

pub open spec fn message_kind_of(s: Seq<char>) -> Option<MessageKind> {
    if s == "message"@ {
        Some(MessageKind::Message)
    } else if s == "command"@ {
        Some(MessageKind::Command)
    } else if s == "robotdata"@ {
        Some(MessageKind::RobotData)
    } else if s == "energydata"@ {
        Some(MessageKind::EnergyData)
    } else if s == "sensordata"@ {
        Some(MessageKind::SensorData)
    } else {
        None
    }
}

/// Parses the `type` field of a TCP message; `None` for an unknown type.
pub fn parse_message_kind(s: &str) -> (r: Option<MessageKind>)
    ensures
        r == message_kind_of(s@),
{
    if same_text(s, "message") {
        Some(MessageKind::Message)
    } else if same_text(s, "command") {
        Some(MessageKind::Command)
    } else if same_text(s, "robotdata") {
        Some(MessageKind::RobotData)
    } else if same_text(s, "energydata") {
        Some(MessageKind::EnergyData)
    } else if same_text(s, "sensordata") {
        Some(MessageKind::SensorData)
    } else {
        None
    }
}

/// The largest TCP read accepted as one JSON message, in bytes.
pub const MAX_JSON_SIZE: usize = 10485760;

/// What one TCP read of `n` bytes means.
#[derive(Debug, Clone, Copy, PartialEq, Eq, Structural)]
pub enum ReadStatus {
    /// The peer closed the connection.
    Closed,
    /// The read filled the buffer: the message is refused and the connection dropped.
    TooLarge,
    /// A message to decode.
    Data,
}

/// Classifies a read of `n` bytes into a buffer of `MAX_JSON_SIZE` bytes.
pub fn read_status(n: usize) -> (r: ReadStatus)
    ensures
        n == 0 ==> r == ReadStatus::Closed,
        n >= MAX_JSON_SIZE ==> r == ReadStatus::TooLarge,
        0 < n < MAX_JSON_SIZE ==> r == ReadStatus::Data,
{
    if n == 0 {
        ReadStatus::Closed
    } else if n >= MAX_JSON_SIZE {
        ReadStatus::TooLarge
    } else {
        ReadStatus::Data
    }
}

/// How a delete request is answered.
#[derive(Debug, Clone, Copy, PartialEq, Eq, Structural)]
pub enum DeleteReply {
    /// The list was empty: nothing is deleted, and that counts as success.
    EmptyList,
    /// The list held entries but no numeric identity: an error.
    NoNumericIds,
    /// No listed identity was found.
    NotFound,
    /// This many identities were deleted.
    Deleted(usize),
}

/// Decides, from the number of listed entries and of numeric identities
/// among them, whether a delete request is answered without deleting.
pub fn delete_request_check(listed: usize, numeric: usize) -> (r: Option<DeleteReply>)
    ensures
        listed == 0 ==> r == Some(DeleteReply::EmptyList),
        listed > 0 && numeric == 0 ==> r == Some(DeleteReply::NoNumericIds),
        listed > 0 && numeric > 0 ==> r is None,
{
    if listed == 0 {
        Some(DeleteReply::EmptyList)
    } else if numeric == 0 {
        Some(DeleteReply::NoNumericIds)
    } else {
        None
    }
}

/// The answer to a delete request once `deleted` identities were removed.
pub fn delete_reply(deleted: usize) -> (r: DeleteReply)
    ensures
        deleted == 0 ==> r == DeleteReply::NotFound,
        deleted > 0 ==> r == DeleteReply::Deleted(deleted),
{
    if deleted == 0 {
        DeleteReply::NotFound
    } else {
        DeleteReply::Deleted(deleted)
    }
}

/// How a request that adds data is answered.
#[derive(Debug, Clone, Copy, PartialEq, Eq, Structural)]
pub enum AddReply {
    /// Nothing new was written.
    NoChange,
    /// This many entries were written; they are also announced as live data.
    Success(usize),
}

/// The answer to an add request that wrote `count` entries.
pub fn add_reply(count: usize) -> (r: AddReply)
    ensures
        count == 0 ==> r == AddReply::NoChange,
        count > 0 ==> r == AddReply::Success(count),
{
    if count == 0 {
        AddReply::NoChange
    } else {
        AddReply::Success(count)
    }
}

} // verus!
