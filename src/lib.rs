//! Shard orchestration for telemetry records.
//!
//! A record is split across three partitions (A: identity, uuid, color;
//! B: sensor readings; C: energy readings). The library holds the decisions
//! of that layer; whoever runs it performs the queries and sends the
//! messages it plans.
//!
//! - `partition`: handles by role.
//! - `identity`: contiguous blocks of identities from one counter.
//! - `record`: submitted records, their validation and per-partition rows.
//! - `write_fanout`: the write of a batch as a sequence of steps.
//! - `read_fanin`: positional merge of partition rows into records.
//! - `publisher`: whole or paged delivery within a message-size budget.
//! - `router`: request kinds, commands, response topics.
//! - `retry`, `video`, `text`: connection retries, frame chunks, byte helpers.
pub mod text;
pub mod record;
pub mod identity;
pub mod partition;
pub mod write_fanout;
pub mod read_fanin;
pub mod publisher;
pub mod router;
pub mod retry;
pub mod video;
