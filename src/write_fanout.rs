//! Write fan-out: a validated batch of records gets a contiguous block of
//! identities, is cut into bounded sub-batches, and each sub-batch is written
//! to the three partitions at once. `CreateRun` holds the decisions; whoever
//! drives it performs each step it asks for and hands back the outcome.
use vstd::prelude::*;
use crate::identity::{AllocationError, get_current_max_id_request, get_current_max_id_reply};
use crate::record::{
    RecordInput,
    SensorDataInput,
    EnergyDataInput,
    ValidRecord,
    RecordFault,
    IdentityRow,
    SensorRow,
    EnergyRow,
    identity_row_of,
    sensor_row_of,
    energy_row_of,
};

verus! {

/// The largest number of records written by one query on one partition.
pub const BATCH_SIZE: usize = 8000;

/// The three partitions a record is split across.
#[derive(Debug, Clone, Copy, PartialEq, Eq, Structural)]
pub enum Partition {
    /// Partition A: identity, uuid, color; also holds the identity counter.
    Identity,
    /// Partition B: sensor readings.
    Sensor,
    /// Partition C: energy readings.
    Energy,
}

/// One partition's failure to confirm the write of one sub-batch.
#[derive(Debug)]
pub struct WriteFailure {
    pub batch: usize,
    pub partition: Partition,
    pub message: String,
}

/// Why `create` failed as a whole; nothing was written in these cases.
#[derive(Debug)]
pub enum CreateError {
    /// The record at `index` lacks a required field.
    Validation { index: usize },
    /// The record at `index` holds a NaN or infinite number.
    Serialization { index: usize },
    /// No block of identities could be reserved.
    Allocation(AllocationError),
}

/// The rows of one sub-batch for each partition, to be written at once.
pub struct BatchWrite {
    pub index: usize,
    pub identity_rows: Vec<IdentityRow>,
    pub sensor_rows: Vec<SensorRow>,
    pub energy_rows: Vec<EnergyRow>,
}

/// The outcome of a finished run: how many records were confirmed by all
/// three partitions, and every partition-level failure.
pub struct CreateReport {
    pub processed_count: usize,
    pub errors: Vec<WriteFailure>,
}

/// What the driver of a run must do next.
pub enum CreateStep {
    /// Reserve this many identities and hand the reply to `on_reserved`.
    Reserve(u64),
    /// Write these rows to the three partitions concurrently and hand the
    /// three outcomes to `on_batch_written`.
    Write(BatchWrite),
    /// Nothing is left to do: `into_report` gives the outcome.
    Finished,
}

pub open spec fn written(k: nat, n: nat) -> nat {
    if k * BATCH_SIZE <= n {
        (k * BATCH_SIZE) as nat
    } else {
        n
    }
}

/// The number of sub-batches of a batch of `n` records.
pub open spec fn num_batches(n: nat) -> nat {
    ((n + BATCH_SIZE - 1) / BATCH_SIZE as int) as nat
}

/// The size of sub-batch `i` of a batch of `n` records.
pub open spec fn batch_len(i: nat, n: nat) -> nat {
    (written(i + 1, n) - written(i, n)) as nat
}

/// The records of a batch of `n` counted as processed when sub-batch `i`
/// succeeded exactly where `outcomes[i]` holds.
pub open spec fn counted(outcomes: Seq<bool>, n: nat) -> nat
    decreases outcomes.len(),
{
    if outcomes.len() == 0 {
        0
    } else {
        counted(outcomes.drop_last(), n) + if outcomes.last() {
            batch_len((outcomes.len() - 1) as nat, n)
        } else {
            0
        }
    }
}

proof fn lemma_num_batches(k: nat, n: nat)
    ensures
        k < num_batches(n) <==> k * BATCH_SIZE < n,
        k == num_batches(n) ==> written(k, n) == n,
{
    assert(k < num_batches(n) <==> k * BATCH_SIZE < n) by (nonlinear_arith)
        requires
            num_batches(n) == (n + 7999) / 8000,
            BATCH_SIZE == 8000,
    ;
    if k == num_batches(n) {
        assert(k * BATCH_SIZE >= n) by (nonlinear_arith)
            requires
                k == (n + 7999) / 8000,
                BATCH_SIZE == 8000,
        ;
    }
}

proof fn lemma_counted_bounds(outcomes: Seq<bool>, n: nat)
    requires
        outcomes.len() <= num_batches(n),
    ensures
        counted(outcomes, n) <= written(outcomes.len(), n),
        counted(outcomes, n) == written(outcomes.len(), n) <==> forall|i: int|
            0 <= i < outcomes.len() ==> #[trigger] outcomes[i],
    decreases outcomes.len(),
{
    if outcomes.len() > 0 {
        let k = (outcomes.len() - 1) as nat;
        let front = outcomes.drop_last();
        lemma_num_batches(k, n);
        lemma_counted_bounds(front, n);
        assert(batch_len(k, n) > 0);
        if forall|i: int| 0 <= i < outcomes.len() ==> #[trigger] outcomes[i] {
            assert forall|i: int| 0 <= i < front.len() implies #[trigger] front[i] by {
                assert(front[i] == outcomes[i]);
            }
        }
        if !outcomes.last() {
            assert(!outcomes[outcomes.len() - 1]);
        }
        if forall|i: int| 0 <= i < front.len() ==> #[trigger] front[i] {
            if outcomes.last() {
                assert forall|i: int| 0 <= i < outcomes.len() implies #[trigger] outcomes[i] by {
                    if i < front.len() {
                        assert(front[i] == outcomes[i]);
                    }
                }
            }
        } else {
            let i = choose|i: int| 0 <= i < front.len() && !#[trigger] front[i];
            assert(!outcomes[i]);
        }
    }
}

/// Of a batch of `n` records, at most `n` are counted as processed, and all
/// `n` exactly when every sub-batch was confirmed by all three partitions.
pub proof fn lemma_processed_count(outcomes: Seq<bool>, n: nat)
    requires
        outcomes.len() == num_batches(n),
    ensures
        0 <= counted(outcomes, n) <= n,
        counted(outcomes, n) == n <==> forall|i: int|
            0 <= i < outcomes.len() ==> #[trigger] outcomes[i],
{
    lemma_num_batches(outcomes.len(), n);
    lemma_counted_bounds(outcomes, n);
}

/// The failure of one partition's write of sub-batch `batch`, if it failed.
pub open spec fn failure_of(batch: usize, partition: Partition, outcome: Result<(), String>) -> Seq<
    WriteFailure,
> {
    match outcome {
        Ok(_) => Seq::empty(),
        Err(message) => seq![WriteFailure { batch, partition, message }],
    }
}

/// The failures of the three partitions' writes of sub-batch `batch`, in
/// partition order.
pub open spec fn failures_of(
    batch: usize,
    identity: Result<(), String>,
    sensor: Result<(), String>,
    energy: Result<(), String>,
) -> Seq<WriteFailure> {
    failure_of(batch, Partition::Identity, identity) + failure_of(batch, Partition::Sensor, sensor)
        + failure_of(batch, Partition::Energy, energy)
}

/// The first record of `records` with a fault is at `index`, with fault `f`.
pub open spec fn first_fault_at(records: Seq<RecordInput>, index: int, f: RecordFault) -> bool {
    &&& 0 <= index < records.len()
    &&& records[index].fault() == Some(f)
    &&& forall|j: int| 0 <= j < index ==> (#[trigger] records[j]).fault().is_none()
}

/// `b` holds sub-batch `index` of `records`, whose first identity is
/// `first_id`: the rows of its records, in order, with the identities of their
/// positions in the block.
pub open spec fn rows_match(records: Seq<ValidRecord>, first_id: i64, b: BatchWrite, index: nat) -> bool {
    let n = records.len();
    let start = written(index, n);
    let len = batch_len(index, n);
    &&& b.index == index
    &&& b.identity_rows@.len() == len
    &&& b.sensor_rows@.len() == len
    &&& b.energy_rows@.len() == len
    &&& forall|k: int|
        0 <= k < len ==> {
            let rec = records[start + k];
            let id = (first_id + start + k) as i64;
            &&& #[trigger] b.identity_rows@[k] == identity_row_of(rec, id)
            &&& b.sensor_rows@[k] == sensor_row_of(rec, id)
            &&& b.energy_rows@[k] == energy_row_of(rec, id)
        }
}

/// A run of `create` over a batch of records. The fields are public so that
/// contracts can speak of them; `wf` states how they hang together.
pub struct CreateRun {
    /// The validated records, in input order.
    pub records: Vec<ValidRecord>,
    /// Whether the identity block has been reserved.
    pub reserved: bool,
    /// The identity of `records[0]`; record `j` gets `first_id + j`.
    pub first_id: i64,
    /// The index of the first record not yet handed out for writing.
    pub next: usize,
    /// Whether a sub-batch has been handed out and awaits its outcome.
    pub pending: bool,
    /// Records confirmed by all three partitions so far.
    pub processed: usize,
    pub errors: Vec<WriteFailure>,
    /// Whether each finished sub-batch was confirmed by all three partitions.
    pub outcomes: Ghost<Seq<bool>>,
    /// The number of finished sub-batches.
    pub finished_batches: usize,
}

impl CreateRun {
    pub open spec fn n(&self) -> nat {
        self.records@.len()
    }

    /// The number of sub-batches handed out so far.
    pub open spec fn started(&self) -> nat {
        self.outcomes@.len() + if self.pending {
            1nat
        } else {
            0
        }
    }

    pub open spec fn wf(&self) -> bool {
        &&& self.n() <= i64::MAX
        &&& self.reserved ==> 1 <= self.first_id && self.first_id - 1 + self.n() <= i64::MAX
        &&& !self.reserved ==> self.outcomes@.len() == 0 && !self.pending
        &&& self.started() <= num_batches(self.n())
        &&& self.next == written(self.started(), self.n())
        &&& self.processed == counted(self.outcomes@, self.n())
        &&& self.finished_batches == self.outcomes@.len()
    }

    /// The run has nothing more to do: every sub-batch has its outcome.
    pub open spec fn is_finished(&self) -> bool {
        &&& !self.pending
        &&& self.outcomes@.len() == num_batches(self.n())
    }

    /// The rows of sub-batch `index` are those of its records, in order, with
    /// the identities of their positions in the block.
    pub open spec fn batch_matches(&self, b: BatchWrite, index: nat) -> bool {
        rows_match(self.records@, self.first_id, b, index)
    }

    /// Validates the whole batch before anything else; on success the run
    /// asks for a block of identities, or finishes at once for an empty batch.
    pub fn start(input: &Vec<RecordInput>) -> (r: Result<(CreateRun, CreateStep), CreateError>)
        ensures
            r is Ok <==> (forall|i: int|
                0 <= i < input@.len() ==> (#[trigger] input@[i]).fault().is_none())
                && input@.len() <= i64::MAX,
            match r {
                Ok((run, step)) => {
                    &&& run.wf()
                    &&& !run.reserved
                    &&& run.errors@.len() == 0
                    &&& run.records@.len() == input@.len()
                    &&& forall|i: int|
                        0 <= i < input@.len() ==> run.records@[i] == (#[trigger] input@[i]).valid_form()
                    &&& input@.len() == 0 ==> run.is_finished() && step == CreateStep::Finished
                        && run.processed == 0 && run.errors@.len() == 0
                    &&& input@.len() > 0 ==> step == CreateStep::Reserve(input@.len() as u64)
                },
                Err(CreateError::Validation { index }) => first_fault_at(
                    input@,
                    index as int,
                    RecordFault::MissingField,
                ),
                Err(CreateError::Serialization { index }) => first_fault_at(
                    input@,
                    index as int,
                    RecordFault::NonFinite,
                ),
                Err(CreateError::Allocation(e)) => e == AllocationError::RequestTooLarge(
                    input@.len() as u64,
                ) && input@.len() > i64::MAX,
            },
    {
        let mut records: Vec<ValidRecord> = Vec::new();
        let mut i: usize = 0;
        while i < input.len()
            invariant
                i <= input@.len(),
                records@.len() == i,
                forall|j: int| 0 <= j < i ==> (#[trigger] input@[j]).fault().is_none(),
                forall|j: int| 0 <= j < i ==> records@[j] == (#[trigger] input@[j]).valid_form(),
            decreases input@.len() - i,
        {
            match input[i].validate_new_item() {
                Ok(v) => records.push(v),
                Err(RecordFault::MissingField) => {
                    return Err(CreateError::Validation { index: i });
                },
                Err(RecordFault::NonFinite) => {
                    return Err(CreateError::Serialization { index: i });
                },
            }
            i += 1;
        }
        let n = records.len();
        match get_current_max_id_request(n as u64) {
            Err(e) => Err(CreateError::Allocation(e)),
            Ok(_) => {
                let run = CreateRun {
                    records,
                    reserved: false,
                    first_id: 0,
                    next: 0,
                    pending: false,
                    processed: 0,
                    errors: Vec::new(),
                    outcomes: Ghost(Seq::empty()),
                    finished_batches: 0,
                };
                proof {
                    lemma_num_batches(0, n as nat);
                }
                if n == 0 {
                    Ok((run, CreateStep::Finished))
                } else {
                    Ok((run, CreateStep::Reserve(n as u64)))
                }
            },
        }
    }

    /// The rows of sub-batch `index`.
    fn build_batch(&self, index: usize) -> (b: BatchWrite)
        requires
            self.wf(),
            self.reserved,
            index < num_batches(self.n()),
            self.next == written(index as nat, self.n()),
        ensures
            self.batch_matches(b, index as nat),
    {
        proof {
            lemma_num_batches(index as nat, self.n());
        }
        let start = self.next;
        let end = if self.records.len() - start > BATCH_SIZE {
            start + BATCH_SIZE
        } else {
            self.records.len()
        };
        assert(end == written(index as nat + 1, self.n()));
        let mut identity_rows: Vec<IdentityRow> = Vec::new();
        let mut sensor_rows: Vec<SensorRow> = Vec::new();
        let mut energy_rows: Vec<EnergyRow> = Vec::new();
        let mut j: usize = start;
        while j < end
            invariant
                start <= j <= end <= self.records@.len(),
                self.wf(),
                self.reserved,
                start == written(index as nat, self.n()),
                end == written(index as nat + 1, self.n()),
                identity_rows@.len() == j - start,
                sensor_rows@.len() == j - start,
                energy_rows@.len() == j - start,
                forall|k: int|
                    0 <= k < j - start ==> {
                        let rec = self.records@[start + k];
                        let id = (self.first_id + start + k) as i64;
                        &&& #[trigger] identity_rows@[k] == identity_row_of(rec, id)
                        &&& sensor_rows@[k] == sensor_row_of(rec, id)
                        &&& energy_rows@[k] == energy_row_of(rec, id)
                    },
            decreases end - j,
        {
            let id: i64 = self.first_id + j as i64;
            let (a, b, c) = self.records[j].prepare_all_item_params(id);
            identity_rows.push(a);
            sensor_rows.push(b);
            energy_rows.push(c);
            j += 1;
        }
        let b = BatchWrite { index, identity_rows, sensor_rows, energy_rows };
        assert(b.identity_rows@.len() == batch_len(index as nat, self.n()));
        assert(b.index == index as nat);
        assert(b.sensor_rows@.len() == batch_len(index as nat, self.n()));
        assert(b.energy_rows@.len() == batch_len(index as nat, self.n()));
        assert forall|k: int| 0 <= k < batch_len(index as nat, self.n()) implies {
            let rec = self.records@[written(index as nat, self.n()) + k];
            let id = (self.first_id + written(index as nat, self.n()) + k) as i64;
            &&& #[trigger] b.identity_rows@[k] == identity_row_of(rec, id)
            &&& b.sensor_rows@[k] == sensor_row_of(rec, id)
            &&& b.energy_rows@[k] == energy_row_of(rec, id)
        } by {
            assert(b.identity_rows@[k] == identity_rows@[k]);
        }
        assert(rows_match(self.records@, self.first_id, b, index as nat));
        b
    }

    /// Takes the counter partition's reply to the increment (see
    /// `get_current_max_id_reply`). On success the records are given the
    /// identities of the block in input order and the first sub-batch is
    /// handed out; on failure the run stops with nothing written.
    pub fn on_reserved(&mut self, reply: Result<Option<i64>, String>) -> (r: Result<
        CreateStep,
        CreateError,
    >)
        requires
            old(self).wf(),
            !old(self).reserved,
            old(self).n() > 0,
        ensures
            final(self).wf(),
            final(self).records == old(self).records,
            final(self).errors == old(self).errors,
            match r {
                Ok(step) => {
                    &&& get_current_max_id_reply.ensures(
                        (old(self).n() as u64, reply),
                        Ok::<i64, AllocationError>((final(self).first_id - 1) as i64),
                    )
                    &&& final(self).reserved
                    &&& final(self).pending
                    &&& final(self).outcomes@.len() == 0
                    &&& step matches CreateStep::Write(b) && final(self).batch_matches(b, 0)
                },
                Err(CreateError::Allocation(e)) => get_current_max_id_reply.ensures(
                    (old(self).n() as u64, reply),
                    Err::<i64, AllocationError>(e),
                ) && !final(self).reserved,
                Err(_) => false,
            },
    {
        let n = self.records.len() as u64;
        match get_current_max_id_reply(n, reply) {
            Err(e) => Err(CreateError::Allocation(e)),
            Ok(prev) => {
                self.reserved = true;
                self.first_id = prev + 1;
                proof {
                    lemma_num_batches(0, self.n());
                }
                let b = self.build_batch(0);
                self.pending = true;
                self.next = b.identity_rows.len();
                proof {
                    lemma_num_batches(1, self.n());
                }
                Ok(CreateStep::Write(b))
            },
        }
    }

    /// Takes the three partitions' outcomes for the pending sub-batch. Its
    /// records count as processed only if all three succeeded; each failure is
    /// recorded, and nothing is undone. Then the next sub-batch is handed out,
    /// or the run finishes.
    pub fn on_batch_written(
        &mut self,
        identity: Result<(), String>,
        sensor: Result<(), String>,
        energy: Result<(), String>,
    ) -> (r: CreateStep)
        requires
            old(self).wf(),
            old(self).pending,
        ensures
            final(self).wf(),
            final(self).records == old(self).records,
            final(self).first_id == old(self).first_id,
            final(self).outcomes@ == old(self).outcomes@.push(
                identity is Ok && sensor is Ok && energy is Ok,
            ),
            final(self).errors@ == old(self).errors@ + failures_of(
                old(self).finished_batches,
                identity,
                sensor,
                energy,
            ),
            match r {
                CreateStep::Write(b) => !final(self).is_finished() && final(self).pending
                    && final(self).batch_matches(b, final(self).outcomes@.len()),
                CreateStep::Finished => final(self).is_finished() && final(self).processed
                    <= final(self).n() && (final(self).processed == final(self).n() <==> forall|i: int|
                    0 <= i < final(self).outcomes@.len() ==> #[trigger] final(self).outcomes@[i]),
                CreateStep::Reserve(_) => false,
            },
    {
        let index = self.finished_batches;
        proof {
            lemma_num_batches(self.outcomes@.len(), self.n());
            lemma_num_batches(self.outcomes@.len() + 1, self.n());
            lemma_counted_bounds(self.outcomes@, self.n());
        }
        let ok = identity.is_ok() && sensor.is_ok() && energy.is_ok();
        let ghost (gi, gs, ge) = (identity, sensor, energy);
        let ghost before = self.outcomes@;
        let batch = index;
        if let Err(message) = identity {
            self.errors.push(WriteFailure { batch, partition: Partition::Identity, message });
        }
        if let Err(message) = sensor {
            self.errors.push(WriteFailure { batch, partition: Partition::Sensor, message });
        }
        if let Err(message) = energy {
            self.errors.push(WriteFailure { batch, partition: Partition::Energy, message });
        }
        assert(self.errors@ =~= old(self).errors@ + failures_of(batch, gi, gs, ge));
        self.pending = false;
        self.outcomes = Ghost(before.push(ok));
        self.finished_batches = index + 1;
        assert(self.outcomes@.drop_last() =~= before);
        if ok {
            let batch_records = self.next - self.batch_start_of(index);
            self.processed = self.processed + batch_records;
        }
        if self.next < self.records.len() {
            let b = self.build_batch(index + 1);
            self.pending = true;
            self.next = self.next + b.identity_rows.len();
            proof {
                lemma_num_batches(self.outcomes@.len() + 1, self.n());
            }
            CreateStep::Write(b)
        } else {
            proof {
                lemma_num_batches(self.outcomes@.len(), self.n());
                lemma_processed_count(self.outcomes@, self.n());
            }
            CreateStep::Finished
        }
    }

    /// The outcome of the run. Once it is finished, `processed_count` is
    /// `counted(outcomes, n)` over one outcome per sub-batch (see
    /// `lemma_processed_count`).
    pub fn into_report(self) -> (r: CreateReport)
        requires
            self.wf(),
        ensures
            r.processed_count == counted(self.outcomes@, self.n()),
            r.processed_count <= self.n(),
            self.is_finished() ==> (r.processed_count == self.n() <==> forall|i: int|
                0 <= i < self.outcomes@.len() ==> #[trigger] self.outcomes@[i]),
            r.errors == self.errors,
            self.is_finished() ==> self.outcomes@.len() == num_batches(self.n()),
    {
        proof {
            lemma_counted_bounds(self.outcomes@, self.n());
            if self.is_finished() {
                lemma_processed_count(self.outcomes@, self.n());
            }
        }
        CreateReport { processed_count: self.processed, errors: self.errors }
    }

    /// The index of the first record of sub-batch `index`.
    fn batch_start_of(&self, index: usize) -> (r: usize)
        requires
            index < num_batches(self.n()),
            self.n() <= i64::MAX,
        ensures
            r == written(index as nat, self.n()),
    {
        proof {
            lemma_num_batches(index as nat, self.n());
        }
        let n = self.records.len();
        assert(index * BATCH_SIZE < n);
        index * BATCH_SIZE
    }
}

/// The first stand-alone sensor reading with a fault, if any: all readings
/// are checked before any is written.
pub fn validate_sensor_batch(items: &Vec<SensorDataInput>) -> (r: Option<(usize, RecordFault)>)
    ensures
        r is None <==> forall|i: int| 0 <= i < items@.len() ==> (#[trigger] items@[i]).fault().is_none(),
        r matches Some((index, f)) ==> index < items@.len() && items@[index as int].fault() == Some(f)
            && forall|j: int| 0 <= j < index ==> (#[trigger] items@[j]).fault().is_none(),
{
    let mut i: usize = 0;
    while i < items.len()
        invariant
            i <= items@.len(),
            forall|j: int| 0 <= j < i ==> (#[trigger] items@[j]).fault().is_none(),
        decreases items@.len() - i,
    {
        if let Some(f) = items[i].validate_new_sensordata() {
            return Some((i, f));
        }
        i += 1;
    }
    None
}

/// The first stand-alone energy reading with a fault, if any.
pub fn validate_energy_batch(items: &Vec<EnergyDataInput>) -> (r: Option<(usize, RecordFault)>)
    ensures
        r is None <==> forall|i: int| 0 <= i < items@.len() ==> (#[trigger] items@[i]).fault().is_none(),
        r matches Some((index, f)) ==> index < items@.len() && items@[index as int].fault() == Some(f)
            && forall|j: int| 0 <= j < index ==> (#[trigger] items@[j]).fault().is_none(),
{
    let mut i: usize = 0;
    while i < items.len()
        invariant
            i <= items@.len(),
            forall|j: int| 0 <= j < i ==> (#[trigger] items@[j]).fault().is_none(),
        decreases items@.len() - i,
    {
        if let Some(f) = items[i].validate_new_energydata() {
            return Some((i, f));
        }
        i += 1;
    }
    None
}

/// The number of confirmations among the first `k` outcomes.
pub open spec fn confirmed(outcomes: Seq<bool>) -> nat
    decreases outcomes.len(),
{
    if outcomes.len() == 0 {
        0
    } else {
        confirmed(outcomes.drop_last()) + if outcomes.last() {
            1nat
        } else {
            0
        }
    }
}

/// Counts the writes or deletes that the partition confirmed, one outcome per
/// entry; unconfirmed ones are not retried or undone.
pub fn count_confirmed(outcomes: &Vec<bool>) -> (r: usize)
    ensures
        r == confirmed(outcomes@),
        r <= outcomes@.len(),
{
    let mut count: usize = 0;
    let mut i: usize = 0;
    while i < outcomes.len()
        invariant
            i <= outcomes@.len(),
            count == confirmed(outcomes@.subrange(0, i as int)),
            count <= i,
        decreases outcomes@.len() - i,
    {
        assert(outcomes@.subrange(0, i + 1).drop_last() =~= outcomes@.subrange(0, i as int));
        if outcomes[i] {
            count += 1;
        }
        i += 1;
    }
    assert(outcomes@.subrange(0, outcomes@.len() as int) =~= outcomes@);
    count
}

} // verus!
