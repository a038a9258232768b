//! Read fan-in: the rows of the three partitions for an identity are merged
//! into one record. Sensor and energy readings are paired by position.
use vstd::prelude::*;
use crate::record::{
    RecordInput,
    IdentityRow,
    SensorRow,
    EnergyRow,
    identity_row_of,
    sensor_row_of,
    energy_row_of,
};

verus! {

/// A sensor reading as partition B returns it.
pub struct SensorReading {
    pub temperature: Option<u64>,
    pub humidity: Option<u64>,
}

/// An energy reading as partition C returns it.
pub struct EnergyReading {
    pub timestamp: Option<String>,
    pub energy_consume: Option<u64>,
    pub energy_cost: Option<u64>,
}

/// The field union of the i-th sensor reading and the i-th energy reading.
pub struct MergedReading {
    pub temperature: Option<u64>,
    pub humidity: Option<u64>,
    pub timestamp: Option<String>,
    pub energy_consume: Option<u64>,
    pub energy_cost: Option<u64>,
}

/// A record's row in partition A.
pub struct ParentRow {
    pub id: i64,
    pub uuid: Option<String>,
    pub color: Option<String>,
}

/// One logical record, merged from the three partitions.
pub struct Record {
    pub id: i64,
    pub uuid: Option<String>,
    pub color: Option<String>,
    pub sensor_data: Vec<MergedReading>,
}

/// Why a record could not be read.
#[derive(Debug)]
pub enum ReadError {
    /// Partition A has no row for the identity.
    NotFound { id: i64 },
    /// Partition A answered with the row of another identity.
    IdMismatch { expected: i64, found: i64 },
    /// Partition A could not be queried.
    Query(String),
}

pub open spec fn at<T>(s: Seq<T>, i: int) -> Option<T> {
    if 0 <= i < s.len() {
        Some(s[i])
    } else {
        None
    }
}

/// The union of the fields of a sensor and an energy reading, either of which
/// may be missing.
pub open spec fn combine(s: Option<SensorReading>, e: Option<EnergyReading>) -> MergedReading {
    MergedReading {
        temperature: match s {
            Some(s) => s.temperature,
            None => None,
        },
        humidity: match s {
            Some(s) => s.humidity,
            None => None,
        },
        timestamp: match e {
            Some(e) => e.timestamp,
            None => None,
        },
        energy_consume: match e {
            Some(e) => e.energy_consume,
            None => None,
        },
        energy_cost: match e {
            Some(e) => e.energy_cost,
            None => None,
        },
    }
}

pub open spec fn is_empty_reading(m: MergedReading) -> bool {
    &&& m.temperature.is_none()
    &&& m.humidity.is_none()
    &&& m.timestamp.is_none()
    &&& m.energy_consume.is_none()
    &&& m.energy_cost.is_none()
}

/// The non-empty combinations of the first `k` positions.
pub open spec fn merged_upto(b: Seq<SensorReading>, c: Seq<EnergyReading>, k: nat) -> Seq<
    MergedReading,
>
    decreases k,
{
    if k == 0 {
        Seq::empty()
    } else {
        let m = combine(at(b, k - 1), at(c, k - 1));
        let front = merged_upto(b, c, (k - 1) as nat);
        if is_empty_reading(m) {
            front
        } else {
            front.push(m)
        }
    }
}

/// The positional merge: for each position below the longer of the two
/// lists, the union of the readings found there, leaving out empty ones.
pub open spec fn merged(b: Seq<SensorReading>, c: Seq<EnergyReading>) -> Seq<MergedReading> {
    merged_upto(b, c, if b.len() >= c.len() { b.len() } else { c.len() })
}

impl EnergyReading {
    fn duplicate(&self) -> (r: EnergyReading)
        ensures
            r == *self,
    {
        EnergyReading {
            timestamp: match &self.timestamp {
                Some(t) => Some(t.clone()),
                None => None,
            },
            energy_consume: self.energy_consume,
            energy_cost: self.energy_cost,
        }
    }
}

fn clone_text(t: &Option<String>) -> (r: Option<String>)
    ensures
        r == *t,
{
    match t {
        Some(s) => Some(s.clone()),
        None => None,
    }
}

/// Merges sensor readings and energy readings by position.
pub fn merge_readings(b: &Vec<SensorReading>, c: &Vec<EnergyReading>) -> (r: Vec<MergedReading>)
    ensures
        r@ == merged(b@, c@),
{
    let n = if b.len() >= c.len() {
        b.len()
    } else {
        c.len()
    };
    let mut out: Vec<MergedReading> = Vec::new();
    let mut i: usize = 0;
    while i < n
        invariant
            i <= n,
            n == if b@.len() >= c@.len() {
                b@.len()
            } else {
                c@.len()
            },
            out@ == merged_upto(b@, c@, i as nat),
        decreases n - i,
    {
        let (temperature, humidity) = if i < b.len() {
            (b[i].temperature, b[i].humidity)
        } else {
            (None, None)
        };
        let (timestamp, energy_consume, energy_cost) = if i < c.len() {
            (clone_text(&c[i].timestamp), c[i].energy_consume, c[i].energy_cost)
        } else {
            (None, None, None)
        };
        let m = MergedReading { temperature, humidity, timestamp, energy_consume, energy_cost };
        assert(m == combine(at(b@, i as int), at(c@, i as int)));
        if m.temperature.is_some() || m.humidity.is_some() || m.timestamp.is_some()
            || m.energy_consume.is_some() || m.energy_cost.is_some() {
            out.push(m);
        }
        i += 1;
    }
    out
}

/// Checks partition A's answer for identity `id`: exactly its row.
pub fn check_parent(id: i64, reply: Result<Option<ParentRow>, String>) -> (r: Result<
    ParentRow,
    ReadError,
>)
    ensures
        match reply {
            Err(msg) => r matches Err(ReadError::Query(m)) && m == msg,
            Ok(None) => r matches Err(ReadError::NotFound { id: i }) && i == id,
            Ok(Some(row)) => if row.id == id {
                r == Ok::<ParentRow, ReadError>(row)
            } else {
                r matches Err(ReadError::IdMismatch { expected, found }) && expected == id && found
                    == row.id
            },
        },
{
    match reply {
        Err(msg) => Err(ReadError::Query(msg)),
        Ok(None) => Err(ReadError::NotFound { id }),
        Ok(Some(row)) => {
            if row.id == id {
                Ok(row)
            } else {
                Err(ReadError::IdMismatch { expected: id, found: row.id })
            }
        },
    }
}

/// The readings of a partition, or none where its query failed.
pub open spec fn or_empty<T>(reply: Result<Vec<T>, String>) -> Seq<T> {
    match reply {
        Ok(v) => v@,
        Err(_) => Seq::empty(),
    }
}

/// Builds the record of a confirmed parent row from the answers of partitions
/// B and C; a failed child query counts as no readings.
pub fn assemble_record(
    parent: ParentRow,
    sensors: Result<Vec<SensorReading>, String>,
    energies: Result<Vec<EnergyReading>, String>,
) -> (r: Record)
    ensures
        r.id == parent.id,
        r.uuid == parent.uuid,
        r.color == parent.color,
        r.sensor_data@ == merged(or_empty(sensors), or_empty(energies)),
{
    let b = match sensors {
        Ok(v) => v,
        Err(_) => Vec::new(),
    };
    let c = match energies {
        Ok(v) => v,
        Err(_) => Vec::new(),
    };
    let sensor_data = merge_readings(&b, &c);
    Record { id: parent.id, uuid: parent.uuid, color: parent.color, sensor_data }
}

/// The readings, in order, of the rows tagged with identity `id`.
pub open spec fn readings_for<T>(rows: Seq<(i64, T)>, id: i64) -> Seq<T>
    decreases rows.len(),
{
    if rows.len() == 0 {
        Seq::empty()
    } else {
        let front = readings_for(rows.drop_last(), id);
        if rows.last().0 == id {
            front.push(rows.last().1)
        } else {
            front
        }
    }
}

/// The last parent row with identity `id`, if any.
pub open spec fn parent_for(parents: Seq<ParentRow>, id: i64) -> Option<ParentRow>
    decreases parents.len(),
{
    if parents.len() == 0 {
        None
    } else if parents.last().id == id {
        Some(parents.last())
    } else {
        parent_for(parents.drop_last(), id)
    }
}

/// `r` is the record of identity `id` merged from the given partition rows.
pub open spec fn record_of(
    r: Record,
    id: i64,
    parents: Seq<ParentRow>,
    sensors: Seq<(i64, SensorReading)>,
    energies: Seq<(i64, EnergyReading)>,
) -> bool {
    &&& r.id == id
    &&& r.uuid == match parent_for(parents, id) {
        Some(p) => p.uuid,
        None => None,
    }
    &&& r.color == match parent_for(parents, id) {
        Some(p) => p.color,
        None => None,
    }
    &&& r.sensor_data@ == merged(readings_for(sensors, id), readings_for(energies, id))
}

fn sensor_readings_for(rows: &Vec<(i64, SensorReading)>, id: i64) -> (r: Vec<SensorReading>)
    ensures
        r@ == readings_for(rows@, id),
{
    let mut out: Vec<SensorReading> = Vec::new();
    let mut i: usize = 0;
    while i < rows.len()
        invariant
            i <= rows@.len(),
            out@ == readings_for(rows@.subrange(0, i as int), id),
        decreases rows@.len() - i,
    {
        assert(rows@.subrange(0, i + 1).drop_last() =~= rows@.subrange(0, i as int));
        if rows[i].0 == id {
            out.push(SensorReading { temperature: rows[i].1.temperature, humidity: rows[i].1.humidity });
        }
        i += 1;
    }
    assert(rows@.subrange(0, rows@.len() as int) =~= rows@);
    out
}

fn energy_readings_for(rows: &Vec<(i64, EnergyReading)>, id: i64) -> (r: Vec<EnergyReading>)
    ensures
        r@ == readings_for(rows@, id),
{
    let mut out: Vec<EnergyReading> = Vec::new();
    let mut i: usize = 0;
    while i < rows.len()
        invariant
            i <= rows@.len(),
            out@ == readings_for(rows@.subrange(0, i as int), id),
        decreases rows@.len() - i,
    {
        assert(rows@.subrange(0, i + 1).drop_last() =~= rows@.subrange(0, i as int));
        if rows[i].0 == id {
            out.push(rows[i].1.duplicate());
        }
        i += 1;
    }
    assert(rows@.subrange(0, rows@.len() as int) =~= rows@);
    out
}

fn find_parent(parents: &Vec<ParentRow>, id: i64) -> (r: (Option<String>, Option<String>))
    ensures
        match parent_for(parents@, id) {
            Some(p) => r == (p.uuid, p.color),
            None => r == (None::<String>, None::<String>),
        },
{
    let mut i: usize = parents.len();
    assert(parents@.subrange(0, i as int) =~= parents@);
    while i > 0
        invariant
            i <= parents@.len(),
            parent_for(parents@, id) == parent_for(parents@.subrange(0, i as int), id),
        decreases i,
    {
        assert(parents@.subrange(0, i as int).drop_last() =~= parents@.subrange(0, i - 1));
        if parents[i - 1].id == id {
            return (clone_text(&parents[i - 1].uuid), clone_text(&parents[i - 1].color));
        }
        i -= 1;
    }
    (None, None)
}

/// Merges the rows of the three partitions into one record per identity of
/// `order`, in that order. Partition A gives uuid and color (the last row of
/// an identity wins; none if it has no row); the readings of each identity
/// are merged by position.
pub fn assemble_records(
    order: &Vec<i64>,
    parents: &Vec<ParentRow>,
    sensors: &Vec<(i64, SensorReading)>,
    energies: &Vec<(i64, EnergyReading)>,
) -> (r: Vec<Record>)
    ensures
        r@.len() == order@.len(),
        forall|i: int|
            0 <= i < order@.len() ==> record_of(
                #[trigger] r@[i],
                order@[i],
                parents@,
                sensors@,
                energies@,
            ),
{
    let mut out: Vec<Record> = Vec::new();
    let mut i: usize = 0;
    while i < order.len()
        invariant
            i <= order@.len(),
            out@.len() == i,
            forall|j: int|
                0 <= j < i ==> record_of(#[trigger] out@[j], order@[j], parents@, sensors@, energies@),
        decreases order@.len() - i,
    {
        let id = order[i];
        let (uuid, color) = find_parent(parents, id);
        let b = sensor_readings_for(sensors, id);
        let c = energy_readings_for(energies, id);
        let sensor_data = merge_readings(&b, &c);
        out.push(Record { id, uuid, color, sensor_data });
        i += 1;
    }
    out
}

/// The identities of the parent rows, in order.
pub fn parent_ids(parents: &Vec<ParentRow>) -> (r: Vec<i64>)
    ensures
        r@.len() == parents@.len(),
        forall|i: int| 0 <= i < parents@.len() ==> #[trigger] r@[i] == parents@[i].id,
{
    let mut out: Vec<i64> = Vec::new();
    let mut i: usize = 0;
    while i < parents.len()
        invariant
            i <= parents@.len(),
            out@.len() == i,
            forall|j: int| 0 <= j < i ==> #[trigger] out@[j] == parents@[j].id,
        decreases parents@.len() - i,
    {
        out.push(parents[i].id);
        i += 1;
    }
    out
}

/// The identities of parent rows, in order.
pub open spec fn ids_of(parents: Seq<ParentRow>) -> Seq<i64> {
    parents.map_values(|p: ParentRow| p.id)
}

/// The records of every identity that partition A holds: one per identity,
/// in the order of its first row, none twice.
pub fn merge_all(
    parents: &Vec<ParentRow>,
    sensors: &Vec<(i64, SensorReading)>,
    energies: &Vec<(i64, EnergyReading)>,
) -> (r: Vec<Record>)
    ensures
        r@.len() == first_appearances(ids_of(parents@)).len(),
        forall|i: int|
            0 <= i < r@.len() ==> #[trigger] r@[i].id == first_appearances(ids_of(parents@))[i]
                && record_of(r@[i], r@[i].id, parents@, sensors@, energies@),
        forall|i: int, j: int| 0 <= i < j < r@.len() ==> r@[i].id != r@[j].id,
        forall|x: i64|
            (exists|i: int| 0 <= i < r@.len() && #[trigger] r@[i].id == x) <==> ids_of(
                parents@,
            ).contains(x),
{
    let all = parent_ids(parents);
    assert(all@ =~= ids_of(parents@));
    let order = distinct_ids(&all);
    let r = assemble_records(&order, parents, sensors, energies);
    proof {
        assert forall|x: i64|
            (exists|i: int| 0 <= i < r@.len() && #[trigger] r@[i].id == x) <==> ids_of(
                parents@,
            ).contains(x) by {
            if exists|i: int| 0 <= i < r@.len() && #[trigger] r@[i].id == x {
                let i = choose|i: int| 0 <= i < r@.len() && #[trigger] r@[i].id == x;
                assert(order@[i] == x);
                assert(order@.contains(x));
            }
            if ids_of(parents@).contains(x) {
                assert(order@.contains(x));
                let i = choose|i: int| 0 <= i < order@.len() && order@[i] == x;
                assert(r@[i].id == x);
            }
        }
    }
    r
}

/// What partition A gives back for a row written as `row`.
pub open spec fn stored_parent(row: IdentityRow) -> ParentRow {
    ParentRow { id: row.id, uuid: Some(row.uuid), color: Some(row.color) }
}

/// What partition B gives back for a row written as `row`.
pub open spec fn stored_sensor(row: SensorRow) -> SensorReading {
    SensorReading { temperature: Some(row.temperature), humidity: Some(row.humidity) }
}

/// What partition C gives back for a row written as `row`.
pub open spec fn stored_energy(row: EnergyRow) -> EnergyReading {
    EnergyReading {
        timestamp: Some(row.timestamp),
        energy_consume: Some(row.energy_consume),
        energy_cost: Some(row.energy_cost),
    }
}

proof fn lemma_merged_upto_len(b: Seq<SensorReading>, c: Seq<EnergyReading>, k: nat)
    requires
        forall|i: int|
            0 <= i < k ==> !is_empty_reading(#[trigger] combine(at(b, i), at(c, i))),
    ensures
        merged_upto(b, c, k).len() == k,
    decreases k,
{
    if k > 0 {
        assert(!is_empty_reading(combine(at(b, k - 1), at(c, k - 1))));
        lemma_merged_upto_len(b, c, (k - 1) as nat);
    }
}

/// Where no stored reading is empty, as with those that `create` writes, the
/// positional merge has one reading for each position below the longer of
/// the two lists.
pub proof fn lemma_merged_len(b: Seq<SensorReading>, c: Seq<EnergyReading>)
    requires
        forall|i: int|
            0 <= i < b.len() ==> (#[trigger] b[i]).temperature.is_some() || b[i].humidity.is_some(),
        forall|i: int|
            0 <= i < c.len() ==> (#[trigger] c[i]).timestamp.is_some() || c[i].energy_consume.is_some()
                || c[i].energy_cost.is_some(),
    ensures
        merged(b, c).len() == if b.len() >= c.len() {
            b.len()
        } else {
            c.len()
        },
{
    let n: nat = if b.len() >= c.len() {
        b.len()
    } else {
        c.len()
    };
    assert forall|i: int| 0 <= i < n implies !is_empty_reading(
        #[trigger] combine(at(b, i), at(c, i)),
    ) by {
        if i < b.len() {
            assert(b[i].temperature.is_some() || b[i].humidity.is_some());
        } else {
            assert(c[i].timestamp.is_some() || c[i].energy_consume.is_some()
                || c[i].energy_cost.is_some());
        }
    }
    lemma_merged_upto_len(b, c, n);
}

/// Reading back a record that `create` accepted and wrote under identity
/// `id`, with no other readings for that identity: partition A's row carries
/// the identity (so `check_parent` accepts it) with the submitted uuid and
/// color, and the merged readings are the one reading that holds the
/// submitted numbers and timestamp.
pub proof fn lemma_read_after_create(input: RecordInput, id: i64)
    requires
        input.fault().is_none(),
    ensures
        ({
            let rec = input.valid_form();
            let parent = stored_parent(identity_row_of(rec, id));
            &&& parent.id == id
            &&& parent.uuid == input.uuid
            &&& parent.color == input.color
            &&& merged(
                seq![stored_sensor(sensor_row_of(rec, id))],
                seq![stored_energy(energy_row_of(rec, id))],
            ) == seq![
                MergedReading {
                    temperature: input.sensor.unwrap().temperature,
                    humidity: input.sensor.unwrap().humidity,
                    timestamp: input.timestamp,
                    energy_consume: input.energy.unwrap().consume,
                    energy_cost: input.energy.unwrap().cost,
                },
            ]
        }),
{
    let rec = input.valid_form();
    let b = seq![stored_sensor(sensor_row_of(rec, id))];
    let c = seq![stored_energy(energy_row_of(rec, id))];
    assert(merged_upto(b, c, 0) =~= Seq::<MergedReading>::empty());
    assert(merged(b, c) =~= seq![combine(at(b, 0), at(c, 0))]);
}

/// The number of records on one page.
pub const PAGE_SIZE: u64 = 25;

/// The page of identities to read: the number of pages, the page actually
/// served, and how many identities precede it.
#[derive(Debug, Clone, Copy, PartialEq, Eq, Structural)]
pub struct PageWindow {
    pub total_pages: u64,
    pub current_page: u64,
    pub skip: u64,
}

pub open spec fn pages_for(total: nat) -> nat {
    ((total + PAGE_SIZE - 1) / PAGE_SIZE as int) as nat
}

/// Pages are numbered from 1. Page 0 means page 1; a page past the last
/// means the last, unless there are no pages at all.
pub open spec fn served_page(total: nat, page: nat) -> nat {
    if page < 1 {
        1
    } else if page > pages_for(total) && pages_for(total) > 0 {
        pages_for(total)
    } else {
        page
    }
}

/// The window of page `page` over `total` identities (see `served_page`);
/// an offset past the largest `u64` is held at that value.
pub fn page_window(total: u64, page: u64) -> (r: PageWindow)
    ensures
        r.total_pages == pages_for(total as nat),
        r.current_page == served_page(total as nat, page as nat),
        r.skip == if (r.current_page - 1) * PAGE_SIZE <= u64::MAX {
            (r.current_page - 1) * PAGE_SIZE
        } else {
            u64::MAX as int
        },
{
    let total_pages = total / PAGE_SIZE + if total % PAGE_SIZE != 0 {
        1u64
    } else {
        0u64
    };
    assert(total_pages == pages_for(total as nat)) by (nonlinear_arith)
        requires
            total_pages == total / 25 + if total % 25 != 0 {
                1int
            } else {
                0
            },
            PAGE_SIZE == 25,
    ;
    let current_page = if page < 1 {
        1
    } else if page > total_pages && total_pages > 0 {
        total_pages
    } else {
        page
    };
    let skip = match (current_page - 1).checked_mul(PAGE_SIZE) {
        Some(s) => s,
        None => u64::MAX,
    };
    PageWindow { total_pages, current_page, skip }
}

/// Each identity of `ids` once, in the order of first appearance.
pub open spec fn first_appearances(ids: Seq<i64>) -> Seq<i64>
    decreases ids.len(),
{
    if ids.len() == 0 {
        Seq::empty()
    } else {
        let front = first_appearances(ids.drop_last());
        if front.contains(ids.last()) {
            front
        } else {
            front.push(ids.last())
        }
    }
}

/// `first_appearances(ids)` holds no identity twice, and exactly the
/// identities of `ids`.
pub proof fn lemma_first_appearances(ids: Seq<i64>)
    ensures
        forall|i: int, j: int|
            0 <= i < j < first_appearances(ids).len() ==> first_appearances(ids)[i]
                != first_appearances(ids)[j],
        forall|x: i64| #[trigger] first_appearances(ids).contains(x) <==> ids.contains(x),
    decreases ids.len(),
{
    if ids.len() > 0 {
        let pre = ids.drop_last();
        let last = ids.last();
        let front = first_appearances(pre);
        lemma_first_appearances(pre);
        assert(ids =~= pre.push(last));
        assert forall|x: i64| ids.contains(x) <==> pre.contains(x) || x == last by {
            if ids.contains(x) {
                let a = choose|a: int| 0 <= a < ids.len() && ids[a] == x;
                if a < pre.len() {
                    assert(pre[a] == x);
                }
            }
            if pre.contains(x) {
                let a = choose|a: int| 0 <= a < pre.len() && pre[a] == x;
                assert(ids[a] == x);
            }
            if x == last {
                assert(ids[ids.len() - 1] == x);
            }
        }
        if !front.contains(last) {
            let r = front.push(last);
            assert forall|x: i64| r.contains(x) <==> front.contains(x) || x == last by {
                if r.contains(x) {
                    let a = choose|a: int| 0 <= a < r.len() && r[a] == x;
                    if a < front.len() {
                        assert(front[a] == x);
                    }
                }
                if front.contains(x) {
                    let a = choose|a: int| 0 <= a < front.len() && front[a] == x;
                    assert(r[a] == x);
                }
                if x == last {
                    assert(r[front.len() as int] == x);
                }
            }
            assert forall|i: int, j: int| 0 <= i < j < r.len() implies r[i] != r[j] by {
                if j == front.len() {
                    assert(front.contains(r[i]));
                }
            }
        }
    }
}

/// Each identity of `ids` once, in the order of first appearance.
#[verifier::loop_isolation(false)]
pub fn distinct_ids(ids: &Vec<i64>) -> (r: Vec<i64>)
    ensures
        r@ == first_appearances(ids@),
        forall|i: int, j: int| 0 <= i < j < r@.len() ==> r@[i] != r@[j],
        forall|x: i64| r@.contains(x) <==> ids@.contains(x),
{
    let mut out: Vec<i64> = Vec::new();
    let mut i: usize = 0;
    while i < ids.len()
        invariant
            i <= ids@.len(),
            out@ == first_appearances(ids@.subrange(0, i as int)),
        decreases ids@.len() - i,
    {
        let id = ids[i];
        let mut seen = false;
        let mut k: usize = 0;
        while k < out.len()
            invariant
                k <= out@.len(),
                seen <==> exists|a: int| 0 <= a < k && out@[a] == id,
            decreases out@.len() - k,
        {
            if out[k] == id {
                seen = true;
            }
            k += 1;
        }
        proof {
            let pre = ids@.subrange(0, i + 1);
            assert(pre.drop_last() =~= ids@.subrange(0, i as int));
            assert(pre.last() == id);
            if seen {
                let a = choose|a: int| 0 <= a < out@.len() && out@[a] == id;
                assert(out@.contains(id));
            } else {
                assert(!out@.contains(id));
            }
        }
        if !seen {
            out.push(id);
        }
        i += 1;
    }
    proof {
        assert(ids@.subrange(0, ids@.len() as int) =~= ids@);
        lemma_first_appearances(ids@);
    }
    out
}

} // verus!
