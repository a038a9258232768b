//! Telemetry records as submitted by clients, their validation, and the
//! per-partition rows a validated record is split into.
use vstd::prelude::*;

verus! {

/// A numeric field is carried as the IEEE 754 binary64 bit pattern of its
/// value (what `f64::to_bits` gives). It is finite unless all eleven
/// exponent bits are set (infinity or NaN).
pub open spec fn is_finite_bits(bits: u64) -> bool {
    (bits >> 52u64) & 0x7ffu64 != 0x7ffu64
}

/// Whether the binary64 value with these bits is finite (`f64::is_finite`).
pub fn is_finite_number(bits: u64) -> (r: bool)
    ensures
        r == is_finite_bits(bits),
{
    (bits >> 52u64) & 0x7ffu64 != 0x7ffu64
}

/// The sensor part of a submitted record; a field is `None` when absent or
/// not a number.
pub struct SensorInput {
    pub temperature: Option<u64>,
    pub humidity: Option<u64>,
}

/// The energy part of a submitted record.
pub struct EnergyInput {
    pub consume: Option<u64>,
    pub cost: Option<u64>,
}

/// A record as a client submits it, before validation. Identity is never
/// client-supplied.
pub struct RecordInput {
    pub uuid: Option<String>,
    pub color: Option<String>,
    pub sensor: Option<SensorInput>,
    pub timestamp: Option<String>,
    pub energy: Option<EnergyInput>,
}

/// A record that passed validation: every field present, every number finite.
pub struct ValidRecord {
    pub uuid: String,
    pub color: String,
    pub temperature: u64,
    pub humidity: u64,
    pub timestamp: String,
    pub energy_consume: u64,
    pub energy_cost: u64,
}

/// Why a submitted record was refused.
#[derive(Debug, Clone, Copy, PartialEq, Eq, Structural)]
pub enum RecordFault {
    /// A required field is absent.
    MissingField,
    /// A numeric field is NaN or infinite.
    NonFinite,
}

impl RecordInput {
    /// Every required field is present.
    pub open spec fn has_all_fields(&self) -> bool {
        &&& self.uuid.is_some()
        &&& self.color.is_some()
        &&& self.timestamp.is_some()
        &&& self.sensor.is_some()
        &&& self.sensor.unwrap().temperature.is_some()
        &&& self.sensor.unwrap().humidity.is_some()
        &&& self.energy.is_some()
        &&& self.energy.unwrap().consume.is_some()
        &&& self.energy.unwrap().cost.is_some()
    }

    /// Every numeric field is finite (meaningful once all fields are present).
    pub open spec fn all_finite(&self) -> bool {
        &&& is_finite_bits(self.sensor.unwrap().temperature.unwrap())
        &&& is_finite_bits(self.sensor.unwrap().humidity.unwrap())
        &&& is_finite_bits(self.energy.unwrap().consume.unwrap())
        &&& is_finite_bits(self.energy.unwrap().cost.unwrap())
    }

    /// The fault of this record, if any: a missing field takes precedence.
    pub open spec fn fault(&self) -> Option<RecordFault> {
        if !self.has_all_fields() {
            Some(RecordFault::MissingField)
        } else if !self.all_finite() {
            Some(RecordFault::NonFinite)
        } else {
            None
        }
    }

    /// The validated form of a record without fault.
    pub open spec fn valid_form(&self) -> ValidRecord {
        ValidRecord {
            uuid: self.uuid.unwrap(),
            color: self.color.unwrap(),
            temperature: self.sensor.unwrap().temperature.unwrap(),
            humidity: self.sensor.unwrap().humidity.unwrap(),
            timestamp: self.timestamp.unwrap(),
            energy_consume: self.energy.unwrap().consume.unwrap(),
            energy_cost: self.energy.unwrap().cost.unwrap(),
        }
    }

    /// Checks one record: its fault, or its validated form.
    pub fn validate_new_item(&self) -> (r: Result<ValidRecord, RecordFault>)
        ensures
            match r {
                Ok(v) => self.fault().is_none() && v == self.valid_form(),
                Err(f) => self.fault() == Some(f),
            },
    {
        let (temperature, humidity) = match &self.sensor {
            Some(s) => match (s.temperature, s.humidity) {
                (Some(t), Some(h)) => (t, h),
                _ => return Err(RecordFault::MissingField),
            },
            None => return Err(RecordFault::MissingField),
        };
        let (energy_consume, energy_cost) = match &self.energy {
            Some(e) => match (e.consume, e.cost) {
                (Some(c), Some(k)) => (c, k),
                _ => return Err(RecordFault::MissingField),
            },
            None => return Err(RecordFault::MissingField),
        };
        let uuid = match &self.uuid {
            Some(u) => u.clone(),
            None => return Err(RecordFault::MissingField),
        };
        let color = match &self.color {
            Some(c) => c.clone(),
            None => return Err(RecordFault::MissingField),
        };
        let timestamp = match &self.timestamp {
            Some(t) => t.clone(),
            None => return Err(RecordFault::MissingField),
        };
        if !is_finite_number(temperature) || !is_finite_number(humidity) || !is_finite_number(
            energy_consume,
        ) || !is_finite_number(energy_cost) {
            return Err(RecordFault::NonFinite);
        }
        Ok(ValidRecord { uuid, color, temperature, humidity, timestamp, energy_consume, energy_cost })
    }
}

impl ValidRecord {
    /// A copy with equal fields.
    pub fn duplicate(&self) -> (r: ValidRecord)
        ensures
            r == *self,
    {
        ValidRecord {
            uuid: self.uuid.clone(),
            color: self.color.clone(),
            temperature: self.temperature,
            humidity: self.humidity,
            timestamp: self.timestamp.clone(),
            energy_consume: self.energy_consume,
            energy_cost: self.energy_cost,
        }
    }
}

/// A stand-alone sensor reading submitted for partition B.
pub struct SensorDataInput {
    pub timestamp: Option<String>,
    pub temperature: Option<u64>,
    pub humidity: Option<u64>,
}

/// A stand-alone energy reading submitted for partition C.
pub struct EnergyDataInput {
    pub timestamp: Option<String>,
    pub energy_cost: Option<u64>,
}

impl SensorDataInput {
    pub open spec fn fault(&self) -> Option<RecordFault> {
        if self.timestamp.is_none() || self.temperature.is_none() || self.humidity.is_none() {
            Some(RecordFault::MissingField)
        } else if !is_finite_bits(self.temperature.unwrap()) || !is_finite_bits(
            self.humidity.unwrap(),
        ) {
            Some(RecordFault::NonFinite)
        } else {
            None
        }
    }

    /// Checks one stand-alone sensor reading.
    pub fn validate_new_sensordata(&self) -> (r: Option<RecordFault>)
        ensures
            r == self.fault(),
    {
        match (&self.timestamp, self.temperature, self.humidity) {
            (Some(_), Some(t), Some(h)) => {
                if is_finite_number(t) && is_finite_number(h) {
                    None
                } else {
                    Some(RecordFault::NonFinite)
                }
            },
            _ => Some(RecordFault::MissingField),
        }
    }
}

impl EnergyDataInput {
    pub open spec fn fault(&self) -> Option<RecordFault> {
        if self.timestamp.is_none() || self.energy_cost.is_none() {
            Some(RecordFault::MissingField)
        } else if !is_finite_bits(self.energy_cost.unwrap()) {
            Some(RecordFault::NonFinite)
        } else {
            None
        }
    }

    /// Checks one stand-alone energy reading.
    pub fn validate_new_energydata(&self) -> (r: Option<RecordFault>)
        ensures
            r == self.fault(),
    {
        match (&self.timestamp, self.energy_cost) {
            (Some(_), Some(c)) => {
                if is_finite_number(c) {
                    None
                } else {
                    Some(RecordFault::NonFinite)
                }
            },
            _ => Some(RecordFault::MissingField),
        }
    }
}

/// The row of a record in partition A: identity, uuid and color.
pub struct IdentityRow {
    pub id: i64,
    pub uuid: String,
    pub color: String,
}

/// The row of a record in partition B: identity, sensor reading, timestamp.
pub struct SensorRow {
    pub id: i64,
    pub temperature: u64,
    pub humidity: u64,
    pub timestamp: String,
}

/// The row of a record in partition C: identity, timestamp, energy reading.
pub struct EnergyRow {
    pub id: i64,
    pub timestamp: String,
    pub energy_consume: u64,
    pub energy_cost: u64,
}

pub open spec fn identity_row_of(r: ValidRecord, id: i64) -> IdentityRow {
    IdentityRow { id, uuid: r.uuid, color: r.color }
}

pub open spec fn sensor_row_of(r: ValidRecord, id: i64) -> SensorRow {
    SensorRow { id, temperature: r.temperature, humidity: r.humidity, timestamp: r.timestamp }
}

pub open spec fn energy_row_of(r: ValidRecord, id: i64) -> EnergyRow {
    EnergyRow {
        id,
        timestamp: r.timestamp,
        energy_consume: r.energy_consume,
        energy_cost: r.energy_cost,
    }
}

impl ValidRecord {
    /// The three per-partition projections of this record under identity `id`.
    pub fn prepare_all_item_params(&self, id: i64) -> (r: (IdentityRow, SensorRow, EnergyRow))
        ensures
            r.0 == identity_row_of(*self, id),
            r.1 == sensor_row_of(*self, id),
            r.2 == energy_row_of(*self, id),
    {
        (
            IdentityRow { id, uuid: self.uuid.clone(), color: self.color.clone() },
            SensorRow {
                id,
                temperature: self.temperature,
                humidity: self.humidity,
                timestamp: self.timestamp.clone(),
            },
            EnergyRow {
                id,
                timestamp: self.timestamp.clone(),
                energy_consume: self.energy_consume,
                energy_cost: self.energy_cost,
            },
        )
    }
}

} // verus!
