//! Readings, durable rows, and the codec between them.
//!
//! Measured quantities are carried as IEEE-754 single-precision bit patterns
//! (`f32::to_bits`), so a value round-trips bit for bit. Angles are in degrees.
//! Absence of a quantity is `None`, never a sentinel number.
use vstd::prelude::*;

verus! {

/// A three-axis measurement; each component is an `f32` bit pattern.
#[derive(Clone, Copy, Debug, PartialEq, Eq)]
pub struct Vector3D {
    pub x: u32,
    pub y: u32,
    pub z: u32,
}

/// An orientation estimate in degrees; each component is an `f32` bit pattern.
#[derive(Clone, Copy, Debug, PartialEq, Eq)]
pub struct Orientation {
    pub roll: u32,
    pub pitch: u32,
    pub yaw: u32,
    pub heading_accuracy: u32,
}

/// The inertial part of a capture. Each block may be absent on its own.
#[derive(Clone, Copy, Debug, PartialEq, Eq)]
pub struct Inertial {
    pub pose: Option<Orientation>,
    pub gyro: Option<Vector3D>,
    pub accel: Option<Vector3D>,
    pub mag: Option<Vector3D>,
}

/// Why a sensor produced no inertial data in a cycle.
#[derive(Clone, Copy, Debug, PartialEq, Eq)]
pub enum ImuError {
    NotReady,
}

/// One transient capture, before it is stored.
#[derive(Clone, Copy, Debug, PartialEq, Eq)]
pub struct ImuData {
    /// Device-local capture time.
    pub timestamp: u64,
    pub inertial: Result<Inertial, ImuError>,
    /// Barometric pressure, an `f32` bit pattern.
    pub pressure: Option<u32>,
    /// Ambient temperature, an `f32` bit pattern.
    pub temperature: Option<u32>,
    /// Processor temperature, an `f32` bit pattern.
    pub temp_cpu: Option<u32>,
}

/// The durable form of a capture.
#[derive(Clone, Copy, Debug, PartialEq, Eq)]
pub struct StoredRow {
    /// Identity assigned by the store; 0 until the row is appended.
    pub line_no: u64,
    pub device_id: u64,
    pub capture_time: u64,
    pub external_time: Option<u64>,
    /// Per-device counter, assigned by the store at append time.
    pub sequence: u32,
    pub accel: Option<Vector3D>,
    pub gyro: Option<Vector3D>,
    pub mag: Option<Vector3D>,
    pub pose: Option<Orientation>,
    pub pressure: Option<u32>,
    pub temperature: Option<u32>,
    pub temp_cpu: Option<u32>,
    pub uploaded: bool,
    pub confirmed: bool,
}

/// An inertial block with every part absent.
pub open spec fn no_inertial() -> Inertial {
    Inertial { pose: None, gyro: None, accel: None, mag: None }
}

/// The inertial parts a capture holds; a sensor that was not ready holds none.
pub open spec fn inertial_fields(i: Result<Inertial, ImuError>) -> Inertial {
    match i {
        Ok(v) => v,
        Err(_) => no_inertial(),
    }
}

/// The row that stores `reading` for `device_id`, before the store assigns its identity.
pub open spec fn encoded(reading: ImuData, device_id: u64, sequence: u32, external_time: Option<u64>) -> StoredRow {
    let i = inertial_fields(reading.inertial);
    StoredRow {
        line_no: 0,
        device_id,
        capture_time: reading.timestamp,
        external_time,
        sequence,
        accel: i.accel,
        gyro: i.gyro,
        mag: i.mag,
        pose: i.pose,
        pressure: reading.pressure,
        temperature: reading.temperature,
        temp_cpu: reading.temp_cpu,
        uploaded: false,
        confirmed: false,
    }
}

/// The capture a row holds. A row without any inertial part reads as a sensor that was not ready.
pub open spec fn decoded(row: StoredRow) -> ImuData {
    let i = Inertial { pose: row.pose, gyro: row.gyro, accel: row.accel, mag: row.mag };
    ImuData {
        timestamp: row.capture_time,
        inertial: if i == no_inertial() {
            Err(ImuError::NotReady)
        } else {
            Ok(i)
        },
        pressure: row.pressure,
        temperature: row.temperature,
        temp_cpu: row.temp_cpu,
    }
}

impl Inertial {
    /// True when no inertial part is present.
    pub fn is_empty(&self) -> (r: bool)
        ensures
            r == (*self == no_inertial()),
    {
        self.pose.is_none() && self.gyro.is_none() && self.accel.is_none() && self.mag.is_none()
    }
}

impl ImuData {
    /// A capture at time zero with every inertial quantity zero and nothing else present.
    pub fn zero() -> (r: ImuData)
        ensures
            r.timestamp == 0,
            r.inertial == Ok::<Inertial, ImuError>(
                Inertial {
                    pose: Some(Orientation { roll: 0, pitch: 0, yaw: 0, heading_accuracy: 0 }),
                    gyro: Some(Vector3D { x: 0, y: 0, z: 0 }),
                    accel: Some(Vector3D { x: 0, y: 0, z: 0 }),
                    mag: Some(Vector3D { x: 0, y: 0, z: 0 }),
                },
            ),
            r.pressure.is_none(),
            r.temperature.is_none(),
            r.temp_cpu.is_none(),
    {
        let z = Vector3D { x: 0, y: 0, z: 0 };
        ImuData {
            timestamp: 0,
            inertial: Ok(
                Inertial {
                    pose: Some(Orientation { roll: 0, pitch: 0, yaw: 0, heading_accuracy: 0 }),
                    gyro: Some(z),
                    accel: Some(z),
                    mag: Some(z),
                },
            ),
            pressure: None,
            temperature: None,
            temp_cpu: None,
        }
    }
}

/// Turns a capture into the row that stores it. The capture's timestamp becomes
/// the row's capture time; absent parts stay absent.
pub fn encode_row(reading: &ImuData, device_id: u64, sequence: u32, external_time: Option<u64>) -> (r: StoredRow)
    ensures
        r == encoded(*reading, device_id, sequence, external_time),
{
    let i = match reading.inertial {
        Ok(v) => v,
        Err(_) => Inertial { pose: None, gyro: None, accel: None, mag: None },
    };
    StoredRow {
        line_no: 0,
        device_id,
        capture_time: reading.timestamp,
        external_time,
        sequence,
        accel: i.accel,
        gyro: i.gyro,
        mag: i.mag,
        pose: i.pose,
        pressure: reading.pressure,
        temperature: reading.temperature,
        temp_cpu: reading.temp_cpu,
        uploaded: false,
        confirmed: false,
    }
}

/// Reads the capture back out of a row.
pub fn decode_row(row: &StoredRow) -> (r: ImuData)
    ensures
        r == decoded(*row),
{
    let i = Inertial { pose: row.pose, gyro: row.gyro, accel: row.accel, mag: row.mag };
    let inertial = if i.is_empty() {
        Err(ImuError::NotReady)
    } else {
        Ok(i)
    };
    ImuData {
        timestamp: row.capture_time,
        inertial,
        pressure: row.pressure,
        temperature: row.temperature,
        temp_cpu: row.temp_cpu,
    }
}

/// Storing a capture and reading it back loses nothing: every present part comes
/// back unchanged and every absent part stays absent. The capture comes back
/// exactly, except that an inertial block with no part present reads as not ready.
pub proof fn lemma_decode_encode_row(reading: ImuData, device_id: u64, sequence: u32, external_time: Option<u64>)
    ensures
        decoded(encoded(reading, device_id, sequence, external_time)).timestamp == reading.timestamp,
        decoded(encoded(reading, device_id, sequence, external_time)).pressure == reading.pressure,
        decoded(encoded(reading, device_id, sequence, external_time)).temperature == reading.temperature,
        decoded(encoded(reading, device_id, sequence, external_time)).temp_cpu == reading.temp_cpu,
        inertial_fields(decoded(encoded(reading, device_id, sequence, external_time)).inertial)
            == inertial_fields(reading.inertial),
        reading.inertial != Ok::<Inertial, ImuError>(no_inertial()) ==> decoded(
            encoded(reading, device_id, sequence, external_time),
        ) == reading,
{
    match reading.inertial {
        Ok(v) => {
            assert(Inertial { pose: v.pose, gyro: v.gyro, accel: v.accel, mag: v.mag } == v);
        },
        Err(e) => {
            assert(e == ImuError::NotReady);
        },
    }
}

} // verus!
