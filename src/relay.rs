//! The messages exchanged with the remote collector, and the collector's side
//! of the exchange: each batch is acknowledged with a count of accepted rows.
use vstd::prelude::*;
use crate::row::StoredRow;

verus! {

/// One GPS fix as relayed. Measured quantities are `f32` bit patterns; the
/// auxiliary fields are packed into `status_nsats_vuc` (see `status`).
#[derive(Clone, Copy, Debug, PartialEq, Eq)]
pub struct GpsData {
    pub uuid: u64,
    pub pitime: u64,
    pub gps_time: u64,
    pub sequence: u32,
    pub lat: u32,
    pub lon: u32,
    pub alt: u32,
    pub speed: u32,
    pub track: u32,
    pub status_nsats_vuc: u32,
    pub hdop: u32,
}

/// A batch of inertial rows, in submission order.
#[derive(Clone, Debug)]
pub struct ImuVec {
    pub data: Vec<StoredRow>,
}

/// A batch of GPS fixes, in submission order.
#[derive(Clone, Debug)]
pub struct GpsVec {
    pub data: Vec<GpsData>,
}

/// The acknowledgement of an inertial batch.
#[derive(Clone, Copy, Debug, PartialEq, Eq)]
pub struct ImuReply {
    /// How many rows, from the front of the batch, the collector accepted.
    pub accepted_count: u32,
}

/// The acknowledgement of a GPS batch.
#[derive(Clone, Copy, Debug, PartialEq, Eq)]
pub struct GpsReply {
    /// How many fixes, from the front of the batch, the collector accepted.
    pub accepted_count: u32,
}

/// A batch length as an acknowledgement count, saturating at `u32::MAX`.
pub open spec fn count_of(len: int) -> int {
    if len <= u32::MAX {
        len
    } else {
        u32::MAX as int
    }
}

fn saturating_count(len: usize) -> (r: u32)
    ensures
        r as int == count_of(len as int),
{
    if len <= u32::MAX as usize {
        len as u32
    } else {
        u32::MAX
    }
}

/// The collector for inertial batches: it accepts every row it receives.
#[derive(Clone, Copy, Debug, Default)]
pub struct ImuDataSource {}

impl ImuDataSource {
    /// Receives a batch and acknowledges all of its rows.
    pub fn send_imu(&self, request: &ImuVec) -> (r: ImuReply)
        ensures
            r.accepted_count as int == count_of(request.data@.len() as int),
    {
        ImuReply { accepted_count: saturating_count(request.data.len()) }
    }
}

/// The collector for GPS batches: it accepts every fix it receives.
#[derive(Clone, Copy, Debug, Default)]
pub struct GpsDataSource {}

impl GpsDataSource {
    /// Receives a batch and acknowledges all of its fixes.
    pub fn send_gps(&self, request: &GpsVec) -> (r: GpsReply)
        ensures
            r.accepted_count as int == count_of(request.data@.len() as int),
    {
        GpsReply { accepted_count: saturating_count(request.data.len()) }
    }
}

} // verus!
