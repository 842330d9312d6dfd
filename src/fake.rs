//! Fixed sample data for exercising the pipeline without hardware.
use vstd::prelude::*;
use crate::relay::{GpsData, GpsVec, ImuVec};
use crate::row::{encode_row, encoded, ImuData, ImuError, Inertial, Orientation, StoredRow, Vector3D};
use crate::status::{encode_fields, status_word};
use crate::store::{appended, lemma_next_sequence_after_append, next_seq_of, LocalStore, StoreError};

verus! {

/// The device identity the sample rows carry.
pub const SAMPLE_DEVICE: u64 = 0x1234567890AB;

/// The sample capture taken at `timestamp`.
pub open spec fn sample_reading(timestamp: u64) -> ImuData {
    ImuData {
        timestamp,
        inertial: Ok(
            Inertial {
                pose: Some(
                    Orientation {
                        roll: 0x41266666,
                        pitch: 0,
                        yaw: 0x433ce666,
                        heading_accuracy: 0x404ccccd,
                    },
                ),
                gyro: Some(Vector3D { x: 0x3c23d70a, y: 0x3cf5c28f, z: 0x41940000 }),
                accel: Some(Vector3D { x: 0x3c23d70a, y: 0x3cf5c28f, z: 0x3f80a3d7 }),
                mag: Some(Vector3D { x: 0x41e26666, y: 0x41873333, z: 0x41333333 }),
            },
        ),
        pressure: Some(0x47c5e400),
        temperature: Some(0x41b80000),
        temp_cpu: Some(0x429a999a),
    }
}

/// The sample fix with the given sequence.
pub open spec fn sample_fix(sequence: u32) -> GpsData {
    GpsData {
        uuid: SAMPLE_DEVICE,
        pitime: 2000000000,
        gps_time: 1999999999,
        sequence,
        lat: 0x42487e6b,
        lon: 0xc09ff5e3,
        alt: 0x42c8e666,
        speed: 0x41200000,
        track: 0x43b3ff6f,
        status_nsats_vuc: status_word(1, 12, true, false, false) as u32,
        hdop: 0x4146e9e2,
    }
}

/// A sample capture: roll 10.4, pitch 0, yaw 188.9 degrees, heading accuracy 3.2;
/// gyro (0.01, 0.03, 18.5), accel (0.01, 0.03, 1.005), mag (28.3, 16.9, 11.2);
/// pressure 101320 Pa, temperature 23.0, processor temperature 77.3.
pub fn generate_imu_reading(timestamp: u64) -> (r: ImuData)
    ensures
        r == sample_reading(timestamp),
{
    ImuData {
        timestamp,
        inertial: Ok(
            Inertial {
                pose: Some(
                    Orientation {
                        roll: 0x41266666,
                        pitch: 0,
                        yaw: 0x433ce666,
                        heading_accuracy: 0x404ccccd,
                    },
                ),
                gyro: Some(Vector3D { x: 0x3c23d70a, y: 0x3cf5c28f, z: 0x41940000 }),
                accel: Some(Vector3D { x: 0x3c23d70a, y: 0x3cf5c28f, z: 0x3f80a3d7 }),
                mag: Some(Vector3D { x: 0x41e26666, y: 0x41873333, z: 0x41333333 }),
            },
        ),
        pressure: Some(0x47c5e400),
        temperature: Some(0x41b80000),
        temp_cpu: Some(0x429a999a),
    }
}

/// The sample capture at `timestamp` as an unstored row of the sample device.
pub fn generate_imu_line(seq: u32, timestamp: u64) -> (r: StoredRow)
    ensures
        r == encoded(sample_reading(timestamp), SAMPLE_DEVICE, seq, None),
{
    let reading = generate_imu_reading(timestamp);
    encode_row(&reading, SAMPLE_DEVICE, seq, None)
}

/// `n` sample rows with sequences `0, 1, ..., n - 1`.
pub fn generate_imu_data(n: usize, timestamp: u64) -> (r: ImuVec)
    requires
        n <= u32::MAX as usize + 1,
    ensures
        r.data@.len() == n,
        forall|i: int|
            0 <= i < n ==> #[trigger] r.data@[i] == encoded(
                sample_reading(timestamp),
                SAMPLE_DEVICE,
                i as u32,
                None,
            ),
{
    let mut d: Vec<StoredRow> = Vec::new();
    let mut i: usize = 0;
    while i < n
        invariant
            i <= n <= u32::MAX as usize + 1,
            d@.len() == i,
            forall|k: int|
                0 <= k < i ==> #[trigger] d@[k] == encoded(sample_reading(timestamp), SAMPLE_DEVICE, k as u32, None),
        decreases n - i,
    {
        d.push(generate_imu_line(i as u32, timestamp));
        i += 1;
    }
    ImuVec { data: d }
}

/// The sample fix with the given sequence: status 1, 12 satellites, valid,
/// neither uploaded nor confirmed.
pub fn generate_gps_line(sequence: u32) -> (r: GpsData)
    ensures
        r == sample_fix(sequence),
{
    let status_nsats_vuc = encode_fields(1, 12, true, false, false);
    GpsData {
        uuid: SAMPLE_DEVICE,
        pitime: 2000000000,
        gps_time: 1999999999,
        sequence,
        lat: 0x42487e6b,
        lon: 0xc09ff5e3,
        alt: 0x42c8e666,
        speed: 0x41200000,
        track: 0x43b3ff6f,
        status_nsats_vuc,
        hdop: 0x4146e9e2,
    }
}

/// `n` sample fixes with sequences `0, 1, ..., n - 1`.
pub fn generate_gps_data(n: usize) -> (r: GpsVec)
    requires
        n <= u32::MAX as usize + 1,
    ensures
        r.data@.len() == n,
        forall|i: int| 0 <= i < n ==> #[trigger] r.data@[i] == sample_fix(i as u32),
{
    let mut d: Vec<GpsData> = Vec::new();
    let mut i: usize = 0;
    while i < n
        invariant
            i <= n <= u32::MAX as usize + 1,
            d@.len() == i,
            forall|k: int| 0 <= k < i ==> #[trigger] d@[k] == sample_fix(k as u32),
        decreases n - i,
    {
        d.push(generate_gps_line(i as u32));
        i += 1;
    }
    GpsVec { data: d }
}

/// Captures the sample reading at `timestamp` for `device_id`, `n_entries` times.
/// Stops at the first append that fails and returns its error; the rows
/// appended before it stay. Row `k` of the run has sequence `s + k`, where `s`
/// is the device's next sequence before the call.
pub fn fill_imu(store: &mut LocalStore, device_id: u64, n_entries: usize, timestamp: u64) -> (r: Result<(), StoreError>)
    requires
        old(store).well_formed(),
    ensures
        final(store).well_formed(),
        r.is_ok() <==> next_seq_of(old(store)@, device_id) + n_entries <= u32::MAX + 1 && old(
            store,
        )@.len() + n_entries <= u64::MAX,
        r.is_ok() ==> final(store)@.len() == old(store)@.len() + n_entries,
        old(store)@.len() <= final(store)@.len() <= old(store)@.len() + n_entries,
        final(store)@.take(old(store)@.len() as int) == old(store)@,
        forall|k: int|
            old(store)@.len() <= k < final(store)@.len() ==> #[trigger] final(store)@[k] == appended(
                final(store)@.take(k),
                encoded(sample_reading(timestamp), device_id, 0, None),
            ) && final(store)@[k].sequence == next_seq_of(old(store)@, device_id) + (k - old(
                store,
            )@.len()),
{
    let ghost start = store@;
    let ghost s0 = next_seq_of(store@, device_id);
    let ghost row = encoded(sample_reading(timestamp), device_id, 0, None);
    let reading = generate_imu_reading(timestamp);
    proof {
        crate::store::lemma_next_sequence_resumes(start, device_id);
        assert(start.take(start.len() as int) =~= start);
    }
    let mut i: usize = 0;
    while i < n_entries
        invariant
            store.well_formed(),
            i <= n_entries,
            reading == sample_reading(timestamp),
            row == encoded(sample_reading(timestamp), device_id, 0, None),
            s0 == next_seq_of(start, device_id),
            start == old(store)@,
            store@.len() == start.len() + i,
            store@.take(start.len() as int) == start,
            next_seq_of(store@, device_id) == s0 + i,
            s0 + i <= u32::MAX + 1,
            start.len() + i <= u64::MAX,
            forall|k: int|
                start.len() <= k < store@.len() ==> #[trigger] store@[k] == appended(store@.take(k), row)
                    && store@[k].sequence == s0 + (k - start.len()),
        decreases n_entries - i,
    {
        let ghost before = store@;
        let res = store.capture(device_id, &reading, None);
        match res {
            Ok(_) => {
                proof {
                    assert(next_seq_of(before, device_id) <= u32::MAX);
                    assert(row.device_id == device_id);
                    lemma_next_sequence_after_append(before, row);
                    assert(store@.take(start.len() as int) =~= before.take(start.len() as int));
                    assert(store@.take(before.len() as int) =~= before);
                    assert forall|k: int| start.len() <= k < store@.len() implies #[trigger] store@[k]
                        == appended(store@.take(k), row) && store@[k].sequence == s0 + (k - start.len()) by {
                        if k < before.len() {
                            assert(store@.take(k) =~= before.take(k));
                            assert(store@[k] == before[k]);
                        }
                    }
                }
            },
            Err(e) => {
                return Err(e);
            },
        }
        i += 1;
    }
    Ok(())
}

} // verus!
