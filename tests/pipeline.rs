use telemetry_relay::fake::{fill_imu, generate_imu_data, generate_imu_line, generate_imu_reading, SAMPLE_DEVICE};
use telemetry_relay::relay::{ImuDataSource, ImuVec};
use telemetry_relay::row::{decode_row, encode_row, ImuData, ImuError, Inertial, Orientation, StoredRow, Vector3D};
use telemetry_relay::store::{LocalStore, StoreError};

const D1: u64 = 0xD1;
const D2: u64 = 0xD2;

fn reading(t: u64) -> ImuData {
    generate_imu_reading(t)
}

fn not_ready(t: u64) -> ImuData {
    ImuData {
        timestamp: t,
        inertial: Err(ImuError::NotReady),
        pressure: None,
        temperature: Some(21.5f32.to_bits()),
        temp_cpu: None,
    }
}

fn persisted(line_no: u64, device_id: u64, sequence: u32, uploaded: bool, confirmed: bool) -> StoredRow {
    let mut r = encode_row(&reading(1000 + line_no), device_id, sequence, None);
    r.line_no = line_no;
    r.uploaded = uploaded;
    r.confirmed = confirmed;
    r
}

#[test]
fn scenario_a_three_rows_fresh_device() {
    let mut store = LocalStore::new();
    for t in 0..3u64 {
        assert!(store.capture(D1, &reading(t), None).is_ok());
    }
    let seqs: Vec<u32> = (1..=3u64).map(|l| store.row(l).unwrap().sequence).collect();
    assert_eq!(seqs, vec![0, 1, 2]);
    let batch = store.fetch_pending(2);
    let lines: Vec<u64> = batch.iter().map(|r| r.line_no).collect();
    assert_eq!(lines, vec![1, 2]);
}

#[test]
fn scenario_b_partial_acknowledgement() {
    let mut store = LocalStore::new();
    for t in 0..3u64 {
        store.capture(D1, &reading(t), None).unwrap();
    }
    let batch = store.fetch_pending(3);
    assert_eq!(batch.len(), 3);
    store.acknowledge(&batch, 2);
    assert!(store.row(1).unwrap().uploaded);
    assert!(store.row(2).unwrap().uploaded);
    assert!(!store.row(3).unwrap().uploaded);
    let next: Vec<u64> = store.fetch_pending(10).iter().map(|r| r.line_no).collect();
    assert_eq!(next, vec![3]);
}

#[test]
fn scenario_c_sensor_not_ready_row() {
    let mut store = LocalStore::new();
    store.capture(D1, &reading(1), None).unwrap();
    let before_seq = store.row(1).unwrap().sequence;
    let line = store.capture(D1, &not_ready(2), Some(77)).unwrap();
    assert_eq!(line, 2);
    let row = store.row(2).unwrap();
    assert_eq!(row.sequence, before_seq + 1);
    assert_eq!(row.accel, None);
    assert_eq!(row.gyro, None);
    assert_eq!(row.mag, None);
    assert_eq!(row.pose, None);
    assert_eq!(row.capture_time, 2);
    assert_eq!(row.external_time, Some(77));
    assert_eq!(row.temperature, Some(21.5f32.to_bits()));
    assert!(!row.uploaded && !row.confirmed);
}

#[test]
fn scenario_d_restart_resumes_sequence() {
    let mut rows = Vec::new();
    for s in 0..10u32 {
        rows.push(persisted(s as u64 + 1, D2, s, false, false));
    }
    let mut store = LocalStore::from_rows(rows).unwrap();
    assert_eq!(store.next_sequence(D2), Ok(10));
    let line = store.capture(D2, &reading(99), None).unwrap();
    assert_eq!(line, 11);
    assert_eq!(store.row(11).unwrap().sequence, 10);
}

#[test]
fn restart_ignores_other_devices() {
    let rows = vec![
        persisted(1, D1, 40, true, true),
        persisted(2, D2, 3, false, false),
        persisted(3, D1, 41, false, false),
        persisted(4, D2, 7, false, false),
        persisted(5, D1, 2, false, false),
    ];
    let store = LocalStore::from_rows(rows).unwrap();
    assert_eq!(store.next_sequence(D1), Ok(42));
    assert_eq!(store.next_sequence(D2), Ok(8));
    assert_eq!(store.next_sequence(0xEE), Ok(0));
}

#[test]
fn restart_rejects_bad_rows() {
    assert!(LocalStore::from_rows(vec![persisted(2, D1, 0, false, false)]).is_none());
    assert!(LocalStore::from_rows(vec![persisted(1, D1, 0, false, true)]).is_none());
    assert!(LocalStore::from_rows(vec![persisted(1, D1, 0, false, false), persisted(1, D1, 1, false, false)]).is_none());
    assert_eq!(LocalStore::from_rows(Vec::new()).unwrap().len(), 0);
}

#[test]
fn sequences_and_lines_increase_per_device() {
    let mut store = LocalStore::new();
    let devices = [D1, D2, D1, D1, D2, D1];
    for (k, d) in devices.iter().enumerate() {
        assert_eq!(store.capture(*d, &reading(k as u64), None), Ok(k as u64 + 1));
    }
    for l in 1..=6u64 {
        assert_eq!(store.row(l).unwrap().line_no, l);
    }
    let d1: Vec<u32> = (1..=6u64).map(|l| store.row(l).unwrap()).filter(|r| r.device_id == D1).map(|r| r.sequence).collect();
    let d2: Vec<u32> = (1..=6u64).map(|l| store.row(l).unwrap()).filter(|r| r.device_id == D2).map(|r| r.sequence).collect();
    assert_eq!(d1, vec![0, 1, 2, 3]);
    assert_eq!(d2, vec![0, 1]);
}

#[test]
fn append_assigns_identity_and_lifecycle() {
    let mut store = LocalStore::new();
    let mut row = persisted(55, D1, 900, true, true);
    row.device_id = D2;
    assert_eq!(store.append(row), Ok(1));
    let stored = store.row(1).unwrap();
    assert_eq!(stored.line_no, 1);
    assert_eq!(stored.sequence, 0);
    assert!(!stored.uploaded && !stored.confirmed);
    assert_eq!(stored.accel, row.accel);
}

#[test]
fn sequence_exhausted_is_reported() {
    let rows = vec![persisted(1, D1, u32::MAX, false, false)];
    let mut store = LocalStore::from_rows(rows).unwrap();
    assert_eq!(store.next_sequence(D1), Err(StoreError::SequenceExhausted));
    assert_eq!(store.capture(D1, &reading(5), None), Err(StoreError::SequenceExhausted));
    assert_eq!(store.len(), 1);
    assert_eq!(store.capture(D2, &reading(5), None), Ok(2));
}

#[test]
fn fetch_pending_bounds_and_order() {
    let mut store = LocalStore::new();
    for t in 0..6u64 {
        store.capture(D1, &reading(t), None).unwrap();
    }
    store.mark_uploaded(2);
    store.mark_uploaded(5);
    let lines = |v: Vec<StoredRow>| v.iter().map(|r| r.line_no).collect::<Vec<u64>>();
    assert_eq!(lines(store.fetch_pending(0)), Vec::<u64>::new());
    assert_eq!(lines(store.fetch_pending(1)), vec![1]);
    assert_eq!(lines(store.fetch_pending(3)), vec![1, 3, 4]);
    assert_eq!(lines(store.fetch_pending(100)), vec![1, 3, 4, 6]);
    assert!(store.fetch_pending(100).iter().all(|r| !r.uploaded));
    assert!(LocalStore::new().fetch_pending(5).is_empty());
}

#[test]
fn mark_uploaded_twice_same_as_once() {
    let mut once = LocalStore::new();
    let mut twice = LocalStore::new();
    for t in 0..3u64 {
        once.capture(D1, &reading(t), None).unwrap();
        twice.capture(D1, &reading(t), None).unwrap();
    }
    once.mark_uploaded(2);
    twice.mark_uploaded(2);
    twice.mark_uploaded(2);
    for l in 1..=3u64 {
        assert_eq!(once.row(l), twice.row(l));
    }
    assert!(once.row(2).unwrap().uploaded);
    assert!(!once.row(1).unwrap().uploaded);
    once.mark_uploaded(99);
    assert_eq!(once.len(), 3);
}

#[test]
fn mark_confirmed_known_and_unknown() {
    let mut store = LocalStore::new();
    store.capture(D1, &reading(1), None).unwrap();
    store.capture(D1, &reading(2), None).unwrap();
    assert_eq!(store.mark_confirmed(0), Err(StoreError::UnknownRow));
    assert_eq!(store.mark_confirmed(3), Err(StoreError::UnknownRow));
    assert_eq!(store.mark_confirmed(2), Ok(()));
    let r = store.row(2).unwrap();
    assert!(r.confirmed && r.uploaded);
    assert!(!store.row(1).unwrap().confirmed);
    assert_eq!(store.mark_confirmed(2), Ok(()));
    assert_eq!(store.fetch_pending(10).len(), 1);
}

#[test]
fn transport_failure_leaves_batch_pending() {
    let mut store = LocalStore::new();
    for t in 0..4u64 {
        store.capture(D1, &reading(t), None).unwrap();
    }
    let batch = store.fetch_pending(4);
    store.acknowledge(&batch, 0);
    assert_eq!(store.fetch_pending(10).len(), 4);
    store.acknowledge(&batch, 1000);
    assert!(store.fetch_pending(10).is_empty());
}

#[test]
fn relay_cycle_with_collector() {
    let mut store = LocalStore::new();
    for t in 0..5u64 {
        store.capture(D1, &reading(t), None).unwrap();
    }
    let collector = ImuDataSource {};
    let batch = ImuVec { data: store.fetch_pending(3) };
    let reply = collector.send_imu(&batch);
    assert_eq!(reply.accepted_count, 3);
    store.acknowledge(&batch.data, reply.accepted_count);
    let rest: Vec<u64> = store.fetch_pending(10).iter().map(|r| r.line_no).collect();
    assert_eq!(rest, vec![4, 5]);
}

#[test]
fn row_codec_round_trip() {
    let r = reading(123);
    let row = encode_row(&r, D1, 9, Some(456));
    assert_eq!(row.device_id, D1);
    assert_eq!(row.sequence, 9);
    assert_eq!(row.capture_time, 123);
    assert_eq!(row.external_time, Some(456));
    assert_eq!(row.pressure, Some(101320.0f32.to_bits()));
    assert_eq!(decode_row(&row), r);

    let partial = ImuData {
        timestamp: 7,
        inertial: Ok(Inertial {
            pose: None,
            gyro: Some(Vector3D { x: 1, y: 2, z: 3 }),
            accel: None,
            mag: None,
        }),
        pressure: None,
        temperature: None,
        temp_cpu: Some(0),
    };
    let row = encode_row(&partial, D2, 0, None);
    assert_eq!(row.pose, None);
    assert_eq!(row.temp_cpu, Some(0));
    assert_eq!(decode_row(&row), partial);

    let absent = encode_row(&not_ready(8), D2, 1, None);
    assert_eq!(decode_row(&absent), not_ready(8));
}

#[test]
fn zero_reading_has_zero_vectors() {
    let z = ImuData::zero();
    assert_eq!(z.timestamp, 0);
    let i = z.inertial.unwrap();
    assert_eq!(i.pose, Some(Orientation { roll: 0, pitch: 0, yaw: 0, heading_accuracy: 0 }));
    assert_eq!(i.accel, Some(Vector3D { x: 0, y: 0, z: 0 }));
    assert_eq!(z.pressure, None);
    assert!(!i.is_empty());
}

#[test]
fn fill_imu_appends_sample_rows() {
    let mut store = LocalStore::new();
    store.capture(D1, &not_ready(0), None).unwrap();
    assert_eq!(fill_imu(&mut store, D1, 4, 500), Ok(()));
    assert_eq!(store.len(), 5);
    for l in 2..=5u64 {
        let r = store.row(l).unwrap();
        assert_eq!(r.sequence as u64, l - 1);
        assert_eq!(r.capture_time, 500);
        assert_eq!(decode_row(&r), generate_imu_reading(500));
    }
    assert_eq!(fill_imu(&mut store, D1, 0, 1), Ok(()));
    assert_eq!(store.len(), 5);
}

#[test]
fn fill_imu_stops_when_sequences_run_out() {
    let rows = vec![persisted(1, D1, u32::MAX - 2, false, false)];
    let mut store = LocalStore::from_rows(rows).unwrap();
    assert_eq!(fill_imu(&mut store, D1, 5, 1), Err(StoreError::SequenceExhausted));
    assert_eq!(store.len(), 3);
    assert_eq!(store.row(3).unwrap().sequence, u32::MAX);
}

#[test]
fn sample_imu_rows() {
    let v = generate_imu_data(4, 42);
    assert_eq!(v.data.len(), 4);
    for (i, r) in v.data.iter().enumerate() {
        assert_eq!(r.sequence, i as u32);
        assert_eq!(r.device_id, SAMPLE_DEVICE);
        assert_eq!(r.capture_time, 42);
        assert_eq!(r.line_no, 0);
    }
    let line = generate_imu_line(7, 3);
    let pose = line.pose.unwrap();
    assert_eq!(f32::from_bits(pose.roll), 10.4f32);
    assert_eq!(f32::from_bits(pose.yaw), 188.9f32);
    assert_eq!(f32::from_bits(line.gyro.unwrap().z), 18.5f32);
    assert_eq!(f32::from_bits(line.accel.unwrap().z), 1.005f32);
    assert_eq!(f32::from_bits(line.mag.unwrap().x), 28.3f32);
    assert_eq!(f32::from_bits(line.temp_cpu.unwrap()), 77.3f32);
    assert!(generate_imu_data(0, 1).data.is_empty());
}

#[test]
fn confirm_by_device_and_sequence() {
    let mut store = LocalStore::new();
    store.capture(D1, &reading(1), None).unwrap();
    store.capture(D2, &reading(2), None).unwrap();
    store.capture(D1, &reading(3), None).unwrap();
    assert_eq!(store.mark_confirmed_key(D1, 1), Ok(3));
    let r = store.row(3).unwrap();
    assert!(r.confirmed && r.uploaded);
    assert!(!store.row(1).unwrap().confirmed);
    assert_eq!(store.mark_confirmed_key(D2, 1), Err(StoreError::UnknownRow));
    assert_eq!(store.mark_confirmed_key(0xEE, 0), Err(StoreError::UnknownRow));
    assert_eq!(store.mark_confirmed_key(D2, 0), Ok(2));
}
