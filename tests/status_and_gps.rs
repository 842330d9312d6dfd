use telemetry_relay::fake::{generate_gps_data, generate_gps_line, SAMPLE_DEVICE};
use telemetry_relay::relay::{GpsDataSource, GpsVec, ImuDataSource, ImuVec};
use telemetry_relay::sensor::{cpu_temp_field, which_imu, ImuType};
use telemetry_relay::status::{decode_fields, encode_fields};

#[test]
fn status_word_layout() {
    assert_eq!(encode_fields(0, 0, false, false, false), 0);
    assert_eq!(encode_fields(0, 0, false, false, true), 1);
    assert_eq!(encode_fields(0, 0, true, false, false), 2);
    assert_eq!(encode_fields(0, 0, false, true, false), 4);
    assert_eq!(encode_fields(0, 12, false, false, false), 12 << 8);
    assert_eq!(encode_fields(1, 0, false, false, false), 1 << 16);
    assert_eq!(encode_fields(1, 12, true, false, false), 0x0001_0C02);
    assert_eq!(encode_fields(255, 255, true, true, true), 0x00FF_FF07);
}

#[test]
fn status_word_round_trip_all_flags() {
    for status in [0u8, 1, 2, 127, 128, 255] {
        for nsats in [0u8, 1, 12, 200, 255] {
            for bits in 0..8u8 {
                let (v, u, c) = (bits & 1 != 0, bits & 2 != 0, bits & 4 != 0);
                let w = encode_fields(status, nsats, v, u, c);
                assert_eq!(decode_fields(w), (status, nsats, v, u, c));
                assert_eq!(w >> 24, 0);
            }
        }
    }
}

#[test]
fn status_word_decode_fields() {
    assert_eq!(decode_fields(0x0001_0C02), (1, 12, true, false, false));
    assert_eq!(decode_fields(0x0003_0405), (3, 4, false, true, true));
    assert_eq!(decode_fields(0xFF00_00F8), (0, 0, false, false, false));
}

#[test]
fn sample_gps_fixes() {
    let g = generate_gps_line(5);
    assert_eq!(g.uuid, SAMPLE_DEVICE);
    assert_eq!(g.sequence, 5);
    assert_eq!(g.pitime, 2_000_000_000);
    assert_eq!(g.gps_time, 1_999_999_999);
    assert_eq!(f32::from_bits(g.lat), 50.123456f32);
    assert_eq!(f32::from_bits(g.lon), -4.9987654f32);
    assert_eq!(f32::from_bits(g.hdop), 12.4321f32);
    assert_eq!(decode_fields(g.status_nsats_vuc), (1, 12, true, false, false));
    let v = generate_gps_data(3);
    let seqs: Vec<u32> = v.data.iter().map(|g| g.sequence).collect();
    assert_eq!(seqs, vec![0, 1, 2]);
    assert!(generate_gps_data(0).data.is_empty());
}

#[test]
fn collectors_accept_whole_batches() {
    let gps = GpsDataSource {};
    assert_eq!(gps.send_gps(&generate_gps_data(940)).accepted_count, 940);
    assert_eq!(gps.send_gps(&GpsVec { data: Vec::new() }).accepted_count, 0);
    let imu = ImuDataSource {};
    assert_eq!(imu.send_imu(&ImuVec { data: Vec::new() }).accepted_count, 0);
}

#[test]
fn board_from_bus_scan() {
    assert_eq!(which_imu(&vec![0x10, 0x6a, 0x76]), Some(ImuType::SenseHatType));
    assert_eq!(which_imu(&vec![0x76, 0x6a]), Some(ImuType::SenseHatType));
    assert_eq!(which_imu(&vec![0x76]), Some(ImuType::TwoHatType));
    assert_eq!(which_imu(&vec![0x10, 0x20]), None);
    assert_eq!(which_imu(&Vec::new()), None);
}

#[test]
fn cpu_temperature_text() {
    assert_eq!(cpu_temp_field(&b"temp=43.2'C\n".to_vec()), Some(b"43.2".to_vec()));
    assert_eq!(cpu_temp_field(&b"temp=51.0".to_vec()), Some(b"51.0".to_vec()));
    assert_eq!(cpu_temp_field(&b"a=1=2".to_vec()), Some(b"1".to_vec()));
    assert_eq!(cpu_temp_field(&b"temp=".to_vec()), Some(Vec::new()));
    assert_eq!(cpu_temp_field(&b"error: no such command".to_vec()), None);
    assert_eq!(cpu_temp_field(&Vec::new()), None);
}
