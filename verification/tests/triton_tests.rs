use sc2dsu::config::{Axis, AxisMap};
use sc2dsu::triton::{
    build_set_setting_report, decode_report, is_candidate_interface, is_triton_pid, parse_imu, parse_state,
    pid_label, ReportRefresh, SlotAction, SlotEvent, SlotMonitor, BUTTON_A, BUTTON_DPAD_LEFT, BUTTON_STEAM,
    GYRO_MODE_RAW_ACCEL_AND_GYRO, SETTING_IMU_MODE,
};

fn identity_map() -> AxisMap {
    AxisMap { x: Axis::new(0, false), y: Axis::new(1, false), z: Axis::new(2, false) }
}

fn build_imu_payload(ts: u32, accel_raw: [i16; 3], gyro_raw: [i16; 3]) -> Vec<u8> {
    let mut p = vec![0u8; 45];
    p[29..33].copy_from_slice(&ts.to_le_bytes());
    for (i, v) in accel_raw.iter().enumerate() {
        p[33 + i * 2..35 + i * 2].copy_from_slice(&v.to_le_bytes());
    }
    for (i, v) in gyro_raw.iter().enumerate() {
        p[39 + i * 2..41 + i * 2].copy_from_slice(&v.to_le_bytes());
    }
    p
}

// Full scale: 32768 counts are 2 g and 2000 deg/s.
fn to_g(v: i32) -> f32 {
    (v as f32 / 32768.0) * 2.0
}

fn to_dps(v: i32) -> f32 {
    (v as f32 / 32768.0) * 2000.0
}

#[test]
fn parse_imu_rejects_short_payload() {
    assert!(parse_imu(&[0u8; 44], &identity_map(), &identity_map()).is_none());
}

#[test]
fn parse_imu_decodes_full_scale_values() {
    let payload = build_imu_payload(0x1234_5678, [16384, 0, -16384], [16384, -16384, 0]);
    let s = parse_imu(&payload, &identity_map(), &identity_map()).unwrap();
    assert_eq!(s.timestamp_us, 0x1234_5678);
    assert!((to_g(s.accel_counts[0]) - 1.0).abs() < 1e-4);
    assert!(to_g(s.accel_counts[1]).abs() < 1e-4);
    assert!((to_g(s.accel_counts[2]) + 1.0).abs() < 1e-4);
    assert!((to_dps(s.gyro_counts[0]) - 1000.0).abs() < 1e-2);
    assert!((to_dps(s.gyro_counts[1]) + 1000.0).abs() < 1e-2);
    assert!(to_dps(s.gyro_counts[2]).abs() < 1e-2);
}

#[test]
fn parse_imu_applies_axis_mapping() {
    let payload = build_imu_payload(0, [1000, 2000, 3000], [100, 200, 300]);
    let swap_xy = AxisMap { x: Axis::new(1, false), y: Axis::new(0, true), z: Axis::new(2, false) };
    let direct = parse_imu(&payload, &identity_map(), &identity_map()).unwrap();
    let mapped = parse_imu(&payload, &swap_xy, &identity_map()).unwrap();
    assert!((to_dps(mapped.gyro_counts[0]) - to_dps(direct.gyro_counts[1])).abs() < 1e-6);
    assert!((to_dps(mapped.gyro_counts[1]) + to_dps(direct.gyro_counts[0])).abs() < 1e-6);
    assert!((to_dps(mapped.gyro_counts[2]) - to_dps(direct.gyro_counts[2])).abs() < 1e-6);
}

#[test]
fn parse_state_decodes_buttons_sticks_triggers() {
    let mut p = build_imu_payload(0x1111_2222, [1, 2, 3], [4, 5, 6]);
    p[1..5].copy_from_slice(&(BUTTON_A | BUTTON_DPAD_LEFT | BUTTON_STEAM).to_le_bytes());
    p[5..7].copy_from_slice(&1234u16.to_le_bytes());
    p[7..9].copy_from_slice(&31000u16.to_le_bytes());
    p[9..11].copy_from_slice(&(-100i16).to_le_bytes());
    p[11..13].copy_from_slice(&200i16.to_le_bytes());
    p[13..15].copy_from_slice(&(-300i16).to_le_bytes());
    p[15..17].copy_from_slice(&400i16.to_le_bytes());
    let s = parse_state(&p, &identity_map(), &identity_map()).unwrap();
    assert_eq!(s.buttons, BUTTON_A | BUTTON_DPAD_LEFT | BUTTON_STEAM);
    assert_eq!(s.trigger_left, 1234);
    assert_eq!(s.trigger_right, 31000);
    assert_eq!(s.left_stick, [-100, 200]);
    assert_eq!(s.right_stick, [-300, 400]);
    assert_eq!(s.imu.timestamp_us, 0x1111_2222);
}

#[test]
fn parse_state_rejects_short_payload() {
    assert!(parse_state(&[0u8; 30], &identity_map(), &identity_map()).is_none());
}

#[test]
fn inverting_the_most_negative_reading_does_not_overflow() {
    let payload = build_imu_payload(0, [i16::MIN, 0, 0], [i16::MIN, i16::MAX, 0]);
    let inv = AxisMap { x: Axis::new(0, true), y: Axis::new(1, true), z: Axis::new(7, false) };
    let s = parse_imu(&payload, &inv, &inv).unwrap();
    assert_eq!(s.accel_counts, [32768, 0, 0]);
    assert_eq!(s.gyro_counts, [32768, -32767, 0]);
    assert_eq!(to_g(s.accel_counts[0]), 2.0);
}

#[test]
fn default_axis_map_takes_x_z_and_flipped_y() {
    let payload = build_imu_payload(0, [10, 20, 30], [-1, -2, -3]);
    let d = AxisMap::default();
    let s = parse_imu(&payload, &d, &d).unwrap();
    assert_eq!(s.accel_counts, [10, 30, -20]);
    assert_eq!(s.gyro_counts, [-1, -3, 2]);
}

#[test]
fn decode_report_checks_id_and_length() {
    let payload = build_imu_payload(5, [1, 2, 3], [4, 5, 6]);
    let mut report = vec![0x42u8];
    report.extend_from_slice(&payload);
    let m = identity_map();
    let s = decode_report(&report, &m, &m).unwrap();
    assert_eq!(s.imu.timestamp_us, 5);
    assert_eq!(s.imu.gyro_counts, [4, 5, 6]);
    report[0] = 0x45;
    assert!(decode_report(&report, &m, &m).is_some());
    report[0] = 0x43;
    assert!(decode_report(&report, &m, &m).is_none());
    assert!(decode_report(&[], &m, &m).is_none());
    assert!(decode_report(&report[..45], &m, &m).is_none());
}

#[test]
fn pid_labels_and_family() {
    assert_eq!(pid_label(0x1302), "Triton wired");
    assert_eq!(pid_label(0x1303), "Triton BLE");
    assert_eq!(pid_label(0x1304), "Proteus Puck");
    assert_eq!(pid_label(0x1305), "Nereid dongle");
    assert_eq!(pid_label(0x1306), "?");
    assert!(is_triton_pid(0x1304));
    assert!(!is_triton_pid(0x1102));
    assert!(is_candidate_interface(0x28DE, 0x1304, 0xFF00));
    assert!(!is_candidate_interface(0x28DE, 0x1304, 0x0001));
    assert!(!is_candidate_interface(0x045E, 0x1304, 0xFF00));
}

#[test]
fn set_setting_report_layout() {
    let r = build_set_setting_report(SETTING_IMU_MODE, GYRO_MODE_RAW_ACCEL_AND_GYRO);
    assert_eq!(&r[..6], &[0x01, 0x87, 3, 48, 0x18, 0x00]);
    assert!(r[6..].iter().all(|&b| b == 0));
    let l = build_set_setting_report(9, 0x1234);
    assert_eq!(&l[..6], &[0x01, 0x87, 3, 9, 0x34, 0x12]);
}

#[test]
fn slot_monitor_reopens_on_fifth_error() {
    let mut m = SlotMonitor::new(0);
    for _ in 0..4 {
        assert_eq!(m.step(SlotEvent::ReadError), SlotAction::Continue);
    }
    assert_eq!(m.step(SlotEvent::ReadError), SlotAction::Reopen);
}

#[test]
fn slot_monitor_error_count_resets_on_data() {
    let mut m = SlotMonitor::new(0);
    for _ in 0..4 {
        assert_eq!(m.step(SlotEvent::ReadError), SlotAction::Continue);
    }
    assert_eq!(m.step(SlotEvent::NoData { now_ms: 10 }), SlotAction::Continue);
    for _ in 0..4 {
        assert_eq!(m.step(SlotEvent::ReadError), SlotAction::Continue);
    }
    assert_eq!(m.step(SlotEvent::Sample { timestamp_us: 1, now_ms: 20 }), SlotAction::Forward);
    assert_eq!(m.consecutive_errors, 0);
}

#[test]
fn slot_monitor_reopens_after_silence() {
    let mut m = SlotMonitor::new(1000);
    assert_eq!(m.step(SlotEvent::NoData { now_ms: 2999 }), SlotAction::Continue);
    assert_eq!(m.step(SlotEvent::NoData { now_ms: 3000 }), SlotAction::Reopen);
}

#[test]
fn slot_monitor_reopens_on_frozen_timestamp() {
    let mut m = SlotMonitor::new(0);
    assert_eq!(m.step(SlotEvent::Sample { timestamp_us: 42, now_ms: 1 }), SlotAction::Forward);
    for _ in 0..99 {
        assert_eq!(m.step(SlotEvent::Sample { timestamp_us: 42, now_ms: 1 }), SlotAction::Continue);
    }
    assert_eq!(m.step(SlotEvent::Sample { timestamp_us: 42, now_ms: 1 }), SlotAction::Reopen);
}

#[test]
fn slot_monitor_first_sample_with_zero_timestamp_is_stale() {
    let mut m = SlotMonitor::new(0);
    assert_eq!(m.step(SlotEvent::Sample { timestamp_us: 0, now_ms: 1 }), SlotAction::Continue);
    assert_eq!(m.stale_count, 1);
    assert_eq!(m.step(SlotEvent::Sample { timestamp_us: 8, now_ms: 2 }), SlotAction::Forward);
    assert_eq!(m.stale_count, 0);
}

#[test]
fn report_refresh_intervals() {
    let mut r = ReportRefresh::new(0);
    assert_eq!(r.due(999), (false, false));
    assert_eq!(r.due(1000), (false, true));
    assert_eq!(r.due(1999), (false, false));
    assert_eq!(r.due(3000), (true, true));
    assert_eq!(r.last_lizard_ms, 3000);
}
