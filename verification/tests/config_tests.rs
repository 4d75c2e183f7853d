use sc2dsu::config::{bind_host, generation, install, port_from_text, snapshot, Axis, AxisMap, Config, LiveConfig, PortEdit};
use sc2dsu::triton::{read_report, SlotConfig};

#[test]
fn defaults() {
    let c = Config::default();
    assert_eq!(c.port, 26760);
    assert_eq!(c.gyro, AxisMap { x: Axis::new(0, false), y: Axis::new(2, false), z: Axis::new(1, true) });
    assert_eq!(c.accel, c.gyro);
    assert!(!c.start_minimized);
    assert!(!c.expose_to_network);
}

#[test]
fn axis_apply_selects_and_inverts() {
    let raw = [5i16, -6, 7];
    assert_eq!(Axis::new(0, false).apply(raw), 5);
    assert_eq!(Axis::new(1, true).apply(raw), 6);
    assert_eq!(Axis::new(2, true).apply(raw), -7);
    assert_eq!(Axis::new(200, false).apply(raw), 7);
}

#[test]
fn snapshot_returns_what_install_wrote() {
    let mut live = LiveConfig::new();
    assert_eq!(snapshot(&live), Config::default());
    let g0 = generation(&live);
    let mut c = Config::default();
    c.port = 4000;
    c.gyro.x = Axis::new(2, true);
    install(&mut live, c);
    assert_eq!(snapshot(&live), c);
    assert_ne!(generation(&live), g0);
}

#[test]
fn slot_config_follows_live_changes() {
    let mut live = LiveConfig::new();
    let mut slot = SlotConfig::from_live(&live);
    assert!(!slot.refresh(&live));
    let mut c = Config::default();
    c.accel.y = Axis::new(0, true);
    c.auto_calibrate = false;
    install(&mut live, c);
    assert!(slot.refresh(&live));
    assert_eq!(slot.accel_map, c.accel);
    assert!(!slot.auto_calibrate);
    assert!(!slot.refresh(&live));
}

#[test]
fn bind_host_loopback_unless_exposed() {
    assert_eq!(bind_host(false), [127, 0, 0, 1]);
    assert_eq!(bind_host(true), [0, 0, 0, 0]);
}

fn state_report(gyro_raw: [i16; 3]) -> Vec<u8> {
    let mut r = vec![0u8; 46];
    r[0] = 0x42;
    for (i, v) in gyro_raw.iter().enumerate() {
        r[40 + i * 2..42 + i * 2].copy_from_slice(&v.to_le_bytes());
    }
    r
}

#[test]
fn remap_applies_from_the_next_report() {
    let mut live = LiveConfig::new();
    let mut slot = SlotConfig::from_live(&live);
    let report = state_report([1, 2, 3]);
    let first = read_report(&mut slot, &live, &report);
    assert!(!first.settings_changed);
    assert_eq!(first.state.unwrap().imu.gyro_counts, [1, 3, -2]);
    let mut c = Config::default();
    c.gyro = AxisMap { x: Axis::new(0, false), y: Axis::new(1, false), z: Axis::new(2, true) };
    install(&mut live, c);
    let next = read_report(&mut slot, &live, &report);
    assert!(next.settings_changed);
    assert_eq!(next.state.unwrap().imu.gyro_counts, [1, 2, -3]);
    let after = read_report(&mut slot, &live, &report[..10]);
    assert!(!after.settings_changed);
    assert!(after.state.is_none());
}

#[test]
fn port_field_text() {
    assert_eq!(port_from_text(26760, "4000"), (4000, PortEdit::Taken));
    assert_eq!(port_from_text(26760, "+80"), (80, PortEdit::Taken));
    assert_eq!(port_from_text(26760, "0"), (0, PortEdit::Taken));
    assert_eq!(port_from_text(26760, "65535"), (65535, PortEdit::Taken));
    assert_eq!(port_from_text(26760, ""), (26760, PortEdit::Blank));
    assert_eq!(port_from_text(26760, " \t "), (26760, PortEdit::Blank));
    assert_eq!(port_from_text(26760, "65536"), (26760, PortEdit::Ignored));
    assert_eq!(port_from_text(26760, "-1"), (26760, PortEdit::Ignored));
    assert_eq!(port_from_text(26760, " 80"), (26760, PortEdit::Ignored));
    assert_eq!(port_from_text(26760, "8_0"), (26760, PortEdit::Ignored));
    assert_eq!(port_from_text(26760, "+"), (26760, PortEdit::Ignored));
}
