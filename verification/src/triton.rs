//! The Steam Controller ("Triton") family as seen over HID: which devices
//! qualify, the feature report that configures them, the layout of their
//! state report, and when a reader should give up on an open interface.

use vstd::prelude::*;
use crate::bytes::{le16, u16_at, u32_at, i16_at, u16_le_at, u32_le_at, i16_le_at};
use crate::config::{axis_value, generation, snapshot, AxisMap, Config, LiveConfig};

verus! {

/// Valve's USB vendor id.
pub const VID_VALVE: u16 = 0x28DE;
/// Product id of the controller on a cable.
pub const PID_TRITON_WIRED: u16 = 0x1302;
/// Product id of the controller over Bluetooth LE.
pub const PID_TRITON_BLE: u16 = 0x1303;
/// Product id of the Proteus wireless dongle.
pub const PID_PROTEUS_DONGLE: u16 = 0x1304;
/// Product id of the Nereid wireless dongle.
pub const PID_NEREID_DONGLE: u16 = 0x1305;

/// Report id of feature reports.
pub const FEATURE_REPORT_ID: u8 = 0x01;
/// Size of a feature report.
pub const FEATURE_REPORT_BYTES: usize = 64;
/// Size of an input report.
pub const INPUT_REPORT_BYTES: usize = 64;
/// Feature command: set settings values.
pub const ID_SET_SETTINGS_VALUES: u8 = 0x87;
/// Setting number of "lizard mode" (keyboard/mouse emulation).
pub const SETTING_LIZARD_MODE: u8 = 9;
/// Setting number of the IMU mode.
pub const SETTING_IMU_MODE: u8 = 48;
/// Lizard mode off.
pub const LIZARD_MODE_OFF: u16 = 0;
/// IMU mode: raw accelerometer and raw gyroscope.
pub const GYRO_MODE_RAW_ACCEL_AND_GYRO: u16 = 0x0018;

/// Input report id of the controller state.
pub const TRITON_REPORT_STATE: u8 = 0x42;
/// Input report id of the controller state over Bluetooth LE.
pub const TRITON_REPORT_STATE_BLE: u8 = 0x45;
/// Input report id of battery status.
pub const TRITON_REPORT_BATTERY: u8 = 0x43;
/// Input report id of wireless status (extended).
pub const TRITON_REPORT_WIRELESS_X: u8 = 0x46;
/// Input report id of wireless status.
pub const TRITON_REPORT_WIRELESS: u8 = 0x79;

/// Button bits of the state report.
pub const BUTTON_A: u32 = 0x0000_0001;
pub const BUTTON_B: u32 = 0x0000_0002;
pub const BUTTON_X: u32 = 0x0000_0004;
pub const BUTTON_Y: u32 = 0x0000_0008;
pub const BUTTON_QAM: u32 = 0x0000_0010;
pub const BUTTON_R3: u32 = 0x0000_0020;
pub const BUTTON_VIEW: u32 = 0x0000_0040;
pub const BUTTON_R4: u32 = 0x0000_0080;
pub const BUTTON_R5: u32 = 0x0000_0100;
pub const BUTTON_R: u32 = 0x0000_0200;
pub const BUTTON_DPAD_DOWN: u32 = 0x0000_0400;
pub const BUTTON_DPAD_RIGHT: u32 = 0x0000_0800;
pub const BUTTON_DPAD_LEFT: u32 = 0x0000_1000;
pub const BUTTON_DPAD_UP: u32 = 0x0000_2000;
pub const BUTTON_MENU: u32 = 0x0000_4000;
pub const BUTTON_L3: u32 = 0x0000_8000;
pub const BUTTON_STEAM: u32 = 0x0001_0000;
pub const BUTTON_L4: u32 = 0x0002_0000;
pub const BUTTON_L5: u32 = 0x0004_0000;
pub const BUTTON_L: u32 = 0x0008_0000;

/// Whether `pid` is a product of the family.
pub open spec fn is_family_pid(pid: u16) -> bool {
    pid == PID_TRITON_WIRED || pid == PID_TRITON_BLE || pid == PID_PROTEUS_DONGLE || pid == PID_NEREID_DONGLE
}

/// A human-readable name for `pid`, "?" for a product outside the family.
pub fn pid_label(pid: u16) -> (s: &'static str)
    ensures
        pid == PID_TRITON_WIRED ==> s@ == "Triton wired"@,
        pid == PID_TRITON_BLE ==> s@ == "Triton BLE"@,
        pid == PID_PROTEUS_DONGLE ==> s@ == "Proteus Puck"@,
        pid == PID_NEREID_DONGLE ==> s@ == "Nereid dongle"@,
        !is_family_pid(pid) ==> s@ == "?"@,
{
    if pid == PID_TRITON_WIRED {
        "Triton wired"
    } else if pid == PID_TRITON_BLE {
        "Triton BLE"
    } else if pid == PID_PROTEUS_DONGLE {
        "Proteus Puck"
    } else if pid == PID_NEREID_DONGLE {
        "Nereid dongle"
    } else {
        "?"
    }
}

/// Whether `pid` is a product of the family.
pub fn is_triton_pid(pid: u16) -> (b: bool)
    ensures
        b == is_family_pid(pid),
{
    pid == PID_TRITON_WIRED || pid == PID_TRITON_BLE || pid == PID_PROTEUS_DONGLE || pid == PID_NEREID_DONGLE
}

/// Whether a HID interface is one to open: Valve's, a family product, on a
/// vendor-defined usage page.
pub fn is_candidate_interface(vendor_id: u16, product_id: u16, usage_page: u16) -> (b: bool)
    ensures
        b == (vendor_id == VID_VALVE && is_family_pid(product_id) && usage_page >= 0xFF00),
{
    vendor_id == VID_VALVE && is_triton_pid(product_id) && usage_page >= 0xFF00
}

/// The feature report that sets setting `setting_num` to `setting_value`.
pub open spec fn set_setting_report(setting_num: u8, setting_value: u16) -> Seq<u8> {
    seq![FEATURE_REPORT_ID, ID_SET_SETTINGS_VALUES, 3u8, setting_num] + le16(setting_value)
        + Seq::new(58, |i: int| 0u8)
}

/// Builds the feature report that sets setting `setting_num` to `setting_value`.
pub fn build_set_setting_report(setting_num: u8, setting_value: u16) -> (buf: [u8; 64])
    ensures
        buf@ == set_setting_report(setting_num, setting_value),
{
    let mut buf = [0u8; 64];
    buf[0] = FEATURE_REPORT_ID;
    buf[1] = ID_SET_SETTINGS_VALUES;
    buf[2] = 3;
    buf[3] = setting_num;
    buf[4] = (setting_value % 256) as u8;
    buf[5] = (setting_value / 256) as u8;
    assert(buf@ =~= set_setting_report(setting_num, setting_value));
    buf
}

/// One IMU reading after axis mapping, in raw sensor counts: 32768 counts
/// are 2 g for the accelerometer and 2000 deg/s for the gyroscope.
#[derive(Clone, Copy, Debug, PartialEq, Eq)]
pub struct ImuSample {
    pub timestamp_us: u32,
    pub accel_counts: [i32; 3],
    pub gyro_counts: [i32; 3],
}

/// Offset of the IMU block in a state payload.
pub const IMU_OFFSET: usize = 29;
/// Length of the IMU block without orientation.
pub const IMU_NOQUAT_LEN: usize = 16;

/// Whether `s` is the IMU reading of payload `p` under the given mappings:
/// timestamp at 29, raw accelerometer X, Y, Z at 33, 35, 37 and raw gyroscope
/// X, Y, Z at 39, 41, 43, each reported axis taken through its mapping.
pub open spec fn imu_of(s: ImuSample, p: Seq<u8>, gyro_map: AxisMap, accel_map: AxisMap) -> bool {
    let (a0, a1, a2) = (i16_at(p, 33), i16_at(p, 35), i16_at(p, 37));
    let (g0, g1, g2) = (i16_at(p, 39), i16_at(p, 41), i16_at(p, 43));
    &&& s.timestamp_us == u32_at(p, 29)
    &&& s.accel_counts[0] == axis_value(accel_map.x, a0, a1, a2)
    &&& s.accel_counts[1] == axis_value(accel_map.y, a0, a1, a2)
    &&& s.accel_counts[2] == axis_value(accel_map.z, a0, a1, a2)
    &&& s.gyro_counts[0] == axis_value(gyro_map.x, g0, g1, g2)
    &&& s.gyro_counts[1] == axis_value(gyro_map.y, g0, g1, g2)
    &&& s.gyro_counts[2] == axis_value(gyro_map.z, g0, g1, g2)
}

/// Decodes the IMU block of a state payload (the report without its id byte);
/// `None` when the payload is too short to hold it.
pub fn parse_imu(payload: &[u8], gyro_map: &AxisMap, accel_map: &AxisMap) -> (r: Option<ImuSample>)
    ensures
        r is Some <==> payload@.len() >= IMU_OFFSET + IMU_NOQUAT_LEN,
        r matches Some(s) ==> imu_of(s, payload@, *gyro_map, *accel_map),
{
    if payload.len() < IMU_OFFSET + IMU_NOQUAT_LEN {
        return None;
    }
    let ts = u32_le_at(payload, IMU_OFFSET);
    let raw_accel: [i16; 3] = [
        i16_le_at(payload, IMU_OFFSET + 4),
        i16_le_at(payload, IMU_OFFSET + 6),
        i16_le_at(payload, IMU_OFFSET + 8),
    ];
    let raw_gyro: [i16; 3] = [
        i16_le_at(payload, IMU_OFFSET + 10),
        i16_le_at(payload, IMU_OFFSET + 12),
        i16_le_at(payload, IMU_OFFSET + 14),
    ];
    let accel_counts: [i32; 3] = [accel_map.x.apply(raw_accel), accel_map.y.apply(raw_accel), accel_map.z.apply(raw_accel)];
    let gyro_counts: [i32; 3] = [gyro_map.x.apply(raw_gyro), gyro_map.y.apply(raw_gyro), gyro_map.z.apply(raw_gyro)];
    Some(ImuSample { timestamp_us: ts, accel_counts, gyro_counts })
}

/// Buttons, triggers, sticks and IMU of one state report.
#[derive(Clone, Copy, Debug, PartialEq, Eq)]
pub struct ControllerState {
    pub buttons: u32,
    pub trigger_left: u16,
    pub trigger_right: u16,
    pub left_stick: [i16; 2],
    pub right_stick: [i16; 2],
    pub imu: ImuSample,
}

/// Whether `s` is the state that payload `p` encodes: buttons at 1, triggers
/// at 5 and 7, left stick at 9 and 11, right stick at 13 and 15, then the IMU.
pub open spec fn state_of(s: ControllerState, p: Seq<u8>, gyro_map: AxisMap, accel_map: AxisMap) -> bool {
    &&& s.buttons == u32_at(p, 1)
    &&& s.trigger_left == u16_at(p, 5)
    &&& s.trigger_right == u16_at(p, 7)
    &&& s.left_stick[0] == i16_at(p, 9)
    &&& s.left_stick[1] == i16_at(p, 11)
    &&& s.right_stick[0] == i16_at(p, 13)
    &&& s.right_stick[1] == i16_at(p, 15)
    &&& imu_of(s.imu, p, gyro_map, accel_map)
}

/// Decodes a state payload (the report without its id byte); `None` when it
/// is too short to hold the IMU block.
pub fn parse_state(payload: &[u8], gyro_map: &AxisMap, accel_map: &AxisMap) -> (r: Option<ControllerState>)
    ensures
        r is Some <==> payload@.len() >= IMU_OFFSET + IMU_NOQUAT_LEN,
        r matches Some(s) ==> state_of(s, payload@, *gyro_map, *accel_map),
{
    let imu = match parse_imu(payload, gyro_map, accel_map) {
        Some(imu) => imu,
        None => return None,
    };
    Some(ControllerState {
        buttons: u32_le_at(payload, 1),
        trigger_left: u16_le_at(payload, 5),
        trigger_right: u16_le_at(payload, 7),
        left_stick: [i16_le_at(payload, 9), i16_le_at(payload, 11)],
        right_stick: [i16_le_at(payload, 13), i16_le_at(payload, 15)],
        imu,
    })
}

/// Whether report id `id` announces a state report.
pub open spec fn is_state_report_id(id: u8) -> bool {
    id == TRITON_REPORT_STATE || id == TRITON_REPORT_STATE_BLE
}

/// Decodes an input report as read from the device (id byte first): the
/// controller state for a state report long enough to hold it, `None` for
/// an empty read, another report, or a short one.
pub fn decode_report(report: &[u8], gyro_map: &AxisMap, accel_map: &AxisMap) -> (r: Option<ControllerState>)
    ensures
        r is Some <==> (report@.len() > 0 && is_state_report_id(report@[0])
            && report@.len() - 1 >= IMU_OFFSET + IMU_NOQUAT_LEN),
        r matches Some(s) ==> state_of(s, report@.subrange(1, report@.len() as int), *gyro_map, *accel_map),
        report@.len() > 0 && report@[0] != 0x42u8 && report@[0] != 0x45u8 ==> r is None,
{
    let n = report.len();
    if n == 0 {
        return None;
    }
    let id = report[0];
    if id == TRITON_REPORT_STATE || id == TRITON_REPORT_STATE_BLE {
        parse_state(&report[1..n], gyro_map, accel_map)
    } else {
        None
    }
}


/// Silence (no state report) longer than this, in milliseconds, means another
/// program took the device: reopen.
pub const SILENCE_REOPEN_MS: u64 = 2000;
/// This many state reports in a row with an unchanged IMU timestamp mean the
/// IMU stream stopped: reopen.
pub const STALE_THRESHOLD: u32 = 100;
/// This many read errors in a row: reopen.
pub const MAX_CONSECUTIVE_ERRORS: u32 = 5;

/// What a reader learns from one read of an open interface.
pub enum SlotEvent {
    /// A state report whose IMU timestamp is `timestamp_us`, read at `now_ms`.
    Sample { timestamp_us: u32, now_ms: u64 },
    /// The read timed out with nothing to read, at `now_ms`.
    NoData { now_ms: u64 },
    /// The read failed.
    ReadError,
}

/// What the reader does next.
#[derive(Clone, Copy, Debug, PartialEq, Eq, Structural)]
pub enum SlotAction {
    /// Hand the sample on to the server.
    Forward,
    /// Keep reading.
    Continue,
    /// Close the interface and look for the controller again.
    Reopen,
}

/// The reader's bookkeeping for one open interface.
#[derive(Clone, Copy, Debug, PartialEq, Eq, Structural)]
pub struct SlotMonitor {
    pub consecutive_errors: u32,
    pub last_sample_at_ms: u64,
    pub last_imu_ts: u32,
    pub stale_count: u32,
}

/// Milliseconds from `from` to `to`, zero if `to` is earlier.
pub open spec fn elapsed_ms(from: u64, to: u64) -> int {
    if to >= from { to - from } else { 0 }
}

/// The bookkeeping and decision after `e`.
pub open spec fn slot_step(m: SlotMonitor, e: SlotEvent) -> (SlotMonitor, SlotAction) {
    match e {
        SlotEvent::Sample { timestamp_us, now_ms } => {
            if timestamp_us == m.last_imu_ts {
                let stale = m.stale_count + 1;
                (
                    SlotMonitor { consecutive_errors: 0, last_sample_at_ms: now_ms, stale_count: stale as u32, ..m },
                    if stale >= STALE_THRESHOLD { SlotAction::Reopen } else { SlotAction::Continue },
                )
            } else {
                (
                    SlotMonitor {
                        consecutive_errors: 0,
                        last_sample_at_ms: now_ms,
                        last_imu_ts: timestamp_us,
                        stale_count: 0,
                    },
                    SlotAction::Forward,
                )
            }
        },
        SlotEvent::NoData { now_ms } => (
            SlotMonitor { consecutive_errors: 0, ..m },
            if elapsed_ms(m.last_sample_at_ms, now_ms) >= SILENCE_REOPEN_MS { SlotAction::Reopen } else { SlotAction::Continue },
        ),
        SlotEvent::ReadError => {
            let errors = m.consecutive_errors + 1;
            (
                SlotMonitor { consecutive_errors: errors as u32, ..m },
                if errors >= MAX_CONSECUTIVE_ERRORS { SlotAction::Reopen } else { SlotAction::Continue },
            )
        },
    }
}

impl SlotMonitor {
    /// Neither counter has reached its limit (a reader that keeps going after
    /// `Reopen` is outside this).
    pub open spec fn wf(&self) -> bool {
        self.consecutive_errors < MAX_CONSECUTIVE_ERRORS && self.stale_count < STALE_THRESHOLD
    }

    /// Bookkeeping for an interface opened at `now_ms`.
    pub fn new(now_ms: u64) -> (m: SlotMonitor)
        ensures
            m == (SlotMonitor { consecutive_errors: 0, last_sample_at_ms: now_ms, last_imu_ts: 0, stale_count: 0 }),
            m.wf(),
    {
        SlotMonitor { consecutive_errors: 0, last_sample_at_ms: now_ms, last_imu_ts: 0, stale_count: 0 }
    }

    /// Records `e` and decides what to do next.
    pub fn step(&mut self, e: SlotEvent) -> (a: SlotAction)
        requires
            old(self).wf(),
        ensures
            (*final(self), a) == slot_step(*old(self), e),
            a != SlotAction::Reopen ==> final(self).wf(),
            e matches SlotEvent::Sample { now_ms, .. } ==> final(self).last_sample_at_ms == now_ms,
    {
        match e {
            SlotEvent::Sample { timestamp_us, now_ms } => {
                self.consecutive_errors = 0;
                self.last_sample_at_ms = now_ms;
                if timestamp_us == self.last_imu_ts {
                    self.stale_count = self.stale_count + 1;
                    if self.stale_count >= STALE_THRESHOLD {
                        SlotAction::Reopen
                    } else {
                        SlotAction::Continue
                    }
                } else {
                    self.stale_count = 0;
                    self.last_imu_ts = timestamp_us;
                    SlotAction::Forward
                }
            },
            SlotEvent::NoData { now_ms } => {
                self.consecutive_errors = 0;
                let elapsed = if now_ms >= self.last_sample_at_ms { now_ms - self.last_sample_at_ms } else { 0 };
                if elapsed >= SILENCE_REOPEN_MS {
                    SlotAction::Reopen
                } else {
                    SlotAction::Continue
                }
            },
            SlotEvent::ReadError => {
                self.consecutive_errors = self.consecutive_errors + 1;
                if self.consecutive_errors >= MAX_CONSECUTIVE_ERRORS {
                    SlotAction::Reopen
                } else {
                    SlotAction::Continue
                }
            },
        }
    }
}

/// The bookkeeping after `k` read errors in a row, starting from `m`.
pub open spec fn after_errors(m: SlotMonitor, k: nat) -> SlotMonitor
    decreases k,
{
    if k == 0 { m } else { slot_step(after_errors(m, (k - 1) as nat), SlotEvent::ReadError).0 }
}

/// Read errors in a row reopen the interface exactly at the fifth: every
/// earlier one keeps reading. A state report or an empty read in between
/// starts the count again, since each clears it.
pub proof fn lemma_fifth_consecutive_error_reopens(m: SlotMonitor, k: nat)
    requires
        m.consecutive_errors == 0,
        k < MAX_CONSECUTIVE_ERRORS,
    ensures
        after_errors(m, k).consecutive_errors == k,
        slot_step(after_errors(m, k), SlotEvent::ReadError).1 == (if k + 1 == MAX_CONSECUTIVE_ERRORS {
            SlotAction::Reopen
        } else {
            SlotAction::Continue
        }),
    decreases k,
{
    if k > 0 {
        lemma_fifth_consecutive_error_reopens(m, (k - 1) as nat);
    }
}

/// The bookkeeping after `k` state reports that all repeat the last IMU timestamp.
pub open spec fn after_repeats(m: SlotMonitor, k: nat, now_ms: u64) -> SlotMonitor
    decreases k,
{
    if k == 0 {
        m
    } else {
        slot_step(after_repeats(m, (k - 1) as nat, now_ms), SlotEvent::Sample { timestamp_us: m.last_imu_ts, now_ms }).0
    }
}

/// A frozen IMU timestamp reopens the interface at the hundredth repeat and
/// not before; none of the repeats is handed on.
pub proof fn lemma_frozen_timestamp_reopens(m: SlotMonitor, k: nat, now_ms: u64)
    requires
        m.stale_count == 0,
        k < STALE_THRESHOLD,
    ensures
        after_repeats(m, k, now_ms).stale_count == k,
        after_repeats(m, k, now_ms).last_imu_ts == m.last_imu_ts,
        slot_step(after_repeats(m, k, now_ms), SlotEvent::Sample { timestamp_us: m.last_imu_ts, now_ms }).1 == (if k + 1
            == STALE_THRESHOLD {
            SlotAction::Reopen
        } else {
            SlotAction::Continue
        }),
    decreases k,
{
    if k > 0 {
        lemma_frozen_timestamp_reopens(m, (k - 1) as nat, now_ms);
    }
}


/// Re-send "lizard mode off" at least this often (milliseconds): the
/// controller falls back to it on its own.
pub const LIZARD_REFRESH_INTERVAL_MS: u64 = 3000;
/// Re-send the IMU mode at least this often (milliseconds).
pub const IMU_REFRESH_INTERVAL_MS: u64 = 1000;

/// When the two configuration feature reports were last sent.
#[derive(Clone, Copy, Debug, PartialEq, Eq, Structural)]
pub struct ReportRefresh {
    pub last_lizard_ms: u64,
    pub last_imu_ms: u64,
}

/// Which feature reports are due at `now_ms`, and the times after sending them.
pub open spec fn refresh_step(r: ReportRefresh, now_ms: u64) -> (ReportRefresh, bool, bool) {
    let lizard = elapsed_ms(r.last_lizard_ms, now_ms) >= LIZARD_REFRESH_INTERVAL_MS;
    let imu = elapsed_ms(r.last_imu_ms, now_ms) >= IMU_REFRESH_INTERVAL_MS;
    (
        ReportRefresh {
            last_lizard_ms: if lizard { now_ms } else { r.last_lizard_ms },
            last_imu_ms: if imu { now_ms } else { r.last_imu_ms },
        },
        lizard,
        imu,
    )
}

impl ReportRefresh {
    /// Both reports just sent, at `now_ms`.
    pub fn new(now_ms: u64) -> (r: ReportRefresh)
        ensures
            r == (ReportRefresh { last_lizard_ms: now_ms, last_imu_ms: now_ms }),
    {
        ReportRefresh { last_lizard_ms: now_ms, last_imu_ms: now_ms }
    }

    /// Returns (lizard-off due, IMU mode due) at `now_ms` and records them as sent.
    pub fn due(&mut self, now_ms: u64) -> (r: (bool, bool))
        ensures
            (*final(self), r.0, r.1) == refresh_step(*old(self), now_ms),
    {
        let lizard = (if now_ms >= self.last_lizard_ms { now_ms - self.last_lizard_ms } else { 0 }) >= LIZARD_REFRESH_INTERVAL_MS;
        let imu = (if now_ms >= self.last_imu_ms { now_ms - self.last_imu_ms } else { 0 }) >= IMU_REFRESH_INTERVAL_MS;
        if lizard {
            self.last_lizard_ms = now_ms;
        }
        if imu {
            self.last_imu_ms = now_ms;
        }
        (lizard, imu)
    }
}

/// The settings an open interface decodes with, and the generation of the
/// live settings they were copied from.
#[derive(Clone, Copy, Debug, PartialEq, Eq, Structural)]
pub struct SlotConfig {
    pub gyro_map: AxisMap,
    pub accel_map: AxisMap,
    pub auto_calibrate: bool,
    pub cfg_generation: u64,
}

/// Whether `s` is a copy of the live settings `live`.
pub open spec fn copied_from(s: SlotConfig, live: LiveConfig) -> bool {
    &&& s.gyro_map == live.config().gyro
    &&& s.accel_map == live.config().accel
    &&& s.auto_calibrate == live.config().auto_calibrate
    &&& s.cfg_generation == live.gen()
}

impl SlotConfig {
    /// A copy of the live settings.
    pub fn from_live(live: &LiveConfig) -> (s: SlotConfig)
        ensures
            copied_from(s, *live),
    {
        let g = generation(live);
        let cfg: Config = snapshot(live);
        SlotConfig { gyro_map: cfg.gyro, accel_map: cfg.accel, auto_calibrate: cfg.auto_calibrate, cfg_generation: g }
    }

    /// Takes a fresh copy when the live settings changed since the last one;
    /// returns whether they did, in which case the gyro calibration (made in
    /// the old mapped frame) must start over.
    pub fn refresh(&mut self, live: &LiveConfig) -> (changed: bool)
        ensures
            changed == (old(self).cfg_generation != live.gen()),
            changed ==> copied_from(*final(self), *live),
            !changed ==> *final(self) == *old(self),
    {
        let g = generation(live);
        if g != self.cfg_generation {
            *self = SlotConfig::from_live(live);
            true
        } else {
            false
        }
    }
}


/// What one input report yields for an open interface.
pub struct ReportOutcome {
    /// The decoded state, for a state report long enough to hold it.
    pub state: Option<ControllerState>,
    /// The settings changed since the previous report: calibration made in
    /// the old frame must start over.
    pub settings_changed: bool,
}

/// Decodes one input report with the settings in force: the interface's copy
/// is refreshed first, so a change of the live settings applies from the
/// very next report on.
pub fn read_report(settings: &mut SlotConfig, live: &LiveConfig, report: &[u8]) -> (r: ReportOutcome)
    ensures
        r.settings_changed == (old(settings).cfg_generation != live.gen()),
        r.settings_changed ==> copied_from(*final(settings), *live),
        !r.settings_changed ==> *final(settings) == *old(settings),
        r.state is Some <==> (report@.len() > 0 && is_state_report_id(report@[0])
            && report@.len() - 1 >= IMU_OFFSET + IMU_NOQUAT_LEN),
        r.state matches Some(s) ==> state_of(
            s,
            report@.subrange(1, report@.len() as int),
            final(settings).gyro_map,
            final(settings).accel_map,
        ),
{
    let settings_changed = settings.refresh(live);
    let state = decode_report(report, &settings.gyro_map, &settings.accel_map);
    ReportOutcome { state, settings_changed }
}


/// Only the two state reports (0x42 wired, 0x45 over Bluetooth LE) carry
/// controller state; battery (0x43), wireless status (0x46, 0x79) and every
/// other report id do not.
pub proof fn lemma_only_state_reports_decode(id: u8)
    ensures
        is_state_report_id(id) <==> (id == 0x42u8 || id == 0x45u8),
{
}

/// A state report restarts the silence clock: after a report at `t`, the
/// monitor remembers `t`, and an empty read less than the silence limit
/// later does not reopen, while one at or after the limit does. Read errors
/// are cleared by any report or empty read.
pub proof fn lemma_state_report_restarts_silence_clock(m: SlotMonitor, ts: u32, t: u64, later: u64)
    ensures
        ({
            let after = slot_step(m, SlotEvent::Sample { timestamp_us: ts, now_ms: t }).0;
            let next = slot_step(after, SlotEvent::NoData { now_ms: later });
            &&& after.last_sample_at_ms == t
            &&& after.consecutive_errors == 0
            &&& next.0.consecutive_errors == 0
            &&& next.0.last_sample_at_ms == t
            &&& (later < t + 2000 ==> next.1 == SlotAction::Continue)
            &&& (later >= t + 2000 ==> next.1 == SlotAction::Reopen)
        }),
{
}

/// A report with a new IMU timestamp is handed on and remembered; one that
/// repeats the remembered timestamp is never handed on.
pub proof fn lemma_only_new_timestamps_forwarded(m: SlotMonitor, ts: u32, t: u64)
    requires
        m.wf(),
    ensures
        ({
            let r = slot_step(m, SlotEvent::Sample { timestamp_us: ts, now_ms: t });
            &&& (ts != m.last_imu_ts ==> r.1 == SlotAction::Forward && r.0.last_imu_ts == ts && r.0.stale_count == 0)
            &&& (ts == m.last_imu_ts ==> r.1 != SlotAction::Forward && r.0.last_imu_ts == ts
                && r.0.stale_count == m.stale_count + 1)
        }),
{
}

/// An empty read or a read error never hands anything on and never touches
/// the remembered report time or IMU timestamp.
pub proof fn lemma_no_report_keeps_clock(m: SlotMonitor, t: u64)
    requires
        m.wf(),
    ensures
        slot_step(m, SlotEvent::NoData { now_ms: t }).1 != SlotAction::Forward,
        slot_step(m, SlotEvent::NoData { now_ms: t }).0.last_sample_at_ms == m.last_sample_at_ms,
        slot_step(m, SlotEvent::NoData { now_ms: t }).0.last_imu_ts == m.last_imu_ts,
        slot_step(m, SlotEvent::NoData { now_ms: t }).0.stale_count == m.stale_count,
        slot_step(m, SlotEvent::ReadError).1 != SlotAction::Forward,
        slot_step(m, SlotEvent::ReadError).0.last_sample_at_ms == m.last_sample_at_ms,
        slot_step(m, SlotEvent::ReadError).0.last_imu_ts == m.last_imu_ts,
        slot_step(m, SlotEvent::ReadError).0.stale_count == m.stale_count,
        slot_step(m, SlotEvent::ReadError).0.consecutive_errors == m.consecutive_errors + 1,
{
}


/// "Lizard mode off" is re-sent once 3 s have passed since it was last sent,
/// the IMU mode once 1 s has passed; a report that is sent is recorded as
/// sent now, one that is not keeps its time.
pub proof fn lemma_feature_reports_resent_on_schedule(r: ReportRefresh, now_ms: u64)
    ensures
        ({
            let (after, lizard, imu) = refresh_step(r, now_ms);
            &&& now_ms >= r.last_lizard_ms ==> (lizard <==> now_ms - r.last_lizard_ms >= 3000)
            &&& now_ms >= r.last_imu_ms ==> (imu <==> now_ms - r.last_imu_ms >= 1000)
            &&& now_ms < r.last_lizard_ms ==> !lizard
            &&& now_ms < r.last_imu_ms ==> !imu
            &&& after.last_lizard_ms == (if lizard { now_ms } else { r.last_lizard_ms })
            &&& after.last_imu_ms == (if imu { now_ms } else { r.last_imu_ms })
        }),
{
}

} // verus!
