//! The DSU ("cemuhook") UDP protocol: packet layout, the checksum, request
//! decoding, and the subscriber table that decides who gets motion packets.

use vstd::prelude::*;
use crate::bytes::{lemma_u16_roundtrip, le16, le32, le64, splice, u16_at, u32_at, lemma_u32_roundtrip, put_u16_le, put_u32_le, put_u64_le, Cursor, ReadError, read_u8, read_u16_le, read_u32_le, read_exact, zeros, u16_le_at};

verus! {

/// Protocol version spoken by both ends.
pub const PROTOCOL_VERSION: u16 = 1001;
/// Length of the fixed header whose last field is the server id.
pub const HEADER_LEN: usize = 16;
/// Length of the header including the message type.
pub const HEADER_LEN_FULL: usize = 20;
/// Offset of the CRC-32 field inside the header.
pub const CRC_OFFSET: usize = 8;
/// Length of the CRC-32 field.
pub const CRC_LEN: usize = 4;
/// Length of the per-slot controller header that precedes slot data.
pub const CONTROLLER_HEADER_LEN: usize = 11;
/// At most this many clients are subscribed at once.
pub const MAX_SUBSCRIBERS: usize = 16;
/// A subscriber that has not renewed for this long (microseconds) is dropped.
pub const CLIENT_TIMEOUT_US: u64 = 5_000_000;

/// Message type: protocol version information.
pub const MSG_VERSION: u32 = 0x100000;
/// Message type: information about connected controller slots.
pub const MSG_PORTS: u32 = 0x100001;
/// Message type: controller data (requests subscribe, replies carry motion).
pub const MSG_DATA: u32 = 0x100002;

/// Slot state reported for the served controller.
pub const SLOT_CONNECTED: u8 = 2;
/// Device model reported for the served controller: full gyro.
pub const DEVICE_GYRO_FULL: u8 = 2;
/// Connection type reported for the served controller.
pub const CONNECTION_USB: u8 = 1;
/// Battery status "not applicable".
pub const BATTERY_NA: u8 = 0;
/// The one slot this server serves.
pub const OUR_SLOT: u8 = 0;

/// "DSUS", the magic that starts every packet the server sends.
pub open spec fn magic_server() -> Seq<u8> {
    seq![0x44u8, 0x53u8, 0x55u8, 0x53u8]
}

/// "DSUC", the magic that starts every packet a client sends.
pub open spec fn magic_client() -> Seq<u8> {
    seq![0x44u8, 0x53u8, 0x55u8, 0x43u8]
}

/// The MAC address reported for the served slot.
pub open spec fn our_mac() -> Seq<u8> {
    seq![0x02u8, 0x28u8, 0xDEu8, 0x13u8, 0x04u8, 0u8]
}

/// The CRC-32 (IEEE 802.3, as computed by `crc32fast`) of `data`.
pub uninterp spec fn crc32(data: Seq<u8>) -> u32;

/// `crc32fast::hash`: the CRC-32 checksum of `data`, as the named result `crc32`.
#[verifier::external_body]
fn crc32_hash(data: &[u8]) -> (r: u32)
    ensures
        r == crc32(data@),
{
    crc32fast::hash(data)
}

/// `m` with its CRC field zeroed.
pub open spec fn zero_crc_field(m: Seq<u8>) -> Seq<u8> {
    splice(m, CRC_OFFSET as int, seq![0u8, 0u8, 0u8, 0u8])
}

/// The checksum a packet carries: the CRC-32 of the packet with its CRC field zeroed.
pub open spec fn packet_crc(m: Seq<u8>) -> u32 {
    crc32(zero_crc_field(m))
}

/// The bytes of the header the server writes for a packet of `total_len` bytes.
pub open spec fn server_header(server_id: u32, mtype: u32, total_len: nat) -> Seq<u8> {
    magic_server() + le16(PROTOCOL_VERSION) + le16(((total_len - HEADER_LEN) % 65536) as u16)
        + seq![0u8, 0u8, 0u8, 0u8] + le32(server_id) + le32(mtype)
}

/// `m` with the checksum of `m` written into its CRC field.
pub open spec fn with_crc(m: Seq<u8>) -> Seq<u8> {
    splice(m, CRC_OFFSET as int, le32(packet_crc(m)))
}

/// Writes the 20-byte server header at the start of `out`; the payload length
/// field counts every byte after the first 16 (modulo 2^16).
pub fn write_header(out: &mut Vec<u8>, server_id: u32, mtype: u32)
    requires
        old(out)@.len() >= HEADER_LEN_FULL,
    ensures
        final(out)@ == splice(old(out)@, 0, server_header(server_id, mtype, old(out)@.len())),
{
    let len = out.len();
    let payload_len = ((len - HEADER_LEN) % 65536) as u16;
    out[0] = 0x44;
    out[1] = 0x53;
    out[2] = 0x55;
    out[3] = 0x53;
    put_u16_le(out, 4, PROTOCOL_VERSION);
    put_u16_le(out, 6, payload_len);
    out[8] = 0;
    out[9] = 0;
    out[10] = 0;
    out[11] = 0;
    put_u32_le(out, 12, server_id);
    put_u32_le(out, 16, mtype);
    assert(out@ =~= splice(old(out)@, 0, server_header(server_id, mtype, old(out)@.len())));
}

/// The checksum of `msg` with its CRC field taken as zero.
pub fn crc_over_zeroed(msg: &[u8]) -> (r: u32)
    requires
        msg@.len() >= CRC_OFFSET + CRC_LEN,
    ensures
        r == packet_crc(msg@),
{
    let n = msg.len();
    let mut copy: Vec<u8> = Vec::new();
    let mut i: usize = 0;
    while i < n
        invariant
            n == msg@.len(),
            i <= n,
            copy@ == msg@.subrange(0, i as int),
        decreases n - i,
    {
        copy.push(msg[i]);
        i = i + 1;
        assert(copy@ =~= msg@.subrange(0, i as int));
    }
    assert(copy@ =~= msg@);
    put_u32_le(&mut copy, CRC_OFFSET, 0);
    assert(le32(0) =~= seq![0u8, 0u8, 0u8, 0u8]);
    crc32_hash(copy.as_slice())
}

/// Writes the checksum of `out` into its CRC field.
pub fn finalize_crc(out: &mut Vec<u8>)
    requires
        old(out)@.len() >= CRC_OFFSET + CRC_LEN,
    ensures
        final(out)@ == with_crc(old(out)@),
{
    let crc = crc_over_zeroed(out.as_slice());
    put_u32_le(out, CRC_OFFSET, crc);
}

/// Zeroing the CRC field forgets what the field held: two packets that differ
/// only there have the same checksum.
pub proof fn lemma_crc_ignores_crc_field(a: Seq<u8>, b: Seq<u8>)
    requires
        a.len() == b.len(),
        a.len() >= CRC_OFFSET + CRC_LEN,
        forall|i: int| 0 <= i < a.len() && !(CRC_OFFSET <= i < CRC_OFFSET + CRC_LEN) ==> a[i] == b[i],
    ensures
        packet_crc(a) == packet_crc(b),
{
    assert(zero_crc_field(a) =~= zero_crc_field(b));
}

/// A finalized packet verifies: the CRC field it carries is the checksum of
/// the packet itself, and nothing outside the CRC field changed.
pub proof fn lemma_finalized_packet_verifies(m: Seq<u8>)
    requires
        m.len() >= CRC_OFFSET + CRC_LEN,
    ensures
        with_crc(m).len() == m.len(),
        u32_at(with_crc(m), CRC_OFFSET as int) == packet_crc(with_crc(m)),
        forall|i: int| 0 <= i < m.len() && !(CRC_OFFSET <= i < CRC_OFFSET + CRC_LEN) ==> with_crc(m)[i] == m[i],
{
    let f = with_crc(m);
    lemma_u32_roundtrip(packet_crc(m));
    assert(f.subrange(CRC_OFFSET as int, CRC_OFFSET + CRC_LEN) =~= le32(packet_crc(m)));
    lemma_crc_ignores_crc_field(m, f);
}


/// The controller header for `slot`: the slot number alone for a slot this
/// server does not serve, the full description for the served slot.
pub open spec fn controller_header(slot: u8) -> Seq<u8> {
    if slot == OUR_SLOT {
        seq![slot, SLOT_CONNECTED, DEVICE_GYRO_FULL, CONNECTION_USB] + our_mac() + seq![BATTERY_NA]
    } else {
        seq![slot]
    }
}

/// Writes the controller header for `slot` into `buf` at `off`.
pub fn write_controller_header(buf: &mut Vec<u8>, off: usize, slot: u8)
    requires
        off + controller_header(slot).len() <= old(buf)@.len(),
    ensures
        final(buf)@ == splice(old(buf)@, off as int, controller_header(slot)),
{
    let _len = buf.len();
    buf[off] = slot;
    if slot == OUR_SLOT {
        buf[off + 1] = SLOT_CONNECTED;
        buf[off + 2] = DEVICE_GYRO_FULL;
        buf[off + 3] = CONNECTION_USB;
        buf[off + 4] = 0x02;
        buf[off + 5] = 0x28;
        buf[off + 6] = 0xDE;
        buf[off + 7] = 0x13;
        buf[off + 8] = 0x04;
        buf[off + 9] = OUR_SLOT;
        buf[off + 10] = BATTERY_NA;
    }
    assert(buf@ =~= splice(old(buf)@, off as int, controller_header(slot)));
}

/// One motion sample as it goes on the wire: a microsecond timestamp and the
/// IEEE-754 bit patterns of accelerometer (g) and gyroscope (deg/s) readings.
#[derive(Clone, Copy, Debug, PartialEq, Eq)]
pub struct DataSample {
    pub timestamp_us: u32,
    pub accel_bits: [u32; 3],
    pub gyro_bits: [u32; 3],
}

/// Offset, within a data body, of the connected flag.
pub const BODY_CONNECTED: usize = 0;
/// Offset, within a data body, of the four analog stick bytes.
pub const BODY_STICKS: usize = 9;
/// Offset, within a data body, of the 64-bit motion timestamp.
pub const BODY_TIMESTAMP: usize = 37;
/// Offset, within a data body, of the six 32-bit motion values.
pub const BODY_MOTION: usize = 45;
/// Bytes of a data body that the server writes.
pub const BODY_LEN: usize = 69;

/// The six motion values in wire order: accelerometer x, y, z, then gyroscope x, y, z.
pub open spec fn motion_bytes(s: DataSample) -> Seq<u8> {
    le32(s.accel_bits[0]) + le32(s.accel_bits[1]) + le32(s.accel_bits[2])
        + le32(s.gyro_bits[0]) + le32(s.gyro_bits[1]) + le32(s.gyro_bits[2])
}

/// `m` with a data body for `s` written at `off`: connected flag set, sticks
/// centred, timestamp and motion written; every other byte as it was.
pub open spec fn with_data_body(m: Seq<u8>, off: int, s: DataSample) -> Seq<u8> {
    splice(
        splice(
            splice(splice(m, off + BODY_CONNECTED, seq![1u8]), off + BODY_STICKS, seq![127u8, 127u8, 127u8, 127u8]),
            off + BODY_TIMESTAMP,
            le64(s.timestamp_us as u64),
        ),
        off + BODY_MOTION,
        motion_bytes(s),
    )
}

/// Writes the six motion values of `s` into `out` at `off`.
fn put_motion(out: &mut Vec<u8>, off: usize, s: &DataSample)
    requires
        off + 24 <= old(out)@.len(),
    ensures
        final(out)@ == splice(old(out)@, off as int, motion_bytes(*s)),
{
    let _len = out.len();
    let ghost o = old(out)@;
    put_u32_le(out, off, s.accel_bits[0]);
    let ghost p1 = le32(s.accel_bits[0]);
    assert(out@ =~= splice(o, off as int, p1));
    put_u32_le(out, off + 4, s.accel_bits[1]);
    let ghost p2 = p1 + le32(s.accel_bits[1]);
    assert(out@ =~= splice(o, off as int, p2));
    put_u32_le(out, off + 8, s.accel_bits[2]);
    let ghost p3 = p2 + le32(s.accel_bits[2]);
    assert(out@ =~= splice(o, off as int, p3));
    put_u32_le(out, off + 12, s.gyro_bits[0]);
    let ghost p4 = p3 + le32(s.gyro_bits[0]);
    assert(out@ =~= splice(o, off as int, p4));
    put_u32_le(out, off + 16, s.gyro_bits[1]);
    let ghost p5 = p4 + le32(s.gyro_bits[1]);
    assert(out@ =~= splice(o, off as int, p5));
    put_u32_le(out, off + 20, s.gyro_bits[2]);
    let ghost p6 = p5 + le32(s.gyro_bits[2]);
    assert(out@ =~= splice(o, off as int, p6));
    assert(p6 =~= motion_bytes(*s));
}

/// Writes the data body for `sample` into `body` at `off`.
pub fn write_data_body(body: &mut Vec<u8>, off: usize, sample: &DataSample)
    requires
        off + BODY_LEN <= old(body)@.len(),
    ensures
        final(body)@ == with_data_body(old(body)@, off as int, *sample),
{
    let _len = body.len();
    body[off + BODY_CONNECTED] = 1;
    let ghost s1 = body@;
    assert(s1 =~= splice(old(body)@, off + BODY_CONNECTED, seq![1u8]));
    body[off + BODY_STICKS] = 127;
    body[off + BODY_STICKS + 1] = 127;
    body[off + BODY_STICKS + 2] = 127;
    body[off + BODY_STICKS + 3] = 127;
    assert(body@ =~= splice(s1, off + BODY_STICKS, seq![127u8, 127u8, 127u8, 127u8]));
    put_u64_le(body, off + BODY_TIMESTAMP, sample.timestamp_us as u64);
    put_motion(body, off + BODY_MOTION, sample);
}

/// Length of a version reply.
pub const VERSION_PACKET_LEN: usize = 22;
/// Length of a slot information reply.
pub const SLOT_INFO_PACKET_LEN: usize = 32;
/// Length of a motion data packet.
pub const DATA_PACKET_LEN: usize = 100;
/// Offset of the per-subscriber packet number in a data packet.
pub const PACKET_NUM_OFFSET: usize = 32;

/// The version reply: header, then the protocol version, checksummed.
pub open spec fn version_packet_spec(server_id: u32) -> Seq<u8> {
    with_crc(server_header(server_id, MSG_VERSION, VERSION_PACKET_LEN as nat) + le16(PROTOCOL_VERSION))
}

/// The slot information reply for `slot`: header, controller header, zero padding, checksummed.
pub open spec fn slot_info_packet_spec(server_id: u32, slot: u8) -> Seq<u8> {
    with_crc(
        splice(
            server_header(server_id, MSG_PORTS, SLOT_INFO_PACKET_LEN as nat) + Seq::new(12, |i: int| 0u8),
            HEADER_LEN_FULL as int,
            controller_header(slot),
        ),
    )
}

/// A data packet before its packet number and checksum are filled in.
pub open spec fn data_template(server_id: u32, sample: DataSample) -> Seq<u8> {
    with_data_body(
        splice(
            server_header(server_id, MSG_DATA, DATA_PACKET_LEN as nat) + Seq::new(80, |i: int| 0u8),
            HEADER_LEN_FULL as int,
            controller_header(OUR_SLOT),
        ),
        (HEADER_LEN_FULL + CONTROLLER_HEADER_LEN) as int,
        sample,
    )
}

/// The data packet carrying `sample` with packet number `counter`.
pub open spec fn data_packet_spec(server_id: u32, sample: DataSample, counter: u32) -> Seq<u8> {
    with_crc(splice(data_template(server_id, sample), PACKET_NUM_OFFSET as int, le32(counter)))
}

/// Builds the reply to a version request.
pub fn version_packet(server_id: u32) -> (r: Vec<u8>)
    ensures
        r@ == version_packet_spec(server_id),
{
    let mut out = zeros(VERSION_PACKET_LEN);
    write_header(&mut out, server_id, MSG_VERSION);
    put_u16_le(&mut out, HEADER_LEN_FULL, PROTOCOL_VERSION);
    assert(out@ =~= server_header(server_id, MSG_VERSION, VERSION_PACKET_LEN as nat) + le16(PROTOCOL_VERSION));
    finalize_crc(&mut out);
    out
}

/// Builds the reply describing `slot`.
pub fn slot_info_packet(server_id: u32, slot: u8) -> (r: Vec<u8>)
    ensures
        r@ == slot_info_packet_spec(server_id, slot),
{
    let mut out = zeros(SLOT_INFO_PACKET_LEN);
    write_header(&mut out, server_id, MSG_PORTS);
    assert(out@ =~= server_header(server_id, MSG_PORTS, SLOT_INFO_PACKET_LEN as nat) + Seq::new(12, |i: int| 0u8));
    write_controller_header(&mut out, HEADER_LEN_FULL, slot);
    finalize_crc(&mut out);
    out
}

/// Builds the data packet for `sample` before packet number and checksum.
pub(crate) fn data_packet_template(server_id: u32, sample: &DataSample) -> (r: Vec<u8>)
    ensures
        r@ == data_template(server_id, *sample),
        r@.len() == DATA_PACKET_LEN,
{
    let mut out = zeros(DATA_PACKET_LEN);
    write_header(&mut out, server_id, MSG_DATA);
    assert(out@ =~= server_header(server_id, MSG_DATA, DATA_PACKET_LEN as nat) + Seq::new(80, |i: int| 0u8));
    write_controller_header(&mut out, HEADER_LEN_FULL, OUR_SLOT);
    write_data_body(&mut out, HEADER_LEN_FULL + CONTROLLER_HEADER_LEN, sample);
    out
}

/// Builds the data packet carrying `sample` with packet number `counter`.
pub fn data_packet(server_id: u32, sample: &DataSample, counter: u32) -> (r: Vec<u8>)
    ensures
        r@ == data_packet_spec(server_id, *sample, counter),
{
    let mut out = data_packet_template(server_id, sample);
    put_u32_le(&mut out, PACKET_NUM_OFFSET, counter);
    finalize_crc(&mut out);
    out
}


/// What a client datagram asks for, as far as this server is concerned.
pub enum Request {
    /// Not a well-formed, checksummed request this server answers: dropped silently.
    Ignore,
    /// A version request.
    Version { client_id: u32 },
    /// A request for information about the listed slots (at most four).
    Ports { client_id: u32, slots: Vec<u8> },
    /// A subscription to controller data, selecting controllers by slot and/or MAC.
    Data { client_id: u32, reg_type: u8, slot: u8, mac: Vec<u8> },
}

/// The mathematical content of a [`Request`].
pub enum RequestModel {
    Ignore,
    Version { client_id: u32 },
    Ports { client_id: u32, slots: Seq<u8> },
    Data { client_id: u32, reg_type: u8, slot: u8, mac: Seq<u8> },
}

impl View for Request {
    type V = RequestModel;

    open spec fn view(&self) -> RequestModel {
        match self {
            Request::Ignore => RequestModel::Ignore,
            Request::Version { client_id } => RequestModel::Version { client_id: *client_id },
            Request::Ports { client_id, slots } => RequestModel::Ports { client_id: *client_id, slots: slots@ },
            Request::Data { client_id, reg_type, slot, mac } => RequestModel::Data {
                client_id: *client_id,
                reg_type: *reg_type,
                slot: *slot,
                mac: mac@,
            },
        }
    }
}

/// The payload length a request header claims.
pub open spec fn claimed_len(m: Seq<u8>) -> int {
    u16_at(m, 6) as int
}

/// Whether `m` carries a client header this server accepts, given the
/// checksum `crc` of its claimed extent: long enough, client magic, our
/// protocol version, a claimed length that fits the datagram, and a CRC
/// field equal to `crc`.
pub open spec fn header_accepted_given(m: Seq<u8>, crc: u32) -> bool {
    &&& m.len() >= HEADER_LEN_FULL
    &&& m.subrange(0, 4) == magic_client()
    &&& u16_at(m, 4) == PROTOCOL_VERSION
    &&& m.len() >= HEADER_LEN + claimed_len(m)
    &&& u32_at(m, CRC_OFFSET as int) == crc
}

/// The checksum of the claimed extent of `m` (the first 16 bytes plus the
/// claimed payload length), where that extent fits in `m`.
pub open spec fn extent_crc(m: Seq<u8>) -> u32 {
    if m.len() >= HEADER_LEN_FULL && m.len() >= HEADER_LEN + claimed_len(m) {
        packet_crc(m.subrange(0, HEADER_LEN + claimed_len(m)))
    } else {
        0
    }
}

/// How many slots a ports request asks about: the count field, capped at four.
pub open spec fn ports_amount(m: Seq<u8>) -> int {
    if u32_at(m, 20) < 4 { u32_at(m, 20) as int } else { 4 }
}

/// What the datagram `m` asks for when its claimed extent has checksum
/// `crc`, or `None` when its body is cut short. The body is read from the
/// datagram itself, past the claimed length if need be.
pub open spec fn request_model_given(m: Seq<u8>, crc: u32) -> Option<RequestModel> {
    if !header_accepted_given(m, crc) {
        Some(RequestModel::Ignore)
    } else {
        let client_id = u32_at(m, 12);
        let mtype = u32_at(m, 16);
        if mtype == MSG_VERSION {
            Some(RequestModel::Version { client_id })
        } else if mtype == MSG_PORTS {
            if m.len() < 24 || m.len() < 24 + ports_amount(m) {
                None
            } else {
                Some(RequestModel::Ports { client_id, slots: m.subrange(24, 24 + ports_amount(m)) })
            }
        } else if mtype == MSG_DATA {
            if m.len() < 28 {
                None
            } else {
                Some(RequestModel::Data { client_id, reg_type: m[20], slot: m[21], mac: m.subrange(22, 28) })
            }
        } else {
            Some(RequestModel::Ignore)
        }
    }
}

/// What the datagram `m` asks for, or `None` when its body is cut short.
pub open spec fn request_model(m: Seq<u8>) -> Option<RequestModel> {
    request_model_given(m, extent_crc(m))
}

/// The fields of the header the server writes decode back to what was written.
pub proof fn lemma_server_header_fields(m: Seq<u8>, server_id: u32, mtype: u32)
    requires
        m.len() >= HEADER_LEN_FULL,
    ensures
        ({
            let p = splice(m, 0, server_header(server_id, mtype, m.len()));
            &&& p.len() == m.len()
            &&& p.subrange(0, 4) == magic_server()
            &&& u16_at(p, 4) == PROTOCOL_VERSION
            &&& u16_at(p, 6) == (m.len() - HEADER_LEN) % 65536
            &&& u32_at(p, 12) == server_id
            &&& u32_at(p, 16) == mtype
            &&& p.subrange(HEADER_LEN_FULL as int, m.len() as int) == m.subrange(HEADER_LEN_FULL as int, m.len() as int)
        }),
{
    let p = splice(m, 0, server_header(server_id, mtype, m.len()));
    let h = server_header(server_id, mtype, m.len());
    assert(p.subrange(0, 20) =~= h);
    assert(p.subrange(0, 4) =~= magic_server());
    lemma_u16_roundtrip(PROTOCOL_VERSION);
    lemma_u16_roundtrip(((m.len() - HEADER_LEN) % 65536) as u16);
    lemma_u32_roundtrip(server_id);
    lemma_u32_roundtrip(mtype);
    assert(h.subrange(4, 6) =~= le16(PROTOCOL_VERSION));
    assert(h.subrange(6, 8) =~= le16(((m.len() - HEADER_LEN) % 65536) as u16));
    assert(h.subrange(12, 16) =~= le32(server_id));
    assert(h.subrange(16, 20) =~= le32(mtype));
    assert(u16_at(p, 4) == u16_at(le16(PROTOCOL_VERSION), 0));
    assert(u16_at(p, 6) == u16_at(le16(((m.len() - HEADER_LEN) % 65536) as u16), 0));
    assert(u32_at(p, 12) == u32_at(le32(server_id), 0));
    assert(u32_at(p, 16) == u32_at(le32(mtype), 0));
    assert(p.subrange(HEADER_LEN_FULL as int, m.len() as int) =~= m.subrange(HEADER_LEN_FULL as int, m.len() as int));
}

/// Decodes a client datagram whose claimed extent has checksum
/// `computed_crc`: `Ok` with what it asks for, or an error when an accepted
/// request's body is cut short.
pub fn decode_request(msg: &[u8], computed_crc: u32) -> (r: Result<Request, ReadError>)
    ensures
        match r {
            Ok(req) => request_model_given(msg@, computed_crc) == Some(req@),
            Err(_) => request_model_given(msg@, computed_crc) is None,
        },
{
    let ghost m = msg@;
    let n = msg.len();
    if n < HEADER_LEN_FULL {
        return Ok(Request::Ignore);
    }
    let mut c = Cursor::new(msg);
    let magic = match read_exact(&mut c, 4) {
        Ok(v) => v,
        Err(e) => return Err(e),
    };
    if !(magic[0] == 0x44 && magic[1] == 0x53 && magic[2] == 0x55 && magic[3] == 0x43) {
        assert(m.subrange(0, 4) != magic_client()) by {
            if m.subrange(0, 4) == magic_client() {
                assert(magic@[0] == m.subrange(0, 4)[0]);
                assert(magic@[1] == m.subrange(0, 4)[1]);
                assert(magic@[2] == m.subrange(0, 4)[2]);
                assert(magic@[3] == m.subrange(0, 4)[3]);
            }
        }
        return Ok(Request::Ignore);
    }
    assert(m.subrange(0, 4) =~= magic_client());
    let version = match read_u16_le(&mut c) {
        Ok(v) => v,
        Err(e) => return Err(e),
    };
    if version != PROTOCOL_VERSION {
        return Ok(Request::Ignore);
    }
    let length = match read_u16_le(&mut c) {
        Ok(v) => v,
        Err(e) => return Err(e),
    } as usize;
    if n < HEADER_LEN + length {
        return Ok(Request::Ignore);
    }
    let claimed_crc = match read_u32_le(&mut c) {
        Ok(v) => v,
        Err(e) => return Err(e),
    };
    if claimed_crc != computed_crc {
        return Ok(Request::Ignore);
    }
    let client_id = match read_u32_le(&mut c) {
        Ok(v) => v,
        Err(e) => return Err(e),
    };
    let mtype = match read_u32_le(&mut c) {
        Ok(v) => v,
        Err(e) => return Err(e),
    };
    assert(c.pos == 20);
    if mtype == MSG_VERSION {
        Ok(Request::Version { client_id })
    } else if mtype == MSG_PORTS {
        let count = match read_u32_le(&mut c) {
            Ok(v) => v,
            Err(e) => return Err(e),
        };
        let amount: usize = if count < 4 { count as usize } else { 4 };
        let slots = match read_exact(&mut c, amount) {
            Ok(v) => v,
            Err(e) => return Err(e),
        };
        Ok(Request::Ports { client_id, slots })
    } else if mtype == MSG_DATA {
        let reg_type = match read_u8(&mut c) {
            Ok(v) => v,
            Err(e) => return Err(e),
        };
        let slot = match read_u8(&mut c) {
            Ok(v) => v,
            Err(e) => return Err(e),
        };
        let mac = match read_exact(&mut c, 6) {
            Ok(v) => v,
            Err(e) => return Err(e),
        };
        Ok(Request::Data { client_id, reg_type, slot, mac })
    } else {
        Ok(Request::Ignore)
    }
}

/// Decodes a client datagram: checksums its claimed extent, then decodes it
/// as [`decode_request`] does.
pub fn parse_request(msg: &[u8]) -> (r: Result<Request, ReadError>)
    ensures
        match r {
            Ok(req) => request_model(msg@) == Some(req@),
            Err(_) => request_model(msg@) is None,
        },
{
    let n = msg.len();
    let mut crc: u32 = 0;
    if n >= HEADER_LEN_FULL {
        let length = u16_le_at(msg, 6) as usize;
        if n >= HEADER_LEN + length {
            crc = crc_over_zeroed(&msg[0..HEADER_LEN + length]);
        }
    }
    decode_request(msg, crc)
}

/// The version reply decodes back to what it carries: the server header for a
/// 22-byte version message, the protocol version, and a checksum that verifies.
pub proof fn lemma_version_packet_fields(server_id: u32)
    ensures
        ({
            let p = version_packet_spec(server_id);
            &&& p.len() == VERSION_PACKET_LEN
            &&& p.subrange(0, 4) == magic_server()
            &&& u16_at(p, 4) == PROTOCOL_VERSION
            &&& u16_at(p, 6) == VERSION_PACKET_LEN - HEADER_LEN
            &&& u32_at(p, 12) == server_id
            &&& u32_at(p, 16) == MSG_VERSION
            &&& u16_at(p, 20) == PROTOCOL_VERSION
            &&& u32_at(p, CRC_OFFSET as int) == packet_crc(p)
        }),
{
    let h = server_header(server_id, MSG_VERSION, VERSION_PACKET_LEN as nat);
    let zs = Seq::new(22, |i: int| 0u8);
    lemma_server_header_fields(zs, server_id, MSG_VERSION);
    let q = h + le16(PROTOCOL_VERSION);
    assert(splice(zs, 0, h).subrange(0, 20) =~= q.subrange(0, 20));
    let p = with_crc(q);
    lemma_finalized_packet_verifies(q);
    assert(p.subrange(0, 4) =~= q.subrange(0, 4));
    assert(u16_at(p, 4) == u16_at(splice(zs, 0, h), 4));
    assert(u16_at(p, 6) == u16_at(splice(zs, 0, h), 6));
    assert(u32_at(p, 12) == u32_at(splice(zs, 0, h), 12));
    assert(u32_at(p, 16) == u32_at(splice(zs, 0, h), 16));
    lemma_u16_roundtrip(PROTOCOL_VERSION);
    assert(p.subrange(20, 22) =~= le16(PROTOCOL_VERSION));
    assert(u16_at(p, 20) == u16_at(le16(PROTOCOL_VERSION), 0));
}

/// A slot information reply decodes back to what it carries: the server
/// header for a 32-byte ports message, the controller header of the slot,
/// zero padding, and a checksum that verifies.
pub proof fn lemma_slot_info_packet_fields(server_id: u32, slot: u8)
    ensures
        ({
            let p = slot_info_packet_spec(server_id, slot);
            let ch = controller_header(slot);
            &&& p.len() == SLOT_INFO_PACKET_LEN
            &&& p.subrange(0, 4) == magic_server()
            &&& u16_at(p, 4) == PROTOCOL_VERSION
            &&& u16_at(p, 6) == SLOT_INFO_PACKET_LEN - HEADER_LEN
            &&& u32_at(p, 12) == server_id
            &&& u32_at(p, 16) == MSG_PORTS
            &&& p.subrange(20, 20 + ch.len() as int) == ch
            &&& forall|i: int| 20 + ch.len() <= i < SLOT_INFO_PACKET_LEN ==> p[i] == 0
            &&& u32_at(p, CRC_OFFSET as int) == packet_crc(p)
        }),
{
    let h = server_header(server_id, MSG_PORTS, SLOT_INFO_PACKET_LEN as nat);
    let zs = Seq::new(32, |i: int| 0u8);
    lemma_server_header_fields(zs, server_id, MSG_PORTS);
    let base = h + Seq::new(12, |i: int| 0u8);
    assert(base =~= splice(zs, 0, h));
    let ch = controller_header(slot);
    let q = splice(base, HEADER_LEN_FULL as int, ch);
    let p = with_crc(q);
    lemma_finalized_packet_verifies(q);
    assert(p.subrange(0, 4) =~= base.subrange(0, 4));
    assert(u16_at(p, 4) == u16_at(base, 4));
    assert(u16_at(p, 6) == u16_at(base, 6));
    assert(u32_at(p, 12) == u32_at(base, 12));
    assert(u32_at(p, 16) == u32_at(base, 16));
    assert(p.subrange(20, 20 + ch.len() as int) =~= ch);
}

/// A data packet decodes back to what it carries: the server header for a
/// 100-byte data message, the description of our slot, the connected flag,
/// its packet number, centred sticks, the timestamp and the six motion values,
/// and a checksum that verifies.
#[verifier::spinoff_prover]
#[verifier::rlimit(60)]
pub proof fn lemma_data_packet_fields(server_id: u32, sample: DataSample, counter: u32)
    ensures
        ({
            let p = data_packet_spec(server_id, sample, counter);
            &&& p.len() == DATA_PACKET_LEN
            &&& p.subrange(0, 4) == magic_server()
            &&& u16_at(p, 4) == PROTOCOL_VERSION
            &&& u16_at(p, 6) == DATA_PACKET_LEN - HEADER_LEN
            &&& u32_at(p, 12) == server_id
            &&& u32_at(p, 16) == MSG_DATA
            &&& p.subrange(20, 31) == controller_header(OUR_SLOT)
            &&& p[31] == 1
            &&& u32_at(p, 32) == counter
            &&& p.subrange(40, 44) == seq![127u8, 127u8, 127u8, 127u8]
            &&& u32_at(p, 68) == sample.timestamp_us
            &&& u32_at(p, 72) == 0
            &&& u32_at(p, 76) == sample.accel_bits[0]
            &&& u32_at(p, 80) == sample.accel_bits[1]
            &&& u32_at(p, 84) == sample.accel_bits[2]
            &&& u32_at(p, 88) == sample.gyro_bits[0]
            &&& u32_at(p, 92) == sample.gyro_bits[1]
            &&& u32_at(p, 96) == sample.gyro_bits[2]
            &&& u32_at(p, CRC_OFFSET as int) == packet_crc(p)
        }),
{
    let zs = Seq::new(100, |i: int| 0u8);
    let h = server_header(server_id, MSG_DATA, DATA_PACKET_LEN as nat);
    let base = h + Seq::new(80, |i: int| 0u8);
    assert(base =~= splice(zs, 0, h));
    lemma_server_header_fields(zs, server_id, MSG_DATA);
    let t = data_template(server_id, sample);
    let q = splice(t, PACKET_NUM_OFFSET as int, le32(counter));
    let p = with_crc(q);
    lemma_finalized_packet_verifies(q);
    // Every byte outside the CRC field is that of `q`.
    assert(p.subrange(0, 4) =~= base.subrange(0, 4));
    assert(p.subrange(4, 8) =~= base.subrange(4, 8));
    assert(p.subrange(12, 20) =~= base.subrange(12, 20));
    assert(u16_at(p, 4) == u16_at(base, 4));
    assert(u16_at(p, 6) == u16_at(base, 6));
    assert(u32_at(p, 12) == u32_at(base, 12));
    assert(u32_at(p, 16) == u32_at(base, 16));
    assert(p.subrange(20, 31) =~= controller_header(OUR_SLOT));
    lemma_u32_roundtrip(counter);
    assert(p.subrange(32, 36) =~= le32(counter));
    assert(u32_at(p, 32) == u32_at(le32(counter), 0));
    assert(p.subrange(40, 44) =~= seq![127u8, 127u8, 127u8, 127u8]);
    let ts = sample.timestamp_us as u64;
    assert(p.subrange(68, 76) =~= le64(ts));
    lemma_u32_roundtrip(sample.timestamp_us);
    lemma_u32_roundtrip(0);
    assert((ts % 4294967296) as u32 == sample.timestamp_us);
    assert((ts / 4294967296) as u32 == 0);
    assert(p.subrange(68, 72) =~= le32(sample.timestamp_us));
    assert(p.subrange(72, 76) =~= le32(0));
    assert(u32_at(p, 68) == u32_at(le32(sample.timestamp_us), 0));
    assert(u32_at(p, 72) == u32_at(le32(0), 0));
    let mb = motion_bytes(sample);
    assert(p.subrange(76, 100) =~= mb);
    lemma_u32_roundtrip(sample.accel_bits[0]);
    lemma_u32_roundtrip(sample.accel_bits[1]);
    lemma_u32_roundtrip(sample.accel_bits[2]);
    lemma_u32_roundtrip(sample.gyro_bits[0]);
    lemma_u32_roundtrip(sample.gyro_bits[1]);
    lemma_u32_roundtrip(sample.gyro_bits[2]);
    assert(mb.subrange(0, 4) =~= le32(sample.accel_bits[0]));
    assert(mb.subrange(4, 8) =~= le32(sample.accel_bits[1]));
    assert(mb.subrange(8, 12) =~= le32(sample.accel_bits[2]));
    assert(mb.subrange(12, 16) =~= le32(sample.gyro_bits[0]));
    assert(mb.subrange(16, 20) =~= le32(sample.gyro_bits[1]));
    assert(mb.subrange(20, 24) =~= le32(sample.gyro_bits[2]));
    assert(u32_at(p, 76) == u32_at(le32(sample.accel_bits[0]), 0));
    assert(u32_at(p, 80) == u32_at(le32(sample.accel_bits[1]), 0));
    assert(u32_at(p, 84) == u32_at(le32(sample.accel_bits[2]), 0));
    assert(u32_at(p, 88) == u32_at(le32(sample.gyro_bits[0]), 0));
    assert(u32_at(p, 92) == u32_at(le32(sample.gyro_bits[1]), 0));
    assert(u32_at(p, 96) == u32_at(le32(sample.gyro_bits[2]), 0));
}


/// Slot information describes only the served slot as a connected,
/// full-gyro, USB controller with our MAC; for every other slot it carries
/// the slot number and nothing else (zeros: not connected).
pub proof fn lemma_slot_info_describes_only_our_slot(server_id: u32, slot: u8)
    ensures
        ({
            let p = slot_info_packet_spec(server_id, slot);
            &&& p.len() == 32
            &&& p[20] == slot
            &&& (slot == 0 ==> p.subrange(20, 32) == seq![
                0u8, 2u8, 2u8, 1u8, 0x02u8, 0x28u8, 0xDEu8, 0x13u8, 0x04u8, 0u8, 0u8, 0u8,
            ])
            &&& (slot != 0 ==> forall|i: int| 21 <= i < 32 ==> p[i] == 0)
        }),
{
    lemma_slot_info_packet_fields(server_id, slot);
    let p = slot_info_packet_spec(server_id, slot);
    let ch = controller_header(slot);
    assert(p.subrange(20, 20 + ch.len() as int)[0] == p[20]);
    if slot == 0 {
        assert(p.subrange(20, 31)[10] == p[30]);
        assert(p.subrange(20, 32) =~= seq![0u8, 2u8, 2u8, 1u8, 0x02u8, 0x28u8, 0xDEu8, 0x13u8, 0x04u8, 0u8, 0u8, 0u8]);
    }
}

/// Data packets carry no button, trigger or touch input: the button bytes
/// (36..40) and the analog button and touch bytes (44..68) are zero, and the
/// slot description is that of the served, connected controller.
#[verifier::spinoff_prover]
#[verifier::rlimit(60)]
pub proof fn lemma_data_packet_carries_no_buttons(server_id: u32, sample: DataSample, counter: u32)
    ensures
        ({
            let p = data_packet_spec(server_id, sample, counter);
            &&& p.len() == 100
            &&& p.subrange(20, 31) == seq![0u8, 2u8, 2u8, 1u8, 0x02u8, 0x28u8, 0xDEu8, 0x13u8, 0x04u8, 0u8, 0u8]
            &&& forall|k: int| 36 <= k < 40 ==> p[k] == 0
            &&& forall|k: int| 44 <= k < 68 ==> p[k] == 0
        }),
{
    let zs = Seq::new(100, |i: int| 0u8);
    let h = server_header(server_id, MSG_DATA, DATA_PACKET_LEN as nat);
    let base = h + Seq::new(80, |i: int| 0u8);
    let b1 = splice(base, HEADER_LEN_FULL as int, controller_header(OUR_SLOT));
    let off = (HEADER_LEN_FULL + CONTROLLER_HEADER_LEN) as int;
    let c1 = splice(b1, off + BODY_CONNECTED, seq![1u8]);
    let c2 = splice(c1, off + BODY_STICKS, seq![127u8, 127u8, 127u8, 127u8]);
    let c3 = splice(c2, off + BODY_TIMESTAMP, le64(sample.timestamp_us as u64));
    let t = splice(c3, off + BODY_MOTION, motion_bytes(sample));
    assert(t == data_template(server_id, sample));
    let q = splice(t, PACKET_NUM_OFFSET as int, le32(counter));
    let p = with_crc(q);
    lemma_finalized_packet_verifies(q);
    assert forall|k: int| (36 <= k < 40 || 44 <= k < 68) implies p[k] == 0 by {
        assert(p[k] == q[k]);
        assert(q[k] == t[k]);
        assert(t[k] == c3[k]);
        assert(c3[k] == c2[k]);
        assert(c2[k] == c1[k]);
        assert(c1[k] == b1[k]);
        assert(b1[k] == base[k]);
    }
    assert forall|k: int| 20 <= k < 31 implies p[k] == b1[k] by {
        assert(p[k] == q[k]);
        assert(q[k] == t[k]);
        assert(t[k] == c3[k]);
        assert(c3[k] == c2[k]);
        assert(c2[k] == c1[k]);
    }
    assert(p.subrange(20, 31) =~= seq![0u8, 2u8, 2u8, 1u8, 0x02u8, 0x28u8, 0xDEu8, 0x13u8, 0x04u8, 0u8, 0u8]);
}


/// How a client datagram is judged. It is answered only if it is at least
/// 20 bytes, starts with "DSUC", speaks protocol 1001, claims a payload that
/// fits in it, and carries in bytes 8..12 the CRC-32 of its claimed extent
/// (the first 16 bytes plus the claimed payload) with bytes 8..12 zeroed.
/// Such a datagram is then a version request (0x100000), a ports request
/// (0x100001: a count at 20, capped at 4, then that many slot numbers) or a
/// data request (0x100002: registration type, slot, then a 6-byte MAC), all
/// with the client id at 12; any other message type is dropped, and a body
/// cut short is an error.
pub proof fn lemma_request_rules(m: Seq<u8>)
    ensures
        ({
            let len = m.len();
            let claimed = m[6] + 256 * m[7];
            let framed = len >= 20 && m[0] == 0x44 && m[1] == 0x53 && m[2] == 0x55 && m[3] == 0x43
                && m[4] + 256 * m[5] == 1001 && len >= 16 + claimed;
            let crc_ok = m[8] + 256 * m[9] + 65536 * m[10] + 16777216 * m[11] == crc32(
                m.subrange(0, 8) + seq![0u8, 0u8, 0u8, 0u8] + m.subrange(12, 16 + claimed),
            );
            let id = (m[12] + 256 * m[13] + 65536 * m[14] + 16777216 * m[15]) as u32;
            let mtype = m[16] + 256 * m[17] + 65536 * m[18] + 16777216 * m[19];
            let count = m[20] + 256 * m[21] + 65536 * m[22] + 16777216 * m[23];
            let amount = if count < 4 { count } else { 4 };
            &&& !(framed && crc_ok) ==> request_model(m) == Some(RequestModel::Ignore)
            &&& framed && crc_ok && mtype == 0x100000 ==> request_model(m) == Some(RequestModel::Version { client_id: id })
            &&& framed && crc_ok && mtype == 0x100001 && len >= 24 + amount ==> request_model(m) == Some(
                RequestModel::Ports { client_id: id, slots: m.subrange(24, 24 + amount) },
            )
            &&& framed && crc_ok && mtype == 0x100001 && len < 24 + amount ==> request_model(m) is None
            &&& framed && crc_ok && mtype == 0x100002 && len >= 28 ==> request_model(m) == Some(
                RequestModel::Data { client_id: id, reg_type: m[20], slot: m[21], mac: m.subrange(22, 28) },
            )
            &&& framed && crc_ok && mtype == 0x100002 && len < 28 ==> request_model(m) is None
            &&& framed && crc_ok && mtype != 0x100000 && mtype != 0x100001 && mtype != 0x100002
                ==> request_model(m) == Some(RequestModel::Ignore)
        }),
{
    let len = m.len();
    if len >= 20 {
        let claimed = m[6] + 256 * m[7];
        if len >= 16 + claimed {
            let e = m.subrange(0, 16 + claimed);
            assert(zero_crc_field(e) =~= m.subrange(0, 8) + seq![0u8, 0u8, 0u8, 0u8] + m.subrange(12, 16 + claimed));
        }
        if m[0] == 0x44 && m[1] == 0x53 && m[2] == 0x55 && m[3] == 0x43 {
            assert(m.subrange(0, 4) =~= magic_client());
        } else {
            assert(m.subrange(0, 4) != magic_client()) by {
                if m.subrange(0, 4) == magic_client() {
                    assert(m.subrange(0, 4)[0] == m[0]);
                    assert(m.subrange(0, 4)[1] == m[1]);
                    assert(m.subrange(0, 4)[2] == m[2]);
                    assert(m.subrange(0, 4)[3] == m[3]);
                }
            }
        }
    }
}

} // verus!
