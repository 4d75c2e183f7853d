use sc2dsu::dsu::{
    crc_over_zeroed, data_packet, finalize_crc, slot_info_packet, version_packet, write_controller_header,
    write_data_body, write_header, DataSample, CRC_LEN, CRC_OFFSET, HEADER_LEN, HEADER_LEN_FULL, MSG_DATA, MSG_PORTS,
    MSG_VERSION, PROTOCOL_VERSION,
};

const MAGIC_SERVER: &[u8; 4] = b"DSUS";

#[test]
fn header_fields_and_crc_are_consistent() {
    let mut out = vec![0u8; HEADER_LEN_FULL + 2];
    write_header(&mut out, 0xDEAD_BEEF, MSG_VERSION);
    out[HEADER_LEN_FULL..HEADER_LEN_FULL + 2].copy_from_slice(&PROTOCOL_VERSION.to_le_bytes());
    finalize_crc(&mut out);
    assert_eq!(&out[0..4], MAGIC_SERVER);
    assert_eq!(u16::from_le_bytes([out[4], out[5]]), PROTOCOL_VERSION);
    assert_eq!(u16::from_le_bytes([out[6], out[7]]), (out.len() - HEADER_LEN) as u16);
    assert_eq!(u32::from_le_bytes(out[12..16].try_into().unwrap()), 0xDEAD_BEEF);
    assert_eq!(u32::from_le_bytes(out[16..20].try_into().unwrap()), MSG_VERSION);
    let claimed = u32::from_le_bytes(out[CRC_OFFSET..CRC_OFFSET + CRC_LEN].try_into().unwrap());
    assert_eq!(claimed, crc_over_zeroed(&out));
}

#[test]
fn crc_over_zeroed_ignores_crc_field() {
    let a: Vec<u8> = (0..32u8).collect();
    let mut b = a.clone();
    b[CRC_OFFSET..CRC_OFFSET + CRC_LEN].copy_from_slice(&[0xFF; CRC_LEN]);
    assert_eq!(crc_over_zeroed(&a), crc_over_zeroed(&b));
}

#[test]
fn data_body_encodes_motion_at_expected_offsets() {
    let mut body = vec![0u8; 80];
    let sample = DataSample {
        timestamp_us: 0xABCD_1234,
        accel_bits: [0.25f32.to_bits(), (-0.5f32).to_bits(), 1.0f32.to_bits()],
        gyro_bits: [10.0f32.to_bits(), (-20.0f32).to_bits(), 30.0f32.to_bits()],
    };
    write_data_body(&mut body, 0, &sample);
    assert_eq!(body[0], 1);
    assert_eq!(&body[9..13], &[127, 127, 127, 127]);
    assert_eq!(u64::from_le_bytes(body[37..45].try_into().unwrap()), 0xABCD_1234u64);
    assert_eq!(f32::from_le_bytes(body[45..49].try_into().unwrap()), 0.25);
    assert_eq!(f32::from_le_bytes(body[49..53].try_into().unwrap()), -0.5);
    assert_eq!(f32::from_le_bytes(body[53..57].try_into().unwrap()), 1.0);
    assert_eq!(f32::from_le_bytes(body[57..61].try_into().unwrap()), 10.0);
    assert_eq!(f32::from_le_bytes(body[61..65].try_into().unwrap()), -20.0);
    assert_eq!(f32::from_le_bytes(body[65..69].try_into().unwrap()), 30.0);
    // Bytes the body does not own stay untouched.
    assert!(body[1..9].iter().all(|&b| b == 0));
    assert!(body[13..37].iter().all(|&b| b == 0));
    assert!(body[69..].iter().all(|&b| b == 0));
}

#[test]
fn crc_matches_crc32_of_zeroed_message() {
    let msg: Vec<u8> = (100..140u8).collect();
    let mut zeroed = msg.clone();
    zeroed[8..12].fill(0);
    assert_eq!(crc_over_zeroed(&msg), crc32fast::hash(&zeroed));
    assert_ne!(crc_over_zeroed(&msg), crc_over_zeroed(&zeroed[..39]));
}

#[test]
fn header_length_counts_bytes_after_sixteen() {
    let mut out = vec![0xAAu8; 100];
    write_header(&mut out, 7, MSG_DATA);
    assert_eq!(u16::from_le_bytes([out[6], out[7]]), 84);
    assert_eq!(&out[8..12], &[0, 0, 0, 0]);
    assert!(out[20..].iter().all(|&b| b == 0xAA));
}

#[test]
fn controller_header_for_our_slot_and_others() {
    let mut buf = vec![0u8; 11];
    write_controller_header(&mut buf, 0, 0);
    assert_eq!(buf, vec![0, 2, 2, 1, 0x02, 0x28, 0xDE, 0x13, 0x04, 0x00, 0]);
    let mut other = vec![9u8; 11];
    write_controller_header(&mut other, 0, 3);
    assert_eq!(other, vec![3, 9, 9, 9, 9, 9, 9, 9, 9, 9, 9]);
}

#[test]
fn version_packet_layout() {
    let p = version_packet(0x0102_0304);
    assert_eq!(p.len(), 22);
    assert_eq!(&p[0..4], MAGIC_SERVER);
    assert_eq!(u16::from_le_bytes([p[6], p[7]]), 6);
    assert_eq!(u32::from_le_bytes(p[12..16].try_into().unwrap()), 0x0102_0304);
    assert_eq!(u32::from_le_bytes(p[16..20].try_into().unwrap()), MSG_VERSION);
    assert_eq!(u16::from_le_bytes([p[20], p[21]]), PROTOCOL_VERSION);
    assert_eq!(u32::from_le_bytes(p[8..12].try_into().unwrap()), crc_over_zeroed(&p));
}

#[test]
fn slot_info_packet_layout() {
    let p = slot_info_packet(5, 0);
    assert_eq!(p.len(), 32);
    assert_eq!(u32::from_le_bytes(p[16..20].try_into().unwrap()), MSG_PORTS);
    assert_eq!(&p[20..31], &[0, 2, 2, 1, 0x02, 0x28, 0xDE, 0x13, 0x04, 0x00, 0]);
    assert_eq!(p[31], 0);
    let q = slot_info_packet(5, 2);
    assert_eq!(q[20], 2);
    assert!(q[21..].iter().all(|&b| b == 0));
    assert_eq!(u32::from_le_bytes(q[8..12].try_into().unwrap()), crc_over_zeroed(&q));
}

#[test]
fn data_packet_layout() {
    let sample = DataSample { timestamp_us: 77, accel_bits: [1, 2, 3], gyro_bits: [4, 5, 6] };
    let p = data_packet(9, &sample, 0x1122_3344);
    assert_eq!(p.len(), 100);
    assert_eq!(u16::from_le_bytes([p[6], p[7]]), 84);
    assert_eq!(u32::from_le_bytes(p[16..20].try_into().unwrap()), MSG_DATA);
    assert_eq!(p[31], 1);
    assert_eq!(u32::from_le_bytes(p[32..36].try_into().unwrap()), 0x1122_3344);
    assert_eq!(u64::from_le_bytes(p[68..76].try_into().unwrap()), 77);
    for k in 0..6 {
        assert_eq!(u32::from_le_bytes(p[76 + 4 * k..80 + 4 * k].try_into().unwrap()), k as u32 + 1);
    }
    assert_eq!(u32::from_le_bytes(p[8..12].try_into().unwrap()), crc_over_zeroed(&p));
}
