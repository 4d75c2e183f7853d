use sc2dsu::dsu::{crc_over_zeroed, data_packet, slot_info_packet, version_packet, DataSample, MSG_DATA, MSG_PORTS, MSG_VERSION};
use sc2dsu::dsu::{decode_request, parse_request, Request};
use sc2dsu::server::ServerState;

type Addr = (u8, u16);

fn request(client_id: u32, mtype: u32, body: &[u8]) -> Vec<u8> {
    let mut m = Vec::new();
    m.extend_from_slice(b"DSUC");
    m.extend_from_slice(&1001u16.to_le_bytes());
    m.extend_from_slice(&((4 + body.len()) as u16).to_le_bytes());
    m.extend_from_slice(&[0, 0, 0, 0]);
    m.extend_from_slice(&client_id.to_le_bytes());
    m.extend_from_slice(&mtype.to_le_bytes());
    m.extend_from_slice(body);
    let crc = crc_over_zeroed(&m);
    m[8..12].copy_from_slice(&crc.to_le_bytes());
    m
}

fn data_request(client_id: u32, reg_type: u8, slot: u8, mac: [u8; 6]) -> Vec<u8> {
    let mut body = vec![reg_type, slot];
    body.extend_from_slice(&mac);
    request(client_id, MSG_DATA, &body)
}

#[test]
fn version_request_is_answered() {
    let mut s: ServerState<Addr> = ServerState::new(0xAB);
    let r = s.handle_request(&request(1, MSG_VERSION, &[]), (1, 1), 0).unwrap();
    assert_eq!(r.replies, vec![version_packet(0xAB)]);
    assert!(!r.wake_device);
    assert_eq!(s.subscribers.len(), 0);
}

#[test]
fn ports_request_lists_at_most_four_slots() {
    let mut s: ServerState<Addr> = ServerState::new(3);
    let mut body = 9u32.to_le_bytes().to_vec();
    body.extend_from_slice(&[0, 1, 2, 3, 4, 5]);
    let r = s.handle_request(&request(1, MSG_PORTS, &body), (1, 1), 0).unwrap();
    assert_eq!(r.replies.len(), 4);
    for (i, p) in r.replies.iter().enumerate() {
        assert_eq!(*p, slot_info_packet(3, i as u8));
    }
    let mut short = 2u32.to_le_bytes().to_vec();
    short.push(0);
    assert!(s.handle_request(&request(1, MSG_PORTS, &short), (1, 1), 0).is_err());
}

#[test]
fn bad_checksum_magic_or_version_is_ignored() {
    let mut s: ServerState<Addr> = ServerState::new(3);
    let mut m = request(1, MSG_VERSION, &[]);
    m[8] ^= 1;
    assert!(s.handle_request(&m, (1, 1), 0).unwrap().replies.is_empty());
    let mut m = request(1, MSG_VERSION, &[]);
    m[3] = b'S';
    assert!(s.handle_request(&m, (1, 1), 0).unwrap().replies.is_empty());
    let mut m = request(1, MSG_VERSION, &[]);
    m[4] = 0xEA;
    assert!(s.handle_request(&m, (1, 1), 0).unwrap().replies.is_empty());
    assert!(s.handle_request(&m[..19], (1, 1), 0).unwrap().replies.is_empty());
}

#[test]
fn data_request_subscribes_and_wakes_once() {
    let mut s: ServerState<Addr> = ServerState::new(3);
    let r = s.handle_request(&data_request(7, 0, 0, [0; 6]), (1, 1), 100).unwrap();
    assert!(r.wake_device);
    assert!(r.replies.is_empty());
    let r = s.handle_request(&data_request(8, 1, 0, [0; 6]), (1, 2), 100).unwrap();
    assert!(!r.wake_device);
    let r = s.handle_request(&data_request(7, 0, 0, [0; 6]), (1, 3), 200).unwrap();
    assert!(!r.wake_device);
    assert_eq!(s.subscribers.len(), 2);
    let sub = s.subscribers.find(7).unwrap();
    assert_eq!(sub.addr, (1, 3));
    assert_eq!(sub.last_request_us, 200);
}

#[test]
fn data_request_for_other_controller_is_ignored() {
    let mut s: ServerState<Addr> = ServerState::new(3);
    s.handle_request(&data_request(7, 1, 2, [0; 6]), (1, 1), 0).unwrap();
    s.handle_request(&data_request(7, 2, 0, [1, 2, 3, 4, 5, 6]), (1, 1), 0).unwrap();
    assert_eq!(s.subscribers.len(), 0);
    let r = s.handle_request(&data_request(7, 2, 9, [0x02, 0x28, 0xDE, 0x13, 0x04, 0x00]), (1, 1), 0).unwrap();
    assert!(r.wake_device);
    assert_eq!(s.subscribers.len(), 1);
}

#[test]
fn table_holds_at_most_sixteen() {
    let mut s: ServerState<Addr> = ServerState::new(3);
    for id in 0..20u32 {
        s.handle_request(&data_request(id, 0, 0, [0; 6]), (0, id as u16), 0).unwrap();
    }
    assert_eq!(s.subscribers.len(), 16);
    assert!(s.subscribers.find(17).is_none());
    s.handle_request(&data_request(3, 0, 0, [0; 6]), (9, 9), 5).unwrap();
    assert_eq!(s.subscribers.len(), 16);
    assert_eq!(s.subscribers.find(3).unwrap().addr, (9, 9));
}

#[test]
fn cleanup_drops_after_timeout_and_releases() {
    let mut s: ServerState<Addr> = ServerState::new(3);
    s.handle_request(&data_request(1, 0, 0, [0; 6]), (0, 1), 1_000_000).unwrap();
    s.handle_request(&data_request(2, 0, 0, [0; 6]), (0, 2), 3_000_000).unwrap();
    assert!(!s.cleanup_subscribers(5_999_999));
    assert_eq!(s.subscribers.len(), 2);
    assert!(!s.cleanup_subscribers(6_000_000));
    assert_eq!(s.subscribers.len(), 1);
    assert!(s.subscribers.find(1).is_none());
    assert!(s.cleanup_subscribers(8_000_000));
    assert!(s.subscribers.is_empty());
    assert!(!s.cleanup_subscribers(9_000_000));
}

#[test]
fn broadcast_numbers_packets_per_subscriber() {
    let mut s: ServerState<Addr> = ServerState::new(3);
    let sample = DataSample { timestamp_us: 1, accel_bits: [0; 3], gyro_bits: [0; 3] };
    assert!(s.broadcast_data_packet(&sample).is_empty());
    s.handle_request(&data_request(1, 0, 0, [0; 6]), (0, 1), 0).unwrap();
    let out = s.broadcast_data_packet(&sample);
    assert_eq!(out, vec![((0, 1), data_packet(3, &sample, 1))]);
    s.handle_request(&data_request(2, 0, 0, [0; 6]), (0, 2), 0).unwrap();
    let out = s.broadcast_data_packet(&sample);
    assert_eq!(out, vec![((0, 1), data_packet(3, &sample, 2)), ((0, 2), data_packet(3, &sample, 1))]);
}

#[test]
fn decode_request_takes_the_checksum_as_given() {
    let mut m = request(9, MSG_VERSION, &[]);
    let crc = u32::from_le_bytes(m[8..12].try_into().unwrap());
    assert!(matches!(decode_request(&m, crc), Ok(Request::Version { client_id: 9 })));
    assert!(matches!(decode_request(&m, crc ^ 1), Ok(Request::Ignore)));
    assert!(matches!(parse_request(&m), Ok(Request::Version { client_id: 9 })));
    // Bytes past the claimed length do not enter the checksum.
    m.extend_from_slice(&[1, 2, 3]);
    assert!(matches!(parse_request(&m), Ok(Request::Version { client_id: 9 })));
}

#[test]
fn data_request_cut_short_is_an_error() {
    let mut s: ServerState<Addr> = ServerState::new(3);
    let m = request(5, MSG_DATA, &[0, 0, 0]);
    assert!(s.handle_request(&m, (0, 0), 0).is_err());
    assert_eq!(s.subscribers.len(), 0);
}
