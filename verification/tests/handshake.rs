use lazy_gateway::handshake::{Handshake, Phase};

fn payload(version: &[u8], addr: &[u8], port: [u8; 2], next: &[u8]) -> Vec<u8> {
    let mut out = version.to_vec();
    out.push(addr.len() as u8);
    out.extend_from_slice(addr);
    out.extend_from_slice(&port);
    out.extend_from_slice(next);
    out
}

#[test]
fn next_state_numbers_name_phases() {
    assert_eq!(Phase::from_next_state(1), Some(Phase::Status));
    assert_eq!(Phase::from_next_state(2), Some(Phase::Login));
    assert_eq!(Phase::from_next_state(3), Some(Phase::Transfer));
}

#[test]
fn other_next_state_numbers_name_no_phase() {
    for id in [0, 4, 5, 99, -1, i32::MIN, i32::MAX] {
        assert_eq!(Phase::from_next_state(id), None);
    }
}

#[test]
fn decodes_a_status_handshake() {
    let bytes = payload(&[0xf2, 0x05], b"localhost", [0x63, 0xdd], &[0x01]);
    let handshake = Handshake::decode(&bytes).unwrap();
    assert_eq!(handshake.protocol_version, 754);
    assert_eq!(handshake.server_addr, "localhost");
    assert_eq!(handshake.server_port, 25565);
    assert_eq!(handshake.next_state, 1);
}

#[test]
fn decodes_a_login_handshake_with_an_empty_address() {
    let bytes = payload(&[0x2f], b"", [0x00, 0x50], &[0x02]);
    let handshake = Handshake::decode(&bytes).unwrap();
    assert_eq!(handshake.protocol_version, 47);
    assert_eq!(handshake.server_addr, "");
    assert_eq!(handshake.server_port, 80);
    assert_eq!(handshake.next_state, 2);
}

#[test]
fn decodes_an_address_that_is_not_ascii() {
    let addr = "größe.example".as_bytes();
    let bytes = payload(&[0x04], addr, [0xff, 0xff], &[0xac, 0x02]);
    let handshake = Handshake::decode(&bytes).unwrap();
    assert_eq!(handshake.server_addr, "größe.example");
    assert_eq!(handshake.server_port, 65535);
    assert_eq!(handshake.next_state, 300);
}

#[test]
fn decodes_a_negative_protocol_version() {
    let bytes = payload(&[0xff, 0xff, 0xff, 0xff, 0x0f], b"a", [0x00, 0x01], &[0x01]);
    let handshake = Handshake::decode(&bytes).unwrap();
    assert_eq!(handshake.protocol_version, -1);
    assert_eq!(handshake.server_port, 1);
}

#[test]
fn handshake_ignores_trailing_bytes() {
    let mut bytes = payload(&[0x2f], b"host", [0x63, 0xdd], &[0x01]);
    bytes.extend_from_slice(&[0xde, 0xad]);
    let handshake = Handshake::decode(&bytes).unwrap();
    assert_eq!(handshake.server_addr, "host");
    assert_eq!(handshake.next_state, 1);
}

#[test]
fn accepts_an_address_of_255_bytes() {
    let addr = vec![b'a'; 255];
    let mut bytes = vec![0x2f, 0xff, 0x01];
    bytes.extend_from_slice(&addr);
    bytes.extend_from_slice(&[0x63, 0xdd, 0x02]);
    let handshake = Handshake::decode(&bytes).unwrap();
    assert_eq!(handshake.server_addr.len(), 255);
    assert_eq!(handshake.next_state, 2);
}

#[test]
fn refuses_an_address_of_256_bytes() {
    let addr = vec![b'a'; 256];
    let mut bytes = vec![0x2f, 0x80, 0x02];
    bytes.extend_from_slice(&addr);
    bytes.extend_from_slice(&[0x63, 0xdd, 0x02]);
    assert!(Handshake::decode(&bytes).is_none());
}

#[test]
fn refuses_a_negative_address_length() {
    let bytes = [0x2f, 0xff, 0xff, 0xff, 0xff, 0x0f, 0x63, 0xdd, 0x01];
    assert!(Handshake::decode(&bytes).is_none());
}

#[test]
fn refuses_an_address_that_is_not_utf8() {
    let bytes = payload(&[0x2f], &[0xff, 0xfe], [0x63, 0xdd], &[0x01]);
    assert!(Handshake::decode(&bytes).is_none());
    let cut = payload(&[0x2f], &[0xc3], [0x63, 0xdd], &[0x01]);
    assert!(Handshake::decode(&cut).is_none());
}

#[test]
fn refuses_a_cut_handshake() {
    let whole = payload(&[0xf2, 0x05], b"localhost", [0x63, 0xdd], &[0x01]);
    for len in 0..whole.len() {
        assert!(Handshake::decode(&whole[..len]).is_none(), "prefix of {} bytes", len);
    }
    assert!(Handshake::decode(&whole).is_some());
}

#[test]
fn refuses_numbers_that_do_not_end() {
    let version = payload(&[0x80, 0x80, 0x80, 0x80, 0x80], b"a", [0, 1], &[0x01]);
    assert!(Handshake::decode(&version).is_none());
    let next = payload(&[0x2f], b"a", [0, 1], &[0x80, 0x80, 0x80, 0x80, 0x80, 0x01]);
    assert!(Handshake::decode(&next).is_none());
}
