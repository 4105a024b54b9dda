use lazy_gateway::config::{Config, LockoutConfig, MotdConfig, PublicConfig};
use lazy_gateway::connection::{Admission, ClientInfo, Connection, Step, StreamEnd};
use lazy_gateway::gate::BanEntry;
use lazy_gateway::handshake::Phase;
use lazy_gateway::packet::RawPacket;

fn config(lockout: bool) -> Config {
    Config {
        public: PublicConfig { version: String::from("1.20.3"), protocol: 765 },
        motd: MotdConfig {
            sleeping: String::from("Server is sleeping"),
            starting: String::from("Server is starting"),
            stopping: String::from("Server is going down"),
            from_server: false,
        },
        lockout: LockoutConfig { enabled: lockout, message: String::from("Locked out") },
    }
}

fn frame(id: i32, data: &[u8]) -> Vec<u8> {
    RawPacket::new(id, data.to_vec()).encode().unwrap()
}

fn handshake(next_state: u8) -> Vec<u8> {
    let mut data = vec![0xf2, 0x05, 9];
    data.extend_from_slice(b"localhost");
    data.extend_from_slice(&[0x63, 0xdd, next_state]);
    frame(0, &data)
}

fn login_start(name: &str) -> Vec<u8> {
    let mut data = vec![name.len() as u8];
    data.extend_from_slice(name.as_bytes());
    frame(0, &data)
}

fn fed(bytes: &[u8]) -> Connection {
    let mut conn = Connection::new();
    conn.feed(bytes);
    conn
}

fn open(step: Step) -> Connection {
    match step {
        Step::Continue(conn) => conn,
        other => panic!("the connection did not go on: {:?}", other),
    }
}

fn in_phase(next_state: u8) -> Connection {
    open(fed(&handshake(next_state)).poll(&config(false)))
}

#[test]
fn client_info_starts_empty() {
    let info = ClientInfo::empty();
    assert_eq!(info.protocol_version, None);
    assert_eq!(info.username, None);
}

#[test]
fn new_connection_awaits_a_handshake() {
    let conn = Connection::new();
    assert_eq!(conn.phase(), Phase::Handshake);
    assert_eq!(conn.info().protocol_version, None);
    assert_eq!(conn.info().username, None);
    assert!(conn.buffered().is_empty());
    assert!(conn.history().is_empty());
    assert_eq!(conn.retained(), 0);
    assert_eq!(conn.end_of_stream(), StreamEnd::Clean);
}

#[test]
fn feed_appends_to_what_is_buffered() {
    let mut conn = Connection::new();
    conn.feed(&[1, 2]);
    conn.feed(&[]);
    conn.feed(&[3]);
    assert_eq!(conn.buffered(), &[1, 2, 3]);
    assert!(conn.history().is_empty());
    assert_eq!(conn.retained(), 3);
    assert_eq!(conn.phase(), Phase::Handshake);
    assert_eq!(conn.end_of_stream(), StreamEnd::Truncated);
}

#[test]
fn poll_without_a_whole_frame_needs_data() {
    match Connection::new().poll(&config(false)) {
        Step::NeedData(conn) => assert!(conn.buffered().is_empty()),
        other => panic!("{:?}", other),
    }
    let bytes = handshake(1);
    match fed(&bytes[..bytes.len() - 1]).poll(&config(false)) {
        Step::NeedData(conn) => {
            assert_eq!(conn.buffered(), &bytes[..bytes.len() - 1]);
            assert_eq!(conn.phase(), Phase::Handshake);
        }
        other => panic!("{:?}", other),
    }
}

#[test]
fn poll_on_bytes_that_begin_no_frame_closes() {
    assert!(matches!(fed(&[0x00, 0x01]).poll(&config(false)), Step::Close));
    assert!(matches!(
        fed(&[0xff, 0xff, 0xff, 0xff, 0xff]).poll(&config(false)),
        Step::Close
    ));
}

#[test]
fn status_handshake_enters_status_and_keeps_the_ledger_empty() {
    let conn = in_phase(1);
    assert_eq!(conn.phase(), Phase::Status);
    assert_eq!(conn.info().protocol_version, Some(754));
    assert_eq!(conn.info().username, None);
    assert!(conn.history().is_empty());
    assert!(conn.buffered().is_empty());
}

#[test]
fn login_handshake_enters_login_and_opens_the_ledger() {
    let conn = in_phase(2);
    assert_eq!(conn.phase(), Phase::Login);
    assert_eq!(conn.info().protocol_version, Some(754));
    assert_eq!(conn.history(), &handshake(2)[..]);
    assert!(conn.buffered().is_empty());
}

#[test]
fn transfer_handshake_enters_transfer_and_keeps_the_ledger_empty() {
    let conn = in_phase(3);
    assert_eq!(conn.phase(), Phase::Transfer);
    assert!(conn.history().is_empty());
}

#[test]
fn handshake_with_an_unknown_next_state_closes() {
    for next_state in [0u8, 4, 5, 0x7f] {
        assert!(matches!(fed(&handshake(next_state)).poll(&config(false)), Step::Close));
    }
}

#[test]
fn handshake_that_cannot_be_decoded_closes() {
    assert!(matches!(fed(&frame(0, &[])).poll(&config(false)), Step::Close));
    assert!(matches!(
        fed(&frame(0, &[0x2f, 0x02, 0xff, 0xfe, 0x00, 0x01, 0x01])).poll(&config(false)),
        Step::Close
    ));
}

#[test]
fn other_messages_during_the_handshake_are_ignored() {
    let mut bytes = frame(1, &[1, 2, 3]);
    bytes.extend_from_slice(&handshake(1));
    let conn = open(fed(&bytes).poll(&config(false)));
    assert_eq!(conn.phase(), Phase::Handshake);
    assert_eq!(conn.info().protocol_version, None);
    assert_eq!(conn.buffered(), &handshake(1)[..]);
    let conn = open(conn.poll(&config(false)));
    assert_eq!(conn.phase(), Phase::Status);
}

#[test]
fn status_request_asks_for_the_status_and_changes_nothing() {
    let mut conn = in_phase(1);
    conn.feed(&frame(0, &[]));
    match conn.poll(&config(false)) {
        Step::SendStatus(conn) => {
            assert_eq!(conn.phase(), Phase::Status);
            assert_eq!(conn.info().protocol_version, Some(754));
            assert!(conn.history().is_empty());
            assert!(conn.buffered().is_empty());
        }
        other => panic!("{:?}", other),
    }
}

#[test]
fn ping_is_echoed_byte_for_byte_and_changes_nothing() {
    let ping = frame(1, &[0, 0, 1, 0x6f, 0x5c, 0x8b, 0x13, 0x2a]);
    let mut conn = in_phase(1);
    conn.feed(&ping);
    match conn.poll(&config(false)) {
        Step::Echo(conn, bytes) => {
            assert_eq!(bytes, ping);
            assert_eq!(conn.phase(), Phase::Status);
            assert!(conn.history().is_empty());
            assert!(conn.buffered().is_empty());
        }
        other => panic!("{:?}", other),
    }
}

#[test]
fn ping_in_a_longer_form_is_echoed_as_it_came() {
    let ping = vec![0x03, 0x81, 0x00, 0x2a];
    let mut conn = in_phase(1);
    conn.feed(&ping);
    match conn.poll(&config(false)) {
        Step::Echo(_, bytes) => assert_eq!(bytes, ping),
        other => panic!("{:?}", other),
    }
}

#[test]
fn status_then_ping_on_one_connection() {
    let mut bytes = handshake(1);
    bytes.extend_from_slice(&frame(0, &[]));
    bytes.extend_from_slice(&frame(1, &[9; 8]));
    let config = config(false);
    let conn = open(fed(&bytes).poll(&config));
    let conn = match conn.poll(&config) {
        Step::SendStatus(conn) => conn,
        other => panic!("{:?}", other),
    };
    let conn = match conn.poll(&config) {
        Step::Echo(conn, echoed) => {
            assert_eq!(echoed, frame(1, &[9; 8]));
            conn
        }
        other => panic!("{:?}", other),
    };
    assert!(conn.history().is_empty());
    assert!(matches!(conn.poll(&config), Step::NeedData(_)));
}

#[test]
fn status_messages_with_the_lockout_on_are_answered_all_the_same() {
    let mut bytes = handshake(1);
    bytes.extend_from_slice(&frame(0, &[]));
    let config = config(true);
    let conn = open(fed(&bytes).poll(&config));
    assert!(matches!(conn.poll(&config), Step::SendStatus(_)));
}

#[test]
fn unknown_messages_are_ignored_in_every_phase() {
    for (next_state, phase) in [(1u8, Phase::Status), (2, Phase::Login), (3, Phase::Transfer)] {
        let mut conn = in_phase(next_state);
        let history = conn.history().to_vec();
        conn.feed(&frame(0x42, &[1, 2, 3]));
        let conn = open(conn.poll(&config(false)));
        assert_eq!(conn.phase(), phase);
        assert_eq!(conn.history(), &history[..]);
        assert!(conn.buffered().is_empty());
    }
}

#[test]
fn login_start_outside_the_login_is_ignored() {
    let mut conn = in_phase(3);
    conn.feed(&login_start("Steve"));
    let conn = open(conn.poll(&config(false)));
    assert_eq!(conn.phase(), Phase::Transfer);
    assert_eq!(conn.info().username, None);
    assert!(conn.history().is_empty());
}

#[test]
fn handshake_after_the_handshake_does_not_change_the_phase() {
    let mut conn = in_phase(2);
    conn.feed(&frame(5, &[]));
    conn.feed(&handshake(1)[..]);
    let conn = open(conn.poll(&config(false)));
    assert_eq!(conn.phase(), Phase::Login);
    match conn.poll(&config(false)) {
        Step::LookupBan(attempt) => assert_eq!(attempt.info().username, None),
        other => panic!("{:?}", other),
    }
}

#[test]
fn phase_never_goes_back() {
    let config = config(false);
    for next_state in [1u8, 3] {
        let mut conn = in_phase(next_state);
        let phase = conn.phase();
        for id in [0x02, 0x05, 0x10, 0x7f] {
            conn.feed(&frame(id, &handshake(2)));
            conn = open(conn.poll(&config));
            assert_eq!(conn.phase(), phase);
        }
    }
}

#[test]
fn lockout_kicks_with_its_message() {
    let mut conn = in_phase(2);
    conn.feed(&login_start("Steve"));
    match conn.poll(&config(true)) {
        Step::Kick(reason) => assert_eq!(reason, "Locked out"),
        other => panic!("{:?}", other),
    }
}

#[test]
fn lockout_kicks_even_without_a_readable_name() {
    let mut conn = in_phase(2);
    conn.feed(&frame(0, &[0x05, b'a']));
    match conn.poll(&config(true)) {
        Step::Kick(reason) => assert_eq!(reason, "Locked out"),
        other => panic!("{:?}", other),
    }
}

#[test]
fn login_start_without_lockout_asks_the_ban_list() {
    let mut conn = in_phase(2);
    conn.feed(&login_start("Steve"));
    match conn.poll(&config(false)) {
        Step::LookupBan(attempt) => {
            assert_eq!(attempt.info().username.as_deref(), Some("Steve"));
            assert_eq!(attempt.info().protocol_version, Some(754));
        }
        other => panic!("{:?}", other),
    }
}

#[test]
fn active_ban_kicks_with_its_reason() {
    let mut conn = in_phase(2);
    conn.feed(&login_start("Steve"));
    let attempt = match conn.poll(&config(false)) {
        Step::LookupBan(attempt) => attempt,
        other => panic!("{:?}", other),
    };
    let ban = BanEntry { reason: String::from("Banned for griefing"), active: true };
    match attempt.conclude(Some(&ban)) {
        Admission::Kicked(reason) => assert_eq!(reason, "Banned for griefing"),
        other => panic!("{:?}", other),
    }
}

#[test]
fn login_hands_over_the_frame_and_what_was_buffered_behind_it() {
    let login = login_start("Steve");
    let behind = [0x07u8, 0x01, 0xaa, 0xbb, 0xcc];
    let mut conn = in_phase(2);
    conn.feed(&login);
    conn.feed(&behind);
    let attempt = match conn.poll(&config(false)) {
        Step::LookupBan(attempt) => attempt,
        other => panic!("{:?}", other),
    };
    match attempt.conclude(None) {
        Admission::Accepted(handoff) => {
            let mut from_login = login.clone();
            from_login.extend_from_slice(&behind);
            assert_eq!(&handoff.login_queue[..], &from_login[..]);
            let mut all = handshake(2);
            all.extend_from_slice(&from_login);
            assert_eq!(&handoff.inbound_history[..], &all[..]);
            assert_eq!(handoff.info.username.as_deref(), Some("Steve"));
            assert_eq!(handoff.info.protocol_version, Some(754));
        }
        other => panic!("{:?}", other),
    }
}

#[test]
fn login_with_nothing_behind_it_hands_over_the_frame_alone() {
    let login = login_start("Alex");
    let mut conn = in_phase(2);
    conn.feed(&login);
    let attempt = match conn.poll(&config(false)) {
        Step::LookupBan(attempt) => attempt,
        other => panic!("{:?}", other),
    };
    let lapsed = BanEntry { reason: String::from("old"), active: false };
    match attempt.conclude(Some(&lapsed)) {
        Admission::Accepted(handoff) => {
            assert_eq!(&handoff.login_queue[..], &login[..]);
            let mut all = handshake(2);
            all.extend_from_slice(&login);
            assert_eq!(&handoff.inbound_history[..], &all[..]);
        }
        other => panic!("{:?}", other),
    }
}

#[test]
fn ignored_messages_before_the_login_start_are_not_in_the_ledger() {
    let login = login_start("Steve");
    let mut conn = in_phase(2);
    conn.feed(&frame(0x33, &[1, 2, 3]));
    conn.feed(&login);
    let conn = open(conn.poll(&config(false)));
    let attempt = match conn.poll(&config(false)) {
        Step::LookupBan(attempt) => attempt,
        other => panic!("{:?}", other),
    };
    match attempt.conclude(None) {
        Admission::Accepted(handoff) => {
            assert_eq!(&handoff.login_queue[..], &login[..]);
            let mut all = handshake(2);
            all.extend_from_slice(&login);
            assert_eq!(&handoff.inbound_history[..], &all[..]);
        }
        other => panic!("{:?}", other),
    }
}

#[test]
fn login_with_an_unreadable_name_goes_on_without_one() {
    let login = frame(0, &[0x02, 0xff, 0xfe]);
    let mut conn = in_phase(2);
    conn.feed(&login);
    let attempt = match conn.poll(&config(false)) {
        Step::LookupBan(attempt) => attempt,
        other => panic!("{:?}", other),
    };
    assert_eq!(attempt.info().username, None);
    match attempt.conclude(None) {
        Admission::Accepted(handoff) => {
            assert_eq!(handoff.info.username, None);
            assert_eq!(&handoff.login_queue[..], &login[..]);
        }
        other => panic!("{:?}", other),
    }
}

#[test]
fn login_fed_one_byte_at_a_time_hands_over_the_same_bytes() {
    let mut stream = handshake(2);
    stream.extend_from_slice(&login_start("Steve"));
    let config = config(false);
    let mut conn = Connection::new();
    let mut fed = 0;
    let attempt = loop {
        match conn.poll(&config) {
            Step::NeedData(mut next) => {
                next.feed(&stream[fed..fed + 1]);
                fed += 1;
                conn = next;
            }
            Step::Continue(next) => conn = next,
            Step::LookupBan(attempt) => break attempt,
            other => panic!("{:?}", other),
        }
    };
    assert_eq!(fed, stream.len());
    match attempt.conclude(None) {
        Admission::Accepted(handoff) => {
            assert_eq!(&handoff.inbound_history[..], &stream[..]);
            assert_eq!(&handoff.login_queue[..], &login_start("Steve")[..]);
        }
        other => panic!("{:?}", other),
    }
}

#[test]
fn handle_answers_a_message_given_by_hand() {
    let raw = handshake(2);
    let packet = RawPacket::decode(&raw).unwrap();
    let conn = open(Connection::new().handle(packet, raw.clone(), &config(false)));
    assert_eq!(conn.phase(), Phase::Login);
    assert_eq!(conn.history(), &raw[..]);

    let ping = RawPacket::new(1, vec![1, 2, 3]);
    match in_phase(1).handle(ping, vec![0xde, 0xad], &config(false)) {
        Step::Echo(_, bytes) => assert_eq!(bytes, vec![0xde, 0xad]),
        other => panic!("{:?}", other),
    }
}

#[test]
fn stream_end_is_clean_only_between_frames() {
    let mut conn = in_phase(1);
    assert_eq!(conn.end_of_stream(), StreamEnd::Clean);
    conn.feed(&[0x05]);
    assert_eq!(conn.end_of_stream(), StreamEnd::Truncated);
}
