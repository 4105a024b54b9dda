//! One client connection from its first byte to the moment it is closed,
//! turned away or handed over: the frames it sends are taken off the inbound
//! buffer one by one, and each is answered by the next thing to do.

use crate::buffer::{as_slice, contents};
use crate::config::{Config, LockoutConfig};
use crate::gate::{ban_verdict, check_ban, check_lockout, lockout_verdict};
use crate::gate::{BanEntry, Verdict, VerdictView};
use crate::handshake::{handshake_in, phase_for, Handshake, Phase, SERVER_HANDSHAKE};
use crate::login::{claimed_name, decode_login_start, SERVER_LOGIN_START};
use crate::packet::{frame_at_front, lemma_frame_extent, read_packet, Frame};
use crate::packet::{RawPacket, ReadOutcome};
use crate::status::{SERVER_PING, SERVER_STATUS};
use vstd::prelude::*;

verus! {

/// What a client has told of itself so far.
#[derive(Debug)]
pub struct ClientInfo {
    /// The protocol version, known from the handshake on.
    pub protocol_version: Option<i32>,
    /// The name claimed, known from the login start on.
    pub username: Option<String>,
}

pub struct ClientInfoView {
    pub protocol_version: Option<i32>,
    pub username: Option<Seq<char>>,
}

impl View for ClientInfo {
    type V = ClientInfoView;

    open spec fn view(&self) -> ClientInfoView {
        ClientInfoView {
            protocol_version: self.protocol_version,
            username: match self.username {
                Some(name) => Some(name@),
                None => None,
            },
        }
    }
}

impl ClientInfo {
    /// Nothing known yet.
    pub fn empty() -> (r: ClientInfo)
        ensures
            r@ == (ClientInfoView { protocol_version: None, username: None }),
    {
        ClientInfo { protocol_version: None, username: None }
    }
}

/// A connection as the contracts see it.
pub struct ConnectionView {
    pub phase: Phase,
    pub info: ClientInfoView,
    /// The bytes read from the client and not yet taken as frames.
    pub buffered: Seq<u8>,
    /// The ledger: the bytes of the frames that the server will have to see.
    pub history: Seq<u8>,
}

/// A login that has passed the lockout and waits for the ban list.
pub struct LoginAttemptView {
    pub connection: ConnectionView,
    /// The bytes of the frame that started the login.
    pub raw: Seq<u8>,
}

/// The next thing to do, as the contracts see it.
pub enum StepView {
    NeedData(ConnectionView),
    Continue(ConnectionView),
    Close,
    SendStatus(ConnectionView),
    Echo(ConnectionView, Seq<u8>),
    Kick(Seq<char>),
    LookupBan(LoginAttemptView),
}

/// What a handshake with the payload `data` and the frame `raw` leads to.
///
/// A payload that is no handshake, or one that asks for no known phase, ends
/// the connection. Otherwise the protocol version is noted and the phase
/// asked for is entered; where that is the login, the frame opens the ledger.
pub open spec fn after_handshake(conn: ConnectionView, data: Seq<u8>, raw: Seq<u8>) -> StepView {
    match handshake_in(data) {
        None => StepView::Close,
        Some(handshake) => match phase_for(handshake.next_state) {
            None => StepView::Close,
            Some(next) => StepView::Continue(
                ConnectionView {
                    phase: next,
                    info: ClientInfoView {
                        protocol_version: Some(handshake.protocol_version),
                        username: conn.info.username,
                    },
                    buffered: conn.buffered,
                    history: if next == Phase::Login {
                        conn.history + raw
                    } else {
                        conn.history
                    },
                },
            ),
        },
    }
}

/// What a login start with the payload `data` and the frame `raw` leads to:
/// with the lockout on the client is turned away, else the ban list is to be
/// asked. The name claimed is noted, or that none could be read.
pub open spec fn after_login_start(
    conn: ConnectionView,
    data: Seq<u8>,
    raw: Seq<u8>,
    lockout: &LockoutConfig,
) -> StepView {
    match lockout_verdict(lockout) {
        VerdictView::Kick(reason) => StepView::Kick(reason),
        VerdictView::Proceed => StepView::LookupBan(
            LoginAttemptView {
                connection: ConnectionView {
                    phase: conn.phase,
                    info: ClientInfoView {
                        protocol_version: conn.info.protocol_version,
                        username: claimed_name(data),
                    },
                    buffered: conn.buffered,
                    history: conn.history,
                },
                raw,
            },
        ),
    }
}

/// What the message with the identifier `id`, the payload `data` and the frame
/// `raw` leads to on the connection `conn`.
pub open spec fn after_packet(
    conn: ConnectionView,
    id: i32,
    data: Seq<u8>,
    raw: Seq<u8>,
    lockout: &LockoutConfig,
) -> StepView {
    if conn.phase == Phase::Handshake && id == SERVER_HANDSHAKE {
        after_handshake(conn, data, raw)
    } else if conn.phase == Phase::Status && id == SERVER_STATUS {
        StepView::SendStatus(conn)
    } else if conn.phase == Phase::Status && id == SERVER_PING {
        StepView::Echo(conn, raw)
    } else if conn.phase == Phase::Login && id == SERVER_LOGIN_START {
        after_login_start(conn, data, raw, lockout)
    } else {
        StepView::Continue(conn)
    }
}

/// What a look at the inbound buffer leads to: without a whole frame more
/// bytes are needed, bytes that begin no frame end the connection, and a
/// frame is taken off the buffer and answered.
pub open spec fn after_poll(conn: ConnectionView, lockout: &LockoutConfig) -> StepView {
    match frame_at_front(conn.buffered) {
        Frame::Incomplete => StepView::NeedData(conn),
        Frame::Malformed => StepView::Close,
        Frame::Ready { id, data, len } => after_packet(
            ConnectionView {
                phase: conn.phase,
                info: conn.info,
                buffered: conn.buffered.skip(len as int),
                history: conn.history,
            },
            id,
            data,
            conn.buffered.take(len as int),
            lockout,
        ),
    }
}

/// How the client's stream ended.
#[derive(Clone, Copy, Debug, PartialEq, Eq, Structural)]
pub enum StreamEnd {
    /// Between two frames.
    Clean,
    /// In the middle of a frame.
    Truncated,
}

/// One client connection: where it stands, what is known of the client, the
/// bytes read and not yet taken as frames, and the ledger.
#[derive(Debug)]
pub struct Connection {
    phase: Phase,
    info: ClientInfo,
    buf: bytes::BytesMut,
    inbound_history: bytes::BytesMut,
}

/// A login that has passed the lockout and waits for the ban list: the
/// connection, and the frame that started the login.
#[derive(Debug)]
pub struct LoginAttempt {
    connection: Connection,
    raw: Vec<u8>,
}

/// The next thing to do for a connection.
///
/// Each step that leaves the connection open hands it back; the others have
/// used it up.
#[derive(Debug)]
pub enum Step {
    /// No whole frame is buffered: read from the client, feed the connection
    /// what was read, and look again.
    NeedData(Connection),
    /// Nothing to do but to look again.
    Continue(Connection),
    /// Close the connection without another word.
    Close,
    /// Answer with the status, then look again.
    SendStatus(Connection),
    /// Send these bytes back as they are, then look again.
    Echo(Connection, Vec<u8>),
    /// Turn the client away with this reason, then close.
    Kick(String),
    /// Ask the ban list about the client's address, then let the client in or
    /// not.
    LookupBan(LoginAttempt),
}

/// What is handed over with a login that was let through.
#[derive(Debug)]
pub struct Handoff {
    pub info: ClientInfo,
    /// Every byte of the ledger: from the handshake on.
    pub inbound_history: bytes::BytesMut,
    /// The bytes from the login start on: what the server is sent first.
    pub login_queue: bytes::BytesMut,
}

pub struct HandoffView {
    pub info: ClientInfoView,
    pub inbound_history: Seq<u8>,
    pub login_queue: Seq<u8>,
}

impl View for Handoff {
    type V = HandoffView;

    open spec fn view(&self) -> HandoffView {
        HandoffView {
            info: self.info@,
            inbound_history: contents(self.inbound_history),
            login_queue: contents(self.login_queue),
        }
    }
}

/// How a login that passed the lockout ended.
#[derive(Debug)]
pub enum Admission {
    /// Turn the client away with this reason, then close.
    Kicked(String),
    /// Start the server and hand the connection over.
    Accepted(Handoff),
}

pub enum AdmissionView {
    Kicked(Seq<char>),
    Accepted(HandoffView),
}

impl View for Admission {
    type V = AdmissionView;

    open spec fn view(&self) -> AdmissionView {
        match self {
            Admission::Kicked(reason) => AdmissionView::Kicked(reason@),
            Admission::Accepted(handoff) => AdmissionView::Accepted(handoff@),
        }
    }
}

/// How a login ends that waits for the ban list, given what the list holds
/// for the client's address.
///
/// Under an active ban the client is turned away with the ban's reason. Else
/// the client is let in: the frame that started the login and the bytes buffered
/// behind it, in this order, make the bytes from the login on, and are
/// appended to the ledger.
pub open spec fn after_ban_lookup(attempt: LoginAttemptView, ban: Option<&BanEntry>) -> AdmissionView {
    match ban_verdict(ban) {
        VerdictView::Kick(reason) => AdmissionView::Kicked(reason),
        VerdictView::Proceed => AdmissionView::Accepted(
            HandoffView {
                info: attempt.connection.info,
                inbound_history: attempt.connection.history + attempt.raw
                    + attempt.connection.buffered,
                login_queue: attempt.raw + attempt.connection.buffered,
            },
        ),
    }
}

impl View for Connection {
    type V = ConnectionView;

    closed spec fn view(&self) -> ConnectionView {
        ConnectionView {
            phase: self.phase,
            info: self.info@,
            buffered: contents(self.buf),
            history: contents(self.inbound_history),
        }
    }
}

impl View for LoginAttempt {
    type V = LoginAttemptView;

    closed spec fn view(&self) -> LoginAttemptView {
        LoginAttemptView { connection: self.connection@, raw: self.raw@ }
    }
}

impl View for Step {
    type V = StepView;

    open spec fn view(&self) -> StepView {
        match self {
            Step::NeedData(conn) => StepView::NeedData(conn@),
            Step::Continue(conn) => StepView::Continue(conn@),
            Step::Close => StepView::Close,
            Step::SendStatus(conn) => StepView::SendStatus(conn@),
            Step::Echo(conn, bytes) => StepView::Echo(conn@, bytes@),
            Step::Kick(reason) => StepView::Kick(reason@),
            Step::LookupBan(attempt) => StepView::LookupBan(attempt@),
        }
    }
}

impl ConnectionView {
    /// The number of bytes that the connection holds.
    pub open spec fn retained(self) -> nat {
        self.buffered.len() + self.history.len()
    }
}

impl Connection {
    /// A connection holds no more bytes than a buffer can.
    #[verifier::type_invariant]
    spec fn within_limits(self) -> bool {
        contents(self.buf).len() + contents(self.inbound_history).len() <= isize::MAX
    }

    /// A connection on which nothing was said yet.
    pub fn new() -> (r: Connection)
        ensures
            r@ == (ConnectionView {
                phase: Phase::Handshake,
                info: ClientInfoView { protocol_version: None, username: None },
                buffered: Seq::empty(),
                history: Seq::empty(),
            }),
    {
        Connection {
            phase: Phase::Handshake,
            info: ClientInfo::empty(),
            buf: bytes::BytesMut::new(),
            inbound_history: bytes::BytesMut::new(),
        }
    }

    /// Where the connection stands.
    pub fn phase(&self) -> (r: Phase)
        ensures
            r == self@.phase,
    {
        self.phase
    }

    /// What is known of the client.
    pub fn info(&self) -> (r: &ClientInfo)
        ensures
            r@ == self@.info,
    {
        &self.info
    }

    /// The bytes read from the client and not yet taken as frames.
    pub fn buffered(&self) -> (r: &[u8])
        ensures
            r@ == self@.buffered,
    {
        as_slice(&self.buf)
    }

    /// The ledger as it stands.
    pub fn history(&self) -> (r: &[u8])
        ensures
            r@ == self@.history,
    {
        as_slice(&self.inbound_history)
    }

    /// The number of bytes that the connection holds, buffered or in the
    /// ledger.
    pub fn retained(&self) -> (r: usize)
        ensures
            r == self@.retained(),
            r <= isize::MAX,
    {
        proof {
            use_type_invariant(self);
        }
        self.buf.len() + self.inbound_history.len()
    }

    /// How the stream ended, if the client has closed it now: cleanly where
    /// nothing is buffered, else in the middle of a frame.
    pub fn end_of_stream(&self) -> (r: StreamEnd)
        ensures
            r == if self@.buffered.len() == 0 {
                StreamEnd::Clean
            } else {
                StreamEnd::Truncated
            },
    {
        if self.buf.len() == 0 {
            StreamEnd::Clean
        } else {
            StreamEnd::Truncated
        }
    }

    /// Takes in what was read from the client.
    pub fn feed(&mut self, data: &[u8])
        requires
            old(self)@.retained() + data@.len() <= isize::MAX,
        ensures
            final(self)@ == (ConnectionView {
                buffered: old(self)@.buffered + data@,
                ..old(self)@
            }),
    {
        proof {
            use_type_invariant(&*self);
        }
        let mut buf = bytes::BytesMut::new();
        std::mem::swap(&mut self.buf, &mut buf);
        buf.extend_from_slice(data);
        self.buf = buf;
    }

    /// Answers one message, given with the exact bytes of its frame.
    pub fn handle(self, packet: RawPacket, raw: Vec<u8>, config: &Config) -> (r: Step)
        requires
            self@.retained() + raw@.len() <= isize::MAX,
        ensures
            r@ == after_packet(self@, packet.id, packet.data@, raw@, &config.lockout),
    {
        proof {
            use_type_invariant(&self);
        }
        let Connection { phase, info, buf, inbound_history } = self;
        match phase {
            Phase::Handshake => if packet.id == SERVER_HANDSHAKE {
                let handshake = match Handshake::decode(packet.data.as_slice()) {
                    Some(handshake) => handshake,
                    None => {
                        return Step::Close;
                    },
                };
                let next = match Phase::from_next_state(handshake.next_state) {
                    Some(next) => next,
                    None => {
                        return Step::Close;
                    },
                };
                let info = ClientInfo {
                    protocol_version: Some(handshake.protocol_version),
                    username: info.username,
                };
                let mut inbound_history = inbound_history;
                if next == Phase::Login {
                    inbound_history.extend_from_slice(raw.as_slice());
                }
                return Step::Continue(Connection { phase: next, info, buf, inbound_history });
            },
            Phase::Status => if packet.id == SERVER_STATUS {
                return Step::SendStatus(Connection { phase, info, buf, inbound_history });
            } else if packet.id == SERVER_PING {
                return Step::Echo(Connection { phase, info, buf, inbound_history }, raw);
            },
            Phase::Login => if packet.id == SERVER_LOGIN_START {
                let username = decode_login_start(packet.data.as_slice());
                let info = ClientInfo { protocol_version: info.protocol_version, username };
                return match check_lockout(&config.lockout) {
                    Verdict::Kick(reason) => Step::Kick(reason),
                    Verdict::Proceed => Step::LookupBan(
                        LoginAttempt {
                            connection: Connection { phase, info, buf, inbound_history },
                            raw,
                        },
                    ),
                };
            },
            Phase::Transfer => {},
        }
        Step::Continue(Connection { phase, info, buf, inbound_history })
    }

    /// Looks at the inbound buffer for the next message and answers it.
    pub fn poll(self, config: &Config) -> (r: Step)
        ensures
            r@ == after_poll(self@, &config.lockout),
    {
        proof {
            use_type_invariant(&self);
            lemma_frame_extent(self@.buffered);
        }
        let Connection { phase, info, buf, inbound_history } = self;
        let mut buf = buf;
        match read_packet(&mut buf) {
            ReadOutcome::Pending => Step::NeedData(Connection { phase, info, buf, inbound_history }),
            ReadOutcome::Malformed => Step::Close,
            ReadOutcome::Packet { packet, raw } => {
                let connection = Connection { phase, info, buf, inbound_history };
                connection.handle(packet, raw, config)
            },
        }
    }
}

impl LoginAttempt {
    /// Together with the frame kept, the connection holds no more bytes than
    /// a buffer can.
    #[verifier::type_invariant]
    spec fn within_limits(self) -> bool {
        self.connection@.retained() + self.raw@.len() <= isize::MAX
    }

    /// What is known of the client that logs in.
    pub fn info(&self) -> (r: &ClientInfo)
        ensures
            r@ == self@.connection.info,
    {
        &self.connection.info
    }

    /// Ends the login, given what the ban list holds for the client's address.
    pub fn conclude(self, ban: Option<&BanEntry>) -> (r: Admission)
        ensures
            r@ == after_ban_lookup(self@, ban),
    {
        proof {
            use_type_invariant(&self);
        }
        let LoginAttempt { connection, raw } = self;
        match check_ban(ban) {
            Verdict::Kick(reason) => Admission::Kicked(reason),
            Verdict::Proceed => {
                let Connection { phase, info, buf, inbound_history } = connection;
                let mut inbound_history = inbound_history;
                inbound_history.extend_from_slice(raw.as_slice());
                inbound_history.extend_from_slice(as_slice(&buf));
                let mut login_queue = bytes::BytesMut::new();
                login_queue.extend_from_slice(raw.as_slice());
                login_queue.extend_from_slice(as_slice(&buf));
                Admission::Accepted(Handoff { info, inbound_history, login_queue })
            },
        }
    }
}

} // verus!
