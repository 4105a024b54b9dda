//! What holds of a connection over its whole life, whatever the client sends.

use crate::config::LockoutConfig;
use crate::connection::{after_ban_lookup, after_packet, after_poll};
use crate::connection::{AdmissionView, ConnectionView, HandoffView, StepView};
use crate::gate::BanEntry;
use crate::handshake::{handshake_in, phase_for, Phase, SERVER_HANDSHAKE};
use crate::login::SERVER_LOGIN_START;
use crate::packet::{frame_at_front, lemma_frame_extent, Frame};
use crate::status::{SERVER_PING, SERVER_STATUS};
use crate::stream::Captured;
use vstd::prelude::*;

verus! {

/// The connection that a step leaves open for more messages, if it does.
pub open spec fn left_open(step: StepView) -> Option<ConnectionView> {
    match step {
        StepView::NeedData(conn) => Some(conn),
        StepView::Continue(conn) => Some(conn),
        StepView::SendStatus(conn) => Some(conn),
        StepView::Echo(conn, bytes) => Some(conn),
        StepView::Close => None,
        StepView::Kick(reason) => None,
        StepView::LookupBan(attempt) => None,
    }
}

/// The connection after the given messages, one after the other, if all of
/// them leave it open.
pub open spec fn after_messages(
    conn: ConnectionView,
    messages: Seq<Captured>,
    lockout: &LockoutConfig,
) -> Option<ConnectionView>
    decreases messages.len(),
{
    if messages.len() == 0 {
        Some(conn)
    } else {
        let first = messages[0];
        match left_open(after_packet(conn, first.id, first.data, first.raw, lockout)) {
            Some(next) => after_messages(next, messages.drop_first(), lockout),
            None => None,
        }
    }
}

/// Whether a connection in the phase `from` may later be in the phase `to`:
/// it stays where it is, or leaves the handshake for good.
pub open spec fn advances(from: Phase, to: Phase) -> bool {
    from == to || (from == Phase::Handshake && to != Phase::Handshake)
}

/// No message takes a connection back: after it the connection is in the
/// phase it was in, or has left the handshake.
pub proof fn lemma_phase_step(
    conn: ConnectionView,
    id: i32,
    data: Seq<u8>,
    raw: Seq<u8>,
    lockout: &LockoutConfig,
)
    ensures
        match after_packet(conn, id, data, raw, lockout) {
            StepView::LookupBan(attempt) => attempt.connection.phase == conn.phase,
            step => left_open(step) matches Some(next) ==> advances(conn.phase, next.phase),
        },
{
}

/// Over any sequence of messages the phase only moves forward: at every two
/// moments, the later phase is the earlier one or the handshake was left in
/// between.
pub proof fn lemma_phase_monotone(
    conn: ConnectionView,
    messages: Seq<Captured>,
    lockout: &LockoutConfig,
    earlier: int,
    later: int,
)
    requires
        0 <= earlier <= later <= messages.len(),
        after_messages(conn, messages.take(later), lockout) is Some,
    ensures
        after_messages(conn, messages.take(earlier), lockout) matches Some(before)
            && after_messages(conn, messages.take(later), lockout) matches Some(after) && advances(
            before.phase,
            after.phase,
        ),
    decreases later,
{
    if earlier == later {
    } else if earlier == 0 {
        assert(messages.take(0).len() == 0);
        lemma_phase_from_start(conn, messages.take(later), lockout);
    } else {
        let first = messages[0];
        let next = left_open(after_packet(conn, first.id, first.data, first.raw, lockout));
        assert(messages.take(later)[0] == first);
        assert(messages.take(earlier)[0] == first);
        let rest = messages.drop_first();
        assert(messages.take(later).drop_first() =~= rest.take(later - 1));
        assert(messages.take(earlier).drop_first() =~= rest.take(earlier - 1));
        lemma_phase_monotone(next.unwrap(), rest, lockout, earlier - 1, later - 1);
    }
}

/// After any sequence of messages that leave the connection open, it is in
/// the phase it began in, or has left the handshake.
pub proof fn lemma_phase_from_start(
    conn: ConnectionView,
    messages: Seq<Captured>,
    lockout: &LockoutConfig,
)
    requires
        after_messages(conn, messages, lockout) is Some,
    ensures
        advances(conn.phase, after_messages(conn, messages, lockout).unwrap().phase),
    decreases messages.len(),
{
    if messages.len() > 0 {
        let first = messages[0];
        lemma_phase_step(conn, first.id, first.data, first.raw, lockout);
        let next = left_open(after_packet(conn, first.id, first.data, first.raw, lockout));
        lemma_phase_from_start(next.unwrap(), messages.drop_first(), lockout);
    }
}

/// A status request and a ping leave the connection as it was, ledger
/// included, and neither leads to a login: nothing is asked of the server.
pub proof fn lemma_status_and_ping_are_pure(
    conn: ConnectionView,
    id: i32,
    data: Seq<u8>,
    raw: Seq<u8>,
    lockout: &LockoutConfig,
)
    requires
        conn.phase == Phase::Status,
        id == SERVER_STATUS || id == SERVER_PING,
    ensures
        id == SERVER_STATUS ==> after_packet(conn, id, data, raw, lockout) == StepView::SendStatus(
            conn,
        ),
        id == SERVER_PING ==> after_packet(conn, id, data, raw, lockout) == StepView::Echo(
            conn,
            raw,
        ),
        left_open(after_packet(conn, id, data, raw, lockout)) == Some(conn),
        !(after_packet(conn, id, data, raw, lockout) is LookupBan),
{
}

/// Outside the login, no message leads to a login: only a login start on a
/// connection that logs in does.
pub proof fn lemma_only_login_start_logs_in(
    conn: ConnectionView,
    id: i32,
    data: Seq<u8>,
    raw: Seq<u8>,
    lockout: &LockoutConfig,
)
    ensures
        after_packet(conn, id, data, raw, lockout) is LookupBan ==> conn.phase == Phase::Login
            && id == SERVER_LOGIN_START && !lockout.enabled,
{
}

/// When a login is let through, the bytes from the login on are the frame
/// that started the login followed by what was buffered behind it: exactly
/// what was buffered when the frame was taken. The ledger grows by the same
/// bytes.
pub proof fn lemma_ledger_complete(
    conn: ConnectionView,
    lockout: &LockoutConfig,
    ban: Option<&BanEntry>,
)
    requires
        after_poll(conn, lockout) matches StepView::LookupBan(attempt) && after_ban_lookup(
            attempt,
            ban,
        ) is Accepted,
    ensures
        after_poll(conn, lockout) matches StepView::LookupBan(attempt) && after_ban_lookup(
            attempt,
            ban,
        ) matches AdmissionView::Accepted(handoff) && frame_at_front(conn.buffered) matches Frame::Ready {
            id,
            data,
            len,
        } && {
            &&& attempt.raw == conn.buffered.take(len as int)
            &&& handoff.login_queue == attempt.raw + conn.buffered.skip(len as int)
            &&& handoff.login_queue == conn.buffered
            &&& handoff.inbound_history == conn.history + conn.buffered
        },
{
    lemma_frame_extent(conn.buffered);
    if let Frame::Ready { id, data, len } = frame_at_front(conn.buffered) {
        let raw = conn.buffered.take(len as int);
        let rest = conn.buffered.skip(len as int);
        assert(raw + rest =~= conn.buffered);
        assert(conn.history + raw + rest =~= conn.history + conn.buffered);
    }
}

/// The connection after its first message, and what is handed over after its
/// second, where the first leaves the connection open and the second is a
/// login start that is let through.
pub open spec fn after_two_messages(
    conn: ConnectionView,
    lockout: &LockoutConfig,
    ban: Option<&BanEntry>,
) -> Option<(ConnectionView, HandoffView)> {
    match after_poll(conn, lockout) {
        StepView::Continue(greeted) => match after_poll(greeted, lockout) {
            StepView::LookupBan(attempt) => match after_ban_lookup(attempt, ban) {
                AdmissionView::Accepted(handoff) => Some((greeted, handoff)),
                _ => None,
            },
            _ => None,
        },
        _ => None,
    }
}

/// A client that sends a login handshake and then a login start, and is let
/// through, is handed over with a ledger that holds every byte it sent, in
/// the order it sent them; the bytes from the login on are those behind the
/// handshake.
pub proof fn lemma_login_replays_the_stream(
    conn: ConnectionView,
    lockout: &LockoutConfig,
    ban: Option<&BanEntry>,
)
    requires
        conn.phase == Phase::Handshake,
        conn.history.len() == 0,
        after_two_messages(conn, lockout, ban) is Some,
        after_two_messages(conn, lockout, ban).unwrap().0.phase == Phase::Login,
    ensures
        ({
            let (greeted, handoff) = after_two_messages(conn, lockout, ban).unwrap();
            &&& handoff.inbound_history == conn.buffered
            &&& handoff.login_queue == greeted.buffered
            &&& conn.buffered == greeted.history + greeted.buffered
        }),
{
    lemma_frame_extent(conn.buffered);
    let (greeted, handoff) = after_two_messages(conn, lockout, ban).unwrap();
    if let Frame::Ready { id, data, len } = frame_at_front(conn.buffered) {
        let raw = conn.buffered.take(len as int);
        assert(greeted.buffered == conn.buffered.skip(len as int));
        assert(greeted.history =~= raw);
        assert(raw + conn.buffered.skip(len as int) =~= conn.buffered);
        lemma_ledger_complete(greeted, lockout, ban);
    }
}

/// With the lockout on, a login start is answered by turning the client away
/// with the lockout's message; the ban list is not asked and no login goes
/// through.
pub proof fn lemma_lockout_kicks(
    conn: ConnectionView,
    data: Seq<u8>,
    raw: Seq<u8>,
    lockout: &LockoutConfig,
)
    requires
        conn.phase == Phase::Login,
        lockout.enabled,
    ensures
        after_packet(conn, SERVER_LOGIN_START, data, raw, lockout) == StepView::Kick(
            lockout.message@,
        ),
{
}

/// With the lockout off, a login from an address under an active ban is
/// answered by turning the client away with the ban's reason.
pub proof fn lemma_ban_kicks(
    conn: ConnectionView,
    data: Seq<u8>,
    raw: Seq<u8>,
    lockout: &LockoutConfig,
    entry: &BanEntry,
)
    requires
        conn.phase == Phase::Login,
        !lockout.enabled,
        entry.active,
    ensures
        after_packet(conn, SERVER_LOGIN_START, data, raw, lockout) matches StepView::LookupBan(
            attempt,
        ) && after_ban_lookup(attempt, Some(entry)) == AdmissionView::Kicked(entry.reason@),
{
}

/// A handshake that asks for a phase that is none ends the connection, with
/// nothing to send.
pub proof fn lemma_unknown_next_state_closes(
    conn: ConnectionView,
    data: Seq<u8>,
    raw: Seq<u8>,
    lockout: &LockoutConfig,
)
    requires
        conn.phase == Phase::Handshake,
        handshake_in(data) matches Some(handshake) && phase_for(handshake.next_state) is None,
    ensures
        after_packet(conn, SERVER_HANDSHAKE, data, raw, lockout) == StepView::Close,
{
}

} // verus!
