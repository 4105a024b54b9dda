//! Who may log in: nobody while the lockout is on, and nobody from an address
//! under an active ban.

use crate::config::LockoutConfig;
use vstd::prelude::*;

verus! {

/// What the ban list holds for an address.
#[derive(Debug)]
pub struct BanEntry {
    /// The reason given to a client that is turned away.
    pub reason: String,
    /// Whether the ban is in force.
    pub active: bool,
}

impl BanEntry {
    /// Whether this ban is in force.
    pub fn is_banned(&self) -> (r: bool)
        ensures
            r == self.active,
    {
        self.active
    }
}

/// The outcome of checking whether a client may log in.
#[derive(Debug)]
pub enum Verdict {
    /// The client is turned away with this reason.
    Kick(String),
    /// The login goes ahead.
    Proceed,
}

pub enum VerdictView {
    Kick(Seq<char>),
    Proceed,
}

impl View for Verdict {
    type V = VerdictView;

    open spec fn view(&self) -> VerdictView {
        match self {
            Verdict::Kick(reason) => VerdictView::Kick(reason@),
            Verdict::Proceed => VerdictView::Proceed,
        }
    }
}

/// The verdict of the first check: with the lockout on, everyone is turned
/// away with its message.
pub open spec fn lockout_verdict(lockout: &LockoutConfig) -> VerdictView {
    if lockout.enabled {
        VerdictView::Kick(lockout.message@)
    } else {
        VerdictView::Proceed
    }
}

/// The verdict of the second check: an address under an active ban is turned
/// away with the ban's reason.
pub open spec fn ban_verdict(ban: Option<&BanEntry>) -> VerdictView {
    match ban {
        Some(entry) if entry.active => VerdictView::Kick(entry.reason@),
        _ => VerdictView::Proceed,
    }
}

/// The verdict of both checks, the lockout first.
pub open spec fn gate_verdict(lockout: &LockoutConfig, ban: Option<&BanEntry>) -> VerdictView {
    match lockout_verdict(lockout) {
        VerdictView::Kick(reason) => VerdictView::Kick(reason),
        VerdictView::Proceed => ban_verdict(ban),
    }
}

/// The first check, which needs nothing but the configuration.
pub fn check_lockout(lockout: &LockoutConfig) -> (r: Verdict)
    ensures
        r@ == lockout_verdict(lockout),
{
    if lockout.enabled {
        Verdict::Kick(lockout.message.clone())
    } else {
        Verdict::Proceed
    }
}

/// The second check, on what the ban list holds for the client's address.
pub fn check_ban(ban: Option<&BanEntry>) -> (r: Verdict)
    ensures
        r@ == ban_verdict(ban),
{
    match ban {
        Some(entry) => if entry.is_banned() {
            Verdict::Kick(entry.reason.clone())
        } else {
            Verdict::Proceed
        },
        None => Verdict::Proceed,
    }
}

/// Both checks in their order.
pub fn access_gate(lockout: &LockoutConfig, ban: Option<&BanEntry>) -> (r: Verdict)
    ensures
        r@ == gate_verdict(lockout, ban),
{
    match check_lockout(lockout) {
        Verdict::Kick(reason) => Verdict::Kick(reason),
        Verdict::Proceed => check_ban(ban),
    }
}

/// With the lockout on, the client is turned away with the lockout's message,
/// banned or not.
pub proof fn lemma_lockout_comes_first(lockout: &LockoutConfig, ban: Option<&BanEntry>)
    requires
        lockout.enabled,
    ensures
        gate_verdict(lockout, ban) == VerdictView::Kick(lockout.message@),
{
}

/// With the lockout off, a client whose address is under an active ban is
/// turned away with the reason that the ban holds.
pub proof fn lemma_ban_without_lockout(lockout: &LockoutConfig, entry: &BanEntry)
    requires
        !lockout.enabled,
        entry.active,
    ensures
        gate_verdict(lockout, Some(entry)) == VerdictView::Kick(entry.reason@),
{
}

/// The login goes ahead exactly when the lockout is off and no active ban is
/// known for the address.
pub proof fn lemma_proceed_iff_clear(lockout: &LockoutConfig, ban: Option<&BanEntry>)
    ensures
        gate_verdict(lockout, ban) is Proceed <==> !lockout.enabled && !(ban matches Some(entry)
            && entry.active),
{
}

} // verus!
