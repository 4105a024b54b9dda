//! The status that the gateway reports while it stands in for the server.

use crate::codec::{status_json, status_to_json, text_component, text_component_json};
use crate::config::{Config, MotdConfig};
use crate::login::bytes_view;
use crate::packet::{frame_bytes, EncodeError};
use crate::wire::{string_bytes, string_packet, STRING_MAX_LENGTH};
use vstd::prelude::*;
use vstd::utf8::encode_utf8;

verus! {

/// The identifier of the message that asks for the status.
pub const SERVER_STATUS: i32 = 0;

/// The identifier of the message that asks for an echo.
pub const SERVER_PING: i32 = 1;

/// The identifier of the message that answers with the status.
pub const CLIENT_STATUS: i32 = 0;

/// What the server behind the gateway is doing.
#[derive(Clone, Copy, Debug, PartialEq, Eq, Structural)]
pub enum State {
    Stopped,
    Starting,
    Started,
    Stopping,
}

/// The text under a server's name in a client's server list.
#[derive(Debug)]
pub enum Description {
    /// Plain text.
    Text(String),
    /// A chat component, as its JSON text.
    Component(String),
}

pub enum DescriptionView {
    Text(Seq<char>),
    Component(Seq<char>),
}

impl View for Description {
    type V = DescriptionView;

    open spec fn view(&self) -> DescriptionView {
        match self {
            Description::Text(text) => DescriptionView::Text(text@),
            Description::Component(json) => DescriptionView::Component(json@),
        }
    }
}

impl Description {
    /// A copy of this description.
    pub fn duplicate(&self) -> (r: Description)
        ensures
            r@ == self@,
    {
        match self {
            Description::Text(text) => Description::Text(text.clone()),
            Description::Component(json) => Description::Component(json.clone()),
        }
    }
}

#[derive(Debug)]
pub struct ServerVersion {
    pub name: String,
    pub protocol: u32,
}

pub struct ServerVersionView {
    pub name: Seq<char>,
    pub protocol: u32,
}

impl View for ServerVersion {
    type V = ServerVersionView;

    open spec fn view(&self) -> ServerVersionView {
        ServerVersionView { name: self.name@, protocol: self.protocol }
    }
}

/// One of the players that a status names.
#[derive(Debug)]
pub struct OnlinePlayer {
    pub name: String,
    /// The player's identifier, sixteen bytes.
    pub id: [u8; 16],
}

pub struct OnlinePlayerView {
    pub name: Seq<char>,
    pub id: Seq<u8>,
}

impl View for OnlinePlayer {
    type V = OnlinePlayerView;

    open spec fn view(&self) -> OnlinePlayerView {
        OnlinePlayerView { name: self.name@, id: self.id@ }
    }
}

#[derive(Debug)]
pub struct OnlinePlayers {
    pub max: u32,
    pub online: u32,
    pub sample: Vec<OnlinePlayer>,
}

pub struct OnlinePlayersView {
    pub max: u32,
    pub online: u32,
    pub sample: Seq<OnlinePlayerView>,
}

impl View for OnlinePlayers {
    type V = OnlinePlayersView;

    open spec fn view(&self) -> OnlinePlayersView {
        OnlinePlayersView {
            max: self.max,
            online: self.online,
            sample: Seq::new(self.sample@.len(), |i: int| self.sample@[i]@),
        }
    }
}

/// A server's status: what the server last reported of itself, or what the
/// gateway reports in its place.
#[derive(Debug)]
pub struct ServerStatus {
    pub version: ServerVersion,
    pub players: OnlinePlayers,
    pub description: Description,
}

pub struct ServerStatusView {
    pub version: ServerVersionView,
    pub players: OnlinePlayersView,
    pub description: DescriptionView,
}

impl View for ServerStatus {
    type V = ServerStatusView;

    open spec fn view(&self) -> ServerStatusView {
        ServerStatusView {
            version: self.version@,
            players: self.players@,
            description: self.description@,
        }
    }
}

/// The configured description for a server in the given state.
pub open spec fn motd_for(motd: &MotdConfig, state: State) -> Seq<char> {
    match state {
        State::Stopped | State::Started => motd.sleeping@,
        State::Starting => motd.starting@,
        State::Stopping => motd.stopping@,
    }
}

/// The status to report, given what the server last reported, if anything.
///
/// Version and player limit are the server's own where known, else the
/// configured version and no limit. Nobody is ever reported online. The
/// description is the server's own where that is known and preferred, else
/// the configured text for the server's state.
pub open spec fn reported_status(
    config: &Config,
    state: State,
    last: Option<ServerStatusView>,
) -> ServerStatusView {
    ServerStatusView {
        version: match last {
            Some(status) => status.version,
            None => ServerVersionView {
                name: config.public.version@,
                protocol: config.public.protocol,
            },
        },
        players: OnlinePlayersView {
            max: match last {
                Some(status) => status.players.max,
                None => 0,
            },
            online: 0,
            sample: Seq::empty(),
        },
        description: match last {
            Some(status) if config.motd.from_server => status.description,
            _ => DescriptionView::Text(motd_for(&config.motd, state)),
        },
    }
}

/// The view of an optional status.
pub open spec fn view_of(last: Option<&ServerStatus>) -> Option<ServerStatusView> {
    match last {
        Some(status) => Some(status@),
        None => None,
    }
}

/// Builds the status to answer a client with.
pub fn server_status(config: &Config, state: State, last: Option<&ServerStatus>) -> (r:
    ServerStatus)
    ensures
        r@ == reported_status(config, state, view_of(last)),
{
    let (version, max) = match last {
        Some(status) => (
            ServerVersion { name: status.version.name.clone(), protocol: status.version.protocol },
            status.players.max,
        ),
        None => (
            ServerVersion { name: config.public.version.clone(), protocol: config.public.protocol },
            0,
        ),
    };
    let description = match last {
        Some(status) if config.motd.from_server => status.description.duplicate(),
        _ => Description::Text(
            match state {
                State::Stopped | State::Started => config.motd.sleeping.clone(),
                State::Starting => config.motd.starting.clone(),
                State::Stopping => config.motd.stopping.clone(),
            },
        ),
    };
    let r = ServerStatus {
        version,
        description,
        players: OnlinePlayers { online: 0, max, sample: Vec::new() },
    };
    assert(r.players@.sample =~= Seq::empty());
    r
}

/// With nothing known of the server and the server stopped, the status is the
/// configured one throughout: the text for a sleeping server, the configured
/// version and protocol, nobody online, no limit, no names.
pub proof fn lemma_fallback_status(config: &Config)
    ensures
        reported_status(config, State::Stopped, None) == (ServerStatusView {
            version: ServerVersionView {
                name: config.public.version@,
                protocol: config.public.protocol,
            },
            players: OnlinePlayersView { max: 0, online: 0, sample: Seq::empty() },
            description: DescriptionView::Text(config.motd.sleeping@),
        }),
{
}

/// Where the server's own description is preferred and known, it is reported
/// as it is, whatever the configured texts and the server's state.
pub proof fn lemma_description_passthrough(config: &Config, state: State, last: ServerStatusView)
    requires
        config.motd.from_server,
    ensures
        reported_status(config, state, Some(last)).description == last.description,
        reported_status(config, state, Some(last)).version == last.version,
        reported_status(config, state, Some(last)).players.max == last.players.max,
{
}

/// Nobody is ever reported online, and no player is ever named.
pub proof fn lemma_nobody_online(config: &Config, state: State, last: Option<ServerStatusView>)
    ensures
        reported_status(config, state, last).players.online == 0,
        reported_status(config, state, last).players.sample.len() == 0,
{
}

/// The JSON text of a description's chat component, if it has one.
pub open spec fn description_json(description: DescriptionView) -> Option<Seq<char>> {
    match description {
        DescriptionView::Text(text) => text_component_json(text),
        DescriptionView::Component(json) => Some(json),
    }
}

/// The JSON text of a status, if it has one.
pub open spec fn status_text(status: ServerStatusView) -> Option<Seq<char>> {
    match description_json(status.description) {
        Some(json) => status_json(status.version, status.players, json),
        None => None,
    }
}

/// What `status_packet` gives for a status with the JSON text `json`, if it
/// has one.
pub open spec fn status_result(json: Option<Seq<char>>) -> Result<Seq<u8>, EncodeError> {
    match json {
        None => Err(EncodeError::Json),
        Some(json) => if encode_utf8(json).len() > STRING_MAX_LENGTH {
            Err(EncodeError::StringTooLong)
        } else {
            Ok(frame_bytes(CLIENT_STATUS, string_bytes(json)))
        },
    }
}

/// The frame that answers a status request, given the JSON text of the
/// status.
pub fn status_packet_from_json(json: Option<String>) -> (r: Result<Vec<u8>, EncodeError>)
    ensures
        bytes_view(r) == status_result(
            match json {
                Some(text) => Some(text@),
                None => None,
            },
        ),
{
    match json {
        None => Err(EncodeError::Json),
        Some(text) => string_packet(CLIENT_STATUS, text.as_str()),
    }
}

/// The frame that answers a status request with `status`.
pub fn status_packet(status: &ServerStatus) -> (r: Result<Vec<u8>, EncodeError>)
    ensures
        bytes_view(r) == status_result(status_text(status@)),
{
    let description = match &status.description {
        Description::Text(text) => text_component(text.as_str()),
        Description::Component(json) => Some(json.clone()),
    };
    let json = match description {
        Some(description) => status_to_json(
            &status.version,
            &status.players,
            description.as_str(),
        ),
        None => None,
    };
    status_packet_from_json(json)
}

} // verus!
