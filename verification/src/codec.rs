//! What the library has from the protocol crate and from `serde_json`: the
//! decoding of a login start, and the JSON text of chat components and of a
//! status.

use crate::status::{OnlinePlayers, OnlinePlayersView, ServerVersion, ServerVersionView};
use crate::varint::{var_int_at_front, VarIntRead};
use crate::wire::{string_at_front, STRING_MAX_LENGTH};
use minecraft_protocol::chat::{Message, Payload};
use minecraft_protocol::login::LoginServerBoundPacket;
use minecraft_protocol::status as protocol;
use vstd::prelude::*;

verus! {

/// The JSON text of the chat component that shows `text` and nothing else, as
/// `Message::to_json` writes it; nothing where it fails to.
pub uninterp spec fn text_component_json(text: Seq<char>) -> Option<Seq<char>>;

/// The JSON text of the status made of the given parts, the description being
/// the chat component that `description` is the JSON text of, as
/// `serde_json::to_string` writes it; nothing where `description` is not the
/// JSON text of a chat component, or where writing fails.
pub uninterp spec fn status_json(
    version: ServerVersionView,
    players: OnlinePlayersView,
    description: Seq<char>,
) -> Option<Seq<char>>;

/// `LoginServerBoundPacket::decode` for the login start, whose payload is one
/// string, the name: the call gives the name where the string's bytes are
/// valid UTF-8, and fails where they are not. It is made only on a payload
/// whose length prefix is well formed, within the protocol's limit for a
/// string and within the payload: on others the crate may try to allocate
/// what the prefix says.
#[verifier::external_body]
pub(crate) fn login_start_name(payload: &[u8]) -> (r: Option<String>)
    requires
        var_int_at_front(payload@) matches VarIntRead::Value { value, len } && 0 <= value
            <= STRING_MAX_LENGTH && len + value <= payload@.len(),
    ensures
        match string_at_front(payload@, STRING_MAX_LENGTH as int) {
            Some((name, len)) => r matches Some(s) && s@ == name,
            None => r is None,
        },
{
    let mut reader = payload;
    match LoginServerBoundPacket::decode(0x00, &mut reader) {
        Ok(LoginServerBoundPacket::LoginStart(start)) => Some(start.name),
        Ok(LoginServerBoundPacket::EncryptionResponse(_)) => None,
        Ok(LoginServerBoundPacket::LoginPluginResponse(_)) => None,
        Err(_) => None,
    }
}

/// `Message::to_json` on `Message::new(Payload::text(text))`: the JSON text of
/// the chat component that shows `text`.
#[verifier::external_body]
pub(crate) fn text_component(text: &str) -> (r: Option<String>)
    ensures
        match r {
            Some(json) => text_component_json(text@) == Some(json@),
            None => text_component_json(text@) is None,
        },
{
    Message::new(Payload::text(text)).to_json().ok()
}

/// `serde_json::to_string` on the protocol crate's `ServerStatus` with the
/// given parts, the description read by `Message::from_json`: the JSON text
/// of the status.
#[verifier::external_body]
pub(crate) fn status_to_json(version: &ServerVersion, players: &OnlinePlayers, description: &str) -> (r:
    Option<String>)
    ensures
        match r {
            Some(json) => status_json(version@, players@, description@) == Some(json@),
            None => status_json(version@, players@, description@) is None,
        },
{
    let description = Message::from_json(description).ok()?;
    let sample = players.sample.iter().map(
        |p| protocol::OnlinePlayer { name: p.name.clone(), id: uuid::Uuid::from_bytes(p.id) },
    ).collect();
    let version = protocol::ServerVersion { name: version.name.clone(), protocol: version.protocol };
    let players = protocol::OnlinePlayers { max: players.max, online: players.online, sample };
    serde_json::to_string(&protocol::ServerStatus { version, players, description }).ok()
}

} // verus!
