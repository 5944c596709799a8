//! Side-effects produced by the engine for the event loop to carry out.

use crate::protocol::{lurk_error_of, pkt_type_of};
use crate::state::{Character, CharacterView, Connection, ConnectionView, Room};
use crate::types::ClientId;
use lurk_protocol::{LurkError, PktType};
use vstd::prelude::*;
use vstd::std_specs::convert::FromSpecImpl;

verus! {

/// Room information as sent to a client.
#[derive(Debug)]
pub struct RoomInfo {
    pub room_number: u16,
    pub title: String,
    pub description: String,
}

/// The view of a [`RoomInfo`].
pub struct RoomInfoView {
    pub room_number: u16,
    pub title: Seq<char>,
    pub description: Seq<char>,
}

impl View for RoomInfo {
    type V = RoomInfoView;

    open spec fn view(&self) -> RoomInfoView {
        RoomInfoView { room_number: self.room_number, title: self.title@, description: self.description@ }
    }
}

impl Clone for RoomInfo {
    fn clone(&self) -> (r: Self)
        ensures
            r == *self,
    {
        RoomInfo { room_number: self.room_number, title: self.title.clone(), description: self.description.clone() }
    }
}

impl<'a> From<&'a Room> for RoomInfo {
    fn from(room: &'a Room) -> (info: RoomInfo) {
        RoomInfo {
            room_number: room.room_number,
            title: room.title.clone(),
            description: room.description.clone(),
        }
    }
}

impl<'a> FromSpecImpl<&'a Room> for RoomInfo {
    open spec fn obeys_from_spec() -> bool {
        true
    }

    open spec fn from_spec(room: &'a Room) -> RoomInfo {
        RoomInfo { room_number: room.room_number, title: room.title, description: room.description }
    }
}

/// Exit information as sent to a client.
#[derive(Debug)]
pub struct ConnectionInfo {
    pub room_number: u16,
    pub title: String,
    pub description: String,
}

impl View for ConnectionInfo {
    type V = ConnectionView;

    open spec fn view(&self) -> ConnectionView {
        ConnectionView { room_number: self.room_number, title: self.title@, description: self.description@ }
    }
}

impl Clone for ConnectionInfo {
    fn clone(&self) -> (r: Self)
        ensures
            r == *self,
    {
        ConnectionInfo {
            room_number: self.room_number,
            title: self.title.clone(),
            description: self.description.clone(),
        }
    }
}

impl<'a> From<&'a Connection> for ConnectionInfo {
    fn from(conn: &'a Connection) -> (info: ConnectionInfo) {
        ConnectionInfo {
            room_number: conn.room_number,
            title: conn.title.clone(),
            description: conn.description.clone(),
        }
    }
}

impl<'a> FromSpecImpl<&'a Connection> for ConnectionInfo {
    open spec fn obeys_from_spec() -> bool {
        true
    }

    open spec fn from_spec(conn: &'a Connection) -> ConnectionInfo {
        ConnectionInfo { room_number: conn.room_number, title: conn.title, description: conn.description }
    }
}

/// A side-effect for the event loop to carry out.
#[derive(Debug)]
pub enum Output {
    /// Send an error packet to a client.
    SendError { client: ClientId, error_code: LurkError, message: String },
    /// Send an accept packet to a client.
    SendAccept { client: ClientId, accepted_type: PktType },
    /// Send character data to a client.
    SendCharacter { client: ClientId, character: Character },
    /// Send room information to a client.
    SendRoom { client: ClientId, room: RoomInfo },
    /// Send an exit of a room to a client.
    SendConnection { client: ClientId, connection: ConnectionInfo },
    /// Send a message to a client.
    SendMessage {
        client: ClientId,
        sender_name: String,
        recipient_name: String,
        message: String,
        narration: bool,
    },
    /// Send a server message to every connected player.
    Broadcast { message: String },
    /// Send a narration or server message to every player in a room.
    Narrate { room_number: u16, message: String, narration: bool },
    /// Tell every player in a room about a character's new state.
    AlertRoom { room_number: u16, character: Character },
    /// Close this client's connection.
    Disconnect { client: ClientId },
}

impl Clone for Output {
    fn clone(&self) -> (r: Self)
        ensures
            r == *self,
    {
        match self {
            Output::SendError { client, error_code, message } => Output::SendError {
                client: *client,
                error_code: *error_code,
                message: message.clone(),
            },
            Output::SendAccept { client, accepted_type } => Output::SendAccept {
                client: *client,
                accepted_type: *accepted_type,
            },
            Output::SendCharacter { client, character } => Output::SendCharacter {
                client: *client,
                character: character.clone(),
            },
            Output::SendRoom { client, room } => Output::SendRoom { client: *client, room: room.clone() },
            Output::SendConnection { client, connection } => Output::SendConnection {
                client: *client,
                connection: connection.clone(),
            },
            Output::SendMessage { client, sender_name, recipient_name, message, narration } =>
                Output::SendMessage {
                client: *client,
                sender_name: sender_name.clone(),
                recipient_name: recipient_name.clone(),
                message: message.clone(),
                narration: *narration,
            },
            Output::Broadcast { message } => Output::Broadcast { message: message.clone() },
            Output::Narrate { room_number, message, narration } => Output::Narrate {
                room_number: *room_number,
                message: message.clone(),
                narration: *narration,
            },
            Output::AlertRoom { room_number, character } => Output::AlertRoom {
                room_number: *room_number,
                character: character.clone(),
            },
            Output::Disconnect { client } => Output::Disconnect { client: *client },
        }
    }
}

/// The view of an [`Output`].
pub enum OutputView {
    SendError { client: ClientId, error_code: LurkError, message: Seq<char> },
    SendAccept { client: ClientId, accepted_type: PktType },
    SendCharacter { client: ClientId, character: CharacterView },
    SendRoom { client: ClientId, room: RoomInfoView },
    SendConnection { client: ClientId, connection: ConnectionView },
    SendMessage {
        client: ClientId,
        sender_name: Seq<char>,
        recipient_name: Seq<char>,
        message: Seq<char>,
        narration: bool,
    },
    Broadcast { message: Seq<char> },
    Narrate { room_number: u16, message: Seq<char>, narration: bool },
    AlertRoom { room_number: u16, character: CharacterView },
    Disconnect { client: ClientId },
}

impl View for Output {
    type V = OutputView;

    open spec fn view(&self) -> OutputView {
        match self {
            Output::SendError { client, error_code, message } => OutputView::SendError {
                client: *client,
                error_code: *error_code,
                message: message@,
            },
            Output::SendAccept { client, accepted_type } => OutputView::SendAccept {
                client: *client,
                accepted_type: *accepted_type,
            },
            Output::SendCharacter { client, character } => OutputView::SendCharacter {
                client: *client,
                character: character@,
            },
            Output::SendRoom { client, room } => OutputView::SendRoom { client: *client, room: room@ },
            Output::SendConnection { client, connection } => OutputView::SendConnection {
                client: *client,
                connection: connection@,
            },
            Output::SendMessage { client, sender_name, recipient_name, message, narration } =>
                OutputView::SendMessage {
                client: *client,
                sender_name: sender_name@,
                recipient_name: recipient_name@,
                message: message@,
                narration: *narration,
            },
            Output::Broadcast { message } => OutputView::Broadcast { message: message@ },
            Output::Narrate { room_number, message, narration } => OutputView::Narrate {
                room_number: *room_number,
                message: message@,
                narration: *narration,
            },
            Output::AlertRoom { room_number, character } => OutputView::AlertRoom {
                room_number: *room_number,
                character: character@,
            },
            Output::Disconnect { client } => OutputView::Disconnect { client: *client },
        }
    }
}

/// The protocol byte of `OTHER`.
pub const ERR_OTHER: u8 = 0;
/// The protocol byte of `BADROOM`.
pub const ERR_BADROOM: u8 = 1;
/// The protocol byte of `PLAYEREXISTS`.
pub const ERR_PLAYEREXISTS: u8 = 2;
/// The protocol byte of `BADMONSTER`.
pub const ERR_BADMONSTER: u8 = 3;
/// The protocol byte of `STATERROR`.
pub const ERR_STATERROR: u8 = 4;
/// The protocol byte of `NOTREADY`.
pub const ERR_NOTREADY: u8 = 5;
/// The protocol byte of `NOFIGHT`.
pub const ERR_NOFIGHT: u8 = 7;
/// The protocol byte of `NOPLAYERCOMBAT`.
pub const ERR_NOPLAYERCOMBAT: u8 = 8;
/// The protocol byte of the `CHARACTER` packet type.
pub const PKT_CHARACTER: u8 = 10;

/// The view of an error sent to `client`.
pub open spec fn error_out(client: ClientId, code: u8, message: Seq<char>) -> OutputView {
    OutputView::SendError { client, error_code: lurk_error_of(code), message }
}

/// The view of the acceptance of a character packet.
pub open spec fn accept_character_out(client: ClientId) -> OutputView {
    OutputView::SendAccept { client, accepted_type: pkt_type_of(PKT_CHARACTER) }
}

} // verus!
