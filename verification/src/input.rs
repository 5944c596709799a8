//! Events fed into the engine by the event loop.

use crate::types::ClientId;
use vstd::prelude::*;

verus! {

/// An event for the engine: a Lurk protocol message from a client, or a
/// connection lifecycle event.
#[derive(Debug)]
pub enum Input {
    /// A new client has connected and been given an ID by the event loop.
    ClientConnected { client: ClientId },
    /// A client submitted character stats for registration or update.
    Character {
        client: ClientId,
        name: String,
        attack: u16,
        defense: u16,
        regen: u16,
        description: String,
    },
    /// A client wants to start playing.
    Start { client: ClientId },
    /// A client wants to move to another room.
    ChangeRoom { client: ClientId, room_number: u16 },
    /// A client wants to fight a monster in its current room.
    Fight { client: ClientId },
    /// A client wants to fight another player.
    PvpFight { client: ClientId, target_name: String },
    /// A client wants to loot a dead monster.
    Loot { client: ClientId, target_name: String },
    /// A client sends a message to another player.
    Message { client: ClientId, sender_name: String, recipient_name: String, message: String },
    /// A client is leaving.
    Leave { client: ClientId },
}

impl Clone for Input {
    fn clone(&self) -> (r: Self)
        ensures
            r == *self,
    {
        match self {
            Input::ClientConnected { client } => Input::ClientConnected { client: *client },
            Input::Character { client, name, attack, defense, regen, description } => Input::Character {
                client: *client,
                name: name.clone(),
                attack: *attack,
                defense: *defense,
                regen: *regen,
                description: description.clone(),
            },
            Input::Start { client } => Input::Start { client: *client },
            Input::ChangeRoom { client, room_number } => Input::ChangeRoom {
                client: *client,
                room_number: *room_number,
            },
            Input::Fight { client } => Input::Fight { client: *client },
            Input::PvpFight { client, target_name } => Input::PvpFight {
                client: *client,
                target_name: target_name.clone(),
            },
            Input::Loot { client, target_name } => Input::Loot {
                client: *client,
                target_name: target_name.clone(),
            },
            Input::Message { client, sender_name, recipient_name, message } => Input::Message {
                client: *client,
                sender_name: sender_name.clone(),
                recipient_name: recipient_name.clone(),
                message: message.clone(),
            },
            Input::Leave { client } => Input::Leave { client: *client },
        }
    }
}

} // verus!
