//! Character registration.

use super::{depart_room, emitted, find_name, EngineView, GameEngine};
use crate::model::{depart, name_index};
use crate::output::{
    accept_character_out, error_out, Output, OutputView, ERR_PLAYEREXISTS, ERR_STATERROR,
    PKT_CHARACTER,
};
use crate::protocol::{has_bit, is_started, lurk_error, pkt_type, started_bit};
use crate::state::{default_character, Character, PlayerState, PlayerView};
use crate::types::ClientId;
use vstd::prelude::*;

verus! {

/// The state after `client` submits a character.
///
/// - Stats summing to more than the configured points: `STATERROR`.
/// - A player of that name who has started: `PLAYEREXISTS`.
/// - Otherwise the player is created, or replaced, with default fields and
///   `client` as its client; the client gets an acceptance and the new
///   character. A replaced player that stood in a room other than 0 is taken
///   out of that room, whose players are told that its corpse disappeared
///   and are shown the new character.
pub open spec fn character_spec(
    pre: EngineView,
    client: ClientId,
    name: Seq<char>,
    attack: u16,
    defense: u16,
    regen: u16,
    description: Seq<char>,
) -> EngineView {
    if attack + defense + regen > pre.config.initial_points {
        emitted(pre, error_out(client, ERR_STATERROR, "Invalid stats"@))
    } else {
        let j = name_index(pre.players, name);
        if j >= 0 && has_bit(pre.players[j].character.flags, started_bit()) {
            emitted(pre, error_out(client, ERR_PLAYEREXISTS, "Player is already in the game."@))
        } else {
            let old_room: u16 = if j >= 0 {
                pre.players[j].character.current_room
            } else {
                0
            };
            let c = default_character(name, attack, defense, regen, description);
            let p = PlayerView { character: c, client: Some(client) };
            let players = if j >= 0 {
                pre.players.update(j, p)
            } else {
                pre.players.push(p)
            };
            let first = seq![
                accept_character_out(client),
                OutputView::SendCharacter { client, character: c },
            ];
            if old_room == 0 {
                EngineView { players, outputs: pre.outputs + first, ..pre }
            } else {
                EngineView {
                    players,
                    rooms: depart(pre.rooms, old_room, name),
                    outputs: pre.outputs + first + seq![
                        OutputView::Narrate {
                            room_number: old_room,
                            message: name + "'s corpse disappeared into a puff of smoke."@,
                            narration: true,
                        },
                        OutputView::AlertRoom { room_number: old_room, character: c },
                    ],
                    ..pre
                }
            }
        }
    }
}

impl GameEngine {
    /// Registers or updates a player's character.
    pub(crate) fn handle_character(
        &mut self,
        client: ClientId,
        name: String,
        attack: u16,
        defense: u16,
        regen: u16,
        description: String,
    )
        ensures
            final(self)@ == character_spec(
                old(self)@,
                client,
                name@,
                attack,
                defense,
                regen,
                description@,
            ),
    {
        let over = match attack.checked_add(defense) {
            Some(sum) => match sum.checked_add(regen) {
                Some(total) => total > self.config.initial_points,
                None => true,
            },
            None => true,
        };
        if over {
            self.emit(Output::SendError {
                    client,
                    error_code: lurk_error(ERR_STATERROR),
                    message: String::from_str("Invalid stats"),
                },
            );
            return;
        }
        let found = find_name(&self.players, &name);
        proof {
            crate::model::lemma_name_index(self@.players, name@);
        }
        let old_room: u16 = match found {
            Some(j) => {
                if is_started(&self.players[j].character.flags) {
                    self.emit(Output::SendError {
                            client,
                            error_code: lurk_error(ERR_PLAYEREXISTS),
                            message: String::from_str("Player is already in the game."),
                        },
                    );
                    return;
                }
                self.players[j].character.current_room
            },
            None => 0,
        };
        let ghost spec_post = character_spec(
            old(self)@,
            client,
            name@,
            attack,
            defense,
            regen,
            description@,
        );
        let character = Character::with_defaults(name.clone(), attack, defense, regen, description);
        let sent = character.clone();
        let player = PlayerState { character, client: Some(client) };
        match found {
            Some(j) => {
                self.players.set(j, player);
            },
            None => {
                self.players.push(player);
            },
        }
        assert(self@.players =~= spec_post.players);
        self.emit(Output::SendAccept { client, accepted_type: pkt_type(PKT_CHARACTER) },
        );
        let alert = sent.clone();
        self.emit(Output::SendCharacter { client, character: sent });
        if old_room == 0 {
            assert(self@.outputs =~= spec_post.outputs);
            return;
        }
        depart_room(&mut self.rooms, old_room, &name);
        let mut message = name.clone();
        message.append("'s corpse disappeared into a puff of smoke.");
        self.emit(Output::Narrate { room_number: old_room, message, narration: true },
        );
        self.emit(Output::AlertRoom { room_number: old_room, character: alert },
        );
        assert(self@.outputs =~= spec_post.outputs);
    }
}

} // verus!
