//! Moving between rooms.

use super::{
    arrive_room, depart_room, emitted, not_started_out,
    send_connections, send_room, send_room_contents, EngineView, GameEngine,
};
use crate::model::{
    arrive, client_index, contents_outputs, depart, exit_sends, exits, lists_keys, may_act,
    room_info, with_exit_listing,
};
use crate::output::{error_out, Output, OutputView, ERR_BADROOM};
use crate::protocol::lurk_error;
use crate::state::{CharacterView, PlayerView};
use crate::types::ClientId;
use vstd::prelude::*;

verus! {

/// The state after `client` asks to move to room `nxt`.
///
/// Without a player of that client nothing happens; a player that may not
/// act gets `NOTREADY`. `BADROOM` comes when the player is already in `nxt`,
/// when its current room does not exist, or when that room has no exit to
/// `nxt`. Otherwise the player moves: its room becomes `nxt`, it leaves the
/// old room's players and joins those of `nxt`; the client gets `nxt`'s
/// information and its own character, both rooms see the character, and the
/// client gets `nxt`'s exits (in ascending order of destination room) and
/// contents.
pub open spec fn change_room_post(pre: EngineView, client: ClientId, nxt: u16, post: EngineView) -> bool {
    let i = client_index(pre.players, client);
    if i < 0 {
        post == pre
    } else {
        let p = pre.players[i];
        let cur = p.character.current_room;
        if !may_act(p.character.flags) {
            post == emitted(pre, not_started_out(client))
        } else if cur == nxt {
            post == emitted(pre, error_out(client, ERR_BADROOM, "Player is already in the room"@))
        } else if !pre.rooms.contains_key(cur) {
            post == emitted(pre, error_out(client, ERR_BADROOM, "Room not found!"@))
        } else if !pre.rooms[cur].connections.contains_key(nxt) {
            post == emitted(pre, error_out(client, ERR_BADROOM, "Invalid connection!"@))
        } else {
            let c = CharacterView { current_room: nxt, ..p.character };
            let players = pre.players.update(i, PlayerView { character: c, client: p.client });
            let rooms = arrive(depart(pre.rooms, cur, c.name), nxt, c.name);
            let head = (if rooms.contains_key(nxt) {
                seq![OutputView::SendRoom { client, room: room_info(rooms[nxt]) }]
            } else {
                seq![]
            }) + seq![
                OutputView::SendCharacter { client, character: c },
                OutputView::AlertRoom { room_number: cur, character: c },
                OutputView::AlertRoom { room_number: nxt, character: c },
            ];
            let tail = if rooms.contains_key(nxt) {
                contents_outputs(players, rooms[nxt], client)
            } else {
                seq![]
            };
            &&& post.players == players
            &&& post.rooms == rooms
            &&& post.config == pre.config
            &&& with_exit_listing(post.outputs, pre.outputs + head, exits(rooms, nxt), client, tail)
        }
    }
}

impl GameEngine {
    /// Moves a player through an exit of its current room.
    pub(crate) fn handle_change_room(&mut self, client: ClientId, nxt_room_id: u16)
        ensures
            change_room_post(old(self)@, client, nxt_room_id, final(self)@),
    {
        let i = match self.player_from_client(client) {
            Some(i) => i,
            None => {
                return;
            },
        };
        proof {
            crate::model::lemma_client_index(self@.players, client);
        }
        let cur_room_id = self.players[i].character.current_room;
        let snapshot = self.players[i].clone();
        if !self.ensure_started(&snapshot, client) {
            return;
        }
        if cur_room_id == nxt_room_id {
            self.emit(Output::SendError {
                    client,
                    error_code: lurk_error(ERR_BADROOM),
                    message: String::from_str("Player is already in the room"),
                },
            );
            return;
        }
        let connected = match self.rooms.get(&cur_room_id) {
            None => {
                self.emit(Output::SendError {
                        client,
                        error_code: lurk_error(ERR_BADROOM),
                        message: String::from_str("Room not found!"),
                    },
                );
                return;
            },
            Some(room) => room.connections.contains_key(&nxt_room_id),
        };
        if !connected {
            self.emit(Output::SendError {
                    client,
                    error_code: lurk_error(ERR_BADROOM),
                    message: String::from_str("Invalid connection!"),
                },
            );
            return;
        }
        self.players[i].character.current_room = nxt_room_id;
        let name = self.players[i].character.name.clone();
        depart_room(&mut self.rooms, cur_room_id, &name);
        arrive_room(&mut self.rooms, nxt_room_id, &name);
        match self.rooms.get(&nxt_room_id) {
            Some(room) => {
                send_room(&mut self.outputs, client, room);
            },
            None => {},
        }
        let sent = self.players[i].character.clone();
        let alert_old = self.players[i].character.clone();
        let alert_new = self.players[i].character.clone();
        self.emit(Output::SendCharacter { client, character: sent });
        self.emit(Output::AlertRoom { room_number: cur_room_id, character: alert_old },
        );
        self.emit(Output::AlertRoom { room_number: nxt_room_id, character: alert_new },
        );
        let ghost mid = self@.outputs;
        send_connections(&mut self.outputs, &self.rooms, client, nxt_room_id);
        let ghost listed = self@.outputs;
        match self.rooms.get(&nxt_room_id) {
            Some(room) => {
                send_room_contents(&mut self.outputs, &self.players, client, room);
            },
            None => {},
        }
        proof {
            let pre = old(self)@;
            let post = self@;
            let p = pre.players[i as int];
            let cur = cur_room_id;
            let nxt = nxt_room_id;
            let c = CharacterView { current_room: nxt, ..p.character };
            let players = pre.players.update(i as int, PlayerView { character: c, client: p.client });
            assert(post.players =~= players);
            let rooms = arrive(depart(pre.rooms, cur, c.name), nxt, c.name);
            let conns = exits(rooms, nxt);
            let head = (if rooms.contains_key(nxt) {
                seq![OutputView::SendRoom { client, room: room_info(rooms[nxt]) }]
            } else {
                seq![]
            }) + seq![
                OutputView::SendCharacter { client, character: c },
                OutputView::AlertRoom { room_number: cur, character: c },
                OutputView::AlertRoom { room_number: nxt, character: c },
            ];
            let tail = if rooms.contains_key(nxt) {
                contents_outputs(players, rooms[nxt], client)
            } else {
                seq![]
            };
            assert(mid =~= pre.outputs + head);
            let ks = choose|ks: Seq<u16>|
                #![trigger exit_sends(ks, conns, client)]
                lists_keys(ks, conns) && listed == mid + exit_sends(ks, conns, client) + seq![];
            assert(post.outputs =~= pre.outputs + head + exit_sends(ks, conns, client) + tail);
            assert(with_exit_listing(post.outputs, pre.outputs + head, conns, client, tail));
        }
    }
}

} // verus!
