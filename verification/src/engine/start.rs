//! Starting the game.

use super::{
    arrive_room, emitted, not_ready_out, send_connections, send_room,
    send_room_contents, EngineView, GameEngine,
};
use crate::model::{arrive, client_index, may_start, contents_outputs, exit_sends, exits, lists_keys, room_info, with_exit_listing};
use crate::output::{Output, OutputView};
use crate::protocol::{started_bit, started_flag, union_flags};
use crate::state::{CharacterView, PlayerView};
use crate::types::ClientId;
use vstd::prelude::*;

verus! {

/// The state after `client` asks to start.
///
/// Without a player of that client nothing happens; a player that is not
/// ready, or has already started, gets `NOTREADY`. Otherwise the player
/// gains `STARTED` and is added to room 0; the client gets its character,
/// room 0 sees it, everyone hears that it started; then the client gets
/// room 0's information, its exits (in ascending order of destination room)
/// and its contents.
pub open spec fn start_post(pre: EngineView, client: ClientId, post: EngineView) -> bool {
    let i = client_index(pre.players, client);
    if i < 0 {
        post == pre
    } else if !may_start(pre.players[i].character.flags) {
        post == emitted(pre, not_ready_out(client))
    } else {
        let p = pre.players[i];
        let c = CharacterView { flags: p.character.flags | started_bit(), ..p.character };
        let players = pre.players.update(i, PlayerView { character: c, client: p.client });
        let rooms = arrive(pre.rooms, 0, c.name);
        let head = seq![
            OutputView::SendCharacter { client, character: c },
            OutputView::AlertRoom { room_number: 0, character: c },
            OutputView::Broadcast { message: c.name + " has started the game!"@ },
        ] + if rooms.contains_key(0) {
            seq![OutputView::SendRoom { client, room: room_info(rooms[0]) }]
        } else {
            seq![]
        };
        let tail = if rooms.contains_key(0) {
            contents_outputs(players, rooms[0], client)
        } else {
            seq![]
        };
        &&& post.players == players
        &&& post.rooms == rooms
        &&& post.config == pre.config
        &&& with_exit_listing(post.outputs, pre.outputs + head, exits(rooms, 0), client, tail)
    }
}

impl GameEngine {
    /// Starts a ready player in room 0.
    pub(crate) fn handle_start(&mut self, client: ClientId)
        ensures
            start_post(old(self)@, client, final(self)@),
    {
        let i = match self.player_from_client(client) {
            Some(i) => i,
            None => {
                return;
            },
        };
        proof {
            crate::model::lemma_client_index(self@.players, client);
        }
        let snapshot = self.players[i].clone();
        if !self.ensure_ready(&snapshot, client) {
            return;
        }
        let flags = union_flags(self.players[i].character.flags, started_flag());
        self.players[i].character.flags = flags;
        let name = self.players[i].character.name.clone();
        let sent = self.players[i].character.clone();
        let alert = self.players[i].character.clone();
        self.emit(Output::SendCharacter { client, character: sent });
        self.emit(Output::AlertRoom { room_number: 0, character: alert });
        let mut message = name.clone();
        message.append(" has started the game!");
        self.emit(Output::Broadcast { message });
        arrive_room(&mut self.rooms, 0, &name);
        match self.rooms.get(&0) {
            Some(room) => {
                send_room(&mut self.outputs, client, room);
            },
            None => {},
        }
        let ghost mid = self@.outputs;
        send_connections(&mut self.outputs, &self.rooms, client, 0);
        let ghost listed = self@.outputs;
        match self.rooms.get(&0) {
            Some(room) => {
                send_room_contents(&mut self.outputs, &self.players, client, room);
            },
            None => {},
        }
        proof {
            let pre = old(self)@;
            let post = self@;
            let p = pre.players[i as int];
            let c = CharacterView { flags: p.character.flags | started_bit(), ..p.character };
            let players = pre.players.update(i as int, PlayerView { character: c, client: p.client });
            assert(post.players =~= players);
            let rooms = arrive(pre.rooms, 0, c.name);
            let conns = exits(rooms, 0);
            let head = seq![
                OutputView::SendCharacter { client, character: c },
                OutputView::AlertRoom { room_number: 0, character: c },
                OutputView::Broadcast { message: c.name + " has started the game!"@ },
            ] + if rooms.contains_key(0) {
                seq![OutputView::SendRoom { client, room: room_info(rooms[0]) }]
            } else {
                seq![]
            };
            let tail = if rooms.contains_key(0) {
                contents_outputs(players, rooms[0], client)
            } else {
                seq![]
            };
            assert(mid =~= pre.outputs + head);
            let ks = choose|ks: Seq<u16>|
                #![trigger exit_sends(ks, conns, client)]
                lists_keys(ks, conns) && listed == mid + exit_sends(ks, conns, client) + seq![];
            assert(post.outputs =~= pre.outputs + head + exit_sends(ks, conns, client) + tail);
            assert(with_exit_listing(post.outputs, pre.outputs + head, conns, client, tail));
        }
    }
}

} // verus!
