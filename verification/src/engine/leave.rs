//! Players leaving the game.

use super::{EngineView, GameEngine};
use crate::model::client_index;
use crate::output::{Output, OutputView};
use crate::protocol::no_flags;
use crate::state::{CharacterView, PlayerView};
use crate::types::ClientId;
use vstd::prelude::*;

verus! {

/// The state after `client` leaves. Without a player of that client nothing
/// happens. Otherwise the player's flags are cleared and its client
/// forgotten (the character stays, in its room, for a later return); all
/// players hear that it left, its room sees its new state, and the client is
/// disconnected.
pub open spec fn leave_spec(pre: EngineView, client: ClientId) -> EngineView {
    let i = client_index(pre.players, client);
    if i < 0 {
        pre
    } else {
        let c = pre.players[i].character;
        let c2 = CharacterView { flags: 0, ..c };
        EngineView {
            players: pre.players.update(i, PlayerView { character: c2, client: None }),
            outputs: pre.outputs + seq![
                OutputView::Broadcast { message: c.name + " has left the game."@ },
                OutputView::AlertRoom { room_number: c.current_room, character: c2 },
                OutputView::Disconnect { client },
            ],
            ..pre
        }
    }
}

impl GameEngine {
    /// Takes a player out of the game: clears its flags and its client, tells
    /// everyone, and disconnects the client.
    pub(crate) fn handle_leave(&mut self, client: ClientId)
        ensures
            final(self)@ == leave_spec(old(self)@, client),
    {
        let i = match self.player_from_client(client) {
            Some(i) => i,
            None => {
                return;
            },
        };
        proof {
            crate::model::lemma_client_index(self@.players, client);
        }
        self.players[i].character.flags = no_flags();
        self.players[i].client = None;
        let room = self.players[i].character.current_room;
        let mut message = self.players[i].character.name.clone();
        message.append(" has left the game.");
        let character = self.players[i].character.clone();
        self.emit(Output::Broadcast { message });
        self.emit(Output::AlertRoom { room_number: room, character });
        self.emit(Output::Disconnect { client });
        assert(self@.players =~= leave_spec(old(self)@, client).players);
        assert(self@.outputs =~= leave_spec(old(self)@, client).outputs);
    }
}

} // verus!
