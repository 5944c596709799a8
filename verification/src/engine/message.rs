//! Messages between players.

use super::{emitted, find_name, not_started_out, EngineView, GameEngine};
use crate::model::{may_act, name_index};
use crate::output::{error_out, Output, OutputView, ERR_OTHER};
use crate::protocol::lurk_error;
use crate::types::ClientId;
use vstd::prelude::*;

verus! {

/// The state after `client` sends `message` from `sender` to `recipient`:
/// an `OTHER` error if there is no such recipient, `NOTREADY` if the
/// recipient may not act yet, `OTHER` if it is offline; otherwise the message
/// is forwarded to the recipient's client. Players and rooms never change.
pub open spec fn message_spec(
    pre: EngineView,
    client: ClientId,
    sender: Seq<char>,
    recipient: Seq<char>,
    message: Seq<char>,
) -> EngineView {
    let j = name_index(pre.players, recipient);
    if j < 0 {
        emitted(pre, error_out(client, ERR_OTHER, "Player not found"@))
    } else if !may_act(pre.players[j].character.flags) {
        emitted(pre, not_started_out(client))
    } else {
        match pre.players[j].client {
            None => emitted(pre, error_out(client, ERR_OTHER, "Not connected"@)),
            Some(to) => emitted(
                pre,
                OutputView::SendMessage {
                    client: to,
                    sender_name: sender,
                    recipient_name: recipient,
                    message,
                    narration: false,
                },
            ),
        }
    }
}

impl GameEngine {
    /// Forwards a message to its recipient, if the recipient exists, may act
    /// and is connected.
    pub(crate) fn handle_message(
        &mut self,
        client: ClientId,
        sender_name: String,
        recipient_name: String,
        message: String,
    )
        ensures
            final(self)@ == message_spec(old(self)@, client, sender_name@, recipient_name@, message@),
    {
        let j = match find_name(&self.players, &recipient_name) {
            Some(j) => j,
            None => {
                self.emit(Output::SendError {
                        client,
                        error_code: lurk_error(ERR_OTHER),
                        message: String::from_str("Player not found"),
                    },
                );
                return;
            },
        };
        proof {
            crate::model::lemma_name_index(self@.players, recipient_name@);
        }
        let snapshot = self.players[j].clone();
        if !self.ensure_started(&snapshot, client) {
            return;
        }
        match snapshot.client {
            None => {
                self.emit(Output::SendError {
                        client,
                        error_code: lurk_error(ERR_OTHER),
                        message: String::from_str("Not connected"),
                    },
                );
            },
            Some(to) => {
                self.emit(Output::SendMessage {
                        client: to,
                        sender_name,
                        recipient_name,
                        message,
                        narration: false,
                    },
                );
            },
        }
    }
}

} // verus!
