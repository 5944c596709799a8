//! Player-versus-player fights, which this server does not allow.

use super::{emitted, EngineView, GameEngine};
use crate::output::{error_out, Output, ERR_NOPLAYERCOMBAT};
use crate::protocol::lurk_error;
use crate::types::ClientId;
use vstd::prelude::*;

verus! {

/// The state after a request to fight a player: always refused with
/// `NOPLAYERCOMBAT`, nothing else changes.
pub open spec fn pvp_fight_spec(pre: EngineView, client: ClientId) -> EngineView {
    emitted(pre, error_out(client, ERR_NOPLAYERCOMBAT, "No player combat allowed"@))
}

impl GameEngine {
    /// Refuses a player-versus-player fight.
    pub(crate) fn handle_pvp_fight(&mut self, client: ClientId, _target_name: String)
        ensures
            final(self)@ == pvp_fight_spec(old(self)@, client),
    {
        self.emit(Output::SendError {
                client,
                error_code: lurk_error(ERR_NOPLAYERCOMBAT),
                message: String::from_str("No player combat allowed"),
            },
        );
    }
}

} // verus!
