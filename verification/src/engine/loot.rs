//! Looting dead monsters.

use super::{emitted, not_started_out, EngineView, GameEngine};
use crate::model::{client_index, lemma_monster_index, may_act, monster_index};
use crate::output::{error_out, Output, OutputView, ERR_BADMONSTER, ERR_OTHER};
use crate::protocol::lurk_error;
use crate::state::{
    monster_character, monster_views, CharacterView, Monster, MonsterView, PlayerView, Room, RoomView,
};
use crate::types::ClientId;
use vstd::prelude::*;

verus! {

/// Whether a loot by `client` of `target` reaches the transfer of gold: the
/// player exists and may act, its room exists and has monsters, the first
/// monster of that name is dead and still has gold.
pub open spec fn loot_transfers(pre: EngineView, client: ClientId, target: Seq<char>) -> bool {
    let i = client_index(pre.players, client);
    let r = pre.players[i].character.current_room;
    &&& i >= 0
    &&& may_act(pre.players[i].character.flags)
    &&& pre.rooms.contains_key(r)
    &&& pre.rooms[r].monsters is Some
    &&& monster_index(pre.rooms[r].monsters->0, target) >= 0
    &&& pre.rooms[r].monsters->0[monster_index(pre.rooms[r].monsters->0, target)].health <= 0
    &&& pre.rooms[r].monsters->0[monster_index(pre.rooms[r].monsters->0, target)].gold != 0
}

/// Whether the looter's gold, plus the monster's, still fits in a `u16`
/// when the loot reaches the transfer (the addition is unchecked otherwise).
pub open spec fn loot_fits(pre: EngineView, client: ClientId, target: Seq<char>) -> bool {
    loot_transfers(pre, client, target) ==> {
        let i = client_index(pre.players, client);
        let r = pre.players[i].character.current_room;
        let ms = pre.rooms[r].monsters->0;
        pre.players[i].character.gold + ms[monster_index(ms, target)].gold <= u16::MAX
    }
}

/// The state after `client` loots the monster named `target`.
///
/// Without a player of that client nothing happens; a player that may not
/// act gets `NOTREADY`; if its room does not exist nothing happens. A room
/// without monsters gives `OTHER`; no monster of that name, a living
/// monster, or one without gold give `BADMONSTER`. Otherwise the monster's
/// gold moves to the player, and the client gets both updated characters.
pub open spec fn loot_spec(pre: EngineView, client: ClientId, target: Seq<char>) -> EngineView {
    let i = client_index(pre.players, client);
    if i < 0 {
        pre
    } else {
        let p = pre.players[i];
        let r = p.character.current_room;
        if !may_act(p.character.flags) {
            emitted(pre, not_started_out(client))
        } else if !pre.rooms.contains_key(r) {
            pre
        } else {
            match pre.rooms[r].monsters {
                None => emitted(pre, error_out(client, ERR_OTHER, "No monsters to loot!"@)),
                Some(ms) => {
                    let k = monster_index(ms, target);
                    if k < 0 {
                        emitted(pre, error_out(client, ERR_BADMONSTER, "Monster doesn't exist!"@))
                    } else if ms[k].health > 0 {
                        emitted(pre, error_out(client, ERR_BADMONSTER, "Monster is still alive!"@))
                    } else if ms[k].gold == 0 {
                        emitted(pre, error_out(client, ERR_BADMONSTER, "Monster already looted!"@))
                    } else {
                        let m2 = MonsterView { gold: 0, ..ms[k] };
                        let c2 = CharacterView {
                            gold: (p.character.gold + ms[k].gold) as u16,
                            ..p.character
                        };
                        EngineView {
                            players: pre.players.update(i, PlayerView { character: c2, client: p.client }),
                            rooms: pre.rooms.insert(
                                r,
                                RoomView { monsters: Some(ms.update(k, m2)), ..pre.rooms[r] },
                            ),
                            outputs: pre.outputs + seq![
                                OutputView::SendCharacter { client, character: c2 },
                                OutputView::SendCharacter { client, character: monster_character(m2) },
                            ],
                            ..pre
                        }
                    }
                },
            }
        }
    }
}

/// The position of the first monster named `name`, if any.
fn find_monster(ms: &Vec<Monster>, name: &String) -> (r: Option<usize>)
    ensures
        match r {
            Some(k) => k == monster_index(monster_views(ms@), name@),
            None => monster_index(monster_views(ms@), name@) == -1,
        },
{
    let ghost mv = monster_views(ms@);
    let mut k: usize = 0;
    while k < ms.len()
        invariant
            k <= ms.len(),
            mv == monster_views(ms@),
            monster_index(mv.take(k as int), name@) == -1,
        decreases ms.len() - k,
    {
        assert(mv.take(k + 1).drop_last() =~= mv.take(k as int));
        if ms[k].name.eq(name) {
            proof {
                assert(monster_index(mv.take(k + 1), name@) == k);
                lemma_monster_index(mv, name@);
                lemma_monster_index(mv.take(k + 1), name@);
                let r = monster_index(mv, name@);
                if r < k {
                    assert(mv.take(k as int)[r] == mv[r]);
                    lemma_monster_index(mv.take(k as int), name@);
                }
            }
            return Some(k);
        }
        k = k + 1;
    }
    assert(mv.take(k as int) =~= mv);
    None
}

impl GameEngine {
    /// Moves the gold of a dead monster in the player's room to the player.
    pub(crate) fn handle_loot(&mut self, client: ClientId, target_name: String)
        requires
            loot_fits(old(self)@, client, target_name@),
        ensures
            final(self)@ == loot_spec(old(self)@, client, target_name@),
    {
        let i = match self.player_from_client(client) {
            Some(i) => i,
            None => {
                return;
            },
        };
        proof {
            crate::model::lemma_client_index(self@.players, client);
        }
        let current_room = self.players[i].character.current_room;
        let snapshot = self.players[i].clone();
        if !self.ensure_started(&snapshot, client) {
            return;
        }
        let k = match self.rooms.get(&current_room) {
            None => {
                return;
            },
            Some(room) => match &room.monsters {
                None => {
                    self.emit(Output::SendError {
                            client,
                            error_code: lurk_error(ERR_OTHER),
                            message: String::from_str("No monsters to loot!"),
                        },
                    );
                    return;
                },
                Some(ms) => {
                    let found = find_monster(ms, &target_name);
                    proof {
                        lemma_monster_index(monster_views(ms@), target_name@);
                    }
                    match found {
                        None => {
                            self.emit(Output::SendError {
                                    client,
                                    error_code: lurk_error(ERR_BADMONSTER),
                                    message: String::from_str("Monster doesn't exist!"),
                                },
                            );
                            return;
                        },
                        Some(k) => {
                            if ms[k].health > 0 {
                                self.emit(Output::SendError {
                                        client,
                                        error_code: lurk_error(ERR_BADMONSTER),
                                        message: String::from_str("Monster is still alive!"),
                                    },
                                );
                                return;
                            }
                            if ms[k].gold == 0 {
                                self.emit(Output::SendError {
                                        client,
                                        error_code: lurk_error(ERR_BADMONSTER),
                                        message: String::from_str("Monster already looted!"),
                                    },
                                );
                                return;
                            }
                            k
                        },
                    }
                },
            },
        };
        let ghost pre = old(self)@;
        let room = self.rooms.remove(&current_room).unwrap();
        let Room { room_number, title, connections, description, players, monsters } = room;
        let mut ms = monsters.unwrap();
        let gold = ms[k].gold;
        ms[k].gold = 0;
        let monster_character = ms[k].to_character();
        let ghost new_ms = ms@;
        self.rooms.insert(
            current_room,
            Room { room_number, title, connections, description, players, monsters: Some(ms) },
        );
        self.players[i].character.gold = self.players[i].character.gold + gold;
        let updated = self.players[i].character.clone();
        self.emit(Output::SendCharacter { client, character: updated });
        self.emit(Output::SendCharacter { client, character: monster_character });
        proof {
            let post = loot_spec(pre, client, target_name@);
            let mvs = pre.rooms[current_room].monsters->0;
            assert(monster_views(new_ms) =~= mvs.update(k as int, MonsterView { gold: 0, ..mvs[k as int] }));
            assert(self@.players =~= post.players);
            assert(self@.rooms =~= post.rooms);
            assert(self@.outputs =~= post.outputs);
        }
    }
}

} // verus!

verus! {

impl GameEngine {
    /// Whether a loot by `client` of `target` keeps the looter's gold within
    /// a `u16` (see `loot_fits`).
    pub(crate) fn loot_fits_now(&self, client: ClientId, target: &String) -> (ok: bool)
        ensures
            ok == loot_fits(self@, client, target@),
    {
        let i = match self.player_from_client(client) {
            Some(i) => i,
            None => {
                return true;
            },
        };
        proof {
            crate::model::lemma_client_index(self@.players, client);
        }
        let flags = &self.players[i].character.flags;
        if !(crate::protocol::is_started(flags) || crate::protocol::is_ready(flags)) {
            return true;
        }
        let r = self.players[i].character.current_room;
        match self.rooms.get(&r) {
            None => true,
            Some(room) => match &room.monsters {
                None => true,
                Some(ms) => {
                    let found = find_monster(ms, target);
                    proof {
                        lemma_monster_index(monster_views(ms@), target@);
                    }
                    match found {
                        None => true,
                        Some(k) => {
                            if ms[k].health > 0 || ms[k].gold == 0 {
                                true
                            } else {
                                self.players[i].character.gold.checked_add(ms[k].gold).is_some()
                            }
                        },
                    }
                },
            },
        }
    }
}

} // verus!
