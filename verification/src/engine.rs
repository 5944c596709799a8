//! The core sans-IO game engine: feed it [`Input`] events with
//! [`GameEngine::handle_input`], then drain the [`Output`] events with
//! [`GameEngine::poll_output`].

use crate::input::Input;
use crate::model::{
    arrive, client_index, contents_outputs, depart, exit_sends, exits, increasing,
    lemma_client_index, lemma_insert_to_set, lemma_name_index, lists_keys, may_act, may_start,
    monster_sends, name_index, player_sends, room_info, unique_names, with_exit_listing,
};
use crate::output::{error_out, ConnectionInfo, Output, OutputView, RoomInfo, ERR_NOTREADY};
use crate::protocol::{flag_bits, is_ready, is_started, lurk_error};
use crate::roster::{members, roster_get, roster_insert, roster_len, roster_remove};
use crate::state::{monster_views, GameConfig, PlayerState, PlayerView, Room, RoomView};
use crate::types::ClientId;
use std::collections::{HashMap, VecDeque};
use vstd::prelude::*;
use vstd::std_specs::iter::IteratorSpec;

pub mod change_room;
pub mod character;
pub mod fight;
pub mod leave;
pub mod loot;
pub mod message;
pub mod pvp_fight;
pub mod start;

verus! {

broadcast use vstd::std_specs::hash::group_hash_axioms;

/// The core sans-IO game engine.
///
/// It holds the whole game state in memory, accepts [`Input`] events,
/// changes the state and queues the [`Output`] events that the event loop
/// must carry out.
pub struct GameEngine {
    pub(crate) players: Vec<PlayerState>,
    pub(crate) rooms: HashMap<u16, Room>,
    pub(crate) config: GameConfig,
    pub(crate) outputs: VecDeque<Output>,
}

/// The view of a [`GameEngine`]: the players in registration order, the
/// rooms by number, the configuration and the queued outputs, oldest first.
#[verifier::ext_equal]
pub struct EngineView {
    pub players: Seq<PlayerView>,
    pub rooms: Map<u16, RoomView>,
    pub config: GameConfig,
    pub outputs: Seq<OutputView>,
}

/// The views of a list of players.
pub open spec fn player_views(s: Seq<PlayerState>) -> Seq<PlayerView> {
    s.map_values(|p: PlayerState| p@)
}

/// The views of a map of rooms.
pub open spec fn room_views(m: Map<u16, Room>) -> Map<u16, RoomView> {
    m.map_values(|r: Room| r@)
}

/// The views of a queue of outputs.
pub open spec fn output_views(s: Seq<Output>) -> Seq<OutputView> {
    s.map_values(|o: Output| o@)
}

impl View for GameEngine {
    type V = EngineView;

    closed spec fn view(&self) -> EngineView {
        EngineView {
            players: player_views(self.players@),
            rooms: room_views(self.rooms@),
            config: self.config,
            outputs: output_views(self.outputs@),
        }
    }
}

/// `e` with one more output queued.
pub open spec fn emitted(e: EngineView, o: OutputView) -> EngineView {
    EngineView { outputs: e.outputs.push(o), ..e }
}

/// The state `e` after one poll: the oldest output gone, if there was one.
pub open spec fn polled(e: EngineView) -> EngineView {
    if e.outputs.len() == 0 {
        e
    } else {
        EngineView { outputs: e.outputs.drop_first(), ..e }
    }
}

/// The state `e` after `k` polls in a row.
pub open spec fn polled_times(e: EngineView, k: nat) -> EngineView
    decreases k,
{
    if k == 0 {
        e
    } else {
        polled(polled_times(e, (k - 1) as nat))
    }
}

/// The error sent when a player has not supplied a valid character.
pub open spec fn not_ready_out(client: ClientId) -> OutputView {
    error_out(client, ERR_NOTREADY, "Supply a valid player first!"@)
}

/// The error sent when a player may not act yet.
pub open spec fn not_started_out(client: ClientId) -> OutputView {
    error_out(client, ERR_NOTREADY, "Start the game first!"@)
}

/// Queues `o` at the back of `outputs`.
pub(crate) fn push_output(outputs: &mut VecDeque<Output>, o: Output)
    ensures
        output_views(final(outputs)@) == output_views(old(outputs)@).push(o@),
{
    outputs.push_back(o);
    assert(output_views(outputs@) =~= output_views(old(outputs)@).push(o@));
}

/// Once a prefix ending at a match is found, the whole sequence agrees.
proof fn lemma_take_prefix_client(ps: Seq<PlayerView>, i: int, client: ClientId)
    requires
        0 <= i < ps.len(),
        client_index(ps.take(i), client) == -1,
        ps[i].client == Some(client),
    ensures
        client_index(ps, client) == i,
{
    assert(ps.take(i + 1).drop_last() =~= ps.take(i));
    assert(client_index(ps.take(i + 1), client) == i);
    lemma_client_index(ps, client);
    lemma_client_index(ps.take(i + 1), client);
    lemma_client_index(ps.take(i), client);
    let r = client_index(ps, client);
    if r < i {
        assert(ps.take(i)[r] == ps[r]);
    }
}

/// The position of the first player named `name`, if any.
pub(crate) fn find_name(players: &Vec<PlayerState>, name: &String) -> (r: Option<usize>)
    ensures
        match r {
            Some(i) => i == name_index(player_views(players@), name@),
            None => name_index(player_views(players@), name@) == -1,
        },
{
    let ghost ps = player_views(players@);
    let mut i: usize = 0;
    while i < players.len()
        invariant
            i <= players.len(),
            ps == player_views(players@),
            name_index(ps.take(i as int), name@) == -1,
        decreases players.len() - i,
    {
        assert(ps.take(i + 1).drop_last() =~= ps.take(i as int));
        if players[i].character.name.eq(name) {
            proof {
                lemma_take_prefix_name(ps, i as int, name@);
            }
            return Some(i);
        }
        i = i + 1;
    }
    assert(ps.take(i as int) =~= ps);
    None
}

/// Once a prefix ending at a match is found, the whole sequence agrees.
proof fn lemma_take_prefix_name(ps: Seq<PlayerView>, i: int, name: Seq<char>)
    requires
        0 <= i < ps.len(),
        name_index(ps.take(i), name) == -1,
        ps[i].character.name == name,
    ensures
        name_index(ps, name) == i,
{
    assert(ps.take(i + 1).drop_last() =~= ps.take(i));
    assert(name_index(ps.take(i + 1), name) == i);
    lemma_name_index(ps, name);
    lemma_name_index(ps.take(i + 1), name);
    lemma_name_index(ps.take(i), name);
    let r = name_index(ps, name);
    if r < i {
        assert(ps.take(i)[r] == ps[r]);
    }
}

/// Queues the information of `room` for `client`.
pub(crate) fn send_room(outputs: &mut VecDeque<Output>, client: ClientId, room: &Room)
    ensures
        output_views(final(outputs)@) == output_views(old(outputs)@).push(
            OutputView::SendRoom { client, room: room_info(room@) },
        ),
{
    push_output(outputs, Output::SendRoom { client, room: RoomInfo::from(room) });
}

/// Queues, for `client`, the character of every player present in `room`
/// (in arrival order), then of every monster living there.
pub(crate) fn send_room_contents(
    outputs: &mut VecDeque<Output>,
    players: &Vec<PlayerState>,
    client: ClientId,
    room: &Room,
)
    ensures
        output_views(final(outputs)@) == output_views(old(outputs)@) + contents_outputs(
            player_views(players@),
            room@,
            client,
        ),
{
    let ghost ps = player_views(players@);
    let ghost names = members(room.players);
    let n = roster_len(&room.players);
    let mut i: usize = 0;
    while i < n
        invariant
            i <= n,
            n == names.len(),
            ps == player_views(players@),
            names == members(room.players),
            output_views(outputs@) == output_views(old(outputs)@) + player_sends(
                ps,
                names.take(i as int),
                client,
            ),
        decreases n - i,
    {
        assert(names.take(i + 1).drop_last() =~= names.take(i as int));
        let name = roster_get(&room.players, i).unwrap();
        match find_name(players, name) {
            Some(j) => {
                proof {
                    lemma_name_index(ps, name@);
                }
                push_output(outputs, Output::SendCharacter { client, character: players[j].character.clone() });
            },
            None => {},
        }
        i = i + 1;
    }
    assert(names.take(n as int) =~= names);
    match &room.monsters {
        Some(ms) => {
            let ghost start = output_views(outputs@);
            let ghost mvs = monster_views(ms@);
            let mut k: usize = 0;
            while k < ms.len()
                invariant
                    k <= ms.len(),
                    mvs == monster_views(ms@),
                    output_views(outputs@) == start + monster_sends(mvs.take(k as int), client),
                decreases ms.len() - k,
            {
                assert(monster_sends(mvs.take(k + 1), client) =~= monster_sends(mvs.take(k as int), client).push(
                    OutputView::SendCharacter { client, character: crate::state::monster_character(mvs[k as int]) }));
                push_output(outputs, Output::SendCharacter { client, character: ms[k].to_character() });
                k = k + 1;
            }
            assert(mvs.take(ms.len() as int) =~= mvs);
        },
        None => {
            assert(output_views(outputs@) =~= output_views(outputs@) + seq![]);
        },
    }
}

/// Queues, for `client`, every exit of room `room_id` (none if there is no
/// such room), in ascending order of destination room.
pub(crate) fn send_connections(
    outputs: &mut VecDeque<Output>,
    rooms: &HashMap<u16, Room>,
    client: ClientId,
    room_id: u16,
)
    ensures
        with_exit_listing(
            output_views(final(outputs)@),
            output_views(old(outputs)@),
            exits(room_views(rooms@), room_id),
            client,
            seq![],
        ),
{
    let ghost conns = exits(room_views(rooms@), room_id);
    match rooms.get(&room_id) {
        None => {
            let ghost ks: Seq<u16> = seq![];
            assert(ks.to_set() =~= conns.dom());
            assert(output_views(outputs@) =~= output_views(old(outputs)@) + exit_sends(ks, conns, client) + seq![]);
            assert(lists_keys(ks, conns));
        },
        Some(room) => {
            let ghost mut ks: Seq<u16> = seq![];
            let ghost all = vstd::std_specs::hash::spec_keys_iter(&room.connections).remaining();
            proof {
                vstd::std_specs::hash::axiom_spec_keys_iter(&room.connections);
            }
            let mut sorted: Vec<u16> = Vec::new();
            for k in it: room.connections.keys()
                invariant
                    conns == room@.connections,
                    it.seq() == all,
                    all.unref().to_set() == conns.dom(),
                    all.no_duplicates(),
                    ks.len() == it.index(),
                    forall|j: int| 0 <= j < ks.len() ==> ks[j] == *all[j],
                    increasing(sorted@),
                    sorted@.to_set() == ks.to_set(),
            {
                let key = *k;
                proof {
                    assert(!ks.to_set().contains(key)) by {
                        if ks.to_set().contains(key) {
                            let j = choose|j: int| 0 <= j < ks.len() && ks[j] == key;
                            assert(all[j] != all[ks.len() as int]);
                        }
                    }
                }
                let mut p: usize = 0;
                while p < sorted.len() && sorted[p] < key
                    invariant
                        p <= sorted@.len(),
                        forall|q: int| 0 <= q < p ==> sorted@[q] < key,
                    decreases sorted@.len() - p,
                {
                    p = p + 1;
                }
                proof {
                    if p < sorted@.len() {
                        assert(sorted@[p as int] != key) by {
                            assert(sorted@.to_set().contains(sorted@[p as int]));
                        }
                    }
                    lemma_insert_to_set(sorted@, p as int, key);
                    lemma_insert_to_set(ks, ks.len() as int, key);
                    assert(ks.insert(ks.len() as int, key) =~= ks.push(key));
                }
                sorted.insert(p, key);
                proof {
                    ks = ks.push(key);
                }
            }
            assert(ks.len() == all.len());
            proof {
                assert(ks =~= all.unref());
            }
            let ghost start = output_views(outputs@);
            let mut q: usize = 0;
            while q < sorted.len()
                invariant
                    q <= sorted@.len(),
                    conns == room@.connections,
                    sorted@.to_set() == conns.dom(),
                    output_views(outputs@) == start + exit_sends(sorted@.take(q as int), conns, client),
                decreases sorted@.len() - q,
            {
                let key = sorted[q];
                proof {
                    assert(sorted@.to_set().contains(key));
                    assert(exit_sends(sorted@.take(q + 1), conns, client) =~= exit_sends(sorted@.take(q as int), conns, client).push(
                        OutputView::SendConnection { client, connection: conns[key] }));
                }
                let c = room.connections.get(&key).unwrap();
                push_output(outputs, Output::SendConnection { client, connection: ConnectionInfo::from(c) });
                q = q + 1;
            }
            proof {
                assert(sorted@.take(sorted@.len() as int) =~= sorted@);
                assert(lists_keys(sorted@, conns));
                assert(output_views(outputs@) =~= output_views(old(outputs)@) + exit_sends(sorted@, conns, client) + seq![]);
            }
        },
    }
}

/// Records that `name` arrived in room `k` (nothing if there is no such
/// room).
pub(crate) fn arrive_room(rooms: &mut HashMap<u16, Room>, k: u16, name: &String)
    ensures
        room_views(final(rooms)@) == arrive(room_views(old(rooms)@), k, name@),
{
    match rooms.remove(&k) {
        Some(mut room) => {
            roster_insert(&mut room.players, name.clone());
            rooms.insert(k, room);
            assert(room_views(rooms@) =~= arrive(room_views(old(rooms)@), k, name@));
        },
        None => {},
    }
}

/// Records that `name` left room `k` (nothing if there is no such room).
pub(crate) fn depart_room(rooms: &mut HashMap<u16, Room>, k: u16, name: &String)
    ensures
        room_views(final(rooms)@) == depart(room_views(old(rooms)@), k, name@),
{
    match rooms.remove(&k) {
        Some(mut room) => {
            roster_remove(&mut room.players, name);
            rooms.insert(k, room);
            assert(room_views(rooms@) =~= depart(room_views(old(rooms)@), k, name@));
        },
        None => {},
    }
}

/// Whether `input` can be handled in state `pre` without an arithmetic
/// overflow: a fight must keep its joined attacks within a `u16` and have
/// someone in battle; a loot must keep the looter's gold within a `u16`.
pub open spec fn accepts(pre: EngineView, input: Input) -> bool {
    match input {
        Input::Fight { client } => fight::fight_fits(pre, client),
        Input::Loot { client, target_name } => loot::loot_fits(pre, client, target_name@),
        _ => true,
    }
}

/// What handling `input` in state `pre` leads to (`post`): a connection
/// changes nothing; every other input is handled as its handler states.
pub open spec fn handled(pre: EngineView, input: Input, post: EngineView) -> bool {
    match input {
        Input::ClientConnected { .. } => post == pre,
        Input::Character { client, name, attack, defense, regen, description } => post
            == character::character_spec(pre, client, name@, attack, defense, regen, description@),
        Input::Start { client } => start::start_post(pre, client, post),
        Input::ChangeRoom { client, room_number } => change_room::change_room_post(
            pre,
            client,
            room_number,
            post,
        ),
        Input::Fight { client } => post == fight::fight_spec(pre, client),
        Input::PvpFight { client, .. } => post == pvp_fight::pvp_fight_spec(pre, client),
        Input::Loot { client, target_name } => post == loot::loot_spec(pre, client, target_name@),
        Input::Message { client, sender_name, recipient_name, message } => post
            == message::message_spec(pre, client, sender_name@, recipient_name@, message@),
        Input::Leave { client } => post == leave::leave_spec(pre, client),
    }
}

impl GameEngine {
    /// Queues an output.
    pub(crate) fn emit(&mut self, o: Output)
        ensures
            final(self)@ == emitted(old(self)@, o@),
    {
        push_output(&mut self.outputs, o);
    }

    /// The position of the first player connected through `client`, if any.
    pub(crate) fn player_from_client(&self, client: ClientId) -> (r: Option<usize>)
        ensures
            match r {
                Some(i) => i == client_index(self@.players, client),
                None => client_index(self@.players, client) == -1,
            },
    {
        let ghost ps = self@.players;
        let mut i: usize = 0;
        while i < self.players.len()
            invariant
                i <= self.players.len(),
                ps == self@.players,
                client_index(ps.take(i as int), client) == -1,
            decreases self.players.len() - i,
        {
            assert(ps.take(i + 1).drop_last() =~= ps.take(i as int));
            if self.players[i].client == Some(client) {
                proof {
                    lemma_take_prefix_client(ps, i as int, client);
                }
                return Some(i);
            }
            i = i + 1;
        }
        assert(ps.take(i as int) =~= ps);
        None
    }


    /// Whether `input` can be handled now (see `accepts`): `false` exactly
    /// where handling it would overflow an integer.
    pub fn accepts_input(&self, input: &Input) -> (ok: bool)
        ensures
            ok == accepts(self@, *input),
    {
        match input {
            Input::Fight { client } => self.fight_fits_now(*client),
            Input::Loot { client, target_name } => self.loot_fits_now(*client, target_name),
            _ => true,
        }
    }

    /// Feeds an event into the engine; what it changes and queues is stated
    /// by `handled`.
    pub fn handle_input(&mut self, input: Input)
        requires
            accepts(old(self)@, input),
        ensures
            handled(old(self)@, input, final(self)@),
    {
        match input {
            Input::ClientConnected { .. } => {},
            Input::Character { client, name, attack, defense, regen, description } => {
                self.handle_character(client, name, attack, defense, regen, description)
            },
            Input::Start { client } => self.handle_start(client),
            Input::ChangeRoom { client, room_number } => self.handle_change_room(client, room_number),
            Input::Fight { client } => self.handle_fight(client),
            Input::PvpFight { client, target_name } => self.handle_pvp_fight(client, target_name),
            Input::Loot { client, target_name } => self.handle_loot(client, target_name),
            Input::Message { client, sender_name, recipient_name, message } => {
                self.handle_message(client, sender_name, recipient_name, message)
            },
            Input::Leave { client } => self.handle_leave(client),
        }
    }

    /// A new engine over the given rooms (the game world, with its monsters
    /// and exits) and configuration; no players, no outputs.
    pub fn new(rooms: HashMap<u16, Room>, config: GameConfig) -> (e: GameEngine)
        ensures
            e@ == (EngineView {
                players: seq![],
                rooms: room_views(rooms@),
                config,
                outputs: seq![],
            }),
    {
        let e = GameEngine { players: Vec::new(), rooms, config, outputs: VecDeque::new() };
        assert(e@.players =~= seq![]);
        assert(e@.outputs =~= seq![]);
        e
    }

    /// The players, in registration order.
    pub fn players(&self) -> (ps: &Vec<PlayerState>)
        ensures
            player_views(ps@) == self@.players,
    {
        &self.players
    }

    /// The players, for changing in place.
    pub fn players_mut(&mut self) -> (ps: &mut Vec<PlayerState>)
        ensures
            player_views(ps@) == old(self)@.players,
            final(self)@ == (EngineView { players: player_views(final(ps)@), ..old(self)@ }),
    {
        &mut self.players
    }

    /// Registers `player` under its character's name: it replaces the player
    /// of that name, where there is one, and is added last otherwise.
    pub fn insert_player(&mut self, player: PlayerState)
        ensures
            ({
                let j = name_index(old(self)@.players, player@.character.name);
                final(self)@ == (EngineView {
                    players: if j >= 0 {
                        old(self)@.players.update(j, player@)
                    } else {
                        old(self)@.players.push(player@)
                    },
                    ..old(self)@
                })
            }),
            unique_names(old(self)@.players) ==> unique_names(final(self)@.players),
    {
        proof {
            crate::model::lemma_name_index(self@.players, player@.character.name);
        }
        match find_name(&self.players, &player.character.name) {
            Some(j) => {
                self.players.set(j, player);
                assert(player_views(self.players@) =~= player_views(old(self).players@).update(j as int, player@));
            },
            None => {
                self.players.push(player);
                assert(player_views(self.players@) =~= player_views(old(self).players@).push(player@));
            },
        }
    }

    /// The rooms, for changing in place.
    pub fn rooms_mut(&mut self) -> (rs: &mut HashMap<u16, Room>)
        ensures
            room_views(rs@) == old(self)@.rooms,
            final(self)@ == (EngineView { rooms: room_views(final(rs)@), ..old(self)@ }),
    {
        &mut self.rooms
    }

    /// The rooms, by number.
    pub fn rooms(&self) -> (rs: &HashMap<u16, Room>)
        ensures
            room_views(rs@) == self@.rooms,
    {
        &self.rooms
    }

    /// Takes the oldest queued output; `None` when the queue is empty.
    pub fn poll_output(&mut self) -> (o: Option<Output>)
        ensures
            final(self)@ == polled(old(self)@),
            old(self)@.outputs.len() == 0 ==> o is None,
            old(self)@.outputs.len() > 0 ==> o is Some && o->0@ == old(self)@.outputs[0],
    {
        let o = self.outputs.pop_front();
        if o.is_some() {
            assert(output_views(self.outputs@) =~= output_views(old(self).outputs@).drop_first());
        }
        o
    }

    /// Checks that `player` is ready but has not started (`READY` set,
    /// `STARTED` not). If not, queues a `NOTREADY` error for `client` and
    /// returns `false`.
    pub fn ensure_ready(&mut self, player: &PlayerState, client: ClientId) -> (ok: bool)
        ensures
            ok == may_start(flag_bits(player.character.flags)),
            final(self)@ == if ok { old(self)@ } else { emitted(old(self)@, not_ready_out(client)) },
    {
        if !is_ready(&player.character.flags) || is_started(&player.character.flags) {
            self.emit(Output::SendError {
                    client,
                    error_code: lurk_error(ERR_NOTREADY),
                    message: String::from_str("Supply a valid player first!"),
                },
            );
            return false;
        }
        true
    }

    /// Checks that `player` may act: `STARTED` or `READY` is set. If not,
    /// queues a `NOTREADY` error for `client` and returns `false`.
    pub fn ensure_started(&mut self, player: &PlayerState, client: ClientId) -> (ok: bool)
        ensures
            ok == may_act(flag_bits(player.character.flags)),
            final(self)@ == if ok { old(self)@ } else { emitted(old(self)@, not_started_out(client)) },
    {
        if !is_started(&player.character.flags) && !is_ready(&player.character.flags) {
            self.emit(Output::SendError {
                    client,
                    error_code: lurk_error(ERR_NOTREADY),
                    message: String::from_str("Start the game first!"),
                },
            );
            return false;
        }
        true
    }
}

} // verus!
