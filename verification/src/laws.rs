//! Properties of the engine as a whole: what every input keeps, and what
//! follows from two inputs in a row. Each is stated over the handlers'
//! contracts (`handled`) and proved from them.

use crate::engine::{accepts, handled, polled, polled_times, EngineView};
use crate::input::Input;
use crate::engine::fight::{
    attack_sum, battle_alerts, battle_members, clamp_i16, fight_engages, sat_sub_i16, sat_sub_u16,
    lemma_target_index, lemma_target_is_least, target_index, target_lt,
};
use crate::engine::loot::{loot_fits, loot_transfers};
use crate::model::{
    add_member, arrive, client_index, contents_outputs, depart, exit_sends, exits,
    lemma_add_member_contains, lemma_client_index, lemma_client_index_update,
    lemma_increasing_unique, lemma_insert_to_set_names, lemma_monster_index, lemma_name_index,
    lemma_name_index_unique, lemma_remove_absent, lemma_remove_member_excludes,
    lemma_remove_member_to_set, lists_keys, may_act, may_start, monster_index, other_than,
    player_sends, remove_member, room_info, unique_names, with_exit_listing,
};
use crate::output::{accept_character_out, OutputView, ERR_BADMONSTER, ERR_OTHER};
use crate::protocol::{has_bit, lurk_error_of, ready_bit, started_bit};
use crate::state::{CharacterView, ConnectionView, MonsterView, PlayerView, RoomView};
use crate::types::ClientId;
use vstd::prelude::*;

verus! {

/// An output sequence made of `before`, an exit listing and `after` starts
/// with `before`.
proof fn lemma_listing_keeps_front()
    ensures
        forall|out: Seq<OutputView>, before: Seq<OutputView>, conns: Map<u16, ConnectionView>, client: ClientId, after: Seq<OutputView>|
            #[trigger] with_exit_listing(out, before, conns, client, after) ==> before.len() <= out.len()
                && forall|j: int| 0 <= j < before.len() ==> out[j] == before[j],
{
    assert forall|out: Seq<OutputView>, before: Seq<OutputView>, conns: Map<u16, ConnectionView>, client: ClientId, after: Seq<OutputView>|
        #[trigger] with_exit_listing(out, before, conns, client, after) implies before.len() <= out.len()
            && forall|j: int| 0 <= j < before.len() ==> out[j] == before[j] by {
        let ks = choose|ks: Seq<u16>|
            #![trigger exit_sends(ks, conns, client)]
            lists_keys(ks, conns) && out == before + exit_sends(ks, conns, client) + after;
        assert forall|j: int| 0 <= j < before.len() implies out[j] == before[j] by {
            assert(out[j] == (before + exit_sends(ks, conns, client) + after)[j]);
        }
    }
}

/// Two output sequences made of the same `before`, a listing of the same
/// exits to the same client and the same `after` are equal: the listing is
/// in ascending order of destination room, so there is only one.
proof fn lemma_listings_agree()
    ensures
        forall|out1: Seq<OutputView>, out2: Seq<OutputView>, before: Seq<OutputView>, conns: Map<u16, ConnectionView>, client: ClientId, after: Seq<OutputView>|
            #![trigger with_exit_listing(out1, before, conns, client, after), with_exit_listing(out2, before, conns, client, after)]
            with_exit_listing(out1, before, conns, client, after) && with_exit_listing(out2, before, conns, client, after)
                ==> out1 == out2,
{
    assert forall|out1: Seq<OutputView>, out2: Seq<OutputView>, before: Seq<OutputView>, conns: Map<u16, ConnectionView>, client: ClientId, after: Seq<OutputView>|
        with_exit_listing(out1, before, conns, client, after) && with_exit_listing(out2, before, conns, client, after)
        implies out1 == out2 by {
        let ks1 = choose|ks: Seq<u16>|
            #![trigger exit_sends(ks, conns, client)]
            lists_keys(ks, conns) && out1 == before + exit_sends(ks, conns, client) + after;
        let ks2 = choose|ks: Seq<u16>|
            #![trigger exit_sends(ks, conns, client)]
            lists_keys(ks, conns) && out2 == before + exit_sends(ks, conns, client) + after;
        lemma_increasing_unique(ks1, ks2);
    }
}

/// Two runs of the same input on the same state agree on everything: the
/// players, the rooms, the configuration and every queued output.
pub proof fn lemma_deterministic(pre: EngineView, input: Input, post1: EngineView, post2: EngineView)
    requires
        handled(pre, input, post1),
        handled(pre, input, post2),
    ensures
        post1 == post2,
{
    lemma_listings_agree();
}

/// One step of the event loop from `pre` to `post`: an input handled
/// (`Some`), or one output polled (`None`).
pub open spec fn stepped(pre: EngineView, step: Option<Input>, post: EngineView) -> bool {
    match step {
        Some(input) => handled(pre, input, post),
        None => post == polled(pre),
    }
}

/// `states` is a run of `steps`: each state follows the one before it by
/// the step at that position.
pub open spec fn is_run(states: Seq<EngineView>, steps: Seq<Option<Input>>) -> bool {
    &&& states.len() == steps.len() + 1
    &&& forall|k: int| 0 <= k < steps.len() ==> #[trigger] stepped(states[k], steps[k], states[k + 1])
}

/// Two runs of the same steps, inputs handled and outputs polled in the
/// same order, from the same state pass through the same states: the same
/// players, rooms and configuration after every step, and the same queue,
/// so every poll hands out the same output.
pub proof fn lemma_runs_deterministic(s1: Seq<EngineView>, s2: Seq<EngineView>, steps: Seq<Option<Input>>)
    requires
        is_run(s1, steps),
        is_run(s2, steps),
        s1[0] == s2[0],
    ensures
        s1 == s2,
{
    lemma_runs_agree_upto(s1, s2, steps, steps.len());
    assert(s1 =~= s2);
}

/// Two runs of the same steps from the same state agree on their first
/// `n + 1` states.
proof fn lemma_runs_agree_upto(s1: Seq<EngineView>, s2: Seq<EngineView>, steps: Seq<Option<Input>>, n: nat)
    requires
        is_run(s1, steps),
        is_run(s2, steps),
        s1[0] == s2[0],
        n <= steps.len(),
    ensures
        forall|k: int| 0 <= k <= n ==> s1[k] == s2[k],
    decreases n,
{
    if n > 0 {
        lemma_runs_agree_upto(s1, s2, steps, (n - 1) as nat);
        let k = n - 1;
        assert(stepped(s1[k], steps[k], s1[k + 1]));
        assert(stepped(s2[k], steps[k], s2[k + 1]));
        match steps[k] {
            Some(input) => {
                lemma_deterministic(s1[k], input, s1[k + 1], s2[k + 1]);
            },
            None => {},
        }
    }
}

/// Handling an input never drops, changes or reorders the outputs already
/// queued: they stay at the front, and new ones go behind them.
pub proof fn lemma_outputs_only_appended(pre: EngineView, input: Input, post: EngineView)
    requires
        handled(pre, input, post),
    ensures
        pre.outputs.len() <= post.outputs.len(),
        post.outputs.take(pre.outputs.len() as int) == pre.outputs,
{
    let n = pre.outputs.len() as int;
    lemma_listing_keeps_front();
    assert(post.outputs.take(n) =~= pre.outputs);
}

/// Whether two views of a room agree on everything but who is present and
/// the monsters' state: number, title, description and exits.
pub open spec fn same_layout(a: RoomView, b: RoomView) -> bool {
    &&& a.room_number == b.room_number
    &&& a.title == b.title
    &&& a.description == b.description
    &&& a.connections == b.connections
}

/// No input changes the configuration, adds or removes a room, or changes
/// a room's number, title, description or exits.
pub proof fn lemma_rooms_keep_layout(pre: EngineView, input: Input, post: EngineView)
    requires
        handled(pre, input, post),
    ensures
        post.config == pre.config,
        post.rooms.dom() == pre.rooms.dom(),
        forall|k: u16| #[trigger] pre.rooms.contains_key(k) ==> same_layout(pre.rooms[k], post.rooms[k]),
{
    assert(post.rooms.dom() =~= pre.rooms.dom());
}

/// No input removes a player or changes the name at a position: players
/// are only added, at the end.
pub proof fn lemma_players_persist(pre: EngineView, input: Input, post: EngineView)
    requires
        handled(pre, input, post),
    ensures
        pre.players.len() <= post.players.len(),
        !(input is Character) ==> post.players.len() == pre.players.len(),
        post.players.len() <= pre.players.len() + 1,
        forall|j: int| 0 <= j < pre.players.len() ==> #[trigger] post.players[j].character.name
            == pre.players[j].character.name,
{
    match input {
        Input::Character { client, name, attack, defense, regen, description } => {
            lemma_name_index(pre.players, name@);
        },
        Input::Start { client } => {
            lemma_client_index(pre.players, client);
        },
        Input::ChangeRoom { client, room_number } => {
            lemma_client_index(pre.players, client);
        },
        Input::Fight { client } => {
            lemma_client_index(pre.players, client);
        },
        Input::Loot { client, target_name } => {
            lemma_client_index(pre.players, client);
        },
        Input::Leave { client } => {
            lemma_client_index(pre.players, client);
        },
        _ => {},
    }
}

/// No input gives two players the same name.
pub proof fn lemma_unique_names_kept(pre: EngineView, input: Input, post: EngineView)
    requires
        handled(pre, input, post),
        unique_names(pre.players),
    ensures
        unique_names(post.players),
{
    lemma_players_persist(pre, input, post);
    match input {
        Input::Character { client, name, attack, defense, regen, description } => {
            lemma_name_index(pre.players, name@);
            assert forall|i: int, j: int| 0 <= i < j < post.players.len() implies
                #[trigger] post.players[i].character.name != #[trigger] post.players[j].character.name by {
                if j == pre.players.len() {
                    assert(post.players[i].character.name == pre.players[i].character.name);
                }
            }
        },
        _ => {},
    }
}

/// Every player's attack, defense and regen add up to at most the
/// configured points.
pub open spec fn stats_within_points(e: EngineView) -> bool {
    forall|j: int|
        0 <= j < e.players.len() ==> #[trigger] e.players[j].character.attack + e.players[j].character.defense
            + e.players[j].character.regen <= e.config.initial_points
}

/// Once every player's stats are within the configured points, no input
/// puts one outside them.
pub proof fn lemma_stats_within_points_kept(pre: EngineView, input: Input, post: EngineView)
    requires
        handled(pre, input, post),
        stats_within_points(pre),
    ensures
        stats_within_points(post),
{
    match input {
        Input::Character { client, name, attack, defense, regen, description } => {
            lemma_name_index(pre.players, name@);
        },
        Input::Start { client } => {
            lemma_client_index(pre.players, client);
        },
        Input::ChangeRoom { client, room_number } => {
            lemma_client_index(pre.players, client);
        },
        Input::Fight { client } => {
            lemma_client_index(pre.players, client);
        },
        Input::Loot { client, target_name } => {
            lemma_client_index(pre.players, client);
        },
        Input::Leave { client } => {
            lemma_client_index(pre.players, client);
        },
        _ => {},
    }
}

/// Whether room `b`'s monsters are room `a`'s, none healthier or richer.
pub open spec fn monsters_no_better(a: RoomView, b: RoomView) -> bool {
    match (a.monsters, b.monsters) {
        (Some(x), Some(y)) => x.len() == y.len() && forall|m: int|
            0 <= m < x.len() ==> #[trigger] y[m].name == x[m].name && y[m].health <= x[m].health
                && y[m].gold <= x[m].gold,
        (None, None) => true,
        _ => false,
    }
}

/// No input heals a monster or gives it gold; monsters never appear,
/// vanish or change their names.
pub proof fn lemma_monsters_never_recover(pre: EngineView, input: Input, post: EngineView)
    requires
        handled(pre, input, post),
    ensures
        forall|k: u16| #[trigger] pre.rooms.contains_key(k) ==> monsters_no_better(pre.rooms[k], post.rooms[k]),
{
    match input {
        Input::Fight { client } => {
            if fight_engages(pre, client) {
                let i = client_index(pre.players, client);
                let r = pre.players[i].character.current_room;
                let ms = pre.rooms[r].monsters->0;
                let t = target_index(ms);
                let m = ms[t];
                let bm = battle_members(pre.players, r);
                let damage = clamp_i16(sat_sub_u16(attack_sum(pre.players, bm) as u16, m.defense));
                assert(damage >= 0);
                assert(sat_sub_i16(m.health, damage) <= m.health);
                lemma_target_index(ms);
                assert forall|k: u16| #[trigger] pre.rooms.contains_key(k) implies monsters_no_better(pre.rooms[k], post.rooms[k]) by {
                    if k == r {
                        let m2 = MonsterView { health: sat_sub_i16(m.health, damage), ..m };
                        assert(post.rooms[k].monsters->0 == ms.update(t, m2));
                    }
                }
            }
        },
        Input::Loot { client, target_name } => {
            if loot_transfers(pre, client, target_name@) {
                let i = client_index(pre.players, client);
                let r = pre.players[i].character.current_room;
                let ms = pre.rooms[r].monsters->0;
                lemma_monster_index(ms, target_name@);
            }
        },
        _ => {},
    }
}

/// A fight that reaches the exchange of blows strikes exactly one monster:
/// the first living one of least (health, name) in the attacker's room. It
/// loses the joined attack less its defense (at most `i16::MAX`, saturating
/// at `i16::MIN`); every other monster, the rest of that room and every
/// other room stay as they were.
pub proof fn lemma_fight_strikes_least(pre: EngineView, client: ClientId, post: EngineView)
    requires
        handled(pre, Input::Fight { client }, post),
        fight_engages(pre, client),
    ensures
        ({
            let i = client_index(pre.players, client);
            let r = pre.players[i].character.current_room;
            let ms = pre.rooms[r].monsters->0;
            let t = target_index(ms);
            let s = attack_sum(pre.players, battle_members(pre.players, r));
            let damage = clamp_i16(sat_sub_u16(s as u16, ms[t].defense));
            &&& 0 <= t < ms.len()
            &&& ms[t].health > 0
            &&& forall|j: int| 0 <= j < ms.len() && #[trigger] ms[j].health > 0 && j != t ==> target_lt(ms[t], ms[j])
                || (ms[j].health == ms[t].health && ms[j].name == ms[t].name && t < j)
            &&& post.rooms[r] == (RoomView {
                monsters: Some(ms.update(t, MonsterView { health: sat_sub_i16(ms[t].health, damage), ..ms[t] })),
                ..pre.rooms[r]
            })
            &&& post.rooms.dom() == pre.rooms.dom()
            &&& forall|k: u16| #[trigger] pre.rooms.contains_key(k) && k != r ==> post.rooms[k] == pre.rooms[k]
        }),
{
    let i = client_index(pre.players, client);
    let r = pre.players[i].character.current_room;
    lemma_target_is_least(pre.rooms[r].monsters->0);
    assert(post.rooms.dom() =~= pre.rooms.dom());
}

/// What looting a dead monster that still has gold does: the looter gains
/// exactly the monster's gold, and the monster is left with none.
pub proof fn lemma_loot_moves_gold(pre: EngineView, client: ClientId, target: String, post: EngineView)
    requires
        handled(pre, Input::Loot { client, target_name: target }, post),
        loot_fits(pre, client, target@),
        loot_transfers(pre, client, target@),
    ensures
        ({
            let i = client_index(pre.players, client);
            let r = pre.players[i].character.current_room;
            let ms = pre.rooms[r].monsters->0;
            let k = monster_index(ms, target@);
            &&& post.players[i].character.gold == pre.players[i].character.gold + ms[k].gold
            &&& post.rooms[r].monsters->0[k].gold == 0
        }),
{
    lemma_client_index(pre.players, client);
    let i = client_index(pre.players, client);
    let r = pre.players[i].character.current_room;
    lemma_monster_index(pre.rooms[r].monsters->0, target@);
}

/// A loot by a player that may act, in a room that exists, that moves no
/// gold (no monsters, no monster of that name, a living one, or one without
/// gold) is accepted whatever the player's gold, and only queues one error
/// for the client: `OTHER` when the room has no monsters, `BADMONSTER`
/// otherwise. The players, the rooms and the configuration stay as they are.
pub proof fn lemma_loot_refusals(pre: EngineView, client: ClientId, target: String, post: EngineView)
    requires
        handled(pre, Input::Loot { client, target_name: target }, post),
        client_index(pre.players, client) >= 0,
        may_act(pre.players[client_index(pre.players, client)].character.flags),
        pre.rooms.contains_key(pre.players[client_index(pre.players, client)].character.current_room),
        !loot_transfers(pre, client, target@),
    ensures
        accepts(pre, Input::Loot { client, target_name: target }),
        post.players == pre.players,
        post.rooms == pre.rooms,
        post.config == pre.config,
        post.outputs.len() == pre.outputs.len() + 1,
        post.outputs.drop_last() == pre.outputs,
        ({
            let r = pre.players[client_index(pre.players, client)].character.current_room;
            let code = if pre.rooms[r].monsters is None { ERR_OTHER } else { ERR_BADMONSTER };
            &&& post.outputs.last() is SendError
            &&& post.outputs.last()->SendError_client == client
            &&& post.outputs.last()->SendError_error_code == lurk_error_of(code)
        }),
{
    let i = client_index(pre.players, client);
    let r = pre.players[i].character.current_room;
    if pre.rooms[r].monsters is Some {
        lemma_monster_index(pre.rooms[r].monsters->0, target@);
    }
    assert(post.outputs.drop_last() =~= pre.outputs);
}

/// A player who left can come back through another client: submitting a
/// character under the same name, within the configured points, is accepted;
/// the player keeps its position, is ready again and has the new client.
pub proof fn lemma_rejoin_after_leave(
    pre: EngineView,
    client: ClientId,
    mid: EngineView,
    again: Input,
    post: EngineView,
)
    requires
        unique_names(pre.players),
        client_index(pre.players, client) >= 0,
        handled(pre, Input::Leave { client }, mid),
        again is Character,
        again->Character_name@ == pre.players[client_index(pre.players, client)].character.name,
        again->attack + again->defense + again->regen <= pre.config.initial_points,
        handled(mid, again, post),
    ensures
        ({
            let i = client_index(pre.players, client);
            &&& post.players.len() == pre.players.len()
            &&& post.players[i].client == Some(again->Character_client)
            &&& has_bit(post.players[i].character.flags, ready_bit())
            &&& post.outputs[mid.outputs.len() as int] == accept_character_out(again->Character_client)
        }),
{
    lemma_client_index(pre.players, client);
    let i = client_index(pre.players, client);
    lemma_unique_names_kept(pre, Input::Leave { client }, mid);
    lemma_players_persist(pre, Input::Leave { client }, mid);
    lemma_name_index_unique(mid.players, i);
    assert(0xC8u8 & 0x08u8 != 0) by (bit_vector);
    assert(0u8 & 0x10u8 == 0) by (bit_vector);
    assert(mid.players[i].character.flags == 0);
    assert(mid.config == pre.config);
}

/// The client an input comes from.
pub open spec fn input_client(input: Input) -> ClientId {
    match input {
        Input::ClientConnected { client } => client,
        Input::Character { client, .. } => client,
        Input::Start { client } => client,
        Input::ChangeRoom { client, .. } => client,
        Input::Fight { client } => client,
        Input::PvpFight { client, .. } => client,
        Input::Loot { client, .. } => client,
        Input::Message { client, .. } => client,
        Input::Leave { client } => client,
    }
}

/// Every error in `out` goes to `client`.
pub open spec fn errors_go_to(out: Seq<OutputView>, client: ClientId) -> bool {
    forall|j: int| 0 <= j < out.len() && #[trigger] out[j] is SendError ==> out[j]->SendError_client == client
}

/// Room contents hold no error.
proof fn lemma_contents_hold_no_error(ps: Seq<PlayerView>, room: RoomView, client: ClientId, other: ClientId)
    ensures
        errors_go_to(contents_outputs(ps, room, client), other),
{
    lemma_player_sends_hold_no_error(ps, room.players, client, other);
    let c = contents_outputs(ps, room, client);
    let a = player_sends(ps, room.players, client);
    assert forall|j: int| 0 <= j < c.len() && #[trigger] c[j] is SendError implies c[j]->SendError_client == other by {
        if j < a.len() {
            assert(c[j] == a[j]);
        }
    }
}

/// The characters sent for a room's players hold no error.
proof fn lemma_player_sends_hold_no_error(ps: Seq<PlayerView>, names: Seq<Seq<char>>, client: ClientId, other: ClientId)
    ensures
        errors_go_to(player_sends(ps, names, client), other),
    decreases names.len(),
{
    if names.len() > 0 {
        lemma_player_sends_hold_no_error(ps, names.drop_last(), client, other);
    }
}

/// Every error that an input causes goes to the client the input came from.
pub proof fn lemma_errors_go_to_sender(pre: EngineView, input: Input, post: EngineView)
    requires
        handled(pre, input, post),
    ensures
        errors_go_to(post.outputs.skip(pre.outputs.len() as int), input_client(input)),
{
    lemma_outputs_only_appended(pre, input, post);
    let n = pre.outputs.len() as int;
    let c = input_client(input);
    let new = post.outputs.skip(n);
    match input {
        Input::Start { client } => {
            let i = client_index(pre.players, client);
            if i >= 0 && may_start(pre.players[i].character.flags) {
                let p = pre.players[i];
                let ch = CharacterView { flags: p.character.flags | crate::protocol::started_bit(), ..p.character };
                let players = pre.players.update(i, PlayerView { character: ch, client: p.client });
                let rooms = arrive(pre.rooms, 0, ch.name);
                let conns = exits(rooms, 0);
                let head = seq![
                    OutputView::SendCharacter { client, character: ch },
                    OutputView::AlertRoom { room_number: 0, character: ch },
                    OutputView::Broadcast { message: ch.name + " has started the game!"@ },
                ] + if rooms.contains_key(0) {
                    seq![OutputView::SendRoom { client, room: room_info(rooms[0]) }]
                } else {
                    seq![]
                };
                let tail = if rooms.contains_key(0) {
                    contents_outputs(players, rooms[0], client)
                } else {
                    seq![]
                };
                let ks = choose|ks: Seq<u16>|
                    #![trigger exit_sends(ks, conns, client)]
                    lists_keys(ks, conns) && post.outputs == pre.outputs + head + exit_sends(ks, conns, client) + tail;
                if rooms.contains_key(0) {
                    lemma_contents_hold_no_error(players, rooms[0], client, c);
                }
                lemma_new_outputs_parts(pre.outputs, head, exit_sends(ks, conns, client), tail, c);
            } else {
                assert(errors_go_to(new, c));
            }
        },
        Input::ChangeRoom { client, room_number } => {
            let nxt = room_number;
            let i = client_index(pre.players, client);
            if i >= 0 {
                let p = pre.players[i];
                let cur = p.character.current_room;
                if may_act(p.character.flags) && cur != nxt && pre.rooms.contains_key(cur)
                    && pre.rooms[cur].connections.contains_key(nxt) {
                    let ch = CharacterView { current_room: nxt, ..p.character };
                    let players = pre.players.update(i, PlayerView { character: ch, client: p.client });
                    let rooms = arrive(depart(pre.rooms, cur, ch.name), nxt, ch.name);
                    let conns = exits(rooms, nxt);
                    let head = (if rooms.contains_key(nxt) {
                        seq![OutputView::SendRoom { client, room: room_info(rooms[nxt]) }]
                    } else {
                        seq![]
                    }) + seq![
                        OutputView::SendCharacter { client, character: ch },
                        OutputView::AlertRoom { room_number: cur, character: ch },
                        OutputView::AlertRoom { room_number: nxt, character: ch },
                    ];
                    let tail = if rooms.contains_key(nxt) {
                        contents_outputs(players, rooms[nxt], client)
                    } else {
                        seq![]
                    };
                    let ks = choose|ks: Seq<u16>|
                        #![trigger exit_sends(ks, conns, client)]
                        lists_keys(ks, conns) && post.outputs == pre.outputs + head + exit_sends(ks, conns, client) + tail;
                    if rooms.contains_key(nxt) {
                        lemma_contents_hold_no_error(players, rooms[nxt], client, c);
                    }
                    lemma_new_outputs_parts(pre.outputs, head, exit_sends(ks, conns, client), tail, c);
                } else {
                    assert(errors_go_to(new, c));
                }
            } else {
                assert(errors_go_to(new, c));
            }
        },
        Input::Fight { client } => {
            let i = client_index(pre.players, client);
            if i >= 0 {
                let r = pre.players[i].character.current_room;
                let bm = battle_members(pre.players, r);
                let alerts_seq = battle_alerts(post.players, bm, r);
                assert forall|j: int| 0 <= j < new.len() && #[trigger] new[j] is SendError implies new[j]->SendError_client == c by {
                    if fight_engages(pre, client) {
                        if 2 <= j < 2 + alerts_seq.len() {
                            assert(new[j] == alerts_seq[j - 2]);
                        }
                    }
                }
            }
        },
        _ => {},
    }
}

/// The new outputs made of three parts of which only the first holds
/// errors, all to `c`, send every error to `c`.
proof fn lemma_new_outputs_parts(
    before: Seq<OutputView>,
    head: Seq<OutputView>,
    middle: Seq<OutputView>,
    tail: Seq<OutputView>,
    c: ClientId,
)
    requires
        errors_go_to(head, c),
        forall|j: int| 0 <= j < middle.len() ==> #[trigger] middle[j] is SendConnection,
        errors_go_to(tail, c),
    ensures
        errors_go_to((before + head + middle + tail).skip(before.len() as int), c),
{
    let all = (before + head + middle + tail).skip(before.len() as int);
    assert(all =~= head + middle + tail);
    assert forall|j: int| 0 <= j < all.len() && #[trigger] all[j] is SendError implies all[j]->SendError_client == c by {
        if j < head.len() {
            assert(all[j] == head[j]);
        } else if j < head.len() + middle.len() {
            assert(all[j] == middle[j - head.len()]);
        } else {
            assert(all[j] == tail[j - head.len() - middle.len()]);
        }
    }
}

/// Starting a ready player that has not started yet marks it started and,
/// when room 0 exists, puts it among room 0's players.
pub proof fn lemma_start_joins_room_zero(pre: EngineView, client: ClientId, post: EngineView)
    requires
        handled(pre, Input::Start { client }, post),
        client_index(pre.players, client) >= 0,
        may_start(pre.players[client_index(pre.players, client)].character.flags),
    ensures
        ({
            let i = client_index(pre.players, client);
            &&& has_bit(post.players[i].character.flags, started_bit())
            &&& pre.rooms.contains_key(0) ==> post.rooms[0].players.contains(pre.players[i].character.name)
        }),
{
    lemma_client_index(pre.players, client);
    let i = client_index(pre.players, client);
    let f = pre.players[i].character.flags;
    assert((f | 0x10u8) & 0x10u8 != 0) by (bit_vector);
    if pre.rooms.contains_key(0) {
        lemma_add_member_contains(pre.rooms[0].players, pre.players[i].character.name);
    }
}

/// A move through an exit takes the player out of its old room's players
/// and puts it among the new room's players.
pub proof fn lemma_move_changes_membership(pre: EngineView, client: ClientId, nxt: u16, post: EngineView)
    requires
        handled(pre, Input::ChangeRoom { client, room_number: nxt }, post),
        client_index(pre.players, client) >= 0,
        post.players[client_index(pre.players, client)].character.current_room
            != pre.players[client_index(pre.players, client)].character.current_room,
    ensures
        ({
            let i = client_index(pre.players, client);
            let cur = pre.players[i].character.current_room;
            let name = pre.players[i].character.name;
            &&& post.players[i].character.current_room == nxt
            &&& pre.rooms.contains_key(cur)
            &&& !post.rooms[cur].players.contains(name)
            &&& pre.rooms.contains_key(nxt) ==> post.rooms[nxt].players.contains(name)
        }),
{
    lemma_client_index(pre.players, client);
    let i = client_index(pre.players, client);
    let cur = pre.players[i].character.current_room;
    let name = pre.players[i].character.name;
    lemma_remove_member_excludes(pre.rooms[cur].players, name);
    if pre.rooms.contains_key(nxt) {
        lemma_add_member_contains(depart(pre.rooms, cur, name)[nxt].players, name);
    }
}

/// Moving through an exit and straight back undoes the move: a player that
/// may act, is among the players of its room `a` and not among those of a
/// room `b` that `a` and `b` connect both ways, ends in `a` again with every
/// player as before, and every room holds the same set of players as before
/// (the player now stands last in `a`), with nothing else changed.
pub proof fn lemma_move_there_and_back(
    pre: EngineView,
    client: ClientId,
    b: u16,
    mid: EngineView,
    post: EngineView,
)
    requires
        handled(pre, Input::ChangeRoom { client, room_number: b }, mid),
        handled(mid, Input::ChangeRoom { client, room_number: pre.players[client_index(pre.players, client)].character.current_room }, post),
        client_index(pre.players, client) >= 0,
        ({
            let p = pre.players[client_index(pre.players, client)];
            let a = p.character.current_room;
            &&& may_act(p.character.flags)
            &&& a != b
            &&& pre.rooms.contains_key(a)
            &&& pre.rooms.contains_key(b)
            &&& pre.rooms[a].connections.contains_key(b)
            &&& pre.rooms[b].connections.contains_key(a)
            &&& pre.rooms[a].players.contains(p.character.name)
            &&& !pre.rooms[b].players.contains(p.character.name)
        }),
    ensures
        post.players == pre.players,
        post.rooms.dom() == pre.rooms.dom(),
        post.config == pre.config,
        forall|k: u16| #[trigger] pre.rooms.contains_key(k) ==> post.rooms[k].players.to_set()
            == pre.rooms[k].players.to_set()
            && post.rooms[k] == (RoomView { players: post.rooms[k].players, ..pre.rooms[k] }),
        forall|k: u16| #[trigger] pre.rooms.contains_key(k) && k != pre.players[client_index(pre.players, client)].character.current_room
            ==> post.rooms[k] == pre.rooms[k],
{
    lemma_client_index(pre.players, client);
    let i = client_index(pre.players, client);
    let p = pre.players[i];
    let a = p.character.current_room;
    let name = p.character.name;
    let c1 = CharacterView { current_room: b, ..p.character };
    let v1 = PlayerView { character: c1, client: p.client };
    lemma_client_index_update(pre.players, i, v1, client);
    assert(client_index(mid.players, client) == i);
    assert(mid.players[i] == v1);
    let c2 = CharacterView { current_room: a, ..c1 };
    assert(c2 == p.character);
    assert(post.players =~= pre.players);
    let s = pre.rooms[a].players;
    let t = pre.rooms[b].players;
    lemma_remove_member_excludes(s, name);
    lemma_remove_member_to_set(s, name);
    lemma_remove_absent(t, name);
    assert(add_member(t, name) == t.push(name));
    lemma_remove_member_to_set(t.push(name), name);
    let pred = other_than(name);
    t.lemma_filter_push(name, pred);
    assert(remove_member(t.push(name), name) == t);
    let r = remove_member(s, name);
    assert(add_member(r, name) == r.push(name));
    assert(r.push(name).to_set() =~= r.to_set().insert(name)) by {
        lemma_insert_to_set_names(r, name);
    }
    assert(s.to_set().contains(name));
    assert(s.to_set().remove(name).insert(name) =~= s.to_set());
    assert(post.rooms.dom() =~= pre.rooms.dom());
}

/// Only a new character resets a player's gold; no other input that the
/// engine accepts lowers it.
pub proof fn lemma_gold_never_drops(pre: EngineView, input: Input, post: EngineView)
    requires
        accepts(pre, input),
        handled(pre, input, post),
        !(input is Character),
    ensures
        forall|j: int| 0 <= j < pre.players.len() ==> #[trigger] post.players[j].character.gold
            >= pre.players[j].character.gold,
{
    lemma_players_persist(pre, input, post);
    match input {
        Input::Start { client } => {
            lemma_client_index(pre.players, client);
        },
        Input::ChangeRoom { client, room_number } => {
            lemma_client_index(pre.players, client);
        },
        Input::Fight { client } => {
            lemma_client_index(pre.players, client);
        },
        Input::Loot { client, target_name } => {
            lemma_client_index(pre.players, client);
            if loot_transfers(pre, client, target_name@) {
                let i = client_index(pre.players, client);
                let r = pre.players[i].character.current_room;
                lemma_monster_index(pre.rooms[r].monsters->0, target_name@);
            }
        },
        Input::Leave { client } => {
            lemma_client_index(pre.players, client);
        },
        _ => {},
    }
}

/// Polling `k` times, with at least `k` outputs queued, hands out the
/// oldest `k` outputs in the order they were queued (the `j`-th poll gets
/// the `j`-th output) and leaves the rest; the players, the rooms and the
/// configuration stay as they are. Once every output is handed out the
/// queue is empty, so the next poll gets nothing.
pub proof fn lemma_drain_in_order(e: EngineView, k: nat)
    requires
        k <= e.outputs.len(),
    ensures
        polled_times(e, k) == (EngineView { outputs: e.outputs.skip(k as int), ..e }),
        forall|j: nat| j < k ==> #[trigger] polled_times(e, j).outputs[0] == e.outputs[j as int],
        polled_times(e, e.outputs.len()).outputs.len() == 0,
{
    lemma_drain_prefix(e, k);
    lemma_drain_prefix(e, e.outputs.len());
    assert forall|j: nat| j < k implies #[trigger] polled_times(e, j).outputs[0] == e.outputs[j as int] by {
        lemma_drain_prefix(e, j);
    }
}

/// After `k` polls, with at least `k` outputs queued, what is left is the
/// queue without its first `k` outputs.
proof fn lemma_drain_prefix(e: EngineView, k: nat)
    requires
        k <= e.outputs.len(),
    ensures
        polled_times(e, k) == (EngineView { outputs: e.outputs.skip(k as int), ..e }),
    decreases k,
{
    if k > 0 {
        lemma_drain_prefix(e, (k - 1) as nat);
        assert(e.outputs.skip(k - 1).drop_first() =~= e.outputs.skip(k as int));
    } else {
        assert(e.outputs.skip(0) =~= e.outputs);
    }
}

} // verus!
