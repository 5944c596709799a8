//! What single inputs send and record, stated over the fields of the state
//! and of the outputs: who joins a fight, what a room shows of its monsters,
//! where a departure is announced, how a message is delivered and what a
//! registration keeps.

use crate::engine::fight::{battle_alerts, battle_members, fight_engages};
use crate::engine::{handled, EngineView};
use crate::input::Input;
use crate::model::{
    arrive, client_index, contents_outputs, depart, exit_sends, exits, lemma_client_index,
    lemma_name_index, lists_keys, may_act, may_start, monster_sends, name_index, player_sends,
    room_info, with_exit_listing,
};
use crate::output::OutputView;
use crate::protocol::{alive_bit, battle_bit, has_bit, monster_bit, started_bit};
use crate::state::{
    default_character, monster_character, CharacterView, ConnectionView, MonsterView, PlayerView, RoomView,
};
use crate::types::{decimal, ClientId};
use vstd::prelude::*;

verus! {

/// The players who join a fight in room `r` are exactly those whose
/// character stands in room `r` with `BATTLE` set, each listed once, in
/// registration order.
pub proof fn lemma_battle_members_exact(ps: Seq<PlayerView>, r: u16)
    ensures
        forall|k: int| 0 <= k < battle_members(ps, r).len() ==> {
            let j = #[trigger] battle_members(ps, r)[k];
            &&& 0 <= j < ps.len()
            &&& has_bit(ps[j].character.flags, battle_bit())
            &&& ps[j].character.current_room == r
        },
        forall|j: int| 0 <= j < ps.len() && has_bit(#[trigger] ps[j].character.flags, battle_bit())
            && ps[j].character.current_room == r ==> battle_members(ps, r).contains(j),
        forall|a: int, b: int| 0 <= a < b < battle_members(ps, r).len() ==> battle_members(ps, r)[a]
            < battle_members(ps, r)[b],
    decreases ps.len(),
{
    if ps.len() > 0 {
        let init = ps.drop_last();
        lemma_battle_members_exact(init, r);
        let rest = battle_members(init, r);
        let bm = battle_members(ps, r);
        assert forall|j: int| 0 <= j < init.len() implies #[trigger] init[j] == ps[j] by {}
        assert forall|k: int| 0 <= k < bm.len() implies {
            let j = #[trigger] bm[k];
            &&& 0 <= j < ps.len()
            &&& has_bit(ps[j].character.flags, battle_bit())
            &&& ps[j].character.current_room == r
        } by {
            if k < rest.len() {
                assert(bm[k] == rest[k]);
                assert(init[rest[k]] == ps[rest[k]]);
            }
        }
        assert forall|j: int| 0 <= j < ps.len() && has_bit(#[trigger] ps[j].character.flags, battle_bit())
            && ps[j].character.current_room == r implies bm.contains(j) by {
            if j < init.len() {
                assert(init[j] == ps[j]);
                assert(rest.contains(j));
                let k = choose|k: int| 0 <= k < rest.len() && rest[k] == j;
                assert(bm[k] == j);
            } else {
                assert(bm[bm.len() - 1] == j);
            }
        }
        assert forall|a: int, b: int| 0 <= a < b < bm.len() implies bm[a] < bm[b] by {
            if b < rest.len() {
                assert(bm[a] == rest[a] && bm[b] == rest[b]);
            } else if a < rest.len() {
                assert(bm[a] == rest[a]);
                assert(0 <= rest[a] < init.len());
            }
        }
    }
}

/// In a fight that reaches the exchange of blows, the room is told of
/// exactly the players who stand in the attacker's room with `BATTLE` set:
/// after the two narrations comes one alert to that room for each of them,
/// in registration order, carrying its character as the fight left it, and
/// the second narration counts all of them but the attacker.
pub proof fn lemma_fight_alerts_room_battlers(pre: EngineView, client: ClientId, post: EngineView)
    requires
        handled(pre, Input::Fight { client }, post),
        fight_engages(pre, client),
    ensures
        ({
            let i = client_index(pre.players, client);
            let r = pre.players[i].character.current_room;
            let n = pre.outputs.len() as int;
            let bm = battle_members(pre.players, r);
            let alerts = post.outputs.subrange(n + 2, post.outputs.len() - 1);
            &&& post.outputs.len() == n + 3 + bm.len()
            &&& post.players.len() == pre.players.len()
            &&& post.outputs[n + 1] == (OutputView::Narrate {
                room_number: r,
                message: decimal((alerts.len() - 1) as nat) + " player(s) joining the fight"@,
                narration: false,
            })
            &&& forall|q: int| 0 <= q < alerts.len() ==> {
                let o = #[trigger] alerts[q];
                let j = bm[q];
                &&& o is AlertRoom
                &&& o->AlertRoom_room_number == r
                &&& 0 <= j < pre.players.len()
                &&& o->AlertRoom_character == post.players[j].character
                &&& o->AlertRoom_character.current_room == r
                &&& has_bit(o->AlertRoom_character.flags, battle_bit())
            }
            &&& forall|j: int| 0 <= j < pre.players.len() && has_bit(#[trigger] pre.players[j].character.flags, battle_bit())
                && pre.players[j].character.current_room == r ==> exists|q: int| 0 <= q < alerts.len()
                && #[trigger] bm[q] == j && alerts[q]->AlertRoom_character == post.players[j].character
        }),
{
    lemma_client_index(pre.players, client);
    let i = client_index(pre.players, client);
    let r = pre.players[i].character.current_room;
    let n = pre.outputs.len() as int;
    let bm = battle_members(pre.players, r);
    lemma_battle_members_exact(pre.players, r);
    let alerts = post.outputs.subrange(n + 2, post.outputs.len() - 1);
    let ms = pre.rooms[r].monsters->0;
    crate::engine::fight::lemma_target_index(ms);
    assert forall|q: int| 0 <= q < alerts.len() implies alerts[q] == battle_alerts(post.players, bm, r)[q] by {
        assert(alerts[q] == post.outputs[n + 2 + q]);
    }
    assert forall|j: int| 0 <= j < pre.players.len() implies #[trigger] post.players[j].character.flags
        == pre.players[j].character.flags && post.players[j].character.current_room
        == pre.players[j].character.current_room by {}
    assert forall|j: int| 0 <= j < pre.players.len() && has_bit(#[trigger] pre.players[j].character.flags, battle_bit())
        && pre.players[j].character.current_room == r implies exists|q: int| 0 <= q < alerts.len()
        && #[trigger] bm[q] == j && alerts[q]->AlertRoom_character == post.players[j].character by {
        assert(bm.contains(j));
        let q = choose|q: int| 0 <= q < bm.len() && bm[q] == j;
        assert(alerts[q] == battle_alerts(post.players, bm, r)[q]);
    }
}

/// What a client is shown of a monster is the monster itself: its name,
/// health, attack, defense, gold, room and description, no regeneration,
/// `MONSTER` and `BATTLE` set, and `ALIVE` set exactly when its health is
/// above zero.
pub proof fn lemma_monster_shown_as_is(m: MonsterView)
    ensures
        ({
            let c = monster_character(m);
            &&& c.name == m.name
            &&& c.health == m.health
            &&& c.attack == m.attack
            &&& c.defense == m.defense
            &&& c.gold == m.gold
            &&& c.current_room == m.current_room
            &&& c.description == m.description
            &&& c.regen == 0
            &&& has_bit(c.flags, monster_bit())
            &&& has_bit(c.flags, battle_bit())
            &&& has_bit(c.flags, alive_bit()) == (m.health > 0)
        }),
{
    assert(0x68u8 & 0x20u8 != 0 && 0x68u8 & 0x40u8 != 0 && 0x68u8 & 0x80u8 == 0) by (bit_vector);
    assert(0xE8u8 & 0x20u8 != 0 && 0xE8u8 & 0x40u8 != 0 && 0xE8u8 & 0x80u8 != 0) by (bit_vector);
}

/// The room contents end with one character per monster of the room, dead
/// or alive, in the room's order.
proof fn lemma_contents_end_with_monsters(ps: Seq<PlayerView>, room: RoomView, client: ClientId, ms: Seq<MonsterView>)
    requires
        room.monsters == Some(ms),
    ensures
        contents_outputs(ps, room, client).len() >= ms.len(),
        forall|k: int| 0 <= k < ms.len() ==> #[trigger] contents_outputs(ps, room, client)[
            contents_outputs(ps, room, client).len() - ms.len() + k]
            == (OutputView::SendCharacter { client, character: monster_character(ms[k]) }),
{
    let a = player_sends(ps, room.players, client);
    let b = monster_sends(ms, client);
    assert(contents_outputs(ps, room, client) == a + b);
    assert forall|k: int| 0 <= k < ms.len() implies #[trigger] (a + b)[(a + b).len() - ms.len() + k]
        == (OutputView::SendCharacter { client, character: monster_character(ms[k]) }) by {
        assert((a + b)[a.len() + k] == b[k]);
    }
}

/// An output sequence made of `before`, an exit listing and `tail` ends
/// with `tail`.
proof fn lemma_listing_ends_with(
    out: Seq<OutputView>,
    before: Seq<OutputView>,
    conns: Map<u16, ConnectionView>,
    client: ClientId,
    tail: Seq<OutputView>,
)
    requires
        with_exit_listing(out, before, conns, client, tail),
    ensures
        out.len() >= tail.len(),
        forall|k: int| 0 <= k < tail.len() ==> #[trigger] out[out.len() - tail.len() + k] == tail[k],
{
    let ks = choose|ks: Seq<u16>|
        #![trigger exit_sends(ks, conns, client)]
        lists_keys(ks, conns) && out == before + exit_sends(ks, conns, client) + tail;
    let head = before + exit_sends(ks, conns, client);
    assert forall|k: int| 0 <= k < tail.len() implies #[trigger] out[out.len() - tail.len() + k] == tail[k] by {
        assert((head + tail)[head.len() + k] == tail[k]);
    }
}

/// A move into a room shows the client every monster of that room, dead
/// or alive (a corpse can still be looted), as the last outputs, in the
/// room's order.
pub proof fn lemma_move_shows_every_monster(
    pre: EngineView,
    client: ClientId,
    nxt: u16,
    post: EngineView,
    ms: Seq<MonsterView>,
)
    requires
        handled(pre, Input::ChangeRoom { client, room_number: nxt }, post),
        client_index(pre.players, client) >= 0,
        post.players[client_index(pre.players, client)].character.current_room
            != pre.players[client_index(pre.players, client)].character.current_room,
        pre.rooms.contains_key(nxt),
        pre.rooms[nxt].monsters == Some(ms),
    ensures
        post.outputs.len() >= ms.len(),
        forall|k: int| 0 <= k < ms.len() ==> #[trigger] post.outputs[post.outputs.len() - ms.len() + k]
            == (OutputView::SendCharacter { client, character: monster_character(ms[k]) }),
{
    lemma_client_index(pre.players, client);
    let i = client_index(pre.players, client);
    let p = pre.players[i];
    let cur = p.character.current_room;
    let c = CharacterView { current_room: nxt, ..p.character };
    let players = pre.players.update(i, PlayerView { character: c, client: p.client });
    let rooms = arrive(depart(pre.rooms, cur, c.name), nxt, c.name);
    let tail = contents_outputs(players, rooms[nxt], client);
    assert(rooms[nxt].monsters == Some(ms));
    lemma_contents_end_with_monsters(players, rooms[nxt], client, ms);
    let head = (if rooms.contains_key(nxt) {
        seq![OutputView::SendRoom { client, room: room_info(rooms[nxt]) }]
    } else {
        seq![]
    }) + seq![
        OutputView::SendCharacter { client, character: c },
        OutputView::AlertRoom { room_number: cur, character: c },
        OutputView::AlertRoom { room_number: nxt, character: c },
    ];
    lemma_listing_ends_with(post.outputs, pre.outputs + head, exits(rooms, nxt), client, tail);
    assert forall|k: int| 0 <= k < ms.len() implies #[trigger] post.outputs[post.outputs.len() - ms.len() + k]
        == (OutputView::SendCharacter { client, character: monster_character(ms[k]) }) by {
        let t = tail.len() - ms.len() + k;
        assert(post.outputs[post.outputs.len() - tail.len() + t] == tail[t]);
    }
}

/// Starting shows the client every monster of room 0, dead or alive, as the
/// last outputs, in the room's order.
pub proof fn lemma_start_shows_every_monster(pre: EngineView, client: ClientId, post: EngineView, ms: Seq<MonsterView>)
    requires
        handled(pre, Input::Start { client }, post),
        client_index(pre.players, client) >= 0,
        may_start(pre.players[client_index(pre.players, client)].character.flags),
        pre.rooms.contains_key(0),
        pre.rooms[0].monsters == Some(ms),
    ensures
        post.outputs.len() >= ms.len(),
        forall|k: int| 0 <= k < ms.len() ==> #[trigger] post.outputs[post.outputs.len() - ms.len() + k]
            == (OutputView::SendCharacter { client, character: monster_character(ms[k]) }),
{
    lemma_client_index(pre.players, client);
    let i = client_index(pre.players, client);
    let p = pre.players[i];
    let c = CharacterView { flags: p.character.flags | started_bit(), ..p.character };
    let players = pre.players.update(i, PlayerView { character: c, client: p.client });
    let rooms = arrive(pre.rooms, 0, c.name);
    let tail = contents_outputs(players, rooms[0], client);
    assert(rooms[0].monsters == Some(ms));
    lemma_contents_end_with_monsters(players, rooms[0], client, ms);
    let head = seq![
        OutputView::SendCharacter { client, character: c },
        OutputView::AlertRoom { room_number: 0, character: c },
        OutputView::Broadcast { message: c.name + " has started the game!"@ },
    ] + seq![OutputView::SendRoom { client, room: room_info(rooms[0]) }];
    lemma_listing_ends_with(post.outputs, pre.outputs + head, exits(rooms, 0), client, tail);
    assert forall|k: int| 0 <= k < ms.len() implies #[trigger] post.outputs[post.outputs.len() - ms.len() + k]
        == (OutputView::SendCharacter { client, character: monster_character(ms[k]) }) by {
        let t = tail.len() - ms.len() + k;
        assert(post.outputs[post.outputs.len() - tail.len() + t] == tail[t]);
    }
}

/// Leaving announces the departure to the room where the player stands:
/// everyone hears that it left, the players of its current room see it
/// with no flags, and its client is disconnected. The player keeps its
/// room and loses its client; the rooms stay as they are.
pub proof fn lemma_leave_alerts_own_room(pre: EngineView, client: ClientId, post: EngineView)
    requires
        handled(pre, Input::Leave { client }, post),
        client_index(pre.players, client) >= 0,
    ensures
        ({
            let i = client_index(pre.players, client);
            let c = pre.players[i].character;
            let n = pre.outputs.len() as int;
            &&& post.outputs.len() == n + 3
            &&& post.outputs.take(n) == pre.outputs
            &&& post.outputs[n] == OutputView::Broadcast { message: c.name + " has left the game."@ }
            &&& post.outputs[n + 1] is AlertRoom
            &&& post.outputs[n + 1]->AlertRoom_room_number == c.current_room
            &&& post.outputs[n + 1]->AlertRoom_character.name == c.name
            &&& post.outputs[n + 1]->AlertRoom_character.flags == 0
            &&& post.outputs[n + 1]->AlertRoom_character == post.players[i].character
            &&& post.outputs[n + 2] == OutputView::Disconnect { client }
            &&& post.players[i].client is None
            &&& post.players[i].character.current_room == c.current_room
            &&& post.players.len() == pre.players.len()
            &&& post.rooms == pre.rooms
        }),
{
    lemma_client_index(pre.players, client);
    assert(post.outputs.take(pre.outputs.len() as int) =~= pre.outputs);
}

/// A message is handed on as the player wrote it, never as narration: a
/// message input queues one output and changes no player or room; when
/// that output is a message, it carries the sender, the recipient and the
/// text of the input and is not marked as narration, and it goes to the
/// client of a player of that name who may act.
pub proof fn lemma_message_forwarded_verbatim(
    pre: EngineView,
    client: ClientId,
    sender: String,
    recipient: String,
    message: String,
    post: EngineView,
)
    requires
        handled(pre, Input::Message { client, sender_name: sender, recipient_name: recipient, message }, post),
    ensures
        post.players == pre.players,
        post.rooms == pre.rooms,
        post.outputs.len() == pre.outputs.len() + 1,
        post.outputs.drop_last() == pre.outputs,
        post.outputs.last() is SendMessage ==> {
            let o = post.outputs.last();
            &&& o->SendMessage_narration == false
            &&& o->SendMessage_sender_name == sender@
            &&& o->SendMessage_recipient_name == recipient@
            &&& o->SendMessage_message == message@
            &&& exists|j: int| 0 <= j < pre.players.len() && #[trigger] pre.players[j].character.name == recipient@
                && may_act(pre.players[j].character.flags) && pre.players[j].client == Some(o->SendMessage_client)
        },
        ({
            let j = name_index(pre.players, recipient@);
            j >= 0 && may_act(pre.players[j].character.flags) && pre.players[j].client is Some
                ==> post.outputs.last() is SendMessage
        }),
{
    lemma_name_index(pre.players, recipient@);
    assert(post.outputs.drop_last() =~= pre.outputs);
}

/// A character that is accepted is recorded, and sent back to its client,
/// exactly as submitted: its name, attack, defense, regeneration and
/// description, with full health, no gold, room 0 and the submitting
/// client. It takes the place of a player of that name, or comes last.
pub proof fn lemma_registration_keeps_submission(
    pre: EngineView,
    client: ClientId,
    name: String,
    attack: u16,
    defense: u16,
    regen: u16,
    description: String,
    post: EngineView,
)
    requires
        handled(pre, Input::Character { client, name, attack, defense, regen, description }, post),
        attack + defense + regen <= pre.config.initial_points,
        forall|j: int| 0 <= j < pre.players.len() && #[trigger] pre.players[j].character.name == name@
            ==> !has_bit(pre.players[j].character.flags, started_bit()),
    ensures
        ({
            let j = name_index(pre.players, name@);
            let p = if j >= 0 { j } else { pre.players.len() as int };
            let c = post.players[p].character;
            let n = pre.outputs.len() as int;
            &&& 0 <= p < post.players.len()
            &&& c.name == name@
            &&& c.attack == attack
            &&& c.defense == defense
            &&& c.regen == regen
            &&& c.description == description@
            &&& c.health == 100
            &&& c.gold == 0
            &&& c.current_room == 0
            &&& post.players[p].client == Some(client)
            &&& post.outputs.len() >= n + 2
            &&& post.outputs[n + 1] == OutputView::SendCharacter { client, character: c }
        }),
        default_character(name@, attack, defense, regen, description@).description == description@,
        default_character(name@, attack, defense, regen, description@).name == name@,
{
    lemma_name_index(pre.players, name@);
}

} // verus!
