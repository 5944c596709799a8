//! Fighting the monsters of a room.

use super::{emitted, not_started_out, EngineView, GameEngine};
use crate::model::{client_index, may_act};
use crate::output::{error_out, Output, OutputView, ERR_NOFIGHT};
use crate::protocol::{alive_bit, battle_bit, has_bit, is_alive, is_battle, lurk_error};
use crate::state::{
    monster_character, monster_views, CharacterView, Monster, MonsterView, PlayerState,
    PlayerView, Room, RoomView,
};
use crate::types::{decimal, push_decimal, ClientId};
use vstd::prelude::*;

verus! {

/// The positions of the players in room `r` who join battles (`BATTLE`
/// set), in registration order.
pub open spec fn battle_members(ps: Seq<PlayerView>, r: u16) -> Seq<int>
    decreases ps.len(),
{
    if ps.len() == 0 {
        seq![]
    } else {
        let rest = battle_members(ps.drop_last(), r);
        let c = ps.last().character;
        if has_bit(c.flags, battle_bit()) && c.current_room == r {
            rest.push(ps.len() - 1)
        } else {
            rest
        }
    }
}

/// The sum of the attacks of the players at the positions `js`.
pub open spec fn attack_sum(ps: Seq<PlayerView>, js: Seq<int>) -> int
    decreases js.len(),
{
    if js.len() == 0 {
        0
    } else {
        attack_sum(ps, js.drop_last()) + ps[js.last()].character.attack
    }
}

/// Whether `a` comes before `b` in lexicographic order of code points (the
/// order of `str`).
pub open spec fn name_lt(a: Seq<char>, b: Seq<char>) -> bool
    decreases a.len(),
{
    if a.len() == 0 {
        b.len() > 0
    } else if b.len() == 0 {
        false
    } else if a[0] != b[0] {
        (a[0] as int) < (b[0] as int)
    } else {
        name_lt(a.drop_first(), b.drop_first())
    }
}

/// Whether monster `a` is a likelier target than `b`: less health, or as
/// much health and a smaller name.
pub open spec fn target_lt(a: MonsterView, b: MonsterView) -> bool {
    a.health < b.health || (a.health == b.health && name_lt(a.name, b.name))
}

/// The position of the monster a fight goes for: among the living ones, the
/// first of least (health, name); -1 if none lives.
pub open spec fn target_index(ms: Seq<MonsterView>) -> int
    decreases ms.len(),
{
    if ms.len() == 0 {
        -1
    } else {
        let b = target_index(ms.drop_last());
        let l = ms.last();
        if l.health > 0 && (b < 0 || target_lt(l, ms[b])) {
            ms.len() - 1
        } else {
            b
        }
    }
}

/// `a - b`, or 0 when `b` is larger.
pub open spec fn sat_sub_u16(a: u16, b: u16) -> u16 {
    if a > b {
        (a - b) as u16
    } else {
        0
    }
}

/// `x` as an `i16`, or `i16::MAX` when it does not fit.
pub open spec fn clamp_i16(x: u16) -> i16 {
    if x > i16::MAX {
        i16::MAX
    } else {
        x as i16
    }
}

/// `h - d` for `d >= 0`, or `i16::MIN` below it.
pub open spec fn sat_sub_i16(h: i16, d: i16) -> i16 {
    if h - d < i16::MIN {
        i16::MIN
    } else {
        (h - d) as i16
    }
}

/// `h + d` for `d >= 0`, or `i16::MAX` above it.
pub open spec fn sat_add_i16(h: i16, d: i16) -> i16 {
    if h + d > i16::MAX {
        i16::MAX
    } else {
        (h + d) as i16
    }
}

/// The room alerts about the players at positions `js`.
pub open spec fn battle_alerts(ps: Seq<PlayerView>, js: Seq<int>, r: u16) -> Seq<OutputView> {
    js.map_values(|j: int| OutputView::AlertRoom { room_number: r, character: ps[j].character })
}

/// Whether a fight by `client` reaches the exchange of blows: the player
/// exists and may act, its room exists and has monsters, and one of them
/// lives.
pub open spec fn fight_engages(pre: EngineView, client: ClientId) -> bool {
    let i = client_index(pre.players, client);
    let r = pre.players[i].character.current_room;
    &&& i >= 0
    &&& may_act(pre.players[i].character.flags)
    &&& pre.rooms.contains_key(r)
    &&& pre.rooms[r].monsters is Some
    &&& target_index(pre.rooms[r].monsters->0) >= 0
}

/// Whether a fight that engages can be carried out: someone in the room
/// joins battles (the narration counts the others), and the joined attacks
/// add up to at most `u16::MAX` (the sum is unchecked otherwise).
pub open spec fn fight_fits(pre: EngineView, client: ClientId) -> bool {
    fight_engages(pre, client) ==> {
        let i = client_index(pre.players, client);
        let r = pre.players[i].character.current_room;
        let bm = battle_members(pre.players, r);
        bm.len() >= 1 && attack_sum(pre.players, bm) <= u16::MAX
    }
}

/// The state after `client` fights in its room.
///
/// Without a player of that client nothing happens; a player that may not
/// act gets `NOTREADY`; a room that does not exist or has no monsters, or
/// whose monsters are all dead, gives `NOFIGHT`. Otherwise the target is the
/// living monster of least (health, name). Every player of the room who
/// joins battles adds its attack; the target loses that much less its
/// defense. Unless it died, it strikes back at the attacker (its attack less
/// the attacker's defense). The attacker then regenerates if it is alive:
/// `ALIVE` set and health still above zero. The room
/// hears who attacks whom and how many joined, and sees every battle member
/// and the target in their new state.
pub open spec fn fight_spec(pre: EngineView, client: ClientId) -> EngineView {
    let i = client_index(pre.players, client);
    if i < 0 {
        pre
    } else {
        let p = pre.players[i];
        let c = p.character;
        let r = c.current_room;
        if !may_act(c.flags) {
            emitted(pre, not_started_out(client))
        } else if !(pre.rooms.contains_key(r) && pre.rooms[r].monsters is Some) {
            emitted(pre, error_out(client, ERR_NOFIGHT, "The room is eerily quiet..."@))
        } else {
            let ms = pre.rooms[r].monsters->0;
            let t = target_index(ms);
            if t < 0 {
                emitted(pre, error_out(client, ERR_NOFIGHT, "No monsters alive. Let them rest."@))
            } else {
                let bm = battle_members(pre.players, r);
                let m = ms[t];
                let damage = clamp_i16(sat_sub_u16(attack_sum(pre.players, bm) as u16, m.defense));
                let m2 = MonsterView { health: sat_sub_i16(m.health, damage), ..m };
                let h1 = if m2.health <= 0 {
                    c.health
                } else {
                    sat_sub_i16(c.health, clamp_i16(sat_sub_u16(m.attack, c.defense)))
                };
                let h2 = if has_bit(c.flags, alive_bit()) && h1 > 0 {
                    sat_add_i16(h1, clamp_i16(c.regen))
                } else {
                    h1
                };
                let players = pre.players.update(
                    i,
                    PlayerView { character: CharacterView { health: h2, ..c }, client: p.client },
                );
                EngineView {
                    players,
                    rooms: pre.rooms.insert(r, RoomView { monsters: Some(ms.update(t, m2)), ..pre.rooms[r] }),
                    outputs: pre.outputs + seq![
                        OutputView::Narrate {
                            room_number: r,
                            message: c.name + " is attacking "@ + m.name,
                            narration: false,
                        },
                        OutputView::Narrate {
                            room_number: r,
                            message: decimal((bm.len() - 1) as nat) + " player(s) joining the fight"@,
                            narration: false,
                        },
                    ] + battle_alerts(players, bm, r) + seq![
                        OutputView::AlertRoom { room_number: r, character: monster_character(m2) },
                    ],
                    ..pre
                }
            }
        }
    }
}

} // verus!

verus! {

/// Whether `a` comes before `b` in the order of `str` (lexicographic over
/// code points).
fn name_less(a: &String, b: &String) -> (lt: bool)
    ensures
        lt == name_lt(a@, b@),
{
    let sa = a.as_str();
    let sb = b.as_str();
    let la = sa.unicode_len();
    let lb = sb.unicode_len();
    let mut k: usize = 0;
    assert(a@.skip(0) =~= a@);
    assert(b@.skip(0) =~= b@);
    while k < la && k < lb
        invariant
            k <= la,
            k <= lb,
            la == a@.len(),
            lb == b@.len(),
            sa@ == a@,
            sb@ == b@,
            name_lt(a@, b@) == name_lt(a@.skip(k as int), b@.skip(k as int)),
        decreases la - k,
    {
        let ca = sa.get_char(k);
        let cb = sb.get_char(k);
        if ca != cb {
            return (ca as u32) < (cb as u32);
        }
        assert(a@.skip(k as int).drop_first() =~= a@.skip(k + 1));
        assert(b@.skip(k as int).drop_first() =~= b@.skip(k + 1));
        k = k + 1;
    }
    k == la && k < lb
}

/// Whether monster `a` is a likelier target than `b`.
fn target_less(a: &Monster, b: &Monster) -> (lt: bool)
    ensures
        lt == target_lt(a@, b@),
{
    a.health < b.health || (a.health == b.health && name_less(&a.name, &b.name))
}

/// The position of the monster a fight goes for, if one lives.
fn find_target(ms: &Vec<Monster>) -> (t: Option<usize>)
    ensures
        match t {
            Some(k) => k == target_index(monster_views(ms@)),
            None => target_index(monster_views(ms@)) == -1,
        },
{
    let ghost mv = monster_views(ms@);
    let mut best: Option<usize> = None;
    let mut k: usize = 0;
    while k < ms.len()
        invariant
            k <= ms.len(),
            mv == monster_views(ms@),
            match best {
                Some(b) => b < k && b == target_index(mv.take(k as int)),
                None => target_index(mv.take(k as int)) == -1,
            },
        decreases ms.len() - k,
    {
        assert(mv.take(k + 1).drop_last() =~= mv.take(k as int));
        let better = match best {
            None => ms[k].health > 0,
            Some(b) => ms[k].health > 0 && target_less(&ms[k], &ms[b]),
        };
        proof {
            match best {
                Some(b) => {
                    assert(mv.take(k + 1)[b as int] == mv[b as int]);
                },
                None => {},
            }
        }
        if better {
            best = Some(k);
        }
        k = k + 1;
    }
    assert(mv.take(k as int) =~= mv);
    best
}

/// `x` as an `i16`, or `i16::MAX` when it does not fit.
fn to_i16_clamped(x: u16) -> (y: i16)
    ensures
        y == clamp_i16(x),
{
    if x > 32767 {
        i16::MAX
    } else {
        x as i16
    }
}

/// `h - d`, saturating at `i16::MIN`.
fn sub_saturating(h: i16, d: i16) -> (r: i16)
    requires
        d >= 0,
    ensures
        r == sat_sub_i16(h, d),
{
    if h < i16::MIN + d {
        i16::MIN
    } else {
        h - d
    }
}

/// `h + d`, saturating at `i16::MAX`.
fn add_saturating(h: i16, d: i16) -> (r: i16)
    requires
        d >= 0,
    ensures
        r == sat_add_i16(h, d),
{
    if h > i16::MAX - d {
        i16::MAX
    } else {
        h + d
    }
}

/// The target is a living monster of the list, when there is one.
pub proof fn lemma_target_index(ms: Seq<MonsterView>)
    ensures
        -1 <= target_index(ms) < ms.len(),
        target_index(ms) >= 0 ==> ms[target_index(ms)].health > 0,
    decreases ms.len(),
{
    if ms.len() > 0 {
        lemma_target_index(ms.drop_last());
    }
}

/// No name comes before itself.
pub proof fn lemma_name_lt_irreflexive(a: Seq<char>)
    ensures
        !name_lt(a, a),
    decreases a.len(),
{
    if a.len() > 0 {
        lemma_name_lt_irreflexive(a.drop_first());
    }
}

/// The order of names is transitive.
pub proof fn lemma_name_lt_transitive(a: Seq<char>, b: Seq<char>, c: Seq<char>)
    requires
        name_lt(a, b),
        name_lt(b, c),
    ensures
        name_lt(a, c),
    decreases a.len(),
{
    if a.len() > 0 && a[0] == b[0] && b[0] == c[0] {
        lemma_name_lt_transitive(a.drop_first(), b.drop_first(), c.drop_first());
    }
}

/// Of two different names, one comes before the other.
pub proof fn lemma_name_lt_total(a: Seq<char>, b: Seq<char>)
    requires
        a != b,
    ensures
        name_lt(a, b) || name_lt(b, a),
    decreases a.len(),
{
    if a.len() == 0 {
        assert(b.len() > 0) by {
            if b.len() == 0 {
                assert(a =~= b);
            }
        }
    } else if b.len() > 0 {
        if a[0] == b[0] {
            assert(a.drop_first() != b.drop_first()) by {
                if a.drop_first() == b.drop_first() {
                    assert(a =~= seq![a[0]] + a.drop_first());
                    assert(b =~= seq![b[0]] + b.drop_first());
                }
            }
            lemma_name_lt_total(a.drop_first(), b.drop_first());
        } else {
            assert((a[0] as int) != (b[0] as int));
        }
    }
}

/// The target of a fight is the first living monster of least (health,
/// name): every other living monster has more health, or as much and a
/// later name, or the same health and name and a later position. There is
/// no target only when every monster is dead.
pub proof fn lemma_target_is_least(ms: Seq<MonsterView>)
    ensures
        -1 <= target_index(ms) < ms.len(),
        target_index(ms) < 0 ==> forall|j: int| 0 <= j < ms.len() ==> #[trigger] ms[j].health <= 0,
        target_index(ms) >= 0 ==> ms[target_index(ms)].health > 0 && forall|j: int|
            0 <= j < ms.len() && #[trigger] ms[j].health > 0 && j != target_index(ms) ==> target_lt(
                ms[target_index(ms)],
                ms[j],
            ) || (ms[j].health == ms[target_index(ms)].health && ms[j].name == ms[target_index(ms)].name
                && target_index(ms) < j),
    decreases ms.len(),
{
    if ms.len() > 0 {
        let init = ms.drop_last();
        lemma_target_is_least(init);
        let b = target_index(init);
        let n = ms.len() - 1;
        let l = ms.last();
        assert forall|j: int| 0 <= j < n implies #[trigger] init[j] == ms[j] by {}
        let t = target_index(ms);
        if t == n {
            assert forall|j: int|
                0 <= j < ms.len() && #[trigger] ms[j].health > 0 && j != t implies target_lt(ms[t], ms[j])
                    || (ms[j].health == ms[t].health && ms[j].name == ms[t].name && t < j) by {
                assert(init[j] == ms[j]);
                assert(b >= 0);
                assert(init[b] == ms[b]);
                if j != b {
                    if target_lt(ms[b], ms[j]) {
                        if l.health == ms[b].health && ms[b].health == ms[j].health {
                            lemma_name_lt_transitive(l.name, ms[b].name, ms[j].name);
                        }
                    }
                }
            }
        } else {
            if b >= 0 {
                assert(init[b] == ms[b]);
            }
            assert forall|j: int|
                0 <= j < ms.len() && #[trigger] ms[j].health > 0 && j != t implies target_lt(ms[t], ms[j])
                    || (ms[j].health == ms[t].health && ms[j].name == ms[t].name && t < j) by {
                if j < n {
                    assert(init[j] == ms[j]);
                } else {
                    if l.health == ms[b].health && l.name != ms[b].name {
                        lemma_name_lt_total(l.name, ms[b].name);
                    }
                }
            }
            assert forall|j: int| 0 <= j < ms.len() && t < 0 implies #[trigger] ms[j].health <= 0 by {
                if j < n {
                    assert(init[j] == ms[j]);
                }
            }
        }
    }
}

/// The positions in `battle_members` lie inside the list, in increasing
/// order.
proof fn lemma_battle_members(ps: Seq<PlayerView>, r: u16)
    ensures
        forall|k: int| 0 <= k < battle_members(ps, r).len() ==> 0 <= #[trigger] battle_members(ps, r)[k] < ps.len(),
    decreases ps.len(),
{
    if ps.len() > 0 {
        lemma_battle_members(ps.drop_last(), r);
        let rest = battle_members(ps.drop_last(), r);
        assert forall|k: int| 0 <= k < battle_members(ps, r).len() implies 0 <= #[trigger] battle_members(ps, r)[k] < ps.len() by {
            if k < rest.len() {
                assert(rest[k] < ps.len() - 1);
            }
        }
    }
}

/// A prefix of the members adds up to no more than all of them.
proof fn lemma_attack_sum_prefix(ps: Seq<PlayerView>, js: Seq<int>, k: int)
    requires
        0 <= k <= js.len(),
    ensures
        attack_sum(ps, js.take(k)) <= attack_sum(ps, js),
        0 <= attack_sum(ps, js.take(k)),
    decreases js.len(),
{
    if k < js.len() {
        assert(js.drop_last().take(k) =~= js.take(k));
        lemma_attack_sum_prefix(ps, js.drop_last(), k);
    } else {
        assert(js.take(k) =~= js);
        lemma_attack_sum_nonneg(ps, js);
    }
}

/// A sum of attacks is never negative.
proof fn lemma_attack_sum_nonneg(ps: Seq<PlayerView>, js: Seq<int>)
    ensures
        0 <= attack_sum(ps, js),
    decreases js.len(),
{
    if js.len() > 0 {
        lemma_attack_sum_nonneg(ps, js.drop_last());
    }
}

/// The positions of the players of room `r` who join battles.
fn collect_battle(players: &Vec<PlayerState>, r: u16) -> (js: Vec<usize>)
    ensures
        js@.len() == battle_members(super::player_views(players@), r).len(),
        forall|k: int| 0 <= k < js@.len() ==> js@[k] as int == battle_members(super::player_views(players@), r)[k],
{
    let ghost ps = super::player_views(players@);
    let mut js: Vec<usize> = Vec::new();
    let mut j: usize = 0;
    while j < players.len()
        invariant
            j <= players.len(),
            ps == super::player_views(players@),
            js@.len() == battle_members(ps.take(j as int), r).len(),
            forall|k: int| 0 <= k < js@.len() ==> js@[k] as int == battle_members(ps.take(j as int), r)[k],
        decreases players.len() - j,
    {
        assert(ps.take(j + 1).drop_last() =~= ps.take(j as int));
        if is_battle(&players[j].character.flags) && players[j].character.current_room == r {
            js.push(j);
        }
        j = j + 1;
    }
    assert(ps.take(j as int) =~= ps);
    js
}

} // verus!

verus! {

impl GameEngine {
    /// Fights the likeliest living monster of the player's room, with every
    /// player of the room who joins battles.
    pub(crate) fn handle_fight(&mut self, client: ClientId)
        requires
            fight_fits(old(self)@, client),
        ensures
            final(self)@ == fight_spec(old(self)@, client),
    {
        let i = match self.player_from_client(client) {
            Some(i) => i,
            None => {
                return;
            },
        };
        proof {
            crate::model::lemma_client_index(self@.players, client);
        }
        let current_room = self.players[i].character.current_room;
        let snapshot = self.players[i].clone();
        if !self.ensure_started(&snapshot, client) {
            return;
        }
        let (t, target_name) = match self.rooms.get(&current_room) {
            None => {
                self.emit(Output::SendError {
                        client,
                        error_code: lurk_error(ERR_NOFIGHT),
                        message: String::from_str("The room is eerily quiet..."),
                    },
                );
                return;
            },
            Some(room) => match &room.monsters {
                None => {
                    self.emit(Output::SendError {
                            client,
                            error_code: lurk_error(ERR_NOFIGHT),
                            message: String::from_str("The room is eerily quiet..."),
                        },
                    );
                    return;
                },
                Some(ms) => match find_target(ms) {
                    None => {
                        self.emit(Output::SendError {
                                client,
                                error_code: lurk_error(ERR_NOFIGHT),
                                message: String::from_str("No monsters alive. Let them rest."),
                            },
                        );
                        return;
                    },
                    Some(t) => {
                        proof {
                            lemma_target_index(monster_views(ms@));
                        }
                        (t, ms[t].name.clone())
                    },
                },
            },
        };
        let ghost pre = old(self)@;
        let ghost bm = battle_members(pre.players, current_room);
        let ghost post = fight_spec(pre, client);
        let in_battle = collect_battle(&self.players, current_room);
        proof {
            lemma_battle_members(pre.players, current_room);
            assert(fight_engages(pre, client));
        }
        let mut attack_message = self.players[i].character.name.clone();
        attack_message.append(" is attacking ");
        attack_message.append(target_name.as_str());
        self.emit(Output::Narrate { room_number: current_room, message: attack_message, narration: false },
        );
        let mut join_message = String::new();
        push_decimal(&mut join_message, (in_battle.len() - 1) as u64);
        join_message.append(" player(s) joining the fight");
        self.emit(Output::Narrate { room_number: current_room, message: join_message, narration: false },
        );
        let ghost narrated = self@.outputs;
        let mut battle_damage: u16 = 0;
        let mut k: usize = 0;
        while k < in_battle.len()
            invariant
                k <= in_battle@.len(),
                in_battle@.len() == bm.len(),
                forall|q: int| 0 <= q < in_battle@.len() ==> in_battle@[q] as int == bm[q],
                forall|q: int| 0 <= q < bm.len() ==> 0 <= #[trigger] bm[q] < pre.players.len(),
                super::player_views(self.players@) == pre.players,
                attack_sum(pre.players, bm) <= u16::MAX,
                battle_damage == attack_sum(pre.players, bm.take(k as int)),
            decreases in_battle@.len() - k,
        {
            proof {
                assert(bm.take(k + 1).drop_last() =~= bm.take(k as int));
                lemma_attack_sum_prefix(pre.players, bm, k + 1);
                assert(bm[k as int] < pre.players.len());
            }
            battle_damage = battle_damage + self.players[in_battle[k]].character.attack;
            k = k + 1;
        }
        assert(bm.take(bm.len() as int) =~= bm);
        let room = self.rooms.remove(&current_room).unwrap();
        let Room { room_number, title, connections, description, players, monsters } = room;
        let mut ms = monsters.unwrap();
        let ghost old_ms = ms@;
        proof {
            lemma_target_index(monster_views(old_ms));
            assert(monster_views(old_ms) == pre.rooms[current_room].monsters->0);
        }
        let damage = to_i16_clamped(battle_damage.saturating_sub(ms[t].defense));
        ms[t].health = sub_saturating(ms[t].health, damage);
        let victory = ms[t].health <= 0;
        let monster_attack = ms[t].attack;
        let monster_character = ms[t].to_character();
        proof {
            let mvs = monster_views(old_ms);
            let m = mvs[t as int];
            let m2 = MonsterView { health: sat_sub_i16(m.health, damage), ..m };
            assert(monster_views(ms@) =~= mvs.update(t as int, m2));
        }
        self.rooms.insert(
            current_room,
            Room { room_number, title, connections, description, players, monsters: Some(ms) },
        );
        if !victory {
            let counter = to_i16_clamped(monster_attack.saturating_sub(self.players[i].character.defense));
            let health = sub_saturating(self.players[i].character.health, counter);
            self.players[i].character.health = health;
        }
        if is_alive(&self.players[i].character.flags) && self.players[i].character.health > 0 {
            let regen = to_i16_clamped(self.players[i].character.regen);
            let health = add_saturating(self.players[i].character.health, regen);
            self.players[i].character.health = health;
        }
        assert(self@.players =~= post.players);
        assert(self@.rooms =~= post.rooms);
        let ghost ps2 = self@.players;
        let mut k: usize = 0;
        while k < in_battle.len()
            invariant
                k <= in_battle@.len(),
                in_battle@.len() == bm.len(),
                forall|q: int| 0 <= q < in_battle@.len() ==> in_battle@[q] as int == bm[q],
                forall|q: int| 0 <= q < bm.len() ==> 0 <= #[trigger] bm[q] < ps2.len(),
                super::player_views(self.players@) == ps2,
                self@.rooms == post.rooms,
                self@.config == pre.config,
                self@.outputs == narrated + battle_alerts(ps2, bm.take(k as int), current_room),
            decreases in_battle@.len() - k,
        {
            proof {
                assert(bm[k as int] < ps2.len());
                assert(battle_alerts(ps2, bm.take(k + 1), current_room) =~= battle_alerts(
                    ps2,
                    bm.take(k as int),
                    current_room,
                ).push(
                    OutputView::AlertRoom { room_number: current_room, character: ps2[bm[k as int]].character },
                ));
            }
            let character = self.players[in_battle[k]].character.clone();
            self.emit(Output::AlertRoom { room_number: current_room, character });
            k = k + 1;
        }
        self.emit(Output::AlertRoom { room_number: current_room, character: monster_character },
        );
        assert(self@.outputs =~= post.outputs);
    }
}

} // verus!

verus! {

impl GameEngine {
    /// Whether a fight by `client` can be carried out now (see `fight_fits`).
    pub(crate) fn fight_fits_now(&self, client: ClientId) -> (ok: bool)
        ensures
            ok == fight_fits(self@, client),
    {
        let i = match self.player_from_client(client) {
            Some(i) => i,
            None => {
                return true;
            },
        };
        proof {
            crate::model::lemma_client_index(self@.players, client);
        }
        let flags = &self.players[i].character.flags;
        if !(crate::protocol::is_started(flags) || crate::protocol::is_ready(flags)) {
            return true;
        }
        let r = self.players[i].character.current_room;
        let alive = match self.rooms.get(&r) {
            None => false,
            Some(room) => match &room.monsters {
                None => false,
                Some(ms) => find_target(ms).is_some(),
            },
        };
        if !alive {
            return true;
        }
        let ghost ps = self@.players;
        let ghost bm = battle_members(ps, r);
        proof {
            lemma_battle_members(ps, r);
        }
        let in_battle = collect_battle(&self.players, r);
        if in_battle.len() == 0 {
            assert(fight_engages(self@, client));
            return false;
        }
        assert(fight_engages(self@, client));
        let mut sum: u16 = 0;
        let mut k: usize = 0;
        while k < in_battle.len()
            invariant
                fight_engages(self@, client),
                bm == battle_members(self@.players, self@.players[client_index(self@.players, client)].character.current_room),
                k <= in_battle@.len(),
                in_battle@.len() == bm.len(),
                forall|q: int| 0 <= q < in_battle@.len() ==> in_battle@[q] as int == bm[q],
                forall|q: int| 0 <= q < bm.len() ==> 0 <= #[trigger] bm[q] < ps.len(),
                super::player_views(self.players@) == ps,
                sum == attack_sum(ps, bm.take(k as int)),
            decreases in_battle@.len() - k,
        {
            proof {
                assert(bm.take(k + 1).drop_last() =~= bm.take(k as int));
                lemma_attack_sum_prefix(ps, bm, k + 1);
                assert(bm[k as int] < ps.len());
            }
            match sum.checked_add(self.players[in_battle[k]].character.attack) {
                Some(s) => {
                    sum = s;
                },
                None => {
                    proof {
                        let q = bm[k as int];
                        assert(bm.take(k + 1).last() == q);
                        assert(attack_sum(ps, bm.take(k + 1)) == sum + ps[q].character.attack);
                        assert(fight_engages(self@, client));
                    }
                    return false;
                },
            }
            k = k + 1;
        }
        assert(bm.take(bm.len() as int) =~= bm);
        true
    }
}

} // verus!
