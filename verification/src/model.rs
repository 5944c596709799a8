//! The mathematical model of the game: lookups, room membership and the
//! outputs that describe a room, over the views of the state.

use crate::output::{OutputView, RoomInfoView};
use crate::protocol::{has_bit, ready_bit, started_bit};
use crate::state::{monster_character, MonsterView, PlayerView, RoomView};
use crate::types::ClientId;
use vstd::prelude::*;

verus! {

/// The position of the first player connected through `c`, or -1.
pub open spec fn client_index(ps: Seq<PlayerView>, c: ClientId) -> int
    decreases ps.len(),
{
    if ps.len() == 0 {
        -1
    } else {
        let r = client_index(ps.drop_last(), c);
        if r >= 0 {
            r
        } else if ps.last().client == Some(c) {
            ps.len() - 1
        } else {
            -1
        }
    }
}

/// The position of the first player named `name`, or -1.
pub open spec fn name_index(ps: Seq<PlayerView>, name: Seq<char>) -> int
    decreases ps.len(),
{
    if ps.len() == 0 {
        -1
    } else {
        let r = name_index(ps.drop_last(), name);
        if r >= 0 {
            r
        } else if ps.last().character.name == name {
            ps.len() - 1
        } else {
            -1
        }
    }
}

/// The position of the first monster named `name`, or -1.
pub open spec fn monster_index(ms: Seq<MonsterView>, name: Seq<char>) -> int
    decreases ms.len(),
{
    if ms.len() == 0 {
        -1
    } else {
        let r = monster_index(ms.drop_last(), name);
        if r >= 0 {
            r
        } else if ms.last().name == name {
            ms.len() - 1
        } else {
            -1
        }
    }
}

/// `monster_index` is the least position whose monster has that name.
pub proof fn lemma_monster_index(ms: Seq<MonsterView>, name: Seq<char>)
    ensures
        -1 <= monster_index(ms, name) < ms.len(),
        monster_index(ms, name) >= 0 ==> ms[monster_index(ms, name)].name == name,
        forall|j: int| 0 <= j < ms.len() && (monster_index(ms, name) < 0 || j < monster_index(ms, name))
            ==> ms[j].name != name,
    decreases ms.len(),
{
    if ms.len() > 0 {
        lemma_monster_index(ms.drop_last(), name);
        assert forall|j: int| 0 <= j < ms.len() - 1 implies ms.drop_last()[j] == ms[j] by {}
    }
}

/// `client_index` is the least position whose client is `c`.
pub proof fn lemma_client_index(ps: Seq<PlayerView>, c: ClientId)
    ensures
        -1 <= client_index(ps, c) < ps.len(),
        client_index(ps, c) >= 0 ==> ps[client_index(ps, c)].client == Some(c),
        forall|j: int| 0 <= j < ps.len() && (client_index(ps, c) < 0 || j < client_index(ps, c))
            ==> ps[j].client != Some(c),
    decreases ps.len(),
{
    if ps.len() > 0 {
        lemma_client_index(ps.drop_last(), c);
        assert forall|j: int| 0 <= j < ps.len() - 1 implies ps.drop_last()[j] == ps[j] by {}
    }
}

/// `name_index` is the least position whose character has that name.
pub proof fn lemma_name_index(ps: Seq<PlayerView>, name: Seq<char>)
    ensures
        -1 <= name_index(ps, name) < ps.len(),
        name_index(ps, name) >= 0 ==> ps[name_index(ps, name)].character.name == name,
        forall|j: int| 0 <= j < ps.len() && (name_index(ps, name) < 0 || j < name_index(ps, name))
            ==> ps[j].character.name != name,
    decreases ps.len(),
{
    if ps.len() > 0 {
        lemma_name_index(ps.drop_last(), name);
        assert forall|j: int| 0 <= j < ps.len() - 1 implies ps.drop_last()[j] == ps[j] by {}
    }
}

/// No two players share a name: the player list is a map from names.
pub open spec fn unique_names(ps: Seq<PlayerView>) -> bool {
    forall|i: int, j: int|
        0 <= i < j < ps.len() ==> #[trigger] ps[i].character.name != #[trigger] ps[j].character.name
}

/// With unique names, the player at position `i` is the one found by its
/// name.
pub proof fn lemma_name_index_unique(ps: Seq<PlayerView>, i: int)
    requires
        unique_names(ps),
        0 <= i < ps.len(),
    ensures
        name_index(ps, ps[i].character.name) == i,
{
    lemma_name_index(ps, ps[i].character.name);
    let r = name_index(ps, ps[i].character.name);
    if r != i {
        if r < i {
            assert(ps[r].character.name != ps[i].character.name);
        }
    }
}

/// Whether a flag byte lets a player act: `STARTED` or `READY` is set.
pub open spec fn may_act(flags: u8) -> bool {
    has_bit(flags, started_bit()) || has_bit(flags, ready_bit())
}

/// Whether a flag byte lets a player start: `READY` set, `STARTED` not.
pub open spec fn may_start(flags: u8) -> bool {
    has_bit(flags, ready_bit()) && !has_bit(flags, started_bit())
}

/// The room players after `name` arrives: appended unless already there.
pub open spec fn add_member(s: Seq<Seq<char>>, name: Seq<char>) -> Seq<Seq<char>> {
    if s.contains(name) {
        s
    } else {
        s.push(name)
    }
}

/// The room players after `name` leaves: every other name, in order.
pub open spec fn remove_member(s: Seq<Seq<char>>, name: Seq<char>) -> Seq<Seq<char>> {
    s.filter(other_than(name))
}

/// Whether a name differs from `name`.
pub open spec fn other_than(name: Seq<char>) -> spec_fn(Seq<char>) -> bool {
    |n: Seq<char>| n != name
}

/// A name that arrives is among the room's players.
pub proof fn lemma_add_member_contains(s: Seq<Seq<char>>, name: Seq<char>)
    ensures
        add_member(s, name).contains(name),
{
    if !s.contains(name) {
        assert(s.push(name)[s.len() as int] == name);
    }
}

/// A name that leaves is no longer among the room's players.
pub proof fn lemma_remove_member_excludes(s: Seq<Seq<char>>, name: Seq<char>)
    ensures
        !remove_member(s, name).contains(name),
{
    let pred = other_than(name);
    let f = s.filter(pred);
    if f.contains(name) {
        let j = choose|j: int| 0 <= j < f.len() && f[j] == name;
        s.lemma_filter_pred(pred, j);
    }
}

/// Appending `name` adds it to the set of names.
pub proof fn lemma_insert_to_set_names(s: Seq<Seq<char>>, name: Seq<char>)
    ensures
        s.push(name).to_set() == s.to_set().insert(name),
{
    let t = s.push(name);
    assert forall|x: Seq<char>| t.to_set().contains(x) <==> s.to_set().insert(name).contains(x) by {
        if t.to_set().contains(x) {
            let j = choose|j: int| 0 <= j < t.len() && t[j] == x;
            if j < s.len() {
                assert(s[j] == x);
            }
        }
        if s.to_set().contains(x) {
            let j = choose|j: int| 0 <= j < s.len() && s[j] == x;
            assert(t[j] == x);
        }
        if x == name {
            assert(t[s.len() as int] == x);
        }
    }
    assert(t.to_set() =~= s.to_set().insert(name));
}

/// A name that is not among the room's players leaves them as they are
/// when it leaves.
pub proof fn lemma_remove_absent(s: Seq<Seq<char>>, name: Seq<char>)
    requires
        !s.contains(name),
    ensures
        remove_member(s, name) == s,
    decreases s.len(),
{
    let pred = other_than(name);
    if s.len() == 0 {
        s.lemma_filter_len(pred);
        assert(s.filter(pred) =~= s);
    } else {
        let t = s.drop_last();
        assert(!t.contains(name)) by {
            if t.contains(name) {
                let j = choose|j: int| 0 <= j < t.len() && t[j] == name;
                assert(s[j] == name);
            }
        }
        lemma_remove_absent(t, name);
        assert(t.push(s.last()) =~= s);
        t.lemma_filter_push(s.last(), pred);
        assert(s.filter(pred) == t.filter(pred).push(s.last()));
    }
}

/// The names left after `name` leaves are the room's names but `name`.
pub proof fn lemma_remove_member_to_set(s: Seq<Seq<char>>, name: Seq<char>)
    ensures
        remove_member(s, name).to_set() == s.to_set().remove(name),
{
    let pred = other_than(name);
    let f = s.filter(pred);
    assert forall|x: Seq<char>| f.to_set().contains(x) <==> s.to_set().remove(name).contains(x) by {
        if f.to_set().contains(x) {
            assert(f.contains(x));
            let j = choose|j: int| 0 <= j < f.len() && f[j] == x;
            s.lemma_filter_pred(pred, j);
            s.lemma_filter_contains_rev(pred, x);
            assert(s.contains(x));
            assert(x != name);
        }
        if s.to_set().remove(name).contains(x) {
            assert(s.contains(x));
            let j = choose|j: int| 0 <= j < s.len() && s[j] == x;
            s.lemma_filter_contains(pred, j);
            assert(f.contains(x));
        }
    }
    assert(f.to_set() =~= s.to_set().remove(name));
}

/// Replacing a player by one of the same client finds the same position
/// for every client.
pub proof fn lemma_client_index_update(ps: Seq<PlayerView>, i: int, v: PlayerView, c: ClientId)
    requires
        0 <= i < ps.len(),
        v.client == ps[i].client,
    ensures
        client_index(ps.update(i, v), c) == client_index(ps, c),
{
    let qs = ps.update(i, v);
    lemma_client_index(ps, c);
    lemma_client_index(qs, c);
    let r1 = client_index(ps, c);
    let r2 = client_index(qs, c);
    assert forall|j: int| 0 <= j < ps.len() implies #[trigger] qs[j].client == ps[j].client by {}
    if r1 < 0 && r2 >= 0 {
        assert(qs[r2].client == ps[r2].client);
    } else if r1 >= 0 && r2 < 0 {
        assert(qs[r1].client == ps[r1].client);
    } else if r1 >= 0 && r2 >= 0 {
        if r1 < r2 {
            assert(qs[r1].client == ps[r1].client);
        } else if r2 < r1 {
            assert(qs[r2].client == ps[r2].client);
        }
    }
}

/// The room `r` with its players replaced by `players`.
pub open spec fn with_players(r: RoomView, players: Seq<Seq<char>>) -> RoomView {
    RoomView { players, ..r }
}

/// The rooms after `name` arrives in room `k` (no change if there is no such
/// room).
pub open spec fn arrive(rooms: Map<u16, RoomView>, k: u16, name: Seq<char>) -> Map<u16, RoomView> {
    if rooms.contains_key(k) {
        rooms.insert(k, with_players(rooms[k], add_member(rooms[k].players, name)))
    } else {
        rooms
    }
}

/// The rooms after `name` leaves room `k` (no change if there is no such
/// room).
pub open spec fn depart(rooms: Map<u16, RoomView>, k: u16, name: Seq<char>) -> Map<u16, RoomView> {
    if rooms.contains_key(k) {
        rooms.insert(k, with_players(rooms[k], remove_member(rooms[k].players, name)))
    } else {
        rooms
    }
}

/// The character data sent to `client` for each name of `names` that is a
/// player, in the order of `names`.
pub open spec fn player_sends(ps: Seq<PlayerView>, names: Seq<Seq<char>>, client: ClientId) -> Seq<
    OutputView,
>
    decreases names.len(),
{
    if names.len() == 0 {
        seq![]
    } else {
        let rest = player_sends(ps, names.drop_last(), client);
        let j = name_index(ps, names.last());
        if j >= 0 {
            rest.push(OutputView::SendCharacter { client, character: ps[j].character })
        } else {
            rest
        }
    }
}

/// The character data sent to `client` for each monster, in order.
pub open spec fn monster_sends(ms: Seq<MonsterView>, client: ClientId) -> Seq<OutputView> {
    ms.map_values(|m: MonsterView| OutputView::SendCharacter { client, character: monster_character(m) })
}

/// What a client is sent about the contents of a room: the players present,
/// then the monsters.
pub open spec fn contents_outputs(ps: Seq<PlayerView>, room: RoomView, client: ClientId) -> Seq<
    OutputView,
> {
    player_sends(ps, room.players, client) + match room.monsters {
        Some(ms) => monster_sends(ms, client),
        None => seq![],
    }
}

/// The information of a room as sent to clients.
pub open spec fn room_info(r: RoomView) -> RoomInfoView {
    RoomInfoView { room_number: r.room_number, title: r.title, description: r.description }
}

/// The exits of room `k`, none if there is no such room.
pub open spec fn exits(rooms: Map<u16, RoomView>, k: u16) -> Map<u16, crate::state::ConnectionView> {
    if rooms.contains_key(k) {
        rooms[k].connections
    } else {
        Map::empty()
    }
}

/// The exits listed to `client` in the order of the keys `ks`.
pub open spec fn exit_sends(
    ks: Seq<u16>,
    conns: Map<u16, crate::state::ConnectionView>,
    client: ClientId,
) -> Seq<OutputView> {
    ks.map_values(|k: u16| OutputView::SendConnection { client, connection: conns[k] })
}

/// `ks` lists every key of `conns` once, in ascending order.
pub open spec fn lists_keys(ks: Seq<u16>, conns: Map<u16, crate::state::ConnectionView>) -> bool {
    increasing(ks) && ks.to_set() == conns.dom()
}

/// Every number of `ks` is smaller than the ones after it.
pub open spec fn increasing(ks: Seq<u16>) -> bool {
    forall|i: int, j: int| 0 <= i < j < ks.len() ==> ks[i] < ks[j]
}

/// Inserting `k` anywhere into `s` adds `k` to its set of numbers.
pub proof fn lemma_insert_to_set(s: Seq<u16>, p: int, k: u16)
    requires
        0 <= p <= s.len(),
    ensures
        s.insert(p, k).to_set() == s.to_set().insert(k),
{
    let t = s.insert(p, k);
    assert forall|x: u16| t.to_set().contains(x) <==> s.to_set().insert(k).contains(x) by {
        if t.to_set().contains(x) {
            let j = choose|j: int| 0 <= j < t.len() && t[j] == x;
            if j < p {
                assert(s[j] == x);
            } else if j > p {
                assert(s[j - 1] == x);
            }
        }
        if s.to_set().contains(x) {
            let j = choose|j: int| 0 <= j < s.len() && s[j] == x;
            if j < p {
                assert(t[j] == x);
            } else {
                assert(t[j + 1] == x);
            }
        }
        if x == k {
            assert(t[p] == k);
        }
    }
    assert(t.to_set() =~= s.to_set().insert(k));
}

/// Two increasing sequences of the same numbers are the same sequence.
pub proof fn lemma_increasing_unique(a: Seq<u16>, b: Seq<u16>)
    requires
        increasing(a),
        increasing(b),
        a.to_set() == b.to_set(),
    ensures
        a == b,
    decreases a.len(),
{
    if a.len() == 0 {
        if b.len() > 0 {
            assert(b.to_set().contains(b[0]));
        }
        assert(b =~= a);
    } else {
        assert(a.to_set().contains(a.last()));
        assert(b.to_set().contains(a.last()));
        let jb = choose|j: int| 0 <= j < b.len() && b[j] == a.last();
        assert(a.to_set().contains(b.last()));
        let ja = choose|j: int| 0 <= j < a.len() && a[j] == b.last();
        assert(a.last() == b.last()) by {
            if a.last() < b.last() {
                assert(a[ja] <= a.last());
            } else if a.last() > b.last() {
                assert(b[jb] <= b.last());
            }
        }
        let m = a.last();
        let a2 = a.drop_last();
        let b2 = b.drop_last();
        assert(a2.to_set() =~= a.to_set().remove(m)) by {
            assert forall|x: u16| a2.to_set().contains(x) <==> a.to_set().remove(m).contains(x) by {
                if a.to_set().contains(x) && x != m {
                    let j = choose|j: int| 0 <= j < a.len() && a[j] == x;
                    assert(a2[j] == x);
                }
                if a2.to_set().contains(x) {
                    let j = choose|j: int| 0 <= j < a2.len() && a2[j] == x;
                    assert(a[j] == x);
                }
            }
        }
        assert(b2.to_set() =~= b.to_set().remove(m)) by {
            assert forall|x: u16| b2.to_set().contains(x) <==> b.to_set().remove(m).contains(x) by {
                if b.to_set().contains(x) && x != m {
                    let j = choose|j: int| 0 <= j < b.len() && b[j] == x;
                    assert(b2[j] == x);
                }
                if b2.to_set().contains(x) {
                    let j = choose|j: int| 0 <= j < b2.len() && b2[j] == x;
                    assert(b[j] == x);
                }
            }
        }
        lemma_increasing_unique(a2, b2);
        assert(a =~= a2.push(m));
        assert(b =~= b2.push(m));
    }
}

/// `out` is `before`, then every exit of `conns` sent once to `client` in
/// ascending order of destination room, then `after`.
pub open spec fn with_exit_listing(
    out: Seq<OutputView>,
    before: Seq<OutputView>,
    conns: Map<u16, crate::state::ConnectionView>,
    client: ClientId,
    after: Seq<OutputView>,
) -> bool {
    exists|ks: Seq<u16>|
        #![trigger exit_sends(ks, conns, client)]
        lists_keys(ks, conns) && out == before + exit_sends(ks, conns, client) + after
}

} // verus!
