//! Game world model: characters, rooms, monsters and configuration, with the
//! mathematical view of each that the contracts speak of.

use crate::protocol::{alive_flags, battle_flag, dead_flags, flag_bits, monster_flag, union_flags};
use crate::roster::{members, roster_clone};
use crate::types::ClientId;
use indexmap::IndexSet;
use lurk_protocol::CharacterFlags;
use std::collections::HashMap;
use vstd::prelude::*;

verus! {

/// Server-side character: a player or a monster as the engine sees it.
#[derive(Debug)]
pub struct Character {
    /// The character's unique name.
    pub name: String,
    /// Alive, started, ready, monster, battle.
    pub flags: CharacterFlags,
    /// Offensive stat: contributes to damage dealt.
    pub attack: u16,
    /// Defensive stat: reduces incoming damage.
    pub defense: u16,
    /// Health recovered after each fight round.
    pub regen: u16,
    /// Current health points; zero or below means dead.
    pub health: i16,
    /// Gold carried.
    pub gold: u16,
    /// Room the character occupies.
    pub current_room: u16,
    /// Flavor text.
    pub description: String,
}

/// The view of a [`Character`]: its flag set as a byte, its texts as
/// character sequences.
pub struct CharacterView {
    pub name: Seq<char>,
    pub flags: u8,
    pub attack: u16,
    pub defense: u16,
    pub regen: u16,
    pub health: i16,
    pub gold: u16,
    pub current_room: u16,
    pub description: Seq<char>,
}

impl View for Character {
    type V = CharacterView;

    open spec fn view(&self) -> CharacterView {
        CharacterView {
            name: self.name@,
            flags: flag_bits(self.flags),
            attack: self.attack,
            defense: self.defense,
            regen: self.regen,
            health: self.health,
            gold: self.gold,
            current_room: self.current_room,
            description: self.description@,
        }
    }
}

/// A freshly created character: `ALIVE | BATTLE | READY`, 100 health, no
/// gold, in room 0.
pub open spec fn default_character(
    name: Seq<char>,
    attack: u16,
    defense: u16,
    regen: u16,
    description: Seq<char>,
) -> CharacterView {
    CharacterView {
        name,
        flags: 0xC8,
        attack,
        defense,
        regen,
        health: 100,
        gold: 0,
        current_room: 0,
        description,
    }
}

impl Clone for Character {
    fn clone(&self) -> (c: Self)
        ensures
            c == *self,
    {
        Character {
            name: self.name.clone(),
            flags: self.flags,
            attack: self.attack,
            defense: self.defense,
            regen: self.regen,
            health: self.health,
            gold: self.gold,
            current_room: self.current_room,
            description: self.description.clone(),
        }
    }
}

impl Character {
    /// A new character with the given stats and the server-controlled fields
    /// at their defaults: health 100, gold 0, room 0, flags `alive()`.
    pub fn with_defaults(
        name: String,
        attack: u16,
        defense: u16,
        regen: u16,
        description: String,
    ) -> (c: Character)
        ensures
            c@ == default_character(name@, attack, defense, regen, description@),
    {
        Character {
            name,
            flags: alive_flags(),
            attack,
            defense,
            regen,
            health: 100,
            gold: 0,
            current_room: 0,
            description,
        }
    }
}

/// An exit from one room to another.
#[derive(Debug)]
pub struct Connection {
    /// The destination room number.
    pub room_number: u16,
    /// Short title of the exit.
    pub title: String,
    /// Description of the exit.
    pub description: String,
}

/// The view of a [`Connection`].
pub struct ConnectionView {
    pub room_number: u16,
    pub title: Seq<char>,
    pub description: Seq<char>,
}

impl View for Connection {
    type V = ConnectionView;

    open spec fn view(&self) -> ConnectionView {
        ConnectionView {
            room_number: self.room_number,
            title: self.title@,
            description: self.description@,
        }
    }
}

impl Clone for Connection {
    fn clone(&self) -> (c: Self)
        ensures
            c == *self,
    {
        Connection {
            room_number: self.room_number,
            title: self.title.clone(),
            description: self.description.clone(),
        }
    }
}

/// A monster: fought by players, looted once dead; it never moves.
#[derive(Debug)]
pub struct Monster {
    /// The monster's name, unique within its room.
    pub name: String,
    /// Room the monster lives in.
    pub current_room: u16,
    /// Maximum health.
    pub max_health: i16,
    /// Current health; zero or below means dead.
    pub health: i16,
    /// Offensive stat.
    pub attack: u16,
    /// Defensive stat.
    pub defense: u16,
    /// Gold dropped on death.
    pub gold: u16,
    /// Flavor text.
    pub description: String,
}

/// The view of a [`Monster`].
pub struct MonsterView {
    pub name: Seq<char>,
    pub current_room: u16,
    pub max_health: i16,
    pub health: i16,
    pub attack: u16,
    pub defense: u16,
    pub gold: u16,
    pub description: Seq<char>,
}

impl View for Monster {
    type V = MonsterView;

    open spec fn view(&self) -> MonsterView {
        MonsterView {
            name: self.name@,
            current_room: self.current_room,
            max_health: self.max_health,
            health: self.health,
            attack: self.attack,
            defense: self.defense,
            gold: self.gold,
            description: self.description@,
        }
    }
}

impl Clone for Monster {
    fn clone(&self) -> (m: Self)
        ensures
            m == *self,
    {
        Monster {
            name: self.name.clone(),
            current_room: self.current_room,
            max_health: self.max_health,
            health: self.health,
            attack: self.attack,
            defense: self.defense,
            gold: self.gold,
            description: self.description.clone(),
        }
    }
}

/// The flag byte shown for a monster: `MONSTER | BATTLE`, with `dead()`
/// (`0x68` in all) when its health is zero or below, else with `alive()`
/// (`0xE8` in all).
pub open spec fn monster_flag_bits(health: i16) -> u8 {
    if health <= 0 {
        0x68
    } else {
        0xE8
    }
}

/// The character shown to clients for a monster.
pub open spec fn monster_character(m: MonsterView) -> CharacterView {
    CharacterView {
        name: m.name,
        flags: monster_flag_bits(m.health),
        attack: m.attack,
        defense: m.defense,
        regen: 0,
        health: m.health,
        gold: m.gold,
        current_room: m.current_room,
        description: m.description,
    }
}

impl Monster {
    /// The [`Character`] sent to clients for this monster: `MONSTER` and
    /// `BATTLE`, plus the dead or alive flags by its health; no regeneration.
    pub fn to_character(&self) -> (c: Character)
        ensures
            c@ == monster_character(self@),
    {
        let mut flags = union_flags(monster_flag(), battle_flag());
        assert(0x20u8 | 0x40u8 == 0x60u8) by (bit_vector);
        if self.health <= 0 {
            flags = union_flags(flags, dead_flags());
            assert(0x60u8 | 0x48u8 == 0x68u8) by (bit_vector);
        } else {
            flags = union_flags(flags, alive_flags());
            assert(0x60u8 | 0xC8u8 == 0xE8u8) by (bit_vector);
        }
        Character {
            name: self.name.clone(),
            flags,
            attack: self.attack,
            defense: self.defense,
            regen: 0,
            health: self.health,
            gold: self.gold,
            current_room: self.current_room,
            description: self.description.clone(),
        }
    }
}

/// A room of the game world.
#[derive(Debug)]
pub struct Room {
    /// Identifier of the room.
    pub room_number: u16,
    /// Short title.
    pub title: String,
    /// Exits, by destination room number.
    pub connections: HashMap<u16, Connection>,
    /// Longer description.
    pub description: String,
    /// Names of the players present, in arrival order.
    pub players: IndexSet<String>,
    /// Monsters living here, if any.
    pub monsters: Option<Vec<Monster>>,
}

/// The view of a [`Room`].
pub struct RoomView {
    pub room_number: u16,
    pub title: Seq<char>,
    pub connections: Map<u16, ConnectionView>,
    pub description: Seq<char>,
    pub players: Seq<Seq<char>>,
    pub monsters: Option<Seq<MonsterView>>,
}

/// The views of a list of monsters.
pub open spec fn monster_views(ms: Seq<Monster>) -> Seq<MonsterView> {
    ms.map_values(|m: Monster| m@)
}

impl View for Room {
    type V = RoomView;

    open spec fn view(&self) -> RoomView {
        RoomView {
            room_number: self.room_number,
            title: self.title@,
            connections: self.connections@.map_values(|c: Connection| c@),
            description: self.description@,
            players: members(self.players),
            monsters: match self.monsters {
                Some(ms) => Some(monster_views(ms@)),
                None => None,
            },
        }
    }
}

/// Copies of the given monsters, in order.
fn clone_monsters(ms: &Vec<Monster>) -> (c: Vec<Monster>)
    ensures
        c@ == ms@,
{
    let mut c: Vec<Monster> = Vec::new();
    let mut k: usize = 0;
    while k < ms.len()
        invariant
            k <= ms.len(),
            c@ == ms@.take(k as int),
        decreases ms.len() - k,
    {
        c.push(ms[k].clone());
        k = k + 1;
        assert(c@ =~= ms@.take(k as int));
    }
    assert(ms@.take(k as int) =~= ms@);
    c
}

impl Clone for Room {
    fn clone(&self) -> (r: Self)
        ensures
            r@ == self@,
    {
        Room {
            room_number: self.room_number,
            title: self.title.clone(),
            connections: self.connections.clone(),
            description: self.description.clone(),
            players: roster_clone(&self.players),
            monsters: match &self.monsters {
                Some(ms) => Some(clone_monsters(ms)),
                None => None,
            },
        }
    }
}

/// Constraints on character creation.
#[derive(Debug, Clone, Copy)]
pub struct GameConfig {
    /// Total stat points a player may spread over attack, defense and regen.
    pub initial_points: u16,
    /// Largest value of a single stat (reserved; not enforced).
    pub stat_limit: u16,
}

/// A player: character data and the connected client, if any.
///
/// A player whose `client` is `None` is offline; the character stays in the
/// world so that its owner can come back.
#[derive(Debug)]
pub struct PlayerState {
    /// The player's character.
    pub character: Character,
    /// The connected client, or `None` while offline.
    pub client: Option<ClientId>,
}

/// The view of a [`PlayerState`].
pub struct PlayerView {
    pub character: CharacterView,
    pub client: Option<ClientId>,
}

impl View for PlayerState {
    type V = PlayerView;

    open spec fn view(&self) -> PlayerView {
        PlayerView { character: self.character@, client: self.client }
    }
}

impl Clone for PlayerState {
    fn clone(&self) -> (p: Self)
        ensures
            p == *self,
    {
        PlayerState { character: self.character.clone(), client: self.client }
    }
}

} // verus!
