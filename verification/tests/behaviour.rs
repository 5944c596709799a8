use std::collections::HashMap;

use indexmap::IndexSet;
use lurk_protocol::{CharacterFlags, LurkError, PktType};
use lurk_sansio::{
    Character, ClientId, Connection, ConnectionInfo, GameConfig, GameEngine, Input, Monster,
    Output, PlayerState, Room, RoomInfo,
};

fn drain(engine: &mut GameEngine) -> Vec<Output> {
    let mut outputs = Vec::new();
    while let Some(o) = engine.poll_output() {
        outputs.push(o);
    }
    outputs
}

fn monster(name: &str, room: u16, health: i16, attack: u16, defense: u16, gold: u16) -> Monster {
    Monster {
        name: name.to_string(),
        current_room: room,
        max_health: health,
        health,
        attack,
        defense,
        gold,
        description: "A monster.".into(),
    }
}

fn exit(to: u16, title: &str) -> Connection {
    Connection { room_number: to, title: title.into(), description: "An exit.".into() }
}

/// Room 0 (exits to 1 and 3, one monster), room 1 (exit to 0, no monsters),
/// room 3 (exit to 0, two monsters of equal health).
fn world() -> HashMap<u16, Room> {
    let mut rooms = HashMap::new();
    let mut c0 = HashMap::new();
    c0.insert(1, exit(1, "North"));
    c0.insert(3, exit(3, "East"));
    rooms.insert(
        0,
        Room {
            room_number: 0,
            title: "Start".into(),
            connections: c0,
            description: "The first room.".into(),
            players: IndexSet::new(),
            monsters: Some(vec![monster("Skulltula", 0, 20, 5, 2, 10)]),
        },
    );
    let mut c1 = HashMap::new();
    c1.insert(0, exit(0, "South"));
    rooms.insert(
        1,
        Room {
            room_number: 1,
            title: "Hall".into(),
            connections: c1,
            description: "An empty hall.".into(),
            players: IndexSet::new(),
            monsters: None,
        },
    );
    let mut c3 = HashMap::new();
    c3.insert(0, exit(0, "West"));
    rooms.insert(
        3,
        Room {
            room_number: 3,
            title: "Den".into(),
            connections: c3,
            description: "A den.".into(),
            players: IndexSet::new(),
            monsters: Some(vec![
                monster("Banana", 3, 50, 1, 0, 3),
                monster("Apple", 3, 50, 1, 0, 4),
                monster("Cherry", 3, 60, 1, 0, 5),
            ]),
        },
    );
    rooms
}

fn engine_with(points: u16) -> GameEngine {
    GameEngine::new(world(), GameConfig { initial_points: points, stat_limit: 65535 })
}

fn register(engine: &mut GameEngine, client: u64, name: &str, attack: u16, defense: u16, regen: u16) {
    engine.handle_input(Input::Character {
        client: ClientId(client),
        name: name.to_string(),
        attack,
        defense,
        regen,
        description: "Hero.".into(),
    });
}

fn join(engine: &mut GameEngine, client: u64, name: &str) {
    register(engine, client, name, 40, 30, 30);
    engine.handle_input(Input::Start { client: ClientId(client) });
    drain(engine);
}

fn player<'a>(engine: &'a GameEngine, name: &str) -> &'a PlayerState {
    engine.players().iter().find(|p| p.character.name == name).unwrap()
}

fn error_of(o: &Output) -> Option<(ClientId, LurkError, String)> {
    match o {
        Output::SendError { client, error_code, message } => Some((*client, *error_code, message.clone())),
        _ => None,
    }
}

// ---------- contents of outputs ----------

#[test]
fn start_messages_and_flags() {
    let mut engine = engine_with(100);
    register(&mut engine, 1, "Link", 40, 30, 30);
    drain(&mut engine);
    engine.handle_input(Input::Start { client: ClientId(1) });
    let out = drain(&mut engine);
    assert!(matches!(&out[0], Output::SendCharacter { client, character }
        if *client == ClientId(1) && character.flags.bits() == 0xD8));
    assert!(matches!(&out[1], Output::AlertRoom { room_number: 0, .. }));
    assert!(matches!(&out[2], Output::Broadcast { message } if message == "Link has started the game!"));
    assert!(matches!(&out[3], Output::SendRoom { room, .. } if room.room_number == 0 && room.title == "Start"));
    // the two exits of room 0, in ascending order of destination
    assert!(matches!(&out[4], Output::SendConnection { client, connection }
        if *client == ClientId(1) && connection.room_number == 1 && connection.title == "North"));
    assert!(matches!(&out[5], Output::SendConnection { client, connection }
        if *client == ClientId(1) && connection.room_number == 3 && connection.title == "East"));
    // contents: Link, then the monster
    assert!(matches!(&out[6], Output::SendCharacter { character, .. } if character.name == "Link"));
    assert!(matches!(&out[7], Output::SendCharacter { character, .. }
        if character.name == "Skulltula" && character.flags.bits() == 0xE8 && character.regen == 0));
    assert_eq!(out.len(), 8);
}

#[test]
fn start_without_room_zero_sends_no_room() {
    let mut rooms = world();
    rooms.remove(&0);
    let mut engine = GameEngine::new(rooms, GameConfig { initial_points: 100, stat_limit: 0 });
    register(&mut engine, 1, "Link", 1, 1, 1);
    drain(&mut engine);
    engine.handle_input(Input::Start { client: ClientId(1) });
    let out = drain(&mut engine);
    assert_eq!(out.len(), 3);
    assert!(matches!(&out[2], Output::Broadcast { .. }));
}

#[test]
fn leave_message_text() {
    let mut engine = engine_with(100);
    join(&mut engine, 1, "Link");
    engine.handle_input(Input::Leave { client: ClientId(1) });
    let out = drain(&mut engine);
    assert_eq!(out.len(), 3);
    assert!(matches!(&out[0], Output::Broadcast { message } if message == "Link has left the game."));
    assert!(matches!(&out[1], Output::AlertRoom { room_number: 0, character } if character.flags.bits() == 0));
    assert!(matches!(&out[2], Output::Disconnect { client } if *client == ClientId(1)));
}

#[test]
fn pvp_refusal_text() {
    let mut engine = engine_with(100);
    engine.handle_input(Input::PvpFight { client: ClientId(5), target_name: "Zelda".into() });
    let out = drain(&mut engine);
    assert_eq!(out.len(), 1);
    assert_eq!(
        error_of(&out[0]),
        Some((ClientId(5), LurkError::NOPLAYERCOMBAT, "No player combat allowed".to_string()))
    );
}

#[test]
fn client_connected_changes_nothing() {
    let mut engine = engine_with(100);
    engine.handle_input(Input::ClientConnected { client: ClientId(1) });
    assert!(engine.poll_output().is_none());
    assert!(engine.players().is_empty());
}

#[test]
fn accept_packet_is_character_type() {
    let mut engine = engine_with(100);
    register(&mut engine, 1, "Link", 10, 10, 10);
    let out = drain(&mut engine);
    assert!(matches!(&out[0], Output::SendAccept { client, accepted_type }
        if *client == ClientId(1) && *accepted_type == PktType::CHARACTER));
    assert!(matches!(&out[1], Output::SendCharacter { character, .. }
        if character.health == 100 && character.gold == 0 && character.flags.bits() == 0xC8));
}

// ---------- character registration ----------

#[test]
fn stats_exactly_at_the_limit_are_accepted() {
    let mut engine = engine_with(100);
    register(&mut engine, 1, "Link", 50, 25, 25);
    assert_eq!(engine.players().len(), 1);
    register(&mut engine, 2, "Zelda", 50, 25, 26);
    assert_eq!(engine.players().len(), 1);
    let out = drain(&mut engine);
    assert_eq!(
        error_of(out.last().unwrap()),
        Some((ClientId(2), LurkError::STATERROR, "Invalid stats".to_string()))
    );
}

#[test]
fn rejoining_from_another_room_clears_the_corpse() {
    let mut engine = engine_with(100);
    join(&mut engine, 1, "Link");
    engine.handle_input(Input::ChangeRoom { client: ClientId(1), room_number: 1 });
    engine.handle_input(Input::Leave { client: ClientId(1) });
    drain(&mut engine);
    register(&mut engine, 7, "Link", 10, 10, 10);
    let out = drain(&mut engine);
    assert_eq!(out.len(), 4);
    assert!(matches!(&out[2], Output::Narrate { room_number: 1, message, narration: true }
        if message == "Link's corpse disappeared into a puff of smoke."));
    assert!(matches!(&out[3], Output::AlertRoom { room_number: 1, character } if character.current_room == 0));
    assert!(!engine.rooms()[&1].players.contains("Link"));
    assert_eq!(player(&engine, "Link").client, Some(ClientId(7)));
    assert_eq!(engine.players().len(), 1);
}

#[test]
fn same_name_twice_keeps_one_player() {
    let mut engine = engine_with(100);
    register(&mut engine, 1, "Link", 10, 10, 10);
    register(&mut engine, 2, "Link", 20, 20, 20);
    assert_eq!(engine.players().len(), 1);
    assert_eq!(player(&engine, "Link").character.attack, 20);
    assert_eq!(player(&engine, "Link").client, Some(ClientId(2)));
}

// ---------- moving ----------

#[test]
fn change_room_from_missing_room() {
    let mut engine = engine_with(100);
    engine.insert_player(PlayerState {
        character: Character {
            name: "Lost".into(),
            flags: CharacterFlags::alive(),
            attack: 1,
            defense: 1,
            regen: 1,
            health: 10,
            gold: 0,
            current_room: 9,
            description: "".into(),
        },
        client: Some(ClientId(3)),
    });
    engine.handle_input(Input::ChangeRoom { client: ClientId(3), room_number: 1 });
    let out = drain(&mut engine);
    assert_eq!(error_of(&out[0]), Some((ClientId(3), LurkError::BADROOM, "Room not found!".to_string())));
}

#[test]
fn change_room_sends_new_room_then_character_then_alerts() {
    let mut engine = engine_with(100);
    join(&mut engine, 1, "Link");
    engine.handle_input(Input::ChangeRoom { client: ClientId(1), room_number: 1 });
    let out = drain(&mut engine);
    assert!(matches!(&out[0], Output::SendRoom { room, .. } if room.room_number == 1 && room.title == "Hall"));
    assert!(matches!(&out[1], Output::SendCharacter { character, .. } if character.current_room == 1));
    assert!(matches!(&out[2], Output::AlertRoom { room_number: 0, .. }));
    assert!(matches!(&out[3], Output::AlertRoom { room_number: 1, .. }));
    assert!(matches!(&out[4], Output::SendConnection { connection, .. } if connection.room_number == 0));
    assert!(matches!(&out[5], Output::SendCharacter { character, .. } if character.name == "Link"));
    assert_eq!(out.len(), 6);
}

#[test]
fn unknown_client_is_ignored() {
    let mut engine = engine_with(100);
    join(&mut engine, 1, "Link");
    for input in [
        Input::Start { client: ClientId(9) },
        Input::ChangeRoom { client: ClientId(9), room_number: 1 },
        Input::Fight { client: ClientId(9) },
        Input::Loot { client: ClientId(9), target_name: "Skulltula".into() },
        Input::Leave { client: ClientId(9) },
    ] {
        engine.handle_input(input);
    }
    assert!(engine.poll_output().is_none());
    assert_eq!(engine.rooms()[&0].monsters.as_ref().unwrap()[0].health, 20);
}

// ---------- fighting ----------

#[test]
fn fight_narration_texts() {
    let mut engine = engine_with(100);
    join(&mut engine, 1, "Link");
    engine.handle_input(Input::Fight { client: ClientId(1) });
    let out = drain(&mut engine);
    assert!(matches!(&out[0], Output::Narrate { room_number: 0, message, narration: false }
        if message == "Link is attacking Skulltula"));
    assert!(matches!(&out[1], Output::Narrate { message, .. } if message == "0 player(s) joining the fight"));
    assert!(matches!(&out[2], Output::AlertRoom { character, .. } if character.name == "Link"));
    assert!(matches!(&out[3], Output::AlertRoom { character, .. }
        if character.name == "Skulltula" && character.health == -18 && character.flags.bits() == 0x68));
    assert_eq!(out.len(), 4);
}

#[test]
fn fight_counts_allies() {
    let mut engine = engine_with(100);
    for (c, n) in [(1, "A"), (2, "B"), (3, "C")] {
        join(&mut engine, c, n);
    }
    engine.handle_input(Input::Fight { client: ClientId(2) });
    let out = drain(&mut engine);
    assert!(matches!(&out[0], Output::Narrate { message, .. } if message == "B is attacking Skulltula"));
    assert!(matches!(&out[1], Output::Narrate { message, .. } if message == "2 player(s) joining the fight"));
    let alerted: Vec<String> = out[2..5]
        .iter()
        .map(|o| match o {
            Output::AlertRoom { character, .. } => character.name.clone(),
            _ => panic!("expected alert"),
        })
        .collect();
    assert_eq!(alerted, vec!["A", "B", "C"]);
}

#[test]
fn fight_targets_least_health_then_least_name() {
    let mut engine = engine_with(100);
    engine.insert_player(PlayerState {
        character: Character {
            name: "Hunter".into(),
            flags: CharacterFlags::alive(),
            attack: 1,
            defense: 100,
            regen: 0,
            health: 100,
            gold: 0,
            current_room: 3,
            description: "".into(),
        },
        client: Some(ClientId(1)),
    });
    engine.handle_input(Input::Fight { client: ClientId(1) });
    let out = drain(&mut engine);
    // Banana and Apple tie on health; Apple has the smaller name.
    assert!(matches!(&out[0], Output::Narrate { message, .. } if message == "Hunter is attacking Apple"));
    let ms = engine.rooms()[&3].monsters.as_ref().unwrap();
    assert_eq!(ms[1].health, 49);
    assert_eq!(ms[0].health, 50);
    engine.handle_input(Input::Fight { client: ClientId(1) });
    let out = drain(&mut engine);
    assert!(matches!(&out[0], Output::Narrate { message, .. } if message == "Hunter is attacking Apple"));
}

#[test]
fn fight_saturates_damage_and_regen() {
    let mut engine = engine_with(65000);
    register(&mut engine, 1, "Titan", 40000, 0, 20000);
    engine.handle_input(Input::Start { client: ClientId(1) });
    drain(&mut engine);
    engine.handle_input(Input::Fight { client: ClientId(1) });
    drain(&mut engine);
    // damage 39998 clamps to 32767: 20 - 32767
    assert_eq!(engine.rooms()[&0].monsters.as_ref().unwrap()[0].health, -32747);
    // regen 20000 added to 100 stays below the cap
    assert_eq!(player(&engine, "Titan").character.health, 20100);
    engine.handle_input(Input::ChangeRoom { client: ClientId(1), room_number: 3 });
    engine.handle_input(Input::Fight { client: ClientId(1) });
    drain(&mut engine);
    // regen again: 20100 + 20000 saturates at i16::MAX
    assert_eq!(player(&engine, "Titan").character.health, i16::MAX);
}

#[test]
fn monsters_never_recover_over_fights() {
    let mut engine = engine_with(100);
    register(&mut engine, 1, "Weak", 3, 50, 0);
    engine.handle_input(Input::Start { client: ClientId(1) });
    let mut last = 20;
    for _ in 0..20 {
        engine.handle_input(Input::Fight { client: ClientId(1) });
        let h = engine.rooms()[&0].monsters.as_ref().unwrap()[0].health;
        assert!(h <= last);
        last = h;
    }
    assert!(last <= 0);
    assert_eq!(engine.rooms()[&0].monsters.as_ref().unwrap()[0].gold, 10);
}

#[test]
fn fight_in_room_without_monsters_text() {
    let mut engine = engine_with(100);
    join(&mut engine, 1, "Link");
    engine.handle_input(Input::ChangeRoom { client: ClientId(1), room_number: 1 });
    drain(&mut engine);
    engine.handle_input(Input::Fight { client: ClientId(1) });
    let out = drain(&mut engine);
    assert_eq!(
        error_of(&out[0]),
        Some((ClientId(1), LurkError::NOFIGHT, "The room is eerily quiet...".to_string()))
    );
}

// ---------- looting ----------

#[test]
fn loot_moves_gold_exactly() {
    let mut engine = engine_with(100);
    join(&mut engine, 1, "Link");
    engine.handle_input(Input::Fight { client: ClientId(1) });
    drain(&mut engine);
    let before = player(&engine, "Link").character.gold;
    engine.handle_input(Input::Loot { client: ClientId(1), target_name: "Skulltula".into() });
    let out = drain(&mut engine);
    assert_eq!(player(&engine, "Link").character.gold, before + 10);
    assert_eq!(engine.rooms()[&0].monsters.as_ref().unwrap()[0].gold, 0);
    assert!(matches!(&out[0], Output::SendCharacter { client, character }
        if *client == ClientId(1) && character.name == "Link" && character.gold == 10));
    assert!(matches!(&out[1], Output::SendCharacter { character, .. }
        if character.name == "Skulltula" && character.gold == 0));
}

#[test]
fn loot_in_room_without_monsters() {
    let mut engine = engine_with(100);
    join(&mut engine, 1, "Link");
    engine.handle_input(Input::ChangeRoom { client: ClientId(1), room_number: 1 });
    drain(&mut engine);
    engine.handle_input(Input::Loot { client: ClientId(1), target_name: "Skulltula".into() });
    let out = drain(&mut engine);
    assert_eq!(
        error_of(&out[0]),
        Some((ClientId(1), LurkError::OTHER, "No monsters to loot!".to_string()))
    );
}

#[test]
fn loot_that_would_overflow_gold_is_not_accepted() {
    let mut engine = engine_with(100);
    join(&mut engine, 1, "Link");
    engine.handle_input(Input::Fight { client: ClientId(1) });
    drain(&mut engine);
    engine.players_mut()[0].character.gold = u16::MAX - 5;
    let loot = Input::Loot { client: ClientId(1), target_name: "Skulltula".into() };
    assert!(!engine.accepts_input(&loot));
    engine.players_mut()[0].character.gold = u16::MAX - 10;
    assert!(engine.accepts_input(&loot));
    engine.handle_input(loot);
    assert_eq!(player(&engine, "Link").character.gold, u16::MAX);
}

#[test]
fn fight_that_would_overflow_attack_is_not_accepted() {
    let mut engine = engine_with(65000);
    register(&mut engine, 1, "A", 40000, 0, 0);
    engine.handle_input(Input::Start { client: ClientId(1) });
    register(&mut engine, 2, "B", 40000, 0, 0);
    engine.handle_input(Input::Start { client: ClientId(2) });
    assert!(!engine.accepts_input(&Input::Fight { client: ClientId(1) }));
    assert!(engine.accepts_input(&Input::Fight { client: ClientId(9) }));
}

// ---------- messages ----------

#[test]
fn message_to_ready_but_offline_player() {
    let mut engine = engine_with(100);
    engine.insert_player(PlayerState {
        character: Character::with_defaults("Ghost".into(), 1, 1, 1, "".into()),
        client: None,
    });
    engine.handle_input(Input::Message {
        client: ClientId(1),
        sender_name: "Link".into(),
        recipient_name: "Ghost".into(),
        message: "Boo".into(),
    });
    let out = drain(&mut engine);
    assert_eq!(error_of(&out[0]), Some((ClientId(1), LurkError::OTHER, "Not connected".to_string())));
}

// ---------- laws on concrete values ----------

fn script() -> Vec<Input> {
    vec![
        Input::Character { client: ClientId(1), name: "Link".into(), attack: 40, defense: 30, regen: 30, description: "".into() },
        Input::Start { client: ClientId(1) },
        Input::Character { client: ClientId(2), name: "Zelda".into(), attack: 10, defense: 10, regen: 10, description: "".into() },
        Input::Start { client: ClientId(2) },
        Input::Fight { client: ClientId(2) },
        Input::Loot { client: ClientId(1), target_name: "Skulltula".into() },
        Input::ChangeRoom { client: ClientId(1), room_number: 3 },
        Input::Fight { client: ClientId(1) },
        Input::Message { client: ClientId(1), sender_name: "Link".into(), recipient_name: "Zelda".into(), message: "hi".into() },
        Input::Leave { client: ClientId(2) },
        Input::ChangeRoom { client: ClientId(1), room_number: 2 },
    ]
}

fn run(engine: &mut GameEngine) -> Vec<Output> {
    for input in script() {
        engine.handle_input(input);
    }
    drain(engine)
}

#[test]
fn same_inputs_give_same_state_and_outputs() {
    let mut a = engine_with(100);
    let mut b = engine_with(100);
    let oa: Vec<String> = run(&mut a).iter().map(|o| format!("{:?}", o)).collect();
    let ob: Vec<String> = run(&mut b).iter().map(|o| format!("{:?}", o)).collect();
    assert_eq!(oa, ob);
    assert_eq!(format!("{:?}", a.players()), format!("{:?}", b.players()));
    for k in [0u16, 1, 3] {
        assert_eq!(format!("{:?}", a.rooms()[&k].players), format!("{:?}", b.rooms()[&k].players));
        assert_eq!(format!("{:?}", a.rooms()[&k].monsters), format!("{:?}", b.rooms()[&k].monsters));
    }
}

#[test]
fn queued_outputs_stay_in_front() {
    let mut engine = engine_with(100);
    register(&mut engine, 1, "Link", 1, 1, 1);
    engine.handle_input(Input::PvpFight { client: ClientId(1), target_name: "x".into() });
    let out = drain(&mut engine);
    assert!(matches!(&out[0], Output::SendAccept { .. }));
    assert!(matches!(&out[1], Output::SendCharacter { .. }));
    assert!(matches!(&out[2], Output::SendError { .. }));
    assert_eq!(out.len(), 3);
}

#[test]
fn rooms_keep_their_layout_and_players_persist() {
    let mut engine = engine_with(100);
    run(&mut engine);
    let fresh = world();
    let rooms = engine.rooms();
    assert_eq!(rooms.len(), fresh.len());
    for (k, r) in &fresh {
        let now = &rooms[k];
        assert_eq!(now.room_number, r.room_number);
        assert_eq!(now.title, r.title);
        assert_eq!(now.description, r.description);
        let mut a: Vec<u16> = now.connections.keys().copied().collect();
        let mut b: Vec<u16> = r.connections.keys().copied().collect();
        a.sort();
        b.sort();
        assert_eq!(a, b);
        match (&now.monsters, &r.monsters) {
            (Some(x), Some(y)) => {
                assert_eq!(x.len(), y.len());
                for (m, n) in x.iter().zip(y.iter()) {
                    assert_eq!(m.name, n.name);
                    assert!(m.health <= n.health);
                    assert!(m.gold <= n.gold);
                }
            }
            (None, None) => {}
            _ => panic!("monsters appeared or vanished"),
        }
    }
    let names: Vec<&str> = engine.players().iter().map(|p| p.character.name.as_str()).collect();
    assert_eq!(names, vec!["Link", "Zelda"]);
    for p in engine.players() {
        assert!(p.character.attack + p.character.defense + p.character.regen <= 100);
    }
}

#[test]
fn errors_go_to_the_sender() {
    let mut engine = engine_with(100);
    join(&mut engine, 1, "Link");
    join(&mut engine, 2, "Zelda");
    let inputs = vec![
        Input::ChangeRoom { client: ClientId(2), room_number: 0 },
        Input::ChangeRoom { client: ClientId(2), room_number: 2 },
        Input::Loot { client: ClientId(2), target_name: "Nobody".into() },
        Input::Message { client: ClientId(2), sender_name: "Zelda".into(), recipient_name: "Navi".into(), message: "".into() },
        Input::Character { client: ClientId(2), name: "Link".into(), attack: 1, defense: 1, regen: 1, description: "".into() },
    ];
    for input in inputs {
        engine.handle_input(input);
        let out = drain(&mut engine);
        assert!(!out.is_empty());
        for o in &out {
            if let Some((client, _, _)) = error_of(o) {
                assert_eq!(client, ClientId(2));
            }
        }
    }
}

#[test]
fn rejoin_keeps_position_and_readies() {
    let mut engine = engine_with(100);
    join(&mut engine, 1, "Link");
    join(&mut engine, 2, "Zelda");
    engine.handle_input(Input::Leave { client: ClientId(1) });
    drain(&mut engine);
    register(&mut engine, 5, "Link", 30, 30, 40);
    let out = drain(&mut engine);
    assert!(matches!(&out[0], Output::SendAccept { client, .. } if *client == ClientId(5)));
    assert_eq!(engine.players()[0].character.name, "Link");
    assert_eq!(engine.players()[0].client, Some(ClientId(5)));
    assert!(engine.players()[0].character.flags.is_ready());
    assert_eq!(engine.players().len(), 2);
}

// ---------- small functions ----------

#[test]
fn client_id_text() {
    assert_eq!(ClientId(42).to_string(), "Client(42)");
    assert_eq!(ClientId(0).to_string(), "Client(0)");
    assert_eq!(ClientId(u64::MAX).to_string(), "Client(18446744073709551615)");
}

#[test]
fn with_defaults_fields() {
    let ch = Character::with_defaults("Link".into(), 50, 30, 20, "Hero of Time".into());
    assert_eq!(ch.health, 100);
    assert_eq!(ch.current_room, 0);
    assert_eq!(ch.gold, 0);
    assert_eq!(ch.flags, CharacterFlags::alive());
    assert_eq!((ch.attack, ch.defense, ch.regen), (50, 30, 20));
}

#[test]
fn monster_to_character_flags() {
    let alive = monster("M", 4, 7, 3, 2, 9).to_character();
    assert_eq!(alive.flags, CharacterFlags::MONSTER | CharacterFlags::BATTLE | CharacterFlags::alive());
    assert_eq!((alive.current_room, alive.health, alive.gold, alive.regen), (4, 7, 9, 0));
    let dead = monster("M", 4, 0, 3, 2, 9).to_character();
    assert_eq!(dead.flags, CharacterFlags::MONSTER | CharacterFlags::BATTLE | CharacterFlags::dead());
}

#[test]
fn info_conversions() {
    let rooms = world();
    let info = RoomInfo::from(&rooms[&1]);
    assert_eq!((info.room_number, info.title.as_str(), info.description.as_str()), (1, "Hall", "An empty hall."));
    let c = ConnectionInfo::from(&rooms[&0].connections[&3]);
    assert_eq!((c.room_number, c.title.as_str(), c.description.as_str()), (3, "East", "An exit."));
}

#[test]
fn clones_are_equal_copies() {
    let rooms = world();
    let mut room = rooms[&3].clone();
    room.players.insert("Link".into());
    room.players.insert("Zelda".into());
    let copy = room.clone();
    let names: Vec<&String> = copy.players.iter().collect();
    assert_eq!(names, vec!["Link", "Zelda"]);
    assert_eq!(copy.title, "Den");
    assert_eq!(copy.monsters.as_ref().unwrap().len(), 3);
    assert_eq!(copy.connections.len(), 1);
    let o = Output::Narrate { room_number: 2, message: "m".into(), narration: true };
    assert_eq!(format!("{:?}", o.clone()), format!("{:?}", o));
    let i = Input::Loot { client: ClientId(3), target_name: "t".into() };
    assert_eq!(format!("{:?}", i.clone()), format!("{:?}", i));
}

#[test]
fn gold_never_drops_outside_registration() {
    let mut engine = engine_with(100);
    let mut last: Vec<u16> = Vec::new();
    for input in script() {
        let registering = matches!(input, Input::Character { .. });
        engine.handle_input(input);
        let now: Vec<u16> = engine.players().iter().map(|p| p.character.gold).collect();
        if !registering {
            for (a, b) in last.iter().zip(now.iter()) {
                assert!(b >= a);
            }
        }
        last = now;
    }
    assert_eq!(player(&engine, "Link").character.gold, 10);
}

#[test]
fn moving_updates_membership_of_both_rooms() {
    let mut engine = engine_with(100);
    join(&mut engine, 1, "Link");
    assert!(engine.rooms()[&0].players.contains("Link"));
    engine.handle_input(Input::ChangeRoom { client: ClientId(1), room_number: 3 });
    assert!(!engine.rooms()[&0].players.contains("Link"));
    assert!(engine.rooms()[&3].players.contains("Link"));
    assert_eq!(player(&engine, "Link").character.current_room, 3);
}

// ---------- points, starting twice, dying ----------

#[test]
fn all_points_at_the_largest_number_refuse_an_overflowing_sum() {
    let mut engine = GameEngine::new(world(), GameConfig { initial_points: u16::MAX, stat_limit: u16::MAX });
    let input = Input::Character {
        client: ClientId(1),
        name: "Link".into(),
        attack: u16::MAX,
        defense: u16::MAX,
        regen: u16::MAX,
        description: "x".into(),
    };
    assert!(engine.accepts_input(&input));
    engine.handle_input(input);
    let out = drain(&mut engine);
    assert_eq!(out.len(), 1);
    assert_eq!(error_of(&out[0]), Some((ClientId(1), LurkError::STATERROR, "Invalid stats".to_string())));
    assert!(engine.players().is_empty());
}

#[test]
fn stats_using_every_point_of_the_largest_number_are_accepted() {
    let mut engine = GameEngine::new(world(), GameConfig { initial_points: u16::MAX, stat_limit: u16::MAX });
    register(&mut engine, 1, "Link", 65000, 500, 35);
    assert_eq!(engine.players().len(), 1);
    let out = drain(&mut engine);
    assert!(matches!(&out[0], Output::SendAccept { client, accepted_type }
        if *client == ClientId(1) && *accepted_type == PktType::CHARACTER));
    assert_eq!(player(&engine, "Link").character.attack, 65000);
}

#[test]
fn starting_twice_is_refused() {
    let mut engine = engine_with(100);
    join(&mut engine, 1, "Link");
    let players_before = format!("{:?}", engine.players());
    let roster_before = format!("{:?}", engine.rooms()[&0].players);
    engine.handle_input(Input::Start { client: ClientId(1) });
    let out = drain(&mut engine);
    assert_eq!(out.len(), 1);
    assert_eq!(
        error_of(&out[0]),
        Some((ClientId(1), LurkError::NOTREADY, "Supply a valid player first!".to_string()))
    );
    assert_eq!(format!("{:?}", engine.players()), players_before);
    assert_eq!(format!("{:?}", engine.rooms()[&0].players), roster_before);
}

#[test]
fn a_dead_attacker_does_not_regenerate() {
    let mut engine = engine_with(100);
    register(&mut engine, 1, "Weakling", 1, 0, 10);
    engine.handle_input(Input::Start { client: ClientId(1) });
    drain(&mut engine);
    engine.players_mut()[0].character.health = 3;
    engine.handle_input(Input::Fight { client: ClientId(1) });
    drain(&mut engine);
    assert_eq!(engine.rooms()[&0].monsters.as_ref().unwrap()[0].health, 20);
    assert_eq!(player(&engine, "Weakling").character.health, -2);
}

#[test]
fn a_living_attacker_regenerates_after_the_counterattack() {
    let mut engine = engine_with(100);
    register(&mut engine, 1, "Weakling", 1, 0, 10);
    engine.handle_input(Input::Start { client: ClientId(1) });
    drain(&mut engine);
    engine.players_mut()[0].character.health = 6;
    engine.handle_input(Input::Fight { client: ClientId(1) });
    drain(&mut engine);
    assert_eq!(player(&engine, "Weakling").character.health, 11);
}

// ---------- moving back, polling, registering by hand ----------

#[test]
fn moving_there_and_back_restores_the_rooms() {
    let mut engine = engine_with(100);
    join(&mut engine, 1, "Link");
    join(&mut engine, 2, "Zelda");
    let players_before = format!("{:?}", engine.players());
    let mut before0: Vec<String> = engine.rooms()[&0].players.iter().cloned().collect();
    before0.sort();
    let before1 = format!("{:?}", engine.rooms()[&1].players);
    engine.handle_input(Input::ChangeRoom { client: ClientId(1), room_number: 1 });
    engine.handle_input(Input::ChangeRoom { client: ClientId(1), room_number: 0 });
    assert_eq!(format!("{:?}", engine.players()), players_before);
    let after0: Vec<String> = engine.rooms()[&0].players.iter().cloned().collect();
    assert_eq!(after0, vec!["Zelda".to_string(), "Link".to_string()]);
    let mut after0_sorted = after0.clone();
    after0_sorted.sort();
    assert_eq!(after0_sorted, before0);
    assert_eq!(format!("{:?}", engine.rooms()[&1].players), before1);
}

#[test]
fn polling_hands_out_outputs_in_order_then_nothing() {
    let mut engine = engine_with(100);
    register(&mut engine, 1, "Link", 10, 10, 10);
    engine.handle_input(Input::Leave { client: ClientId(1) });
    let first = engine.poll_output().unwrap();
    assert!(matches!(first, Output::SendAccept { client, .. } if client == ClientId(1)));
    let second = engine.poll_output().unwrap();
    assert!(matches!(second, Output::SendCharacter { client, .. } if client == ClientId(1)));
    let third = engine.poll_output().unwrap();
    assert!(matches!(third, Output::Broadcast { ref message } if message == "Link has left the game."));
    let fourth = engine.poll_output().unwrap();
    assert!(matches!(fourth, Output::AlertRoom { room_number: 0, .. }));
    let fifth = engine.poll_output().unwrap();
    assert!(matches!(fifth, Output::Disconnect { client } if client == ClientId(1)));
    assert!(engine.poll_output().is_none());
    assert!(engine.poll_output().is_none());
    assert_eq!(engine.players().len(), 1);
}

#[test]
fn insert_player_replaces_the_player_of_that_name() {
    let mut engine = engine_with(100);
    register(&mut engine, 1, "Link", 10, 10, 10);
    register(&mut engine, 2, "Zelda", 10, 10, 10);
    engine.insert_player(PlayerState {
        character: Character::with_defaults("Link".into(), 1, 2, 3, "".into()),
        client: None,
    });
    assert_eq!(engine.players().len(), 2);
    assert_eq!(engine.players()[0].character.name, "Link");
    assert_eq!(engine.players()[0].character.defense, 2);
    assert_eq!(engine.players()[0].client, None);
    engine.insert_player(PlayerState {
        character: Character::with_defaults("Ganon".into(), 1, 2, 3, "".into()),
        client: None,
    });
    assert_eq!(engine.players().len(), 3);
    assert_eq!(engine.players()[2].character.name, "Ganon");
}

#[test]
fn refused_loot_is_accepted_whatever_the_gold() {
    let mut engine = engine_with(100);
    join(&mut engine, 1, "Link");
    engine.players_mut()[0].character.gold = u16::MAX;
    let loot = Input::Loot { client: ClientId(1), target_name: "Skulltula".into() };
    assert!(engine.accepts_input(&loot));
    let rooms_before = format!("{:?}", engine.rooms()[&0].monsters);
    engine.handle_input(loot);
    let out = drain(&mut engine);
    assert_eq!(out.len(), 1);
    assert_eq!(
        error_of(&out[0]),
        Some((ClientId(1), LurkError::BADMONSTER, "Monster is still alive!".to_string()))
    );
    assert_eq!(player(&engine, "Link").character.gold, u16::MAX);
    assert_eq!(format!("{:?}", engine.rooms()[&0].monsters), rooms_before);
}

#[test]
fn same_steps_with_polls_between_give_same_outputs() {
    let mut a = engine_with(100);
    let mut b = engine_with(100);
    let mut oa = Vec::new();
    let mut ob = Vec::new();
    for input in script() {
        a.handle_input(input.clone());
        b.handle_input(input);
        if let Some(o) = a.poll_output() {
            oa.push(format!("{:?}", o));
        }
        if let Some(o) = b.poll_output() {
            ob.push(format!("{:?}", o));
        }
    }
    oa.extend(drain(&mut a).iter().map(|o| format!("{:?}", o)));
    ob.extend(drain(&mut b).iter().map(|o| format!("{:?}", o)));
    assert_eq!(oa, ob);
    assert_eq!(format!("{:?}", a.players()), format!("{:?}", b.players()));
}
