use std::collections::HashMap;

use lurk_protocol::{CharacterFlags, LurkError};
use lurk_sansio::{Character, ClientId, GameConfig, GameEngine, Output, PlayerState};

// Helper to build a minimal engine for unit tests
fn minimal_engine() -> GameEngine {
    GameEngine::new(
        HashMap::new(),
        GameConfig {
            initial_points: 100,
            stat_limit: 65535,
        },
    )
}

fn find<'a>(engine: &'a GameEngine, name: &str) -> &'a PlayerState {
    engine
        .players()
        .iter()
        .find(|p| p.character.name == name)
        .unwrap()
}

#[test]
fn ensure_ready_emits_notready_and_returns_false() {
    let mut engine = minimal_engine();

    // Insert a player that is not READY
    engine.insert_player(PlayerState {
        character: Character {
            name: String::from("Tester"),
            flags: CharacterFlags::empty(),
            attack: 1,
            defense: 1,
            regen: 1,
            health: 100,
            gold: 0,
            current_room: 0,
            description: "desc".into(),
        },
        client: Some(ClientId(42)),
    });

    let snapshot = find(&engine, "Tester").clone();

    let ok = engine.ensure_ready(&snapshot, ClientId(42));
    assert!(!ok, "ensure_ready must return false for non-ready player");

    // Should have emitted a NOTREADY error
    let found = engine.poll_output();
    match found {
        Some(Output::SendError { error_code, .. }) => {
            assert_eq!(error_code, LurkError::NOTREADY);
        }
        other => panic!("Expected SendError NOTREADY, got: {:?}", other),
    }
}

#[test]
fn ensure_started_behavior() {
    let mut engine = minimal_engine();

    // Insert a player that is READY but not STARTED
    engine.insert_player(PlayerState {
        character: Character {
            name: String::from("ReadyPlayer"),
            flags: CharacterFlags::alive() | CharacterFlags::READY,
            attack: 1,
            defense: 1,
            regen: 1,
            health: 100,
            gold: 0,
            current_room: 0,
            description: "desc".into(),
        },
        client: Some(ClientId(43)),
    });

    let snapshot = find(&engine, "ReadyPlayer").clone();

    // ensure_started should return true for READY players
    assert!(engine.ensure_started(&snapshot, ClientId(43)));

    // No error should be emitted
    assert!(engine.poll_output().is_none());

    // Insert a player that is neither READY nor STARTED
    engine.insert_player(PlayerState {
        character: Character {
            name: String::from("NotStarted"),
            flags: CharacterFlags::empty(),
            attack: 1,
            defense: 1,
            regen: 1,
            health: 100,
            gold: 0,
            current_room: 0,
            description: "desc".into(),
        },
        client: Some(ClientId(44)),
    });

    let snapshot2 = find(&engine, "NotStarted").clone();
    let ok = engine.ensure_started(&snapshot2, ClientId(44));
    assert!(
        !ok,
        "ensure_started must return false when neither started nor ready"
    );

    // Should have emitted a NOTREADY error
    let found = engine.poll_output();
    match found {
        Some(Output::SendError { error_code, .. }) => {
            assert_eq!(error_code, LurkError::NOTREADY);
        }
        other => panic!("Expected SendError NOTREADY, got: {:?}", other),
    }
}
