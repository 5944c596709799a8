//! A sans-IO game engine for the Lurk protocol.
//!
//! The engine holds the game world in memory and does no IO: the event loop
//! feeds it [`Input`] events with [`GameEngine::handle_input`] and drains the
//! [`Output`] events it queues with [`GameEngine::poll_output`]. Every change
//! of state and every queued output is stated by the handlers' contracts, over
//! the views of the state (see [`engine::EngineView`]).

pub mod engine;
pub mod handler_laws;
pub mod input;
pub mod laws;
pub mod model;
pub mod output;
pub mod protocol;
pub mod roster;
pub mod state;
pub mod types;

pub use engine::GameEngine;
pub use input::Input;
pub use output::{ConnectionInfo, Output, RoomInfo};
pub use state::{Character, Connection, GameConfig, Monster, PlayerState, Room};
pub use types::ClientId;
