//! A haunted-house exploration game: the house graph, items, monsters,
//! combat and the turn engine, with their contracts.

pub mod exit;
pub mod house;
pub mod item;
pub mod monster;
pub mod player;
pub mod event;
pub mod room_event;
pub mod combat;
pub mod game_state;
pub mod engine;
pub mod map_state;
pub mod setup;
pub mod ui;
pub mod laws;
pub mod navigation;
pub mod text;
pub mod view;
