//! A relay for Minecraft LAN games: the decisions it takes, as functions over plain values.
pub mod addr;
pub mod decimal;
pub mod discovery;
pub mod game;
pub mod id_map;
mod keys;
pub mod protocol;
pub mod queue;
pub mod relay;
pub mod text;
pub mod ui;
