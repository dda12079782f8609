//! Connections to games, and listeners that stand in for games of other relays.
pub mod connection;
pub mod listener;

pub use self::connection::{GameConnectionClosedError, GameConnectionHandle};
pub use self::listener::{GameListenerClosedError, GameListenerHandle};
