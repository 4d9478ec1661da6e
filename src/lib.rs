//! A deck-building card-game engine: zones, supply, turn phases and an
//! interruptible effect-resolution queue, with their contracts.

pub mod arena;
pub mod card;
pub mod command;
pub mod effect;
pub mod kingdom;
pub mod location;
pub mod player;
pub mod scrape;
pub mod supply;
pub mod turn;
pub mod types;
