//! Server core for a four-player trick-taking card game (coinche).
//!
//! The crate is organised in three layers:
//! - the rules library: cards, hands, seats, auctions, tricks and game
//!   states, all pure value types with verified transition functions;
//! - the session layer: per-table event logs with observer wake-up
//!   (`party`) and the global matchmaker (`manager`);
//! - the edges: the canonical wire text of cards and targets (`text`)
//!   and the client driver's decisions (`client`).

pub mod bid;
pub mod cards;
pub mod client;
pub mod deal;
pub mod event;
pub mod game;
pub mod manager;
pub mod party;
pub mod points;
pub mod pos;
pub mod text;
pub mod trick;
