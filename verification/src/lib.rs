//! Match history, rating periods, name reservations and replay storage for the
//! Freeplay ladder.

pub mod auth;
pub mod clock;
pub mod config;
pub mod db;
pub mod discord;
pub mod double;
pub mod glicko;
pub mod handlers;
pub mod laws;
pub mod models;
pub mod order;
pub mod rating_period;
pub mod state;
pub mod status;
pub mod table;
pub mod text;
pub mod uploading;
