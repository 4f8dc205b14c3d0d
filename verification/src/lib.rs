//! Verified core of the CEX board: Upbit request building, JWT claims,
//! API-key normalisation, order validation and the websocket decision logic.

pub mod auth;
pub mod client;
pub mod config;
pub mod constants;
pub mod model;
pub mod text;
pub mod web;
pub mod websocket;
