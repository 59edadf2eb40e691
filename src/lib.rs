//! A client core for a chat service: session state, rooms with deduplicated
//! message buffers, event decoding and the per-room stream connector.

pub mod json;
pub mod text;
pub mod event;
pub mod error;
pub mod message;
pub mod web;
pub mod room;
pub mod connector;
pub mod scrape;
pub mod login;
pub mod user;
pub mod directory;
