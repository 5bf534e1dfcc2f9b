//! Verified core of a Docker host manager: connection profiles, engine
//! response shaping, compose and network guards, and stream bookkeeping.

pub mod text;
pub mod docker;
pub mod volumes;
pub mod inspect;
pub mod networks;
pub mod connections;
pub mod streams;
pub mod compose;
pub mod settings;
pub mod registry;
pub mod channels;
