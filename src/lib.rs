//! Room and peer-to-peer overlay management: per-room identities and room
//! records, the room swarm lifecycle, the DHT record store, and the decisions
//! taken by the swarm event loop.

pub mod error;
pub mod keyed;
pub mod models;
pub mod identity;
pub mod room_service;
pub mod sdk;
pub mod network;
pub mod record_store;
