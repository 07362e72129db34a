//! Real-time delivery and end-to-end encryption core of a multi-device chat
//! application: a relay that routes typed envelopes between online
//! participants, a per-conversation key-management layer built on pairwise
//! key exchange and authenticated encryption, and the client-side
//! reconnect/heartbeat state machine that keeps routing reliable over an
//! unreliable transport.

pub mod chat;
pub mod client;
pub mod codec;
pub mod crypto;
pub mod envelope;
pub mod errors;
pub mod ids;
pub mod keys;
pub mod models;
pub mod queue;
pub mod router;
pub mod rtc;
pub mod registry;
pub mod store;
pub mod strmap;
