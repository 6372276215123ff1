//! Decision logic of a Media over QUIC publisher and subscriber.
//!
//! The crate holds what a binding between a message-passing runtime and the MoQ
//! stack has to decide: which catalog entry a track format becomes and back,
//! which tracks a broadcast carries, which subscription is polled next, what is
//! reported to the owning process and when a session ends. Handles of the
//! transport are type parameters, and work on them (creating a track, writing a
//! frame, sending a message) comes in as a closure, so every decision is proved
//! for whatever the transport answers. A closure takes the handle and gives it
//! back: a handle that is handed back as it came has not been used.

pub mod broadcast_consumer;
pub mod broadcast_producer;
pub mod cmaf;
pub mod frame;
pub mod laws;
pub mod membrane;
pub mod messages;
pub mod monitor;
pub mod native;
pub mod reply;
pub mod session;
pub mod stack;
pub mod table;
pub mod text;
pub mod tokens;
pub mod track;
pub mod track_format;
pub mod web_codecs;
