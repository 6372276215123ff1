//! The binding for Membrane pipelines: publishing from a sink, subscribing from a source.

pub mod broadcast;
pub mod messages;
pub mod publisher;
pub mod session;
pub mod source;
pub mod subscriber;
pub mod track;
pub mod track_format;
