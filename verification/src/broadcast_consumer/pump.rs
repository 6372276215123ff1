//! A task that pumps the frames of one track to Elixir.
//!
//! The task finds the track, subscribes to it, and reads until the end. `B` is the handle of
//! the broadcast.

use vstd::prelude::*;

use crate::frame::Frame;
use crate::messages::{frame_message, send_frame, Message, PidDead, Token};
use crate::text::joined;
use crate::track_format::WireContainer;

verus! {

/// Everything that one subscription needs to pump its frames.
pub struct Pump<B> {
    pub broadcast: B,
    pub track: String,
    pub wire: WireContainer,
    pub token: Token,
    pub priority: u8,
    pub latency_ns: u64,
}

/// What a pump has come to.
#[derive(Debug)]
pub enum Progress {
    Reading,
    Finished,
    Failed(String),
}

impl<B> Pump<B> {
    /// A pump for a track.
    pub fn new(
        broadcast: B,
        track: String,
        wire: WireContainer,
        token: Token,
        priority: u8,
        latency_ns: u64,
    ) -> (r: Self)
        ensures
            r == (Pump { broadcast, track, wire, token, priority, latency_ns }),
    {
        Pump { broadcast, track, wire, token, priority, latency_ns }
    }

    /// What the search for the track comes to.
    pub fn found<T>(&self, found: Result<T, String>) -> (r: Result<T, String>)
        ensures
            match found {
                Ok(track) => r == Ok::<T, String>(track),
                Err(reason) => r matches Err(e) && e@ == "track("@ + self.track@ + (") failed: "@
                    + reason@ + ""@),
            },
    {
        match found {
            Ok(track) => Ok(track),
            Err(e) => Err(
                joined(
                    "track(",
                    self.track.as_str(),
                    joined(") failed: ", e.as_str(), "").as_str(),
                ),
            ),
        }
    }

    /// What the subscription to the track comes to.
    pub fn subscribed<U>(&self, subscribed: Result<U, String>) -> (r: Result<U, String>)
        ensures
            match subscribed {
                Ok(subscriber) => r == Ok::<U, String>(subscriber),
                Err(reason) => r matches Err(e) && e@ == "subscribe("@ + self.track@
                    + (") failed: "@ + reason@ + ""@),
            },
    {
        match subscribed {
            Ok(subscriber) => Ok(subscriber),
            Err(e) => Err(
                joined(
                    "subscribe(",
                    self.track.as_str(),
                    joined(") failed: ", e.as_str(), "").as_str(),
                ),
            ),
        }
    }

    /// What to subscribe to: the track, and the priority to subscribe with.
    pub fn subscription(&self) -> (r: (&String, u8))
        ensures
            *r.0 == self.track,
            r.1 == self.priority,
    {
        (&self.track, self.priority)
    }

    /// Opens the reader of a granted subscription, for the pump's container and latency.
    pub fn open<U, R, Open>(&self, subscriber: U, open: Open) -> (r: R) where
        Open: FnOnce(U, WireContainer, u64) -> R,

        requires
            forall|wire: WireContainer|
                call_requires(open, (subscriber, wire, self.latency_ns)),
        ensures
            exists|wire: WireContainer|
                {
                    &&& #[trigger] call_ensures(open, (subscriber, wire, self.latency_ns), r)
                    &&& wire@ == self.wire@
                },
    {
        open(subscriber, self.wire.duplicate(), self.latency_ns)
    }

    /// What the answer of a read comes to. A frame is passed on under the pump's token, and
    /// nothing else is told.
    pub fn run<O, S>(&self, read: Result<Option<Frame>, String>, owner: O, send: S) -> (r: (
        O,
        Progress,
    )) where S: FnOnce(O, Message) -> (O, Result<(), PidDead>)
        requires
            forall|m: Message| call_requires(send, (owner, m)),
        ensures
            match read {
                Err(e) => r.0 == owner && r.1 == Progress::Failed(e),
                Ok(None) => r.0 == owner && r.1 == Progress::Finished,
                Ok(Some(frame)) => exists|told: O, sent: Result<(), PidDead>|
                    {
                        &&& #[trigger] call_ensures(
                            send,
                            (owner, frame_message(self.token, frame)),
                            (told, sent),
                        )
                        &&& r.0 == told
                        &&& match sent {
                            Ok(()) => r.1 == Progress::Reading,
                            Err(_) => r.1 matches Progress::Failed(e) && e@
                                == "consumer pid is dead"@,
                        }
                    },
            },
    {
        match read {
            Err(e) => (owner, Progress::Failed(e)),
            Ok(None) => (owner, Progress::Finished),
            Ok(Some(frame)) => match send_frame(owner, self.token, frame, send) {
                (owner, Ok(())) => (owner, Progress::Reading),
                (owner, Err(_)) => (
                    owner,
                    Progress::Failed("consumer pid is dead".to_owned()),
                ),
            },
        }
    }
}

} // verus!
