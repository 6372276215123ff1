//! Messages to the Elixir process that owns a sink or a source.
//!
//! The owner is a value that each send takes and gives back, so that what was told, and in which
//! order, is read off the owner's state; an owner that comes back as it was has been told nothing.
//! Sends are best effort: a process that is gone is reported where a loop has to stop for it,
//! and ignored elsewhere.

use vstd::prelude::*;

use crate::frame::{law_micros_round_trip, signed_low_64, Frame};
use crate::membrane::track_format::{encode_format, ParamsView, TrackFormat, TrackParams};
use crate::messages::{PidDead, Token};
use crate::stack::TICK_LIMIT;

verus! {

/// A message to an Elixir process.
#[derive(Debug)]
pub enum Message {
    Connected,
    SetupFailed { reason: String },
    Disconnected { reason: String },
    /// All advertised tracks.
    Tracks { tracks: Vec<(String, TrackFormat)> },
    TrackAdded { name: String, format: TrackFormat },
    TrackRemoved { name: String },
    /// The format of a subscribed track, sent once before its first frame.
    TrackFormat { token: Token, format: TrackFormat },
    Frame { token: Token, payload: Vec<u8>, timestamp_us: i64, keyframe: bool },
    TrackEnded { token: Token, reason: String },
}

impl Message {
    /// The atom that the message starts with.
    pub open spec fn tag_text(self) -> Seq<char> {
        match self {
            Message::Connected => "moq_connected"@,
            Message::SetupFailed { .. } => "moq_setup_failed"@,
            Message::Disconnected { .. } => "moq_disconnected"@,
            Message::Tracks { .. } => "moq_tracks"@,
            Message::TrackAdded { .. } => "moq_track_added"@,
            Message::TrackRemoved { .. } => "moq_track_removed"@,
            Message::TrackFormat { .. } => "moq_track_format"@,
            Message::Frame { .. } => "moq_frame"@,
            Message::TrackEnded { .. } => "moq_track_ended"@,
        }
    }

    /// The atom that the message starts with.
    pub fn tag(&self) -> (r: &'static str)
        ensures
            r@ == self.tag_text(),
    {
        match self {
            Message::Connected => "moq_connected",
            Message::SetupFailed { .. } => "moq_setup_failed",
            Message::Disconnected { .. } => "moq_disconnected",
            Message::Tracks { .. } => "moq_tracks",
            Message::TrackAdded { .. } => "moq_track_added",
            Message::TrackRemoved { .. } => "moq_track_removed",
            Message::TrackFormat { .. } => "moq_track_format",
            Message::Frame { .. } => "moq_frame",
            Message::TrackEnded { .. } => "moq_track_ended",
        }
    }
}

/// An advertised track.
#[derive(Debug)]
pub struct TrackEntry {
    pub name: String,
    pub params: TrackParams,
}

/// What the advertised tracks say.
pub open spec fn entries_view(tracks: Seq<TrackEntry>) -> Seq<(Seq<char>, ParamsView)> {
    Seq::new(tracks.len(), |i: int| (tracks[i].name@, tracks[i].params@))
}

/// What a list of named formats says.
pub open spec fn formats_view(tracks: Seq<(String, TrackFormat)>) -> Seq<(Seq<char>, ParamsView)> {
    Seq::new(tracks.len(), |i: int| (tracks[i].0@, tracks[i].1@))
}

/// Tells all advertised tracks.
pub fn send_tracks<O, S>(
    owner: O,
    tracks: &Vec<TrackEntry>,
    send: S,
) -> (r: (O, Result<(), PidDead>)) where
    S: FnOnce(O, Message) -> (O, Result<(), PidDead>),

    requires
        forall|m: Message| call_requires(send, (owner, m)),
    ensures
        exists|list: Vec<(String, TrackFormat)>|
            {
                &&& #[trigger] call_ensures(send, (owner, Message::Tracks { tracks: list }), r)
                &&& formats_view(list@) == entries_view(tracks@)
            },
{
    let mut list: Vec<(String, TrackFormat)> = Vec::new();
    let mut i: usize = 0;
    while i < tracks.len()
        invariant
            i <= tracks@.len(),
            formats_view(list@) == entries_view(tracks@).take(i as int),
        decreases tracks@.len() - i,
    {
        let format = encode_format(&tracks[i].params);
        let ghost before = list@;
        list.push((tracks[i].name.clone(), format));
        i = i + 1;
        proof {
            let all = entries_view(tracks@);
            assert(formats_view(list@) =~= formats_view(before).push(all[i - 1]));
            assert(all.take(i as int) =~= all.take(i - 1).push(all[i - 1]));
        }
    }
    assert(entries_view(tracks@).take(i as int) =~= entries_view(tracks@));
    send(owner, Message::Tracks { tracks: list })
}

/// Tells the format of a subscribed track.
pub fn send_track_format<O, S>(
    owner: O,
    token: Token,
    params: &TrackParams,
    send: S,
) -> (r: O) where
    S: FnOnce(O, Message) -> (O, Result<(), PidDead>),

    requires
        forall|m: Message| call_requires(send, (owner, m)),
    ensures
        exists|format: TrackFormat, told: O, sent: Result<(), PidDead>|
            {
                &&& #[trigger] call_ensures(
                    send,
                    (owner, Message::TrackFormat { token, format }),
                    (told, sent),
                )
                &&& r == told
                &&& format@ == params@
            },
{
    let format = encode_format(params);
    let (owner, _sent) = send(owner, Message::TrackFormat { token, format });
    owner
}

/// The message that passes a frame on.
pub open spec fn frame_message(token: Token, frame: Frame) -> Message {
    Message::Frame {
        token,
        payload: frame.payload,
        timestamp_us: signed_low_64(frame.timestamp.micros()) as i64,
        keyframe: frame.keyframe,
    }
}

/// Passes a frame on, its time in microseconds.
pub fn send_frame<O, S>(
    owner: O,
    token: Token,
    frame: Frame,
    send: S,
) -> (r: (O, Result<(), PidDead>)) where
    S: FnOnce(O, Message) -> (O, Result<(), PidDead>),

    requires
        forall|m: Message| call_requires(send, (owner, m)),
    ensures
        call_ensures(send, (owner, frame_message(token, frame)), r),
{
    let Frame { timestamp, payload, keyframe } = frame;
    let timestamp_us: i64 = timestamp.as_signed_micros();
    send(owner, Message::Frame { token, payload, timestamp_us, keyframe })
}

/// Tells that a subscribed track ended, and why.
pub fn send_track_ended<O, S>(
    owner: O,
    token: Token,
    reason: String,
    send: S,
) -> (r: O) where
    S: FnOnce(O, Message) -> (O, Result<(), PidDead>),

    requires
        forall|m: Message| call_requires(send, (owner, m)),
    ensures
        exists|told: O, sent: Result<(), PidDead>|
            {
                &&& #[trigger] call_ensures(
                    send,
                    (owner, Message::TrackEnded { token, reason }),
                    (told, sent),
                )
                &&& r == told
            },
{
    let (owner, _sent) = send(owner, Message::TrackEnded { token, reason });
    owner
}

/// A frame is told with the time, the payload and the keyframe flag that it was sent with.
pub proof fn law_frame_is_told_as_sent(token: Token, frame: Frame, timestamp_us: u64)
    requires
        timestamp_us < TICK_LIMIT,
        frame.timestamp.spec_ticks() == timestamp_us,
        frame.timestamp.spec_scale() == 1_000_000,
    ensures
        frame_message(token, frame) == (Message::Frame {
            token,
            payload: frame.payload,
            timestamp_us: timestamp_us as i64,
            keyframe: frame.keyframe,
        }),
        timestamp_us as i64 == timestamp_us,
{
    law_micros_round_trip(frame.timestamp, timestamp_us);
}

} // verus!
