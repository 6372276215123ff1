//! Messages to the Elixir process that owns a session or a broadcast.
//!
//! Each function hands one message to `send`, and passes on whether the process was there to
//! get it. The owner is a value that `send` takes and gives back, so that what was told, and in
//! which order, is read off the owner's state; an owner that comes back as it was has been told
//! nothing.

use vstd::prelude::*;

use crate::frame::{law_nanos_round_trip, low_64, Frame};
use crate::track_format::{
    audio_entry, audio_format, law_audio_round_trip, law_video_round_trip, video_entry,
    video_format, AudioConfig, AudioConfigView, AudioTrackFormat, Container, VideoConfig,
    VideoConfigView, VideoFormatView, VideoTrackFormat,
};

verus! {

/// The process is gone.
#[derive(Clone, Copy, Debug, PartialEq, Eq, Structural)]
pub struct PidDead;

/// Caller-chosen tag of a subscription, echoed back in the messages of its track.
pub type Token = i64;

/// Why a broadcast is no longer followed.
#[derive(Debug)]
pub enum CloseReason {
    Ended,
    NotAnnounced,
    Crashed,
    CatalogError(String),
}

/// The catalog of a broadcast: its renditions by name.
#[derive(Debug)]
pub struct Catalog {
    pub videos: Vec<(String, VideoConfig)>,
    pub audios: Vec<(String, AudioConfig)>,
}

/// What a catalog says.
pub struct CatalogView {
    pub videos: Seq<(Seq<char>, VideoConfigView)>,
    pub audios: Seq<(Seq<char>, AudioConfigView)>,
}

impl View for Catalog {
    type V = CatalogView;

    open spec fn view(&self) -> CatalogView {
        CatalogView {
            videos: Seq::new(
                self.videos@.len(),
                |i: int| (self.videos@[i].0@, self.videos@[i].1@),
            ),
            audios: Seq::new(
                self.audios@.len(),
                |i: int| (self.audios@[i].0@, self.audios@[i].1@),
            ),
        }
    }
}

/// How a rendition is reported.
#[derive(Debug)]
pub enum RenditionFormat {
    Video(VideoTrackFormat),
    Audio(AudioTrackFormat),
    Unrecognized,
}

/// What a reported rendition says.
pub enum RenditionView {
    Video(VideoFormatView),
    Audio(AudioTrackFormat),
    Unrecognized,
}

impl View for RenditionFormat {
    type V = RenditionView;

    open spec fn view(&self) -> RenditionView {
        match self {
            RenditionFormat::Video(format) => RenditionView::Video(format@),
            RenditionFormat::Audio(format) => RenditionView::Audio(*format),
            RenditionFormat::Unrecognized => RenditionView::Unrecognized,
        }
    }
}

/// How a video rendition is reported.
pub open spec fn video_report(config: VideoConfigView) -> RenditionView {
    match video_format(config) {
        Some(format) => RenditionView::Video(format),
        None => RenditionView::Unrecognized,
    }
}

/// How an audio rendition is reported.
pub open spec fn audio_report(config: AudioConfigView) -> RenditionView {
    match audio_format(config) {
        Some(format) => RenditionView::Audio(format),
        None => RenditionView::Unrecognized,
    }
}

/// How a catalog is reported: each rendition by name, first the videos, then the audios.
pub open spec fn catalog_report(catalog: CatalogView) -> Seq<(Seq<char>, RenditionView)> {
    Seq::new(
        catalog.videos.len(),
        |i: int| (catalog.videos[i].0, video_report(catalog.videos[i].1)),
    ) + Seq::new(
        catalog.audios.len(),
        |i: int| (catalog.audios[i].0, audio_report(catalog.audios[i].1)),
    )
}

/// The renditions of a report, as they read.
pub open spec fn report_view(renditions: Seq<(String, RenditionFormat)>) -> Seq<
    (Seq<char>, RenditionView),
> {
    Seq::new(renditions.len(), |i: int| (renditions[i].0@, renditions[i].1@))
}

/// A message to an Elixir process.
#[derive(Debug)]
pub enum Message {
    Connected,
    SetupFailed { reason: String },
    Disconnected { reason: String },
    BroadcastReady { path: String },
    BroadcastClosed { path: String, why: CloseReason },
    TrackFinished { token: Token },
    TrackError { token: Token, reason: String },
    Frame { token: Token, payload: Vec<u8>, timestamp_ns: u64, keyframe: bool },
    Catalog { path: String, renditions: Vec<(String, RenditionFormat)> },
}

impl Message {
    /// The atom that the message starts with.
    pub open spec fn tag_text(self) -> Seq<char> {
        match self {
            Message::Connected => "moq_connected"@,
            Message::SetupFailed { .. } => "moq_setup_failed"@,
            Message::Disconnected { .. } => "moq_disconnected"@,
            Message::BroadcastReady { .. } => "moq_broadcast_ready"@,
            Message::BroadcastClosed { .. } => "moq_broadcast_closed"@,
            Message::TrackFinished { .. } => "moq_track_finished"@,
            Message::TrackError { .. } => "moq_track_error"@,
            Message::Frame { .. } => "moq_frame"@,
            Message::Catalog { .. } => "moq_catalog"@,
        }
    }

    /// The atom that the message starts with.
    pub fn tag(&self) -> (r: &'static str)
        ensures
            r@ == self.tag_text(),
    {
        match self {
            Message::Connected => "moq_connected",
            Message::SetupFailed { .. } => "moq_setup_failed",
            Message::Disconnected { .. } => "moq_disconnected",
            Message::BroadcastReady { .. } => "moq_broadcast_ready",
            Message::BroadcastClosed { .. } => "moq_broadcast_closed",
            Message::TrackFinished { .. } => "moq_track_finished",
            Message::TrackError { .. } => "moq_track_error",
            Message::Frame { .. } => "moq_frame",
            Message::Catalog { .. } => "moq_catalog",
        }
    }
}

/// Says that the session is up.
pub fn send_connected<O, S>(
    owner: O,
    send: S,
) -> (r: (O, Result<(), PidDead>)) where
    S: FnOnce(O, Message) -> (O, Result<(), PidDead>),

    requires
        forall|m: Message| call_requires(send, (owner, m)),
    ensures
        call_ensures(send, (owner, Message::Connected), r),
{
    send(owner, Message::Connected)
}

/// Says that the session could not be set up.
pub fn send_setup_failed<O, S>(
    owner: O,
    reason: String,
    send: S,
) -> (r: (O, Result<(), PidDead>)) where
    S: FnOnce(O, Message) -> (O, Result<(), PidDead>),

    requires
        forall|m: Message| call_requires(send, (owner, m)),
    ensures
        call_ensures(send, (owner, Message::SetupFailed { reason }), r),
{
    send(owner, Message::SetupFailed { reason })
}

/// Says that the session is over.
pub fn send_disconnected<O, S>(
    owner: O,
    reason: String,
    send: S,
) -> (r: (O, Result<(), PidDead>)) where
    S: FnOnce(O, Message) -> (O, Result<(), PidDead>),

    requires
        forall|m: Message| call_requires(send, (owner, m)),
    ensures
        call_ensures(send, (owner, Message::Disconnected { reason }), r),
{
    send(owner, Message::Disconnected { reason })
}

/// Says that the broadcast at `path` was found.
pub fn send_broadcast_ready<O, S>(
    owner: O,
    path: &String,
    send: S,
) -> (r: (O, Result<(), PidDead>)) where
    S: FnOnce(O, Message) -> (O, Result<(), PidDead>),

    requires
        forall|m: Message| call_requires(send, (owner, m)),
    ensures
        call_ensures(send, (owner, Message::BroadcastReady { path: *path }), r),
{
    send(owner, Message::BroadcastReady { path: path.clone() })
}

/// Says that the broadcast at `path` is no longer followed.
pub fn send_broadcast_closed<O, S>(
    owner: O,
    path: &String,
    why: CloseReason,
    send: S,
) -> (r: (O, Result<(), PidDead>)) where
    S: FnOnce(O, Message) -> (O, Result<(), PidDead>),

    requires
        forall|m: Message| call_requires(send, (owner, m)),
    ensures
        call_ensures(send, (owner, Message::BroadcastClosed { path: *path, why }), r),
{
    send(owner, Message::BroadcastClosed { path: path.clone(), why })
}

/// Says that a track has come to its end.
pub fn send_track_finished<O, S>(
    owner: O,
    token: Token,
    send: S,
) -> (r: (O, Result<(), PidDead>)) where
    S: FnOnce(O, Message) -> (O, Result<(), PidDead>),

    requires
        forall|m: Message| call_requires(send, (owner, m)),
    ensures
        call_ensures(send, (owner, Message::TrackFinished { token }), r),
{
    send(owner, Message::TrackFinished { token })
}

/// Says that a subscription failed.
pub fn send_track_error<O, S>(
    owner: O,
    token: Token,
    reason: String,
    send: S,
) -> (r: (O, Result<(), PidDead>)) where
    S: FnOnce(O, Message) -> (O, Result<(), PidDead>),

    requires
        forall|m: Message| call_requires(send, (owner, m)),
    ensures
        call_ensures(send, (owner, Message::TrackError { token, reason }), r),
{
    send(owner, Message::TrackError { token, reason })
}

/// The message that passes a frame on.
pub open spec fn frame_message(token: Token, frame: Frame) -> Message {
    Message::Frame {
        token,
        payload: frame.payload,
        timestamp_ns: low_64(frame.timestamp.nanos()) as u64,
        keyframe: frame.keyframe,
    }
}

/// Passes a frame on, its time in nanoseconds.
pub fn send_frame<O, S>(
    owner: O,
    token: Token,
    frame: Frame,
    send: S,
) -> (r: (O, Result<(), PidDead>)) where
    S: FnOnce(O, Message) -> (O, Result<(), PidDead>),

    requires
        forall|m: Message| call_requires(send, (owner, m)),
    ensures
        call_ensures(send, (owner, frame_message(token, frame)), r),
{
    let Frame { timestamp, payload, keyframe } = frame;
    send(owner, Message::Frame { token, payload, timestamp_ns: timestamp.as_nanos(), keyframe })
}

/// Passes the catalog of the broadcast at `path` on.
pub fn send_catalog<O, S>(
    owner: O,
    path: &String,
    catalog: &Catalog,
    send: S,
) -> (r: (O, Result<(), PidDead>)) where
    S: FnOnce(O, Message) -> (O, Result<(), PidDead>),

    requires
        forall|m: Message| call_requires(send, (owner, m)),
    ensures
        exists|renditions: Vec<(String, RenditionFormat)>|
            {
                &&& #[trigger] call_ensures(
                    send,
                    (owner, Message::Catalog { path: *path, renditions }),
                    r,
                )
                &&& report_view(renditions@) == catalog_report(catalog@)
            },
{
    let mut renditions: Vec<(String, RenditionFormat)> = Vec::new();
    let mut i: usize = 0;
    while i < catalog.videos.len()
        invariant
            i <= catalog.videos@.len(),
            report_view(renditions@) == catalog_report(catalog@).take(i as int),
        decreases catalog.videos@.len() - i,
    {
        let (name, config) = &catalog.videos[i];
        let format = match VideoTrackFormat::from_config(config) {
            Ok(format) => RenditionFormat::Video(format),
            Err(_) => RenditionFormat::Unrecognized,
        };
        let ghost before = renditions@;
        renditions.push((name.clone(), format));
        i = i + 1;
        proof {
            let report = catalog_report(catalog@);
            assert(report_view(renditions@) =~= report_view(before).push((name@, format@)));
            assert(report.take(i as int) =~= report.take(i - 1).push(report[i - 1]));
            assert(report[i - 1] == (name@, format@));
        }
    }
    let mut j: usize = 0;
    while j < catalog.audios.len()
        invariant
            j <= catalog.audios@.len(),
            report_view(renditions@) == catalog_report(catalog@).take(catalog.videos@.len() + j),
        decreases catalog.audios@.len() - j,
    {
        let (name, config) = &catalog.audios[j];
        let format = match AudioTrackFormat::from_config(config) {
            Ok(format) => RenditionFormat::Audio(format),
            Err(_) => RenditionFormat::Unrecognized,
        };
        let ghost before = renditions@;
        renditions.push((name.clone(), format));
        j = j + 1;
        proof {
            let report = catalog_report(catalog@);
            let n = catalog.videos@.len() + j;
            assert(report_view(renditions@) =~= report_view(before).push((name@, format@)));
            assert(report.take(n) =~= report.take(n - 1).push(report[n - 1]));
            assert(report[n - 1] == (name@, format@));
        }
    }
    assert(report_view(renditions@) =~= catalog_report(catalog@));
    send(owner, Message::Catalog { path: path.clone(), renditions })
}

/// The owner of a subscriber is told the format that a track was published with.
pub proof fn law_published_format_is_reported(
    video: VideoTrackFormat,
    audio: AudioTrackFormat,
    container: Container,
)
    ensures
        video_report(video_entry(video@, container.as_catalog())) == RenditionView::Video(video@),
        audio_report(audio_entry(audio, container.as_catalog())) == RenditionView::Audio(audio),
{
    law_video_round_trip(video, container.as_catalog());
    law_audio_round_trip(audio, container.as_catalog());
}

/// A frame is told with the time, the payload and the keyframe flag that it was sent with.
pub proof fn law_frame_is_told_as_sent(token: Token, frame: Frame, timestamp_ns: u64)
    requires
        frame.timestamp.spec_ticks() == timestamp_ns,
        frame.timestamp.spec_scale() == 1_000_000_000,
    ensures
        frame_message(token, frame) == (Message::Frame {
            token,
            payload: frame.payload,
            timestamp_ns,
            keyframe: frame.keyframe,
        }),
{
    law_nanos_round_trip(frame.timestamp, timestamp_ns);
}

} // verus!
