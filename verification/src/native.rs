//! The calls that Elixir makes.
//!
//! A producer is guarded by a lock of the caller's; `None` stands in for one whose lock was
//! poisoned by a panic.

use vstd::prelude::*;

use crate::broadcast_consumer::{Closed, Command, Handle};
use crate::broadcast_producer::{
    AddTrackError, LiveTrack, Producer, UpdateTrackError, WriteFault, WriteFrameError,
};
use crate::frame::{Frame, Timestamp};
use crate::messages::Token;
use crate::reply::{Atom, FaultView, NifError};
use crate::stack::{parse_url, url_verdict, TICK_LIMIT};
use crate::table::Table;
use crate::track_format::{AudioConfig, Container, TrackFormat, VideoConfig, WireContainer};

verus! {

/// The URL to connect to, given what the parser made of it.
pub fn session_url(parsed: Result<String, String>) -> (r: Result<String, NifError>)
    ensures
        match parsed {
            Ok(url) => r == Ok::<String, NifError>(url),
            Err(e) => r matches Err(fault) && fault@ == FaultView::Text("invalid url: "@ + e@),
        },
{
    match parsed {
        Ok(url) => Ok(url),
        Err(e) => Err(NifError::Text("invalid url: ".to_owned().concat(e.as_str()))),
    }
}

/// Starts a session with the server at `url`. A text that is no URL is refused, and starts
/// nothing: the runtime comes back as it was.
pub fn create_session<T, S, Connect>(runtime: T, url: &str, connect: Connect) -> (r: (
    T,
    Result<S, NifError>,
)) where Connect: FnOnce(T, String) -> (T, S)
    requires
        forall|url: String| call_requires(connect, (runtime, url)),
    ensures
        match url_verdict(url@) {
            Ok(parsed) => exists|text: String, after: T, session: S|
                {
                    &&& text@ == parsed
                    &&& #[trigger] call_ensures(connect, (runtime, text), (after, session))
                    &&& r.0 == after
                    &&& r.1 == Ok::<S, NifError>(session)
                },
            Err(e) => r.0 == runtime && (r.1 matches Err(fault) && fault@ == FaultView::Text(
                "invalid url: "@ + e,
            )),
        },
{
    match session_url(parse_url(url)) {
        Ok(url) => {
            let (runtime, session) = connect(runtime, url);
            (runtime, Ok(session))
        },
        Err(fault) => (runtime, Err(fault)),
    }
}

/// Announces a broadcast at `path`, and opens its catalog.
pub fn create_broadcast_producer<B, C, W, V, A, Open>(
    path: &str,
    broadcast: Result<B, String>,
    open_catalog: Open,
) -> (r: Result<Producer<B, C, W, V, A>, NifError>) where
    Open: FnOnce(B) -> (B, Result<C, String>),

    requires
        broadcast matches Ok(b) ==> call_requires(open_catalog, (b,)),
    ensures
        match broadcast {
            Err(e) => r matches Err(fault) && fault@ == FaultView::Text(
                "create_broadcast("@ + path@ + (") failed: "@ + e@ + ""@),
            ),
            Ok(b) => exists|after: B, catalog: Result<C, String>|
                {
                    &&& #[trigger] call_ensures(open_catalog, (b,), (after, catalog))
                    &&& match catalog {
                        Err(e) => r matches Err(fault) && fault@ == FaultView::Text(
                            "CatalogProducer::new failed: "@ + e@ + ""@,
                        ),
                        Ok(catalog) => r matches Ok(producer) && producer.wf()
                            && producer.broadcast == after && producer.catalog == catalog
                            && producer@ == Map::<Seq<char>, LiveTrack<W, V, A>>::empty(),
                    }
                },
        },
{
    match Producer::new(path, broadcast, open_catalog) {
        Ok(producer) => Ok(producer),
        Err(e) => Err(NifError::Text(e.message())),
    }
}

/// Closes a producer. What its tracks still hold goes out first, unless a panic may have left it
/// inconsistent: then its writers are dropped as they are. Only then is the broadcast cancelled.
pub fn close_broadcast_producer<B, C, W, V, A, Finish, End, Discard, Cancel>(
    producer: Producer<B, C, W, V, A>,
    poisoned: bool,
    finish: Finish,
    end: End,
    discard: Discard,
    cancel: Cancel,
) -> (r: (Producer<B, C, W, V, A>, Atom)) where
    Finish: Fn(B, W) -> (B, W),
    End: FnOnce(B, C) -> (B, C),
    Discard: FnOnce(B, Table<LiveTrack<W, V, A>>) -> B,
    Cancel: FnOnce(B) -> B,

    requires
        producer.wf(),
        forall|b: B, w: W| call_requires(finish, (b, w)),
        forall|b: B, c: C| call_requires(end, (b, c)),
        forall|b: B, tracks: Table<LiveTrack<W, V, A>>|
            call_requires(discard, (b, tracks)),
        forall|b: B| call_requires(cancel, (b,)),
    ensures
        r.1 == Atom::Done,
        r.0.wf(),
        r.0@ == Map::<Seq<char>, LiveTrack<W, V, A>>::empty(),
        poisoned ==> producer.aborted(discard, cancel, r.0),
        !poisoned ==> exists|flushed: Producer<B, C, W, V, A>|
            {
                &&& #[trigger] producer.all_ended(finish, end, flushed)
                &&& flushed.aborted(discard, cancel, r.0)
            },
{
    let producer = if poisoned {
        producer
    } else {
        producer.finish(finish, end)
    };
    (producer.abort(discard, cancel), Atom::Done)
}

/// How adding a track is answered.
pub open spec fn add_track_answer(result: Result<(), AddTrackError>) -> Result<Atom, FaultView> {
    match result {
        Ok(()) => Ok(Atom::Done),
        Err(AddTrackError::AlreadyExists) => Err(FaultView::Atom(Atom::TrackAlreadyExists)),
        Err(e) => Err(FaultView::Text(e.text())),
    }
}

/// How updating a track is answered.
pub open spec fn update_track_answer(result: Result<(), UpdateTrackError>) -> Result<
    Atom,
    FaultView,
> {
    match result {
        Ok(()) => Ok(Atom::Done),
        Err(UpdateTrackError::UnknownTrack) => Err(FaultView::Atom(Atom::UnknownTrack)),
        Err(UpdateTrackError::KindMismatch) => Err(FaultView::Atom(Atom::KindMismatch)),
    }
}

/// How a frame is answered. A frame that has to wait for a keyframe is no failure.
pub open spec fn send_frame_answer(result: Result<(), WriteFrameError>) -> Result<
    Atom,
    FaultView,
> {
    match result {
        Ok(()) => Ok(Atom::Done),
        Err(WriteFrameError::MissingKeyframe) => Ok(Atom::MissingKeyframe),
        Err(WriteFrameError::UnknownTrack) => Err(FaultView::Atom(Atom::UnknownTrack)),
        Err(e) => Err(FaultView::Text(e.text())),
    }
}

/// An answer, as it reads.
pub open spec fn answer_view(answer: Result<Atom, NifError>) -> Result<Atom, FaultView> {
    match answer {
        Ok(atom) => Ok(atom),
        Err(fault) => Err(fault@),
    }
}

/// The producer that a lock guards.
fn lock_producer<P>(producer: Option<P>) -> (r: Result<P, NifError>)
    ensures
        match producer {
            Some(producer) => r == Ok::<P, NifError>(producer),
            None => r matches Err(fault) && fault@ == FaultView::Atom(Atom::ProducerPoisoned),
        },
{
    match producer {
        Some(producer) => Ok(producer),
        None => Err(NifError::Atom(Atom::ProducerPoisoned)),
    }
}

/// Adds a track to a broadcast.
pub fn add_track<B, C, T, W, V, A, Create, Media, Retire, Video, Audio>(
    producer: Option<Producer<B, C, W, V, A>>,
    track: String,
    format: TrackFormat,
    priority: u8,
    container: Container,
    latency_ns: u64,
    create: Create,
    media: Media,
    retire: Retire,
    video: Video,
    audio: Audio,
) -> (r: (Option<Producer<B, C, W, V, A>>, Result<Atom, NifError>)) where
    Create: FnOnce(B, String, u8) -> (B, Result<T, String>),
    Media: FnOnce(T, WireContainer, u64) -> Result<W, String>,
    Retire: FnOnce(B, String) -> B,
    Video: FnOnce(C, String, VideoConfig) -> (C, V),
    Audio: FnOnce(C, String, AudioConfig) -> (C, A),

    requires
        producer matches Some(p) ==> p.wf(),
        forall|b: B| call_requires(create, (b, track, priority)),
        forall|t: T, wire: WireContainer| call_requires(media, (t, wire, latency_ns)),
        forall|b: B| call_requires(retire, (b, track)),
        forall|c: C, config: VideoConfig| call_requires(video, (c, track, config)),
        forall|c: C, config: AudioConfig| call_requires(audio, (c, track, config)),
    ensures
        match producer {
            None => r.0 is None && answer_view(r.1) == Err::<Atom, FaultView>(
                FaultView::Atom(Atom::ProducerPoisoned),
            ),
            Some(before) => exists|
                after: Producer<B, C, W, V, A>,
                result: Result<(), AddTrackError>,
            |
                {
                    &&& #[trigger] before.track_added(
                        track,
                        format,
                        container,
                        priority,
                        latency_ns,
                        create,
                        media,
                        retire,
                        video,
                        audio,
                        after,
                        result,
                    )
                    &&& after.wf()
                    &&& r.0 == Some(after)
                    &&& answer_view(r.1) == add_track_answer(result)
                },
        },
{
    let producer = match lock_producer(producer) {
        Ok(producer) => producer,
        Err(fault) => return (None, Err(fault)),
    };
    let (producer, result) = producer.add_track(
        track,
        format,
        container,
        priority,
        latency_ns,
        create,
        media,
        retire,
        video,
        audio,
    );
    let answer = match result {
        Ok(()) => Ok(Atom::Done),
        Err(AddTrackError::AlreadyExists) => Err(NifError::Atom(Atom::TrackAlreadyExists)),
        Err(e) => Err(NifError::Text(e.message())),
    };
    (Some(producer), answer)
}

/// Replaces the catalog entry of a track.
pub fn update_track<B, C, W, V, A, Video, Audio>(
    producer: Option<Producer<B, C, W, V, A>>,
    track: &String,
    format: TrackFormat,
    video: Video,
    audio: Audio,
) -> (r: (Option<Producer<B, C, W, V, A>>, Result<Atom, NifError>)) where
    Video: FnOnce(V, VideoConfig) -> V,
    Audio: FnOnce(A, AudioConfig) -> A,

    requires
        producer matches Some(p) ==> p.wf(),
        forall|v: V, config: VideoConfig| call_requires(video, (v, config)),
        forall|a: A, config: AudioConfig| call_requires(audio, (a, config)),
    ensures
        match producer {
            None => r.0 is None && answer_view(r.1) == Err::<Atom, FaultView>(
                FaultView::Atom(Atom::ProducerPoisoned),
            ),
            Some(before) => exists|
                after: Producer<B, C, W, V, A>,
                result: Result<(), UpdateTrackError>,
            |
                {
                    &&& #[trigger] before.track_updated(
                        track@,
                        format,
                        video,
                        audio,
                        after,
                        result,
                    )
                    &&& after.wf()
                    &&& r.0 == Some(after)
                    &&& answer_view(r.1) == update_track_answer(result)
                },
        },
{
    let producer = match lock_producer(producer) {
        Ok(producer) => producer,
        Err(fault) => return (None, Err(fault)),
    };
    let (producer, result) = producer.update_track(track, format, video, audio);
    let answer = match result {
        Ok(()) => Ok(Atom::Done),
        Err(UpdateTrackError::UnknownTrack) => Err(NifError::Atom(Atom::UnknownTrack)),
        Err(UpdateTrackError::KindMismatch) => Err(NifError::Atom(Atom::KindMismatch)),
    };
    (Some(producer), answer)
}

/// Writes a frame to a track. A time that no timestamp can hold is refused before the producer
/// is asked for.
pub fn send_frame<B, C, W, V, A, Write>(
    producer: Option<Producer<B, C, W, V, A>>,
    track: &String,
    timestamp_ns: u64,
    keyframe: bool,
    data: Vec<u8>,
    write: Write,
) -> (r: (Option<Producer<B, C, W, V, A>>, Result<Atom, NifError>)) where
    Write: FnOnce(W, Frame) -> (W, Result<(), WriteFault>),

    requires
        producer matches Some(p) ==> p.wf(),
        forall|w: W, frame: Frame| call_requires(write, (w, frame)),
    ensures
        timestamp_ns >= TICK_LIMIT ==> r.0 == producer && answer_view(r.1) == Err::<
            Atom,
            FaultView,
        >(FaultView::Text("timestamp conversion failed: "@ + "time overflow"@)),
        timestamp_ns < TICK_LIMIT ==> match producer {
            None => r.0 is None && answer_view(r.1) == Err::<Atom, FaultView>(
                FaultView::Atom(Atom::ProducerPoisoned),
            ),
            Some(before) => exists|
                frame: Frame,
                after: Producer<B, C, W, V, A>,
                result: Result<(), WriteFrameError>,
            |
                {
                    &&& #[trigger] before.frame_written(track@, frame, write, after, result)
                    &&& frame.timestamp.spec_ticks() == timestamp_ns
                    &&& frame.timestamp.spec_scale() == 1_000_000_000
                    &&& frame.payload == data
                    &&& frame.keyframe == keyframe
                    &&& after.wf()
                    &&& r.0 == Some(after)
                    &&& answer_view(r.1) == send_frame_answer(result)
                },
        },
{
    let timestamp = match Timestamp::from_nanos(timestamp_ns) {
        Ok(timestamp) => timestamp,
        Err(e) => {
            let text = "timestamp conversion failed: ".to_owned().concat(e.as_str());
            return (producer, Err(NifError::Text(text)));
        },
    };
    let frame = Frame { timestamp, payload: data, keyframe };
    let producer = match lock_producer(producer) {
        Ok(producer) => producer,
        Err(fault) => return (None, Err(fault)),
    };
    let (producer, result) = producer.write_frame(track, frame, write);
    let answer = match result {
        Ok(()) => Ok(Atom::Done),
        Err(WriteFrameError::MissingKeyframe) => Ok(Atom::MissingKeyframe),
        Err(WriteFrameError::UnknownTrack) => Err(NifError::Atom(Atom::UnknownTrack)),
        Err(e) => Err(NifError::Text(e.message())),
    };
    (Some(producer), answer)
}

/// Takes a track out of a broadcast, once what it still holds has gone out. What was live of it is
/// handed back, to be dropped.
pub fn remove_track<B, C, W, V, A, Finish, Retire>(
    producer: Option<Producer<B, C, W, V, A>>,
    track: &String,
    finish: Finish,
    retire: Retire,
) -> (r: (
    Option<Producer<B, C, W, V, A>>,
    Option<LiveTrack<W, V, A>>,
    Result<Atom, NifError>,
)) where Finish: FnOnce(B, W) -> (B, W), Retire: FnOnce(B, String) -> B
    requires
        producer matches Some(p) ==> p.wf(),
        forall|b: B, w: W| call_requires(finish, (b, w)),
        forall|b: B| call_requires(retire, (b, *track)),
    ensures
        match producer {
            None => {
                &&& r.0 is None
                &&& r.1 is None
                &&& answer_view(r.2) == Err::<Atom, FaultView>(
                    FaultView::Atom(Atom::ProducerPoisoned),
                )
            },
            Some(before) => {
                &&& r.0 matches Some(after)
                &&& after.wf()
                &&& before.track_removed(*track, true, finish, retire, after, r.1)
                &&& answer_view(r.2) == Ok::<Atom, FaultView>(Atom::Done)
            },
        },
{
    let producer = match lock_producer(producer) {
        Ok(producer) => producer,
        Err(fault) => return (None, None, Err(fault)),
    };
    let (producer, gone) = producer.remove_track(track, true, finish, retire);
    (Some(producer), gone, Ok(Atom::Done))
}

/// Asks a consumer to subscribe to a track.
pub fn subscribe_track<Q, Push>(
    consumer: &Handle<Q>,
    track: String,
    token: Token,
    priority: u8,
    push: Push,
) -> (r: Result<Atom, NifError>) where Push: FnOnce(&Q, Command) -> Result<(), Closed>
    requires
        forall|c: Command| call_requires(push, (&consumer.commands, c)),
    ensures
        exists|pushed: Result<(), Closed>|
            {
                &&& #[trigger] call_ensures(
                    push,
                    (&consumer.commands, Command::Subscribe { track, token, priority }),
                    pushed,
                )
                &&& answer_view(r) == (match pushed {
                    Ok(()) => Ok::<Atom, FaultView>(Atom::Done),
                    Err(_) => Err(FaultView::Atom(Atom::ConsumerClosed)),
                })
            },
{
    match consumer.subscribe(track, token, priority, push) {
        Ok(()) => Ok(Atom::Done),
        Err(_) => Err(NifError::Atom(Atom::ConsumerClosed)),
    }
}

/// Asks a consumer to drop a subscription. The answer is `ok` in any case.
pub fn unsubscribe_track<Q, Push>(consumer: &Handle<Q>, token: Token, push: Push) -> (r:
    Atom) where Push: FnOnce(&Q, Command) -> Result<(), Closed>
    requires
        forall|c: Command| call_requires(push, (&consumer.commands, c)),
    ensures
        r == Atom::Done,
        exists|pushed: Result<(), Closed>| #[trigger]
            call_ensures(push, (&consumer.commands, Command::Unsubscribe { token }), pushed),
{
    consumer.unsubscribe(token, push);
    Atom::Done
}

/// Closes a consumer.
pub fn close_broadcast_consumer<Q, Close>(consumer: &Handle<Q>, close: Close) -> (r: Atom) where
    Close: FnOnce(&Q),

    requires
        call_requires(close, (&consumer.commands,)),
    ensures
        r == Atom::Done,
        call_ensures(close, (&consumer.commands,), ()),
{
    consumer.close(close);
    Atom::Done
}

} // verus!
