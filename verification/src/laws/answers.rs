//! What callers from Elixir are answered, and what was done by then.

use vstd::prelude::*;

use crate::broadcast_consumer::{Closed, Command, Handle};
use crate::broadcast_producer::{
    AddTrackError, LiveTrack, Producer, UpdateTrackError, WriteFault, WriteFrameError,
};
use crate::frame::{Frame, Timestamp};
use crate::laws::publishing::{adds_track, removes_track, updates_track, writes_frame};
use crate::messages::Token;
use crate::native;
use crate::reply::{Atom, NifError};
use crate::stack::url_verdict;
use crate::track_format::{AudioConfig, Container, TrackFormat, VideoConfig, WireContainer};

verus! {

/// Whether a call failed with the given text.
pub open spec fn fails_with_text<R>(answer: Result<R, NifError>, text: Seq<char>) -> bool {
    answer matches Err(NifError::Text(e)) && e@ == text
}

/// Whether a call failed with the given atom.
pub open spec fn fails_with_atom<R>(answer: Result<R, NifError>, atom: Atom) -> bool {
    answer matches Err(NifError::Atom(a)) && a == atom
}

/// Whether a call was answered with the given atom.
pub open spec fn is_answered(answer: Result<Atom, NifError>, atom: Atom) -> bool {
    answer matches Ok(a) && a == atom
}

/// The names of the atoms, no two of them the same atom.
pub proof fn law_atoms_have_names(atom: Atom, name: &'static str)
    requires
        call_ensures(Atom::name, (atom,), name),
    ensures
        atom is Done ==> name@ == "ok"@,
        atom is MissingKeyframe ==> name@ == "missing_keyframe"@,
        atom is MoqMissingKeyframe ==> name@ == "moq_missing_keyframe"@,
        atom is UnknownTrack ==> name@ == "unknown_track"@,
        atom is KindMismatch ==> name@ == "kind_mismatch"@,
        atom is TrackAlreadyExists ==> name@ == "track_already_exists"@,
        atom is ProducerPoisoned ==> name@ == "producer_poisoned"@,
        atom is ConsumerClosed ==> name@ == "consumer_closed"@,
{
}

/// A session is started with what the parser made of the URL; a text that is no URL starts none.
pub proof fn law_session_is_started_for_a_url<T, S, Connect>(
    runtime: T,
    url: &str,
    connect: Connect,
    r: (T, Result<S, NifError>),
) where Connect: FnOnce(T, String) -> (T, S)
    requires
        call_ensures(native::create_session::<T, S, Connect>, (runtime, url, connect), r),
    ensures
        url_verdict(url@) matches Ok(parsed) ==> exists|text: String, after: T, session: S|
            {
                &&& #[trigger] call_ensures(connect, (runtime, text), (after, session))
                &&& text@ == parsed
                &&& r.0 == after
                &&& r.1 == Ok::<S, NifError>(session)
            },
        url_verdict(url@) matches Err(e) ==> r.0 == runtime && fails_with_text(
            r.1,
            "invalid url: "@ + e,
        ),
{
}

/// A URL is used as it was parsed, and a fault of the parser is passed on.
pub proof fn law_parsed_url_is_used(parsed: Result<String, String>, r: Result<String, NifError>)
    requires
        call_ensures(native::session_url, (parsed,), r),
    ensures
        parsed matches Ok(url) ==> r == Ok::<String, NifError>(url),
        parsed matches Err(e) ==> fails_with_text(r, "invalid url: "@ + e@),
{
}

/// A broadcast is announced without tracks; a fault says what failed, and of which path.
pub proof fn law_broadcast_is_announced<B, C, W, V, A, Open>(
    path: &str,
    broadcast: Result<B, String>,
    open_catalog: Open,
    r: Result<Producer<B, C, W, V, A>, NifError>,
) where Open: FnOnce(B) -> (B, Result<C, String>)
    requires
        call_ensures(
            native::create_broadcast_producer::<B, C, W, V, A, Open>,
            (path, broadcast, open_catalog),
            r,
        ),
    ensures
        broadcast matches Err(e) ==> fails_with_text(
            r,
            "create_broadcast("@ + path@ + ") failed: "@ + e@,
        ),
        broadcast matches Ok(b) ==> exists|after: B, catalog: Result<C, String>|
            {
                &&& #[trigger] call_ensures(open_catalog, (b,), (after, catalog))
                &&& catalog matches Err(e) ==> fails_with_text(
                    r,
                    "CatalogProducer::new failed: "@ + e@,
                )
                &&& catalog matches Ok(c) ==> (r matches Ok(producer) && producer.broadcast
                    == after && producer.catalog == c && forall|name: Seq<char>|
                    !producer.tracks@.contains_key(name))
            },
{
    reveal_strlit("");
    match broadcast {
        Err(e) => {
            assert("create_broadcast("@ + path@ + (") failed: "@ + e@ + ""@)
                =~= "create_broadcast("@ + path@ + ") failed: "@ + e@);
        },
        Ok(b) => {
            let (after, catalog) = choose|after: B, catalog: Result<C, String>|
                {
                    &&& #[trigger] call_ensures(open_catalog, (b,), (after, catalog))
                    &&& match catalog {
                        Err(e) => r matches Err(fault) && fault@ == crate::reply::FaultView::Text(
                            "CatalogProducer::new failed: "@ + e@ + ""@,
                        ),
                        Ok(catalog) => r matches Ok(producer) && producer.wf()
                            && producer.broadcast == after && producer.catalog == catalog
                            && producer@ == Map::<Seq<char>, LiveTrack<W, V, A>>::empty(),
                    }
                };
            if let Err(e) = catalog {
                assert("CatalogProducer::new failed: "@ + e@ + ""@
                    =~= "CatalogProducer::new failed: "@ + e@);
            }
            assert(call_ensures(open_catalog, (b,), (after, catalog)));
        },
    }
}

/// Adding a track is answered `ok` if and only if it was added; a name in use is answered by its
/// atom, and each other fault in words.
pub proof fn law_adding_is_answered<B, C, T, W, V, A, Create, Media, Retire, Video, Audio>(
    producer: Option<Producer<B, C, W, V, A>>,
    track: String,
    format: TrackFormat,
    priority: u8,
    container: Container,
    latency_ns: u64,
    create: Create,
    media: Media,
    retire: Retire,
    video: Video,
    audio: Audio,
    r: (Option<Producer<B, C, W, V, A>>, Result<Atom, NifError>),
) where
    Create: FnOnce(B, String, u8) -> (B, Result<T, String>),
    Media: FnOnce(T, WireContainer, u64) -> Result<W, String>,
    Retire: FnOnce(B, String) -> B,
    Video: FnOnce(C, String, VideoConfig) -> (C, V),
    Audio: FnOnce(C, String, AudioConfig) -> (C, A),

    requires
        call_ensures(
            native::add_track::<B, C, T, W, V, A, Create, Media, Retire, Video, Audio>,
            (
                producer,
                track,
                format,
                priority,
                container,
                latency_ns,
                create,
                media,
                retire,
                video,
                audio,
            ),
            r,
        ),
    ensures
        producer is None ==> r.0 is None && fails_with_atom(r.1, Atom::ProducerPoisoned),
        producer matches Some(before) ==> exists|
            after: Producer<B, C, W, V, A>,
            result: Result<(), AddTrackError>,
        |
            {
                &&& #[trigger] adds_track(
                    before,
                    track,
                    format,
                    container,
                    priority,
                    latency_ns,
                    create,
                    media,
                    retire,
                    video,
                    audio,
                    after,
                    result,
                )
                &&& r.0 == Some(after)
                &&& match result {
                    Ok(()) => is_answered(r.1, Atom::Done),
                    Err(AddTrackError::AlreadyExists) => fails_with_atom(
                        r.1,
                        Atom::TrackAlreadyExists,
                    ),
                    Err(AddTrackError::CreateTrack(e)) => fails_with_text(
                        r.1,
                        "create_track failed: "@ + e@,
                    ),
                    Err(AddTrackError::MediaProducer(e)) => fails_with_text(
                        r.1,
                        "media_producer failed: "@ + e@,
                    ),
                }
            },
{
    if let Some(before) = producer {
        let (after, result) = choose|
            after: Producer<B, C, W, V, A>,
            result: Result<(), AddTrackError>,
        |
            {
                &&& #[trigger] before.track_added(
                    track,
                    format,
                    container,
                    priority,
                    latency_ns,
                    create,
                    media,
                    retire,
                    video,
                    audio,
                    after,
                    result,
                )
                &&& after.wf()
                &&& r.0 == Some(after)
                &&& native::answer_view(r.1) == native::add_track_answer(result)
            };
        assert(adds_track(
            before,
            track,
            format,
            container,
            priority,
            latency_ns,
            create,
            media,
            retire,
            video,
            audio,
            after,
            result,
        ));
    }
}

/// Updating a track is answered `ok` if and only if its entry was replaced.
pub proof fn law_updating_is_answered<B, C, W, V, A, Video, Audio>(
    producer: Option<Producer<B, C, W, V, A>>,
    track: String,
    format: TrackFormat,
    video: Video,
    audio: Audio,
    r: (Option<Producer<B, C, W, V, A>>, Result<Atom, NifError>),
) where
    Video: FnOnce(V, VideoConfig) -> V,
    Audio: FnOnce(A, AudioConfig) -> A,

    requires
        call_ensures(
            native::update_track::<B, C, W, V, A, Video, Audio>,
            (producer, &track, format, video, audio),
            r,
        ),
    ensures
        producer is None ==> r.0 is None && fails_with_atom(r.1, Atom::ProducerPoisoned),
        producer matches Some(before) ==> exists|
            after: Producer<B, C, W, V, A>,
            result: Result<(), UpdateTrackError>,
        |
            {
                &&& #[trigger] updates_track(before, track, format, video, audio, after, result)
                &&& r.0 == Some(after)
                &&& match result {
                    Ok(()) => is_answered(r.1, Atom::Done),
                    Err(UpdateTrackError::UnknownTrack) => fails_with_atom(
                        r.1,
                        Atom::UnknownTrack,
                    ),
                    Err(UpdateTrackError::KindMismatch) => fails_with_atom(
                        r.1,
                        Atom::KindMismatch,
                    ),
                }
            },
{
    if let Some(before) = producer {
        let (after, result) = choose|
            after: Producer<B, C, W, V, A>,
            result: Result<(), UpdateTrackError>,
        |
            {
                &&& #[trigger] before.track_updated(track@, format, video, audio, after, result)
                &&& after.wf()
                &&& r.0 == Some(after)
                &&& native::answer_view(r.1) == native::update_track_answer(result)
            };
        assert(updates_track(before, track, format, video, audio, after, result));
    }
}

/// A frame is written with the time, the payload and the keyframe flag that it was sent with, and
/// answered `ok` only if the write was; a time that no timestamp can hold is written nowhere.
pub proof fn law_sent_frame_is_written<B, C, W, V, A, Write>(
    producer: Option<Producer<B, C, W, V, A>>,
    track: String,
    timestamp_ns: u64,
    keyframe: bool,
    data: Vec<u8>,
    write: Write,
    r: (Option<Producer<B, C, W, V, A>>, Result<Atom, NifError>),
) where Write: FnOnce(W, Frame) -> (W, Result<(), WriteFault>)
    requires
        call_ensures(
            native::send_frame::<B, C, W, V, A, Write>,
            (producer, &track, timestamp_ns, keyframe, data, write),
            r,
        ),
    ensures
        timestamp_ns >= 0x4000_0000_0000_0000 ==> r.0 == producer && fails_with_text(
            r.1,
            "timestamp conversion failed: "@ + "time overflow"@,
        ),
        timestamp_ns < 0x4000_0000_0000_0000 && producer is None ==> r.0 is None
            && fails_with_atom(r.1, Atom::ProducerPoisoned),
        timestamp_ns < 0x4000_0000_0000_0000 ==> (producer matches Some(before) ==> exists|
            frame: Frame,
            after: Producer<B, C, W, V, A>,
            result: Result<(), WriteFrameError>,
        |
            {
                &&& #[trigger] writes_frame(before, track, frame, write, after, result)
                &&& frame.payload == data
                &&& frame.keyframe == keyframe
                &&& forall|n: u64| #[trigger]
                    call_ensures(Timestamp::ticks, (&frame.timestamp,), n) ==> n == timestamp_ns
                &&& forall|n: u64| #[trigger]
                    call_ensures(Timestamp::scale, (&frame.timestamp,), n) ==> n == 1_000_000_000
                &&& r.0 == Some(after)
                &&& match result {
                    Ok(()) => is_answered(r.1, Atom::Done),
                    Err(WriteFrameError::MissingKeyframe) => is_answered(
                        r.1,
                        Atom::MissingKeyframe,
                    ),
                    Err(WriteFrameError::UnknownTrack) => fails_with_atom(
                        r.1,
                        Atom::UnknownTrack,
                    ),
                    Err(WriteFrameError::Write(e)) => fails_with_text(
                        r.1,
                        "writing frame failed: "@ + e@,
                    ),
                }
            }),
{
    if timestamp_ns < 0x4000_0000_0000_0000 {
        if let Some(before) = producer {
            let (frame, after, result) = choose|
                frame: Frame,
                after: Producer<B, C, W, V, A>,
                result: Result<(), WriteFrameError>,
            |
                {
                    &&& #[trigger] before.frame_written(track@, frame, write, after, result)
                    &&& frame.timestamp.spec_ticks() == timestamp_ns
                    &&& frame.timestamp.spec_scale() == 1_000_000_000
                    &&& frame.payload == data
                    &&& frame.keyframe == keyframe
                    &&& after.wf()
                    &&& r.0 == Some(after)
                    &&& native::answer_view(r.1) == native::send_frame_answer(result)
                };
            assert(writes_frame(before, track, frame, write, after, result));
        }
    }
}

/// A track is removed once what it holds has gone out, and that is always answered `ok`.
pub proof fn law_removing_is_answered<B, C, W, V, A, Finish, Retire>(
    producer: Option<Producer<B, C, W, V, A>>,
    track: String,
    finish: Finish,
    retire: Retire,
    r: (
        Option<Producer<B, C, W, V, A>>,
        Option<LiveTrack<W, V, A>>,
        Result<Atom, NifError>,
    ),
) where Finish: FnOnce(B, W) -> (B, W), Retire: FnOnce(B, String) -> B
    requires
        call_ensures(
            native::remove_track::<B, C, W, V, A, Finish, Retire>,
            (producer, &track, finish, retire),
            r,
        ),
    ensures
        producer is None ==> r.0 is None && r.1 is None && fails_with_atom(
            r.2,
            Atom::ProducerPoisoned,
        ),
        producer matches Some(before) ==> {
            &&& r.0 matches Some(after)
            &&& removes_track(before, track, true, finish, retire, after, r.1)
            &&& is_answered(r.2, Atom::Done)
        },
{
}

/// A consumer is asked exactly what its caller asked for, and only a closed one is a failure.
pub proof fn law_consumer_is_asked<Q, Push>(
    consumer: Handle<Q>,
    track: String,
    token: Token,
    priority: u8,
    push: Push,
    subscribed: Result<Atom, NifError>,
    unsubscribed: Atom,
) where Push: FnOnce(&Q, Command) -> Result<(), Closed>
    requires
        call_ensures(
            native::subscribe_track::<Q, Push>,
            (&consumer, track, token, priority, push),
            subscribed,
        ),
        call_ensures(
            native::unsubscribe_track::<Q, Push>,
            (&consumer, token, push),
            unsubscribed,
        ),
    ensures
        exists|pushed: Result<(), Closed>|
            {
                &&& #[trigger] call_ensures(
                    push,
                    (&consumer.commands, Command::Subscribe { track, token, priority }),
                    pushed,
                )
                &&& pushed is Ok ==> is_answered(subscribed, Atom::Done)
                &&& pushed is Err ==> fails_with_atom(subscribed, Atom::ConsumerClosed)
            },
        unsubscribed is Done,
        exists|pushed: Result<(), Closed>| #[trigger]
            call_ensures(push, (&consumer.commands, Command::Unsubscribe { token }), pushed),
{
}

/// Closing a consumer closes its commands, and is always answered `ok`.
pub proof fn law_consumer_is_closed<Q, Close>(consumer: Handle<Q>, close: Close, r: Atom) where
    Close: FnOnce(&Q),

    requires
        call_ensures(native::close_broadcast_consumer::<Q, Close>, (&consumer, close), r),
    ensures
        r is Done,
        call_ensures(close, (&consumer.commands,), ()),
{
}

} // verus!
