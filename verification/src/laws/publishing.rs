//! Broadcasts that are being published, and their tracks.

use vstd::prelude::*;

use crate::broadcast_producer::{
    AddTrackError, CreateError, KindMismatch, LiveTrack, Producer, Rendition, UpdateTrackError,
    WriteFault, WriteFrameError,
};
use crate::frame::Frame;
use crate::laws::formats::{advertises_audio, advertises_video, names_container};
use crate::native;
use crate::reply::Atom;
use crate::table::Table;
use crate::track_format::{
    AudioConfig, Container, ResolvedConfig, TrackFormat, VideoConfig, WireContainer,
};

verus! {

/// Whether frames go out in the container that a track was asked for.
pub open spec fn is_wire(wire: WireContainer, container: Container) -> bool {
    match container {
        Container::Legacy => wire is Legacy,
        Container::Loc => wire is Loc,
    }
}

/// Whether a rendition came of putting one entry into the catalog, of the kind of the format,
/// under the name, that says what the format says and names the container.
pub open spec fn is_advertised<C, V, A, Video, Audio>(
    before: C,
    after: C,
    rendition: Rendition<V, A>,
    name: String,
    format: TrackFormat,
    container: Container,
    video: Video,
    audio: Audio,
) -> bool where
    Video: FnOnce(C, String, VideoConfig) -> (C, V),
    Audio: FnOnce(C, String, AudioConfig) -> (C, A),
 {
    match format {
        TrackFormat::Video(format) => exists|config: VideoConfig, c: C, v: V|
            {
                &&& #[trigger] call_ensures(video, (before, name, config), (c, v))
                &&& advertises_video(config, format)
                &&& names_container(config.container, container)
                &&& after == c
                &&& rendition == Rendition::<V, A>::Video(v)
            },
        TrackFormat::Audio(format) => exists|config: AudioConfig, c: C, a: A|
            {
                &&& #[trigger] call_ensures(audio, (before, name, config), (c, a))
                &&& advertises_audio(config, format)
                &&& names_container(config.container, container)
                &&& after == c
                &&& rendition == Rendition::<V, A>::Audio(a)
            },
    }
}

/// Whether a rendition came of replacing its entry once by one of the same kind, that says what
/// the format says and names the container.
pub open spec fn is_readvertised<V, A, Video, Audio>(
    before: Rendition<V, A>,
    after: Rendition<V, A>,
    format: TrackFormat,
    container: Container,
    video: Video,
    audio: Audio,
) -> bool where Video: FnOnce(V, VideoConfig) -> V, Audio: FnOnce(A, AudioConfig) -> A {
    match (before, format) {
        (Rendition::Video(v), TrackFormat::Video(format)) => exists|config: VideoConfig, w: V|
            {
                &&& #[trigger] call_ensures(video, (v, config), w)
                &&& advertises_video(config, format)
                &&& names_container(config.container, container)
                &&& after == Rendition::<V, A>::Video(w)
            },
        (Rendition::Audio(a), TrackFormat::Audio(format)) => exists|config: AudioConfig, b: A|
            {
                &&& #[trigger] call_ensures(audio, (a, config), b)
                &&& advertises_audio(config, format)
                &&& names_container(config.container, container)
                &&& after == Rendition::<V, A>::Audio(b)
            },
        _ => false,
    }
}

/// A rendition is of the kind of its entry, which goes into the catalog once, as it is.
pub proof fn law_entry_goes_into_the_catalog<C, V, A, Video, Audio>(
    catalog: C,
    name: String,
    config: ResolvedConfig,
    video: Video,
    audio: Audio,
    r: (C, Rendition<V, A>),
) where
    Video: FnOnce(C, String, VideoConfig) -> (C, V),
    Audio: FnOnce(C, String, AudioConfig) -> (C, A),

    requires
        call_ensures(
            Rendition::<V, A>::new::<C, Video, Audio>,
            (catalog, name, config, video, audio),
            r,
        ),
    ensures
        match (config, r.1) {
            (ResolvedConfig::Video(entry), Rendition::Video(v)) => call_ensures(
                video,
                (catalog, name, entry),
                (r.0, v),
            ),
            (ResolvedConfig::Audio(entry), Rendition::Audio(a)) => call_ensures(
                audio,
                (catalog, name, entry),
                (r.0, a),
            ),
            _ => false,
        },
{
}

/// An entry is replaced, once and as it is, by one of its own kind; one of the other kind changes
/// nothing.
pub proof fn law_entry_is_replaced_by_its_kind<V, A, Video, Audio>(
    rendition: Rendition<V, A>,
    config: ResolvedConfig,
    video: Video,
    audio: Audio,
    r: (Rendition<V, A>, Result<(), KindMismatch>),
) where
    Video: FnOnce(V, VideoConfig) -> V,
    Audio: FnOnce(A, AudioConfig) -> A,

    requires
        call_ensures(
            Rendition::<V, A>::set::<Video, Audio>,
            (rendition, config, video, audio),
            r,
        ),
    ensures
        r.1 is Err ==> r.0 == rendition,
        r.1 is Ok <==> (rendition is Video <==> config is Video),
        r.1 is Ok ==> match (rendition, config, r.0) {
            (
                Rendition::Video(v),
                ResolvedConfig::Video(entry),
                Rendition::Video(w),
            ) => call_ensures(video, (v, entry), w),
            (
                Rendition::Audio(a),
                ResolvedConfig::Audio(entry),
                Rendition::Audio(b),
            ) => call_ensures(audio, (a, entry), b),
            _ => false,
        },
{
}

/// Whether adding a track had the given outcome. A name in use changes nothing. Else one track is
/// created, of that name and priority; it is opened in the container and with the latency that
/// were asked for; if that fails it is retired again; if not it is live under its name, and
/// advertised.
pub open spec fn adds_track<B, C, T, W, V, A, Create, Media, Retire, Video, Audio>(
    before: Producer<B, C, W, V, A>,
    track: String,
    format: TrackFormat,
    container: Container,
    priority: u8,
    latency_ns: u64,
    create: Create,
    media: Media,
    retire: Retire,
    video: Video,
    audio: Audio,
    after: Producer<B, C, W, V, A>,
    answer: Result<(), AddTrackError>,
) -> bool where
    Create: FnOnce(B, String, u8) -> (B, Result<T, String>),
    Media: FnOnce(T, WireContainer, u64) -> Result<W, String>,
    Retire: FnOnce(B, String) -> B,
    Video: FnOnce(C, String, VideoConfig) -> (C, V),
    Audio: FnOnce(C, String, AudioConfig) -> (C, A),
 {
    &&& answer is Err ==> after.tracks@ == before.tracks@ && after.catalog == before.catalog
    &&& before.tracks@.contains_key(track@) ==> after == before && (answer matches Err(
        AddTrackError::AlreadyExists,
    ))
    &&& !before.tracks@.contains_key(track@) ==> exists|made: B, t: Result<T, String>|
        {
            &&& #[trigger] call_ensures(create, (before.broadcast, track, priority), (made, t))
            &&& match t {
                Err(e) => answer == Err::<(), AddTrackError>(AddTrackError::CreateTrack(e))
                    && after.broadcast == made,
                Ok(t) => exists|wire: WireContainer, w: Result<W, String>|
                    {
                        &&& #[trigger] call_ensures(media, (t, wire, latency_ns), w)
                        &&& is_wire(wire, container)
                        &&& match w {
                            Err(e) => {
                                &&& answer == Err::<(), AddTrackError>(
                                    AddTrackError::MediaProducer(e),
                                )
                                &&& call_ensures(retire, (made, track), after.broadcast)
                            },
                            Ok(w) => {
                                &&& answer is Ok
                                &&& after.broadcast == made
                                &&& after.tracks@.contains_key(track@)
                                &&& after.tracks@.remove(track@) =~= before.tracks@
                                &&& after.tracks@[track@].producer == w
                                &&& after.tracks@[track@].container == container
                                &&& is_advertised(
                                    before.catalog,
                                    after.catalog,
                                    after.tracks@[track@].rendition,
                                    track,
                                    format,
                                    container,
                                    video,
                                    audio,
                                )
                            },
                        }
                    },
            }
        }
}

/// A track is added once: created, opened and advertised as it was asked for, or not at all.
pub proof fn law_track_is_added<B, C, T, W, V, A, Create, Media, Retire, Video, Audio>(
    before: Producer<B, C, W, V, A>,
    track: String,
    format: TrackFormat,
    container: Container,
    priority: u8,
    latency_ns: u64,
    create: Create,
    media: Media,
    retire: Retire,
    video: Video,
    audio: Audio,
    r: (Producer<B, C, W, V, A>, Result<(), AddTrackError>),
) where
    Create: FnOnce(B, String, u8) -> (B, Result<T, String>),
    Media: FnOnce(T, WireContainer, u64) -> Result<W, String>,
    Retire: FnOnce(B, String) -> B,
    Video: FnOnce(C, String, VideoConfig) -> (C, V),
    Audio: FnOnce(C, String, AudioConfig) -> (C, A),

    requires
        call_ensures(
            Producer::<B, C, W, V, A>::add_track::<T, Create, Media, Retire, Video, Audio>,
            (
                before,
                track,
                format,
                container,
                priority,
                latency_ns,
                create,
                media,
                retire,
                video,
                audio,
            ),
            r,
        ),
    ensures
        adds_track(
            before,
            track,
            format,
            container,
            priority,
            latency_ns,
            create,
            media,
            retire,
            video,
            audio,
            r.0,
            r.1,
        ),
{
}

/// Whether updating a track had the given outcome: only its entry is replaced, by one that says
/// what the new format says in the container that the track has, and only for the same kind.
pub open spec fn updates_track<B, C, W, V, A, Video, Audio>(
    before: Producer<B, C, W, V, A>,
    track: String,
    format: TrackFormat,
    video: Video,
    audio: Audio,
    after: Producer<B, C, W, V, A>,
    answer: Result<(), UpdateTrackError>,
) -> bool where Video: FnOnce(V, VideoConfig) -> V, Audio: FnOnce(A, AudioConfig) -> A {
    &&& after.broadcast == before.broadcast
    &&& after.catalog == before.catalog
    &&& after.tracks@.remove(track@) =~= before.tracks@.remove(track@)
    &&& after.tracks@.contains_key(track@) <==> before.tracks@.contains_key(track@)
    &&& answer is Err ==> after.tracks@ == before.tracks@
    &&& !before.tracks@.contains_key(track@) <==> (answer matches Err(
        UpdateTrackError::UnknownTrack,
    ))
    &&& before.tracks@.contains_key(track@) ==> {
        let live = before.tracks@[track@];
        let next = after.tracks@[track@];
        &&& answer is Ok <==> (live.rendition is Video <==> format is Video)
        &&& answer is Err ==> (answer matches Err(UpdateTrackError::KindMismatch))
        &&& answer is Ok ==> {
            &&& next.producer == live.producer
            &&& next.container == live.container
            &&& is_readvertised(
                live.rendition,
                next.rendition,
                format,
                live.container,
                video,
                audio,
            )
        }
    }
}

/// An update replaces the entry of a track, and nothing else.
pub proof fn law_entry_is_updated<B, C, W, V, A, Video, Audio>(
    before: Producer<B, C, W, V, A>,
    track: String,
    format: TrackFormat,
    video: Video,
    audio: Audio,
    r: (Producer<B, C, W, V, A>, Result<(), UpdateTrackError>),
) where
    Video: FnOnce(V, VideoConfig) -> V,
    Audio: FnOnce(A, AudioConfig) -> A,

    requires
        call_ensures(
            Producer::<B, C, W, V, A>::update_track::<Video, Audio>,
            (before, &track, format, video, audio),
            r,
        ),
    ensures
        updates_track(before, track, format, video, audio, r.0, r.1),
{
}

/// Whether writing a frame had the given outcome: a known track, whatever its kind and container,
/// was written exactly this frame, once, and the answer is the one that the write gave; an unknown
/// one changes nothing.
pub open spec fn writes_frame<B, C, W, V, A, Write>(
    before: Producer<B, C, W, V, A>,
    track: String,
    frame: Frame,
    write: Write,
    after: Producer<B, C, W, V, A>,
    answer: Result<(), WriteFrameError>,
) -> bool where Write: FnOnce(W, Frame) -> (W, Result<(), WriteFault>) {
    &&& after.broadcast == before.broadcast
    &&& after.catalog == before.catalog
    &&& after.tracks@.remove(track@) =~= before.tracks@.remove(track@)
    &&& after.tracks@.contains_key(track@) <==> before.tracks@.contains_key(track@)
    &&& !before.tracks@.contains_key(track@) <==> (answer matches Err(
        WriteFrameError::UnknownTrack,
    ))
    &&& before.tracks@.contains_key(track@) ==> {
        let live = before.tracks@[track@];
        let next = after.tracks@[track@];
        &&& next.rendition == live.rendition
        &&& next.container == live.container
        &&& exists|w: W, result: Result<(), WriteFault>|
            {
                &&& #[trigger] call_ensures(write, (live.producer, frame), (w, result))
                &&& next.producer == w
                &&& result is Ok <==> answer is Ok
                &&& (result matches Err(WriteFault::MissingKeyframe)) <==> (answer matches Err(
                    WriteFrameError::MissingKeyframe,
                ))
                &&& result matches Err(WriteFault::Other(e)) ==> answer == Err::<
                    (),
                    WriteFrameError,
                >(WriteFrameError::Write(e))
            }
    }
}

/// A frame is written once, to its own track, and to no other.
pub proof fn law_frame_is_written_to_its_track<B, C, W, V, A, Write>(
    before: Producer<B, C, W, V, A>,
    track: String,
    frame: Frame,
    write: Write,
    r: (Producer<B, C, W, V, A>, Result<(), WriteFrameError>),
) where Write: FnOnce(W, Frame) -> (W, Result<(), WriteFault>)
    requires
        call_ensures(
            Producer::<B, C, W, V, A>::write_frame::<Write>,
            (before, &track, frame, write),
            r,
        ),
    ensures
        writes_frame(before, track, frame, write, r.0, r.1),
{
}

/// Whether removing a track had the given outcome: a known track is finished, if that is asked for,
/// then retired by its name, and handed back; an unknown one changes nothing.
pub open spec fn removes_track<B, C, W, V, A, Finish, Retire>(
    before: Producer<B, C, W, V, A>,
    track: String,
    finish: bool,
    finish_track: Finish,
    retire: Retire,
    after: Producer<B, C, W, V, A>,
    gone: Option<LiveTrack<W, V, A>>,
) -> bool where Finish: FnOnce(B, W) -> (B, W), Retire: FnOnce(B, String) -> B {
    &&& after.catalog == before.catalog
    &&& !after.tracks@.contains_key(track@)
    &&& after.tracks@ =~= before.tracks@.remove(track@)
    &&& gone is Some <==> before.tracks@.contains_key(track@)
    &&& match gone {
        None => after.broadcast == before.broadcast,
        Some(live) => {
            let was = before.tracks@[track@];
            &&& live.rendition == was.rendition
            &&& live.container == was.container
            &&& !finish ==> live.producer == was.producer && call_ensures(
                retire,
                (before.broadcast, track),
                after.broadcast,
            )
            &&& finish ==> exists|mid: B, w: W|
                {
                    &&& #[trigger] call_ensures(
                        finish_track,
                        (before.broadcast, was.producer),
                        (mid, w),
                    )
                    &&& live.producer == w
                    &&& call_ensures(retire, (mid, track), after.broadcast)
                }
        },
    }
}

/// A track is removed once, after what it holds has gone out where that is asked for.
pub proof fn law_track_is_removed<B, C, W, V, A, Finish, Retire>(
    before: Producer<B, C, W, V, A>,
    track: String,
    finish: bool,
    finish_track: Finish,
    retire: Retire,
    r: (Producer<B, C, W, V, A>, Option<LiveTrack<W, V, A>>),
) where Finish: FnOnce(B, W) -> (B, W), Retire: FnOnce(B, String) -> B
    requires
        call_ensures(
            Producer::<B, C, W, V, A>::remove_track::<Finish, Retire>,
            (before, &track, finish, finish_track, retire),
            r,
        ),
    ensures
        removes_track(before, track, finish, finish_track, retire, r.0, r.1),
{
}

/// Whether every track was finished once, one after the other in some order, each keeping its
/// entry and its container.
pub open spec fn finishes_every_track<B, W, V, A, Finish>(
    start: B,
    before: Map<Seq<char>, LiveTrack<W, V, A>>,
    finish: Finish,
    end: B,
    after: Map<Seq<char>, LiveTrack<W, V, A>>,
    order: Seq<Seq<char>>,
    course: Seq<B>,
) -> bool where Finish: Fn(B, W) -> (B, W) {
    &&& order.no_duplicates()
    &&& forall|name: Seq<char>| #[trigger] before.contains_key(name) <==> order.contains(name)
    &&& forall|name: Seq<char>| #[trigger] after.contains_key(name) <==> order.contains(name)
    &&& course.len() == order.len() + 1
    &&& course.first() == start
    &&& course.last() == end
    &&& forall|i: int|
        #![trigger order[i]]
        0 <= i < order.len() ==> {
            &&& call_ensures(
                finish,
                (course[i], before[order[i]].producer),
                (course[i + 1], after[order[i]].producer),
            )
            &&& after[order[i]].rendition == before[order[i]].rendition
            &&& after[order[i]].container == before[order[i]].container
        }
}

/// Finishing a broadcast finishes every track, and only then the catalog.
pub proof fn law_broadcast_is_finished<B, C, W, V, A, Finish, End>(
    before: Producer<B, C, W, V, A>,
    finish: Finish,
    end: End,
    after: Producer<B, C, W, V, A>,
) where Finish: Fn(B, W) -> (B, W), End: FnOnce(B, C) -> (B, C)
    requires
        call_ensures(
            Producer::<B, C, W, V, A>::finish::<Finish, End>,
            (before, finish, end),
            after,
        ),
    ensures
        exists|mid: B, order: Seq<Seq<char>>, course: Seq<B>|
            {
                &&& #[trigger] finishes_every_track(
                    before.broadcast,
                    before.tracks@,
                    finish,
                    mid,
                    after.tracks@,
                    order,
                    course,
                )
                &&& call_ensures(end, (mid, before.catalog), (after.broadcast, after.catalog))
            },
{
    let mid = choose|mid: B|
        {
            &&& #[trigger] crate::broadcast_producer::all_finished(
                before.broadcast,
                before.tracks@,
                finish,
                mid,
                after.tracks@,
            )
            &&& call_ensures(end, (mid, before.catalog), (after.broadcast, after.catalog))
        };
    let (order, course) = choose|order: Seq<Seq<char>>, course: Seq<B>|
        {
            &&& #[trigger] crate::broadcast_producer::finished_along(
                order,
                course,
                before.tracks@,
                after.tracks@,
                finish,
            )
            &&& course[0] == before.broadcast
            &&& course[order.len() as int] == mid
        };
    assert forall|name: Seq<char>| #[trigger] before.tracks@.contains_key(name) <==> order.contains(
        name,
    ) by {
        assert(before.tracks@.contains_key(name) == before.tracks@.dom().contains(name));
        assert(after.tracks@.contains_key(name) == after.tracks@.dom().contains(name));
    }
    assert(finishes_every_track(
        before.broadcast,
        before.tracks@,
        finish,
        mid,
        after.tracks@,
        order,
        course,
    ));
}

/// Aborting a broadcast drops the tracks as they are, then cancels the broadcast.
pub proof fn law_broadcast_is_aborted<B, C, W, V, A, Discard, Cancel>(
    before: Producer<B, C, W, V, A>,
    discard: Discard,
    cancel: Cancel,
    after: Producer<B, C, W, V, A>,
) where
    Discard: FnOnce(B, Table<LiveTrack<W, V, A>>) -> B,
    Cancel: FnOnce(B) -> B,

    requires
        call_ensures(
            Producer::<B, C, W, V, A>::abort::<Discard, Cancel>,
            (before, discard, cancel),
            after,
        ),
    ensures
        after.catalog == before.catalog,
        forall|name: Seq<char>| !after.tracks@.contains_key(name),
        exists|mid: B|
            {
                &&& #[trigger] call_ensures(discard, (before.broadcast, before.tracks), mid)
                &&& call_ensures(cancel, (mid,), after.broadcast)
            },
{
}

/// Closing a producer sends out what its tracks hold, unless it may be inconsistent, then drops the
/// tracks and cancels the broadcast, in that order; it is always answered `ok`.
pub proof fn law_producer_is_closed<B, C, W, V, A, Finish, End, Discard, Cancel>(
    producer: Producer<B, C, W, V, A>,
    poisoned: bool,
    finish: Finish,
    end: End,
    discard: Discard,
    cancel: Cancel,
    r: (Producer<B, C, W, V, A>, Atom),
) where
    Finish: Fn(B, W) -> (B, W),
    End: FnOnce(B, C) -> (B, C),
    Discard: FnOnce(B, Table<LiveTrack<W, V, A>>) -> B,
    Cancel: FnOnce(B) -> B,

    requires
        call_ensures(
            native::close_broadcast_producer::<B, C, W, V, A, Finish, End, Discard, Cancel>,
            (producer, poisoned, finish, end, discard, cancel),
            r,
        ),
    ensures
        r.1 is Done,
        forall|name: Seq<char>| !r.0.tracks@.contains_key(name),
        poisoned ==> r.0.catalog == producer.catalog && exists|mid: B|
            {
                &&& #[trigger] call_ensures(discard, (producer.broadcast, producer.tracks), mid)
                &&& call_ensures(cancel, (mid,), r.0.broadcast)
            },
        !poisoned ==> exists|
            flushed: B,
            order: Seq<Seq<char>>,
            course: Seq<B>,
            left: Table<LiveTrack<W, V, A>>,
            ended: B,
            mid: B,
        |
            {
                &&& #[trigger] finishes_every_track(
                    producer.broadcast,
                    producer.tracks@,
                    finish,
                    flushed,
                    left@,
                    order,
                    course,
                )
                &&& call_ensures(end, (flushed, producer.catalog), (ended, r.0.catalog))
                &&& #[trigger] call_ensures(discard, (ended, left), mid)
                &&& call_ensures(cancel, (mid,), r.0.broadcast)
            },
{
    if !poisoned {
        let whole = choose|whole: Producer<B, C, W, V, A>|
            {
                &&& #[trigger] producer.all_ended(finish, end, whole)
                &&& whole.aborted(discard, cancel, r.0)
            };
        let flushed = choose|mid: B|
            {
                &&& #[trigger] crate::broadcast_producer::all_finished(
                    producer.broadcast,
                    producer.tracks@,
                    finish,
                    mid,
                    whole.tracks@,
                )
                &&& call_ensures(end, (mid, producer.catalog), (whole.broadcast, whole.catalog))
            };
        let (order, course) = choose|order: Seq<Seq<char>>, course: Seq<B>|
            {
                &&& #[trigger] crate::broadcast_producer::finished_along(
                    order,
                    course,
                    producer.tracks@,
                    whole.tracks@,
                    finish,
                )
                &&& course[0] == producer.broadcast
                &&& course[order.len() as int] == flushed
            };
        assert forall|name: Seq<char>| #[trigger]
            producer.tracks@.contains_key(name) <==> order.contains(name) by {
            assert(producer.tracks@.contains_key(name) == producer.tracks@.dom().contains(name));
            assert(whole.tracks@.contains_key(name) == whole.tracks@.dom().contains(name));
        }
        assert(finishes_every_track(
            producer.broadcast,
            producer.tracks@,
            finish,
            flushed,
            whole.tracks@,
            order,
            course,
        ));
        let mid = choose|mid: B|
            {
                &&& #[trigger] call_ensures(discard, (whole.broadcast, whole.tracks), mid)
                &&& call_ensures(cancel, (mid,), r.0.broadcast)
            };
        assert(call_ensures(discard, (whole.broadcast, whole.tracks), mid));
    }
}

/// A broadcast starts without tracks, over the catalog that was opened for it.
pub proof fn law_broadcast_starts_empty<B, C, W, V, A, Open>(
    path: &str,
    broadcast: Result<B, String>,
    open_catalog: Open,
    r: Result<Producer<B, C, W, V, A>, CreateError>,
) where Open: FnOnce(B) -> (B, Result<C, String>)
    requires
        call_ensures(
            Producer::<B, C, W, V, A>::new::<Open>,
            (path, broadcast, open_catalog),
            r,
        ),
    ensures
        broadcast matches Err(e) ==> (r matches Err(CreateError::Broadcast { path: p, source })
            && p@ == path@ && source == e),
        broadcast matches Ok(b) ==> exists|after: B, catalog: Result<C, String>|
            {
                &&& #[trigger] call_ensures(open_catalog, (b,), (after, catalog))
                &&& catalog matches Err(e) ==> (r matches Err(CreateError::Catalog(source))
                    && source == e)
                &&& catalog matches Ok(c) ==> (r matches Ok(producer) && producer.broadcast
                    == after && producer.catalog == c && forall|name: Seq<char>|
                    !producer.tracks@.contains_key(name))
            },
{
}

/// The faults of a broadcast in words.
pub proof fn law_producer_faults_in_words(
    create: CreateError,
    add: AddTrackError,
    update: UpdateTrackError,
    write: WriteFrameError,
    create_text: String,
    add_text: String,
    update_text: String,
    write_text: String,
)
    requires
        call_ensures(CreateError::message, (&create,), create_text),
        call_ensures(AddTrackError::message, (&add,), add_text),
        call_ensures(UpdateTrackError::message, (&update,), update_text),
        call_ensures(WriteFrameError::message, (&write,), write_text),
    ensures
        create_text@ == (match create {
            CreateError::Broadcast { path, source } => "create_broadcast("@ + path@
                + ") failed: "@ + source@,
            CreateError::Catalog(e) => "CatalogProducer::new failed: "@ + e@,
        }),
        add_text@ == (match add {
            AddTrackError::AlreadyExists => "track already exists"@,
            AddTrackError::CreateTrack(e) => "create_track failed: "@ + e@,
            AddTrackError::MediaProducer(e) => "media_producer failed: "@ + e@,
        }),
        update_text@ == (match update {
            UpdateTrackError::UnknownTrack => "unknown track"@,
            UpdateTrackError::KindMismatch => "cannot change a track's media kind in place"@,
        }),
        write_text@ == (match write {
            WriteFrameError::UnknownTrack => "unknown track"@,
            WriteFrameError::MissingKeyframe => "missing keyframe"@,
            WriteFrameError::Write(e) => "writing frame failed: "@ + e@,
        }),
{
    reveal_strlit("");
    match create {
        CreateError::Broadcast { path, source } => {
            assert(create_text@ =~= "create_broadcast("@ + path@ + ") failed: "@ + source@);
        },
        CreateError::Catalog(e) => {
            assert(create_text@ =~= "CatalogProducer::new failed: "@ + e@);
        },
    }
}

/// Frames go to a track in the order that they are written in: the second is written to what the
/// first write left, and a frame of one track leaves what another track was written.
pub proof fn law_frames_are_written_in_order<B, C, W, V, A, Write, Again>(
    before: Producer<B, C, W, V, A>,
    track: String,
    frame: Frame,
    write: Write,
    mid: Producer<B, C, W, V, A>,
    first: Result<(), WriteFrameError>,
    other: String,
    next_frame: Frame,
    again: Again,
    after: Producer<B, C, W, V, A>,
    second: Result<(), WriteFrameError>,
) where
    Write: FnOnce(W, Frame) -> (W, Result<(), WriteFault>),
    Again: FnOnce(W, Frame) -> (W, Result<(), WriteFault>),

    requires
        before.tracks@.contains_key(track@),
        call_ensures(
            Producer::<B, C, W, V, A>::write_frame::<Write>,
            (before, &track, frame, write),
            (mid, first),
        ),
        call_ensures(
            Producer::<B, C, W, V, A>::write_frame::<Again>,
            (mid, &other, next_frame, again),
            (after, second),
        ),
    ensures
        track@ == other@ ==> exists|
            w: W,
            x: W,
            written: Result<(), WriteFault>,
            rewritten: Result<(), WriteFault>,
        |
            {
                &&& #[trigger] call_ensures(
                    write,
                    (before.tracks@[track@].producer, frame),
                    (w, written),
                )
                &&& #[trigger] call_ensures(again, (w, next_frame), (x, rewritten))
                &&& after.tracks@[track@].producer == x
                &&& written is Ok <==> first is Ok
                &&& rewritten is Ok <==> second is Ok
            },
        track@ != other@ ==> after.tracks@[track@] == mid.tracks@[track@],
{
    law_frame_is_written_to_its_track(before, track, frame, write, (mid, first));
    law_frame_is_written_to_its_track(mid, other, next_frame, again, (after, second));
    if track@ == other@ {
        assert(mid.tracks@.contains_key(track@));
    } else {
        assert(after.tracks@.remove(other@)[track@] == mid.tracks@.remove(other@)[track@]);
    }
}

/// A track that was added is removed again by its name, with the writer that was opened for it;
/// what other tracks hold is not touched on the way.
pub proof fn law_added_track_is_removed<
    B,
    C,
    T,
    W,
    V,
    A,
    Create,
    Media,
    Undo,
    Video,
    Audio,
    Finish,
    Retire,
>(
    before: Producer<B, C, W, V, A>,
    track: String,
    format: TrackFormat,
    container: Container,
    priority: u8,
    latency_ns: u64,
    create: Create,
    media: Media,
    undo: Undo,
    video: Video,
    audio: Audio,
    added: Producer<B, C, W, V, A>,
    finish_track: Finish,
    retire: Retire,
    removed: Producer<B, C, W, V, A>,
    gone: Option<LiveTrack<W, V, A>>,
) where
    Create: FnOnce(B, String, u8) -> (B, Result<T, String>),
    Media: FnOnce(T, WireContainer, u64) -> Result<W, String>,
    Undo: FnOnce(B, String) -> B,
    Video: FnOnce(C, String, VideoConfig) -> (C, V),
    Audio: FnOnce(C, String, AudioConfig) -> (C, A),
    Finish: FnOnce(B, W) -> (B, W),
    Retire: FnOnce(B, String) -> B,

    requires
        call_ensures(
            Producer::<B, C, W, V, A>::add_track::<T, Create, Media, Undo, Video, Audio>,
            (
                before,
                track,
                format,
                container,
                priority,
                latency_ns,
                create,
                media,
                undo,
                video,
                audio,
            ),
            (added, Ok::<(), AddTrackError>(())),
        ),
        call_ensures(
            Producer::<B, C, W, V, A>::remove_track::<Finish, Retire>,
            (added, &track, false, finish_track, retire),
            (removed, gone),
        ),
    ensures
        removed.tracks@ =~= before.tracks@,
        gone matches Some(live) && live == added.tracks@[track@] && live.container == container,
        gone matches Some(live) && (live.rendition is Video <==> format is Video),
        call_ensures(retire, (added.broadcast, track), removed.broadcast),
{
    law_track_is_added(
        before,
        track,
        format,
        container,
        priority,
        latency_ns,
        create,
        media,
        undo,
        video,
        audio,
        (added, Ok(())),
    );
    law_track_is_removed(added, track, false, finish_track, retire, (removed, gone));
}

} // verus!
