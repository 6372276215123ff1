//! Tracks that are held as resources of their own.
//!
//! Such a track outlives the call that added it, and can be taken down more than once: by the
//! caller, and when the resource is collected. Locks belong to the caller: where one was
//! poisoned by a panic, `None` stands in for what it guards.

use vstd::prelude::*;

use crate::broadcast_producer::{announced, revised, Rendition, WriteFault};
use crate::frame::{Frame, Timestamp};
use crate::reply::Atom;
use crate::stack::TICK_LIMIT;
use crate::text::{debug_text, joined, quoted};
use crate::track_format::{
    AudioConfig, CatalogContainer, Container, ResolvedConfig, TrackFormat, VideoConfig,
    WireContainer,
};

verus! {

/// A broadcast whose tracks are resources. `B` is its handle, `C` that of its catalog, `K` a weak
/// handle of a track's producer.
pub struct Broadcast<B, C, K> {
    pub broadcast: B,
    pub catalog: C,
    pub tracks: Vec<K>,
}

/// What a track resource holds until it is taken down. `P` is a shared handle of the producer.
pub struct Live<B, P, V, A> {
    pub producer: P,
    pub rendition: Rendition<V, A>,
    pub broadcast: B,
}

/// A track that is held as a resource.
pub struct TrackResource<B, P, V, A> {
    pub live: Option<Live<B, P, V, A>>,
    pub name: String,
    pub container: Container,
}

/// The handles whose flag is set, in order.
pub open spec fn kept<K>(handles: Seq<K>, flags: Seq<bool>) -> Seq<K>
    decreases handles.len(),
{
    if handles.len() == 0 {
        Seq::empty()
    } else if flags[handles.len() - 1] {
        kept(handles.drop_last(), flags).push(handles.last())
    } else {
        kept(handles.drop_last(), flags)
    }
}

/// Whether `after` is what is left of `before` once the handles that nothing holds are gone.
pub open spec fn pruned<K, Alive>(before: Seq<K>, after: Seq<K>, alive: Alive) -> bool where
    Alive: Fn(&K) -> bool,
 {
    exists|flags: Seq<bool>|
        {
            &&& flags.len() == before.len()
            &&& forall|i: int|
                0 <= i < before.len() ==> call_ensures(alive, (&before[i],), #[trigger] flags[i])
            &&& after == #[trigger] kept(before, flags)
        }
}

proof fn lemma_kept_prefix<K>(handles: Seq<K>, flags: Seq<bool>, more: Seq<bool>)
    requires
        flags.len() >= handles.len(),
        more.len() >= flags.len(),
        forall|i: int| 0 <= i < flags.len() ==> flags[i] == more[i],
    ensures
        kept(handles, flags) == kept(handles, more),
    decreases handles.len(),
{
    if handles.len() > 0 {
        lemma_kept_prefix(handles.drop_last(), flags, more);
    }
}

/// Drops the handles that nothing holds any more.
pub fn prune<K, Alive>(handles: Vec<K>, alive: Alive) -> (r: Vec<K>) where Alive: Fn(&K) -> bool
    requires
        forall|k: &K| call_requires(alive, (k,)),
    ensures
        pruned(handles@, r@, alive),
{
    let ghost all = handles@;
    let mut rest = handles;
    let mut out: Vec<K> = Vec::new();
    let ghost mut flags: Seq<bool> = Seq::empty();
    assert(kept(all.take(0), flags) =~= Seq::empty());
    assert(rest@ =~= all.skip(0));
    while rest.len() > 0
        invariant
            forall|k: &K| call_requires(alive, (k,)),
            flags.len() <= all.len(),
            rest@ == all.skip(flags.len() as int),
            out@ == kept(all.take(flags.len() as int), flags),
            forall|i: int|
                0 <= i < flags.len() ==> call_ensures(alive, (&all[i],), #[trigger] flags[i]),
        decreases rest@.len(),
    {
        let ghost n = flags.len() as int;
        let handle = rest.remove(0);
        assert(handle == all[n]);
        let held = alive(&handle);
        proof {
            let more = flags.push(held);
            lemma_kept_prefix(all.take(n), flags, more);
            assert(all.take(n + 1).drop_last() =~= all.take(n));
            assert(all.skip(n).remove(0) =~= all.skip(n + 1));
            flags = more;
        }
        if held {
            out.push(handle);
        }
    }
    assert(all.take(all.len() as int) =~= all);
    out
}

/// Adds a track to a broadcast, as a resource.
///
/// `create` makes a track of the given name and priority and says under which name it stands,
/// `video` and `audio` make its catalog entry, `media` opens it in the given container with the
/// given latency in nanoseconds and hands out a shared and a weak handle of its producer. A track
/// that cannot be created leaves the catalog as it was; one that cannot be opened leaves it when
/// its entry is dropped.
pub fn add_track<B: Clone, C, K, T, P, V, A, Create, Media, Video, Audio, Alive>(
    inner: Option<Broadcast<B, C, K>>,
    track: String,
    format: TrackFormat,
    priority: u8,
    container: Container,
    latency_ns: u64,
    create: Create,
    video: Video,
    audio: Audio,
    media: Media,
    alive: Alive,
) -> (r: (Option<Broadcast<B, C, K>>, Result<TrackResource<B, P, V, A>, String>)) where
    Create: FnOnce(B, String, u8) -> (B, Result<(T, String), String>),
    Media: FnOnce(C, T, WireContainer, u64) -> (C, Result<(P, K), String>),
    Video: FnOnce(C, String, VideoConfig) -> (C, V),
    Audio: FnOnce(C, String, AudioConfig) -> (C, A),
    Alive: Fn(&K) -> bool,

    requires
        forall|b: B| call_requires(create, (b, track, priority)),
        forall|c: C, t: T, wire: WireContainer| call_requires(media, (c, t, wire, latency_ns)),
        forall|c: C, name: String, config: VideoConfig| call_requires(video, (c, name, config)),
        forall|c: C, name: String, config: AudioConfig| call_requires(audio, (c, name, config)),
        forall|k: &K| call_requires(alive, (k,)),
    ensures
        match inner {
            None => {
                &&& r.0 is None
                &&& r.1 matches Err(e)
                &&& e@ == "broadcast producer poisoned by panic in an earlier NIF call"@
            },
            Some(inner) => exists|made: B, t: Result<(T, String), String>|
                {
                    &&& #[trigger] call_ensures(
                        create,
                        (inner.broadcast, track, priority),
                        (made, t),
                    )
                    &&& r.0 matches Some(after)
                    &&& after.broadcast == made
                    &&& match t {
                        Err(e) => {
                            &&& after.catalog == inner.catalog
                            &&& after.tracks@ == inner.tracks@
                            &&& r.1 matches Err(text)
                            &&& text@ == "create_track failed: "@ + e@
                        },
                        Ok((t, name)) => exists|
                            listed: C,
                            rendition: Rendition<V, A>,
                            catalog: C,
                            opened: Result<(P, K), String>,
                        |
                            {
                                &&& #[trigger] announced(
                                    inner.catalog,
                                    listed,
                                    rendition,
                                    name,
                                    format.entry(container.as_catalog()),
                                    video,
                                    audio,
                                )
                                &&& #[trigger] call_ensures(
                                    media,
                                    (listed, t, container.on_wire(), latency_ns),
                                    (catalog, opened),
                                )
                                &&& after.catalog == catalog
                                &&& match opened {
                                    Err(e) => {
                                        &&& after.tracks@ == inner.tracks@
                                        &&& r.1 matches Err(text)
                                        &&& text@ == "media_producer failed: "@ + e@
                                    },
                                    Ok((producer, weak)) => exists|left: Seq<K>|
                                        {
                                            &&& #[trigger] pruned(inner.tracks@, left, alive)
                                            &&& after.tracks@ == left.push(weak)
                                            &&& r.1 matches Ok(resource)
                                            &&& resource.name == name
                                            &&& resource.container == container
                                            &&& resource.live matches Some(live)
                                            &&& live.producer == producer
                                            &&& live.rendition == rendition
                                            &&& cloned(made, live.broadcast)
                                        },
                                }
                            },
                    }
                },
        },
{
    let wire = WireContainer::from(container);
    let resolved = ResolvedConfig::new(format, CatalogContainer::from(container));
    let Some(Broadcast { broadcast, catalog, tracks }) = inner else {
        return (
            None,
            Err("broadcast producer poisoned by panic in an earlier NIF call".to_owned()),
        );
    };
    let (broadcast, created) = create(broadcast, track, priority);
    let (t, name) = match created {
        Ok(created) => created,
        Err(e) => {
            return (
                Some(Broadcast { broadcast, catalog, tracks }),
                Err("create_track failed: ".to_owned().concat(e.as_str())),
            );
        },
    };
    let (catalog, rendition) = Rendition::new(catalog, name.clone(), resolved, video, audio);
    let (catalog, opened) = media(catalog, t, wire, latency_ns);
    let (producer, weak) = match opened {
        Ok(opened) => opened,
        Err(e) => {
            return (
                Some(Broadcast { broadcast, catalog, tracks }),
                Err("media_producer failed: ".to_owned().concat(e.as_str())),
            );
        },
    };
    let mut tracks = prune(tracks, alive);
    let ghost left = tracks@;
    tracks.push(weak);
    let held = broadcast.clone();
    let resource = TrackResource {
        live: Some(Live { producer, rendition, broadcast: held }),
        name,
        container,
    };
    assert(pruned(inner->0.tracks@, left, alive));
    (Some(Broadcast { broadcast, catalog, tracks }), Ok(resource))
}

/// Replaces the catalog entry of a track by one for `format`. The container stays.
///
/// A track that was removed has no entry to replace.
pub fn update_track<B, P, V, A, Video, Audio>(
    track: TrackResource<B, P, V, A>,
    poisoned: bool,
    format: TrackFormat,
    video: Video,
    audio: Audio,
) -> (r: (TrackResource<B, P, V, A>, Result<Atom, String>)) where
    Video: FnOnce(V, VideoConfig) -> V,
    Audio: FnOnce(A, AudioConfig) -> A,

    requires
        forall|v: V, config: VideoConfig| call_requires(video, (v, config)),
        forall|a: A, config: AudioConfig| call_requires(audio, (a, config)),
    ensures
        r.1 is Err ==> r.0 == track,
        r.0.name == track.name && r.0.container == track.container,
        poisoned ==> (r.1 matches Err(e) && e@
            == "track poisoned by panic in an earlier NIF call"@),
        !poisoned ==> match track.live {
            None => r.1 matches Err(e) && e@ == "track "@ + debug_text(track.name@)
                + " was removed; a stale resource cannot update the catalog"@,
            Some(live) => if live.rendition.kind() != format.kind() {
                r.1 matches Err(e) && e@ == "track "@ + debug_text(track.name@)
                    + ": cannot change a track's media kind in place"@
            } else {
                &&& r.1 == Ok::<Atom, String>(Atom::Done)
                &&& r.0.live matches Some(after)
                &&& after.producer == live.producer
                &&& after.broadcast == live.broadcast
                &&& revised(
                    live.rendition,
                    after.rendition,
                    format.entry(track.container.as_catalog()),
                    video,
                    audio,
                )
            },
        },
{
    let TrackResource { live, name, container } = track;
    let resolved = ResolvedConfig::new(format, CatalogContainer::from(container));
    if poisoned {
        return (
            TrackResource { live, name, container },
            Err("track poisoned by panic in an earlier NIF call".to_owned()),
        );
    }
    let Some(Live { producer, rendition, broadcast }) = live else {
        let e = joined(
            "track ",
            quoted(name.as_str()).as_str(),
            " was removed; a stale resource cannot update the catalog",
        );
        return (TrackResource { live: None, name, container }, Err(e));
    };
    let (rendition, set) = rendition.set(resolved, video, audio);
    let result = match set {
        Ok(()) => Ok(Atom::Done),
        Err(_) => Err(
            joined(
                "track ",
                quoted(name.as_str()).as_str(),
                ": cannot change a track's media kind in place",
            ),
        ),
    };
    (TrackResource { live: Some(Live { producer, rendition, broadcast }), name, container }, result)
}

/// Writes a frame to a track.
///
/// `write` hands the frame to the producer; it answers `None` where the producer's own lock was
/// poisoned.
pub fn send_frame<B, P, V, A, Write>(
    track: TrackResource<B, P, V, A>,
    poisoned: bool,
    timestamp_ns: u64,
    keyframe: bool,
    data: Vec<u8>,
    write: Write,
) -> (r: (TrackResource<B, P, V, A>, Result<Atom, String>)) where
    Write: FnOnce(P, Frame) -> (P, Option<Result<(), WriteFault>>),

    requires
        forall|p: P, frame: Frame| call_requires(write, (p, frame)),
    ensures
        r.0.name == track.name && r.0.container == track.container,
        timestamp_ns >= TICK_LIMIT ==> r.0 == track && (r.1 matches Err(e) && e@
            == "timestamp conversion failed: "@ + "time overflow"@),
        timestamp_ns < TICK_LIMIT && poisoned ==> r.0 == track && (r.1 matches Err(e) && e@
            == "track resource poisoned by panic in an earlier NIF call"@),
        timestamp_ns < TICK_LIMIT && !poisoned ==> match track.live {
            None => r.0 == track && (r.1 matches Err(e) && e@ == "track "@ + debug_text(
                track.name@,
            ) + " was removed"@),
            Some(live) => exists|frame: Frame, after: P, result: Option<Result<(), WriteFault>>|
                {
                    &&& #[trigger] call_ensures(write, (live.producer, frame), (after, result))
                    &&& frame.timestamp.spec_ticks() == timestamp_ns
                    &&& frame.timestamp.spec_scale() == 1_000_000_000
                    &&& frame.payload == data
                    &&& frame.keyframe == keyframe
                    &&& r.0.live == Some(Live { producer: after, ..live })
                    &&& match result {
                        None => r.1 matches Err(e) && e@
                            == "track producer poisoned by panic in an earlier nif call"@,
                        Some(Ok(())) => r.1 == Ok::<Atom, String>(Atom::Done),
                        Some(Err(WriteFault::MissingKeyframe)) => r.1 == Ok::<Atom, String>(
                            Atom::MoqMissingKeyframe,
                        ),
                        Some(Err(WriteFault::Other(reason))) => r.1 matches Err(e) && e@
                            == "writing frame for track "@ + track.name@ + (" failed: "@ + reason@
                            + ""@),
                    }
                },
        },
{
    let timestamp = match Timestamp::from_nanos(timestamp_ns) {
        Ok(timestamp) => timestamp,
        Err(e) => {
            return (track, Err("timestamp conversion failed: ".to_owned().concat(e.as_str())));
        },
    };
    let frame = Frame { timestamp, payload: data, keyframe };
    if poisoned {
        return (
            track,
            Err("track resource poisoned by panic in an earlier NIF call".to_owned()),
        );
    }
    let TrackResource { live, name, container } = track;
    let Some(Live { producer, rendition, broadcast }) = live else {
        let e = joined("track ", quoted(name.as_str()).as_str(), " was removed");
        return (TrackResource { live: None, name, container }, Err(e));
    };
    let (producer, result) = write(producer, frame);
    let reply = match result {
        None => Err("track producer poisoned by panic in an earlier nif call".to_owned()),
        Some(Ok(())) => Ok(Atom::Done),
        Some(Err(WriteFault::MissingKeyframe)) => Ok(Atom::MoqMissingKeyframe),
        Some(Err(WriteFault::Other(e))) => Err(
            joined(
                "writing frame for track ",
                name.as_str(),
                joined(" failed: ", e.as_str(), "").as_str(),
            ),
        ),
    };
    (TrackResource { live: Some(Live { producer, rendition, broadcast }), name, container }, reply)
}

impl<B, P, V, A> TrackResource<B, P, V, A> {
    /// What taking a track down comes to: its frames go out, then it leaves its broadcast. `gone`
    /// is what was live of it, to be dropped last. A track that was taken down before is left
    /// alone.
    pub open spec fn taken_down<Finish, Retire>(
        self,
        finish: Finish,
        retire: Retire,
        gone: Option<Live<B, P, V, A>>,
    ) -> bool where Finish: FnOnce(B, P) -> (B, P), Retire: FnOnce(B, String) -> B {
        match self.live {
            None => gone is None,
            Some(live) => exists|mid: B, p: P, b: B|
                {
                    &&& #[trigger] call_ensures(finish, (live.broadcast, live.producer), (mid, p))
                    &&& #[trigger] call_ensures(retire, (mid, self.name), b)
                    &&& gone == Some(Live { producer: p, broadcast: b, ..live })
                },
        }
    }

    /// Sends out the frames that the track still holds, and takes it out of its broadcast; its
    /// entry leaves the catalog with what is handed back.
    pub fn teardown<Finish, Retire>(self, finish: Finish, retire: Retire) -> (r: (
        Self,
        Option<Live<B, P, V, A>>,
    )) where Finish: FnOnce(B, P) -> (B, P), Retire: FnOnce(B, String) -> B
        requires
            forall|b: B, p: P| call_requires(finish, (b, p)),
            forall|b: B| call_requires(retire, (b, self.name)),
        ensures
            r.0 == (TrackResource { live: None, ..self }),
            self.taken_down(finish, retire, r.1),
    {
        let TrackResource { live, name, container } = self;
        let gone = match live {
            None => None,
            Some(Live { producer, rendition, broadcast }) => {
                let (mid, producer) = finish(broadcast, producer);
                let broadcast = retire(mid, name.clone());
                Some(Live { producer, rendition, broadcast })
            },
        };
        (TrackResource { live: None, name, container }, gone)
    }
}

/// Takes a track down, and answers `ok`, whether it was live or not.
pub fn remove_track<B, P, V, A, Finish, Retire>(
    track: TrackResource<B, P, V, A>,
    finish: Finish,
    retire: Retire,
) -> (r: (TrackResource<B, P, V, A>, Option<Live<B, P, V, A>>, Atom)) where
    Finish: FnOnce(B, P) -> (B, P),
    Retire: FnOnce(B, String) -> B,

    requires
        forall|b: B, p: P| call_requires(finish, (b, p)),
        forall|b: B| call_requires(retire, (b, track.name)),
    ensures
        r.2 == Atom::Done,
        r.0 == (TrackResource { live: None, ..track }),
        track.taken_down(finish, retire, r.1),
{
    let (track, gone) = track.teardown(finish, retire);
    (track, gone, Atom::Done)
}

/// A track that was taken down is taken down once: doing it again touches nothing.
pub proof fn law_teardown_happens_once<B, P, V, A, Finish, Retire>(
    track: TrackResource<B, P, V, A>,
    finish: Finish,
    retire: Retire,
    gone: Option<Live<B, P, V, A>>,
) where Finish: FnOnce(B, P) -> (B, P), Retire: FnOnce(B, String) -> B
    requires
        (TrackResource { live: None, ..track }).taken_down(finish, retire, gone),
    ensures
        gone is None,
{
}

} // verus!
