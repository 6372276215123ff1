//! Tracks that are held as resources.

use vstd::prelude::*;

use crate::broadcast_producer::{announced, Rendition, WriteFault};
use crate::frame::{Frame, Timestamp};
use crate::laws::publishing::{is_advertised, is_readvertised, is_wire};
use crate::reply::Atom;
use crate::text::debug_text;
use crate::track::{self, kept, pruned, Broadcast, Live, TrackResource};
use crate::track_format::{AudioConfig, Container, TrackFormat, VideoConfig, WireContainer};

verus! {

/// Whether `left` holds, in order, the handles that were found alive, and no others: `found` says
/// what each was found, and `at` where each of those left stood.
pub open spec fn keeps_the_living<K, Alive>(
    handles: Seq<K>,
    left: Seq<K>,
    alive: Alive,
    found: Seq<bool>,
    at: Seq<int>,
) -> bool where Alive: Fn(&K) -> bool {
    &&& found.len() == handles.len()
    &&& forall|i: int|
        0 <= i < handles.len() ==> call_ensures(alive, (&handles[i],), #[trigger] found[i])
    &&& at.len() == left.len()
    &&& forall|j: int|
        0 <= j < at.len() ==> 0 <= #[trigger] at[j] < handles.len() && found[at[j]] && left[j]
            == handles[at[j]]
    &&& forall|j: int, k: int| 0 <= j < k < at.len() ==> #[trigger] at[j] < #[trigger] at[k]
    &&& forall|i: int|
        0 <= i < handles.len() && #[trigger] found[i] ==> exists|j: int|
            0 <= j < at.len() && #[trigger] at[j] == i
}

proof fn lemma_kept_positions<K>(handles: Seq<K>, flags: Seq<bool>) -> (at: Seq<int>)
    requires
        flags.len() >= handles.len(),
    ensures
        at.len() == kept(handles, flags).len(),
        forall|j: int|
            0 <= j < at.len() ==> 0 <= #[trigger] at[j] < handles.len() && flags[at[j]] && kept(
                handles,
                flags,
            )[j] == handles[at[j]],
        forall|j: int, k: int| 0 <= j < k < at.len() ==> #[trigger] at[j] < #[trigger] at[k],
        forall|i: int|
            0 <= i < handles.len() && #[trigger] flags[i] ==> exists|j: int|
                0 <= j < at.len() && #[trigger] at[j] == i,
    decreases handles.len(),
{
    if handles.len() == 0 {
        Seq::empty()
    } else {
        let last = handles.len() - 1;
        let some = lemma_kept_positions(handles.drop_last(), flags);
        if flags[last] {
            let at = some.push(last);
            assert forall|i: int| 0 <= i < handles.len() && #[trigger] flags[i] implies exists|j:
                int| 0 <= j < at.len() && #[trigger] at[j] == i by {
                if i == last {
                    assert(at[some.len() as int] == i);
                } else {
                    let j = choose|j: int| 0 <= j < some.len() && #[trigger] some[j] == i;
                    assert(at[j] == i);
                }
            }
            at
        } else {
            some
        }
    }
}

proof fn lemma_pruned_keeps_the_living<K, Alive>(before: Seq<K>, after: Seq<K>, alive: Alive) where
    Alive: Fn(&K) -> bool,

    requires
        pruned(before, after, alive),
    ensures
        exists|found: Seq<bool>, at: Seq<int>| #[trigger]
            keeps_the_living(before, after, alive, found, at),
{
    let flags = choose|flags: Seq<bool>|
        {
            &&& flags.len() == before.len()
            &&& forall|i: int|
                0 <= i < before.len() ==> call_ensures(alive, (&before[i],), #[trigger] flags[i])
            &&& after == #[trigger] kept(before, flags)
        };
    let at = lemma_kept_positions(before, flags);
    assert(keeps_the_living(before, after, alive, flags, at));
}

/// Pruning keeps the handles that something holds, in order, and no others.
pub proof fn law_pruning_keeps_the_living<K, Alive>(handles: Vec<K>, alive: Alive, r: Vec<K>) where
    Alive: Fn(&K) -> bool,

    requires
        call_ensures(track::prune::<K, Alive>, (handles, alive), r),
    ensures
        exists|found: Seq<bool>, at: Seq<int>| #[trigger]
            keeps_the_living(handles@, r@, alive, found, at),
{
    lemma_pruned_keeps_the_living(handles@, r@, alive);
}

/// A resource is made of a track that was created with the name and the priority asked for,
/// advertised under the name that it stands under, and opened in the container and with the
/// latency asked for; every fault leaves the handles of the broadcast as they were.
pub proof fn law_resource_is_added<
    B: Clone,
    C,
    K,
    T,
    P,
    V,
    A,
    Create,
    Media,
    Video,
    Audio,
    Alive,
>(
    inner: Option<Broadcast<B, C, K>>,
    name: String,
    format: TrackFormat,
    priority: u8,
    container: Container,
    latency_ns: u64,
    create: Create,
    video: Video,
    audio: Audio,
    media: Media,
    alive: Alive,
    r: (Option<Broadcast<B, C, K>>, Result<TrackResource<B, P, V, A>, String>),
) where
    Create: FnOnce(B, String, u8) -> (B, Result<(T, String), String>),
    Media: FnOnce(C, T, WireContainer, u64) -> (C, Result<(P, K), String>),
    Video: FnOnce(C, String, VideoConfig) -> (C, V),
    Audio: FnOnce(C, String, AudioConfig) -> (C, A),
    Alive: Fn(&K) -> bool,

    requires
        call_ensures(
            track::add_track::<B, C, K, T, P, V, A, Create, Media, Video, Audio, Alive>,
            (
                inner,
                name,
                format,
                priority,
                container,
                latency_ns,
                create,
                video,
                audio,
                media,
                alive,
            ),
            r,
        ),
    ensures
        inner is None ==> r.0 is None && (r.1 matches Err(e) && e@
            == "broadcast producer poisoned by panic in an earlier NIF call"@),
        inner matches Some(inner) ==> (r.0 matches Some(after) && exists|
            made: B,
            t: Result<(T, String), String>,
        |
            {
                &&& #[trigger] call_ensures(create, (inner.broadcast, name, priority), (made, t))
                &&& after.broadcast == made
                &&& r.1 is Err ==> after.tracks@ == inner.tracks@
                &&& t matches Err(e) ==> after.catalog == inner.catalog && (r.1 matches Err(text)
                    && text@ == "create_track failed: "@ + e@)
                &&& t matches Ok((t, standing)) ==> exists|
                    listed: C,
                    rendition: Rendition<V, A>,
                    wire: WireContainer,
                    catalog: C,
                    opened: Result<(P, K), String>,
                |
                    {
                        &&& #[trigger] is_advertised(
                            inner.catalog,
                            listed,
                            rendition,
                            standing,
                            format,
                            container,
                            video,
                            audio,
                        )
                        &&& #[trigger] call_ensures(
                            media,
                            (listed, t, wire, latency_ns),
                            (catalog, opened),
                        )
                        &&& is_wire(wire, container)
                        &&& after.catalog == catalog
                        &&& opened matches Err(e) ==> (r.1 matches Err(text) && text@
                            == "media_producer failed: "@ + e@)
                        &&& opened matches Ok((producer, weak)) ==> (r.1 matches Ok(resource) && {
                            &&& resource.name == standing
                            &&& resource.container == container
                            &&& resource.live matches Some(live)
                            &&& live.producer == producer
                            &&& live.rendition == rendition
                            &&& cloned(made, live.broadcast)
                            &&& after.tracks@.len() > 0
                            &&& after.tracks@.last() == weak
                            &&& exists|found: Seq<bool>, at: Seq<int>| #[trigger]
                                keeps_the_living(
                                    inner.tracks@,
                                    after.tracks@.drop_last(),
                                    alive,
                                    found,
                                    at,
                                )
                        })
                    }
            }),
{
    if let Some(inner) = inner {
        let after = r.0->0;
        let (made, t) = choose|made: B, t: Result<(T, String), String>|
            {
                &&& #[trigger] call_ensures(create, (inner.broadcast, name, priority), (made, t))
                &&& r.0 matches Some(after)
                &&& after.broadcast == made
                &&& match t {
                    Err(e) => {
                        &&& after.catalog == inner.catalog
                        &&& after.tracks@ == inner.tracks@
                        &&& r.1 matches Err(text)
                        &&& text@ == "create_track failed: "@ + e@
                    },
                    Ok((t, standing)) => exists|
                        listed: C,
                        rendition: Rendition<V, A>,
                        catalog: C,
                        opened: Result<(P, K), String>,
                    |
                        {
                            &&& #[trigger] announced(
                                inner.catalog,
                                listed,
                                rendition,
                                standing,
                                format.entry(container.as_catalog()),
                                video,
                                audio,
                            )
                            &&& #[trigger] call_ensures(
                                media,
                                (listed, t, container.on_wire(), latency_ns),
                                (catalog, opened),
                            )
                            &&& after.catalog == catalog
                            &&& match opened {
                                Err(e) => {
                                    &&& after.tracks@ == inner.tracks@
                                    &&& r.1 matches Err(text)
                                    &&& text@ == "media_producer failed: "@ + e@
                                },
                                Ok((producer, weak)) => exists|left: Seq<K>|
                                    {
                                        &&& #[trigger] pruned(inner.tracks@, left, alive)
                                        &&& after.tracks@ == left.push(weak)
                                        &&& r.1 matches Ok(resource)
                                        &&& resource.name == standing
                                        &&& resource.container == container
                                        &&& resource.live matches Some(live)
                                        &&& live.producer == producer
                                        &&& live.rendition == rendition
                                        &&& cloned(made, live.broadcast)
                                    },
                            }
                        },
                }
            };
        assert(call_ensures(create, (inner.broadcast, name, priority), (made, t)));
        if let Ok((t, standing)) = t {
            let (listed, rendition, catalog, opened) = choose|
                listed: C,
                rendition: Rendition<V, A>,
                catalog: C,
                opened: Result<(P, K), String>,
            |
                {
                    &&& #[trigger] announced(
                        inner.catalog,
                        listed,
                        rendition,
                        standing,
                        format.entry(container.as_catalog()),
                        video,
                        audio,
                    )
                    &&& #[trigger] call_ensures(
                        media,
                        (listed, t, container.on_wire(), latency_ns),
                        (catalog, opened),
                    )
                    &&& after.catalog == catalog
                    &&& match opened {
                        Err(e) => {
                            &&& after.tracks@ == inner.tracks@
                            &&& r.1 matches Err(text)
                            &&& text@ == "media_producer failed: "@ + e@
                        },
                        Ok((producer, weak)) => exists|left: Seq<K>|
                            {
                                &&& #[trigger] pruned(inner.tracks@, left, alive)
                                &&& after.tracks@ == left.push(weak)
                                &&& r.1 matches Ok(resource)
                                &&& resource.name == standing
                                &&& resource.container == container
                                &&& resource.live matches Some(live)
                                &&& live.producer == producer
                                &&& live.rendition == rendition
                                &&& cloned(made, live.broadcast)
                            },
                    }
                };
            assert(is_advertised(
                inner.catalog,
                listed,
                rendition,
                standing,
                format,
                container,
                video,
                audio,
            ));
            if let Ok((producer, weak)) = opened {
                let left = choose|left: Seq<K>|
                    {
                        &&& #[trigger] pruned(inner.tracks@, left, alive)
                        &&& after.tracks@ == left.push(weak)
                    };
                assert(after.tracks@.drop_last() =~= left);
                lemma_pruned_keeps_the_living(inner.tracks@, left, alive);
            }
            assert(call_ensures(
                media,
                (listed, t, container.on_wire(), latency_ns),
                (catalog, opened),
            ));
        }
    }
}

/// An update replaces the entry of a live track by one that says what the new format says in the
/// container that the track has; every fault leaves the track as it was.
pub proof fn law_resource_is_updated<B, P, V, A, Video, Audio>(
    track: TrackResource<B, P, V, A>,
    poisoned: bool,
    format: TrackFormat,
    video: Video,
    audio: Audio,
    r: (TrackResource<B, P, V, A>, Result<Atom, String>),
) where
    Video: FnOnce(V, VideoConfig) -> V,
    Audio: FnOnce(A, AudioConfig) -> A,

    requires
        call_ensures(
            track::update_track::<B, P, V, A, Video, Audio>,
            (track, poisoned, format, video, audio),
            r,
        ),
    ensures
        r.0.name == track.name,
        r.0.container == track.container,
        r.1 matches Err(e) ==> r.0 == track && match track.live {
            _ if poisoned => e@ == "track poisoned by panic in an earlier NIF call"@,
            None => e@ == "track "@ + debug_text(track.name@)
                + " was removed; a stale resource cannot update the catalog"@,
            Some(live) => (live.rendition is Video <==> format is Audio) && e@ == "track "@
                + debug_text(track.name@) + ": cannot change a track's media kind in place"@,
        },
        r.1 matches Ok(atom) ==> {
            &&& atom is Done
            &&& !poisoned
            &&& track.live matches Some(live)
            &&& r.0.live matches Some(next)
            &&& next.producer == live.producer
            &&& next.broadcast == live.broadcast
            &&& is_readvertised(
                live.rendition,
                next.rendition,
                format,
                track.container,
                video,
                audio,
            )
        },
{
}

/// A frame is written once, to the live track, with the time, the payload and the keyframe flag
/// that it was sent with, and answered as the write was; else nothing is written.
pub proof fn law_frame_is_written_to_the_resource<B, P, V, A, Write>(
    track: TrackResource<B, P, V, A>,
    poisoned: bool,
    timestamp_ns: u64,
    keyframe: bool,
    data: Vec<u8>,
    write: Write,
    r: (TrackResource<B, P, V, A>, Result<Atom, String>),
) where Write: FnOnce(P, Frame) -> (P, Option<Result<(), WriteFault>>)
    requires
        call_ensures(
            track::send_frame::<B, P, V, A, Write>,
            (track, poisoned, timestamp_ns, keyframe, data, write),
            r,
        ),
    ensures
        r.0.name == track.name,
        r.0.container == track.container,
        timestamp_ns >= 0x4000_0000_0000_0000 || poisoned || track.live is None ==> r.0 == track
            && (r.1 matches Err(e) && e@ == (if timestamp_ns >= 0x4000_0000_0000_0000 {
            "timestamp conversion failed: "@ + "time overflow"@
        } else if poisoned {
            "track resource poisoned by panic in an earlier NIF call"@
        } else {
            "track "@ + debug_text(track.name@) + " was removed"@
        })),
        timestamp_ns < 0x4000_0000_0000_0000 && !poisoned ==> (track.live matches Some(live)
            ==> exists|frame: Frame, after: P, result: Option<Result<(), WriteFault>>|
            {
                &&& #[trigger] call_ensures(write, (live.producer, frame), (after, result))
                &&& frame.payload == data
                &&& frame.keyframe == keyframe
                &&& forall|n: u64| #[trigger]
                    call_ensures(Timestamp::ticks, (&frame.timestamp,), n) ==> n == timestamp_ns
                &&& forall|n: u64| #[trigger]
                    call_ensures(Timestamp::scale, (&frame.timestamp,), n) ==> n == 1_000_000_000
                &&& r.0.live matches Some(next)
                &&& next.producer == after
                &&& next.rendition == live.rendition
                &&& next.broadcast == live.broadcast
                &&& result is None ==> (r.1 matches Err(e) && e@
                    == "track producer poisoned by panic in an earlier nif call"@)
                &&& (result matches Some(Ok(_))) <==> (r.1 matches Ok(Atom::Done))
                &&& (result matches Some(Err(WriteFault::MissingKeyframe))) <==> (r.1 matches Ok(
                    Atom::MoqMissingKeyframe,
                ))
                &&& result matches Some(Err(WriteFault::Other(reason))) ==> (r.1 matches Err(e)
                    && e@ == "writing frame for track "@ + track.name@ + " failed: "@ + reason@)
            }),
{
    reveal_strlit("");
    if timestamp_ns < 0x4000_0000_0000_0000 && !poisoned {
        if let Some(live) = track.live {
            let (frame, after, result) = choose|
                frame: Frame,
                after: P,
                result: Option<Result<(), WriteFault>>,
            |
                {
                    &&& #[trigger] call_ensures(write, (live.producer, frame), (after, result))
                    &&& frame.timestamp.spec_ticks() == timestamp_ns
                    &&& frame.timestamp.spec_scale() == 1_000_000_000
                    &&& frame.payload == data
                    &&& frame.keyframe == keyframe
                    &&& r.0.live == Some(Live { producer: after, ..live })
                    &&& match result {
                        None => r.1 matches Err(e) && e@
                            == "track producer poisoned by panic in an earlier nif call"@,
                        Some(Ok(())) => r.1 == Ok::<Atom, String>(Atom::Done),
                        Some(Err(WriteFault::MissingKeyframe)) => r.1 == Ok::<Atom, String>(
                            Atom::MoqMissingKeyframe,
                        ),
                        Some(Err(WriteFault::Other(reason))) => r.1 matches Err(e) && e@
                            == "writing frame for track "@ + track.name@ + (" failed: "@ + reason@
                            + ""@),
                    }
                };
            if let Some(Err(WriteFault::Other(reason))) = result {
                assert("writing frame for track "@ + track.name@ + (" failed: "@ + reason@ + ""@)
                    =~= "writing frame for track "@ + track.name@ + " failed: "@ + reason@);
            }
            assert(call_ensures(write, (live.producer, frame), (after, result)));
        }
    }
}

/// Whether taking a track down had the given outcome: a live one is finished, then retired from
/// its own broadcast by its own name, and handed back; one that is not live is left alone.
pub open spec fn takes_down<B, P, V, A, Finish, Retire>(
    before: TrackResource<B, P, V, A>,
    finish: Finish,
    retire: Retire,
    after: TrackResource<B, P, V, A>,
    gone: Option<Live<B, P, V, A>>,
) -> bool where Finish: FnOnce(B, P) -> (B, P), Retire: FnOnce(B, String) -> B {
    &&& after.live is None
    &&& after.name == before.name
    &&& after.container == before.container
    &&& before.live is None ==> gone is None
    &&& before.live matches Some(live) ==> {
        &&& gone matches Some(gone)
        &&& gone.rendition == live.rendition
        &&& exists|mid: B, p: P|
            {
                &&& #[trigger] call_ensures(finish, (live.broadcast, live.producer), (mid, p))
                &&& gone.producer == p
                &&& call_ensures(retire, (mid, before.name), gone.broadcast)
            }
    }
}

/// A track is taken down once: finished, then retired.
pub proof fn law_resource_is_taken_down<B, P, V, A, Finish, Retire>(
    before: TrackResource<B, P, V, A>,
    finish: Finish,
    retire: Retire,
    torn: (TrackResource<B, P, V, A>, Option<Live<B, P, V, A>>),
    removed: (TrackResource<B, P, V, A>, Option<Live<B, P, V, A>>, Atom),
) where Finish: FnOnce(B, P) -> (B, P), Retire: FnOnce(B, String) -> B
    requires
        call_ensures(
            TrackResource::<B, P, V, A>::teardown::<Finish, Retire>,
            (before, finish, retire),
            torn,
        ),
        call_ensures(
            track::remove_track::<B, P, V, A, Finish, Retire>,
            (before, finish, retire),
            removed,
        ),
    ensures
        takes_down(before, finish, retire, torn.0, torn.1),
        takes_down(before, finish, retire, removed.0, removed.1),
        removed.2 is Done,
{
}

} // verus!
