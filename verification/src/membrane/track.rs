//! The tracks of a sink.
//!
//! `T` is the handle of a track of the broadcast, `P` of one that frames can be written to.

use vstd::prelude::*;

use crate::frame::{Frame, Timestamp};
use crate::membrane::broadcast::{BroadcastResource, RenditionsView};
use crate::membrane::track_format::{resolved, TrackFormat};
use crate::reply::Atom;
use crate::stack::TICK_LIMIT;
use crate::table::Table;
use crate::track_format::{AudioConfig, EntryView, TrackKind, VideoConfig};

verus! {

/// A published track.
pub struct TrackResource<P> {
    pub producer: P,
    pub name: String,
    /// What the names of the tracks that replace this one end with. It is the name of the first
    /// of them.
    pub suffix: String,
    pub kind: TrackKind,
}

/// The kind of a catalog entry.
pub open spec fn entry_kind(entry: EntryView) -> TrackKind {
    match entry {
        EntryView::Video(_) => TrackKind::Video,
        EntryView::Audio(_) => TrackKind::Audio,
    }
}

/// Whether nothing about the broadcast has changed.
pub open spec fn untouched<B, C>(
    before: BroadcastResource<B, C>,
    after: BroadcastResource<B, C>,
) -> bool {
    &&& after.broadcast == before.broadcast
    &&& after.catalog == before.catalog
    &&& after@ == before@
}

/// Whether of the renditions only the two of the given kind and names have changed.
pub open spec fn changed_only<B, C>(
    before: BroadcastResource<B, C>,
    after: BroadcastResource<B, C>,
    kind: TrackKind,
    name: Seq<char>,
    other: Seq<char>,
) -> bool {
    match kind {
        TrackKind::Video => {
            &&& after.videos@.remove(name).remove(other) == before.videos@.remove(name).remove(
                other,
            )
            &&& after.audios == before.audios
        },
        TrackKind::Audio => {
            &&& after.videos == before.videos
            &&& after.audios@.remove(name).remove(other) == before.audios@.remove(name).remove(
                other,
            )
        },
    }
}

/// The priority that a sink publishes its tracks with, and a source subscribes to them with.
pub const TRACK_PRIORITY: u8 = 0;

/// Publishes a track, and advertises it.
///
/// `create` makes a track of the given name and priority in the broadcast and says under which
/// name it stands; `publish` publishes all renditions in the catalog; `open` opens the track for
/// frames.
pub fn add_track<B, C, T, P, Create, Publish, Open>(
    broadcast: BroadcastResource<B, C>,
    track: String,
    format: TrackFormat,
    create: Create,
    publish: Publish,
    open: Open,
) -> (r: (BroadcastResource<B, C>, Result<TrackResource<P>, String>)) where
    Create: FnOnce(B, String, u8) -> (B, Result<(T, String), String>),
    Publish: FnOnce(C, &Table<VideoConfig>, &Table<AudioConfig>) -> C,
    Open: FnOnce(T) -> P,

    requires
        broadcast.wf(),
        forall|b: B| call_requires(create, (b, track, TRACK_PRIORITY)),
        forall|c: C, videos: &Table<VideoConfig>, audios: &Table<AudioConfig>|
            call_requires(publish, (c, videos, audios)),
        forall|t: T| call_requires(open, (t,)),
    ensures
        r.0.wf(),
        r.1 is Err ==> r.0.videos == broadcast.videos && r.0.audios == broadcast.audios,
        r.1 matches Ok(resource) ==> changed_only(
            broadcast,
            r.0,
            resource.kind,
            resource.name@,
            resource.name@,
        ),
        match resolved(format@) {
            Err(reason) => untouched(broadcast, r.0) && (r.1 matches Err(e) && e@ == reason),
            Ok(entry) => exists|after: B, created: Result<(T, String), String>|
                {
                    &&& #[trigger] call_ensures(
                        create,
                        (broadcast.broadcast, track, TRACK_PRIORITY),
                        (after, created),
                    )
                    &&& r.0.broadcast == after
                    &&& match created {
                        Err(reason) => {
                            &&& r.0.catalog == broadcast.catalog
                            &&& r.0@ == broadcast@
                            &&& r.1 matches Err(e)
                            &&& e@ == "create_track failed: "@ + reason@
                        },
                        Ok((t, name)) => {
                            &&& r.0@ == broadcast@.with(name@, entry)
                            &&& call_ensures(
                                publish,
                                (broadcast.catalog, &r.0.videos, &r.0.audios),
                                r.0.catalog,
                            )
                            &&& r.1 matches Ok(resource)
                            &&& call_ensures(open, (t,), resource.producer)
                            &&& resource.name == name
                            &&& resource.suffix == name
                            &&& resource.kind == entry_kind(entry)
                        },
                    }
                },
        },
{
    let config = match format.resolve() {
        Ok(config) => config,
        Err(e) => return (broadcast, Err(e)),
    };
    let BroadcastResource { broadcast, catalog, videos, audios } = broadcast;
    let (broadcast, created) = create(broadcast, track, TRACK_PRIORITY);
    let mut broadcast = BroadcastResource { broadcast, catalog, videos, audios };
    let (t, name) = match created {
        Ok(created) => created,
        Err(e) => {
            return (broadcast, Err("create_track failed: ".to_owned().concat(e.as_str())));
        },
    };
    let kind = config.kind();
    let ghost before = broadcast;
    broadcast.put(name.clone(), config);
    let broadcast = broadcast.publish(publish);
    assert(changed_only(before, broadcast, kind, name@, name@)) by {
        assert(broadcast.videos@.remove(name@) =~= before.videos@.remove(name@));
        assert(broadcast.audios@.remove(name@) =~= before.audios@.remove(name@));
    }
    let producer = open(t);
    (broadcast, Ok(TrackResource { producer, suffix: name.clone(), name, kind }))
}

/// Whether a new track stands in the catalog for an old one of its kind, and keeps the suffix.
pub open spec fn succeeds<P>(
    before: RenditionsView,
    old_track: TrackResource<P>,
    after: RenditionsView,
    new_track: TrackResource<P>,
) -> bool {
    &&& new_track.suffix == old_track.suffix
    &&& new_track.kind == old_track.kind
    &&& exists|entry: EntryView|
        {
            &&& entry_kind(entry) == old_track.kind
            &&& after == #[trigger] before.without(old_track.name@, old_track.kind).with(
                new_track.name@,
                entry,
            )
        }
}

/// Replaces a track by one with a new format, published as a track of its own.
///
/// All frames that follow go to the new resource. `unique` makes a track in the broadcast whose
/// name is not in use and ends with the given suffix; `publish` publishes all renditions in the
/// catalog; `finish`, given the catalog too, sends out what the old track still holds; `open` opens
/// the new one for frames. The old resource is handed back.
pub fn replace_track<B, C, T, P, Unique, Publish, Finish, Open>(
    broadcast: BroadcastResource<B, C>,
    old_track: TrackResource<P>,
    format: TrackFormat,
    unique: Unique,
    publish: Publish,
    finish: Finish,
    open: Open,
) -> (r: (
    BroadcastResource<B, C>,
    TrackResource<P>,
    Result<(TrackResource<P>, String), String>,
)) where
    Unique: FnOnce(B, String) -> (B, Result<(T, String), String>),
    Publish: FnOnce(C, &Table<VideoConfig>, &Table<AudioConfig>) -> C,
    Finish: FnOnce(C, P) -> (C, P),
    Open: FnOnce(T) -> P,

    requires
        broadcast.wf(),
        forall|b: B| call_requires(unique, (b, old_track.suffix)),
        forall|c: C, videos: &Table<VideoConfig>, audios: &Table<AudioConfig>|
            call_requires(publish, (c, videos, audios)),
        forall|c: C, p: P| call_requires(finish, (c, p)),
        forall|t: T| call_requires(open, (t,)),
    ensures
        r.0.wf(),
        r.2 matches Ok((resource, _)) ==> succeeds(broadcast@, old_track, r.0@, resource),
        r.2 is Err ==> r.0.videos == broadcast.videos && r.0.audios == broadcast.audios,
        r.2 matches Ok((resource, _)) ==> changed_only(
            broadcast,
            r.0,
            resource.kind,
            resource.name@,
            old_track.name@,
        ),
        match resolved(format@) {
            Err(reason) => untouched(broadcast, r.0) && r.1 == old_track && (r.2 matches Err(e)
                && e@ == reason),
            Ok(entry) => if entry_kind(entry) != old_track.kind {
                &&& untouched(broadcast, r.0)
                &&& r.1 == old_track
                &&& r.2 matches Err(e)
                &&& e@ == "cannot change a track's media kind in place"@
            } else {
                exists|after: B, created: Result<(T, String), String>|
                    {
                        &&& #[trigger] call_ensures(
                            unique,
                            (broadcast.broadcast, old_track.suffix),
                            (after, created),
                        )
                        &&& r.0.broadcast == after
                        &&& match created {
                            Err(reason) => {
                                &&& r.0.catalog == broadcast.catalog
                                &&& r.0@ == broadcast@
                                &&& r.1 == old_track
                                &&& r.2 matches Err(e)
                                &&& e@ == "unique_track failed: "@ + reason@
                            },
                            Ok((t, name)) => {
                                &&& r.0@ == broadcast@.without(
                                    old_track.name@,
                                    old_track.kind,
                                ).with(name@, entry)
                                &&& exists|mid: C, c: C, p: P|
                                    {
                                        &&& call_ensures(
                                            publish,
                                            (broadcast.catalog, &r.0.videos, &r.0.audios),
                                            mid,
                                        )
                                        &&& #[trigger] call_ensures(
                                            finish,
                                            (mid, old_track.producer),
                                            (c, p),
                                        )
                                        &&& r.0.catalog == c
                                        &&& r.1 == (TrackResource { producer: p, ..old_track })
                                    }
                                &&& r.2 matches Ok((resource, new_name))
                                &&& new_name == name
                                &&& call_ensures(open, (t,), resource.producer)
                                &&& resource.name == name
                                &&& resource.suffix == old_track.suffix
                                &&& resource.kind == old_track.kind
                            },
                        }
                    }
            },
        },
{
    let config = match format.resolve() {
        Ok(config) => config,
        Err(e) => return (broadcast, old_track, Err(e)),
    };
    let kind = config.kind();
    if kind != old_track.kind {
        return (
            broadcast,
            old_track,
            Err("cannot change a track's media kind in place".to_owned()),
        );
    }
    let ghost start = broadcast@;
    let ghost first = old_track;
    let ghost entry = config@;
    let suffix = old_track.suffix.clone();
    let BroadcastResource { broadcast, catalog, videos, audios } = broadcast;
    let (broadcast, created) = unique(broadcast, suffix.clone());
    let mut broadcast = BroadcastResource { broadcast, catalog, videos, audios };
    let (t, name) = match created {
        Ok(created) => created,
        Err(e) => {
            return (
                broadcast,
                old_track,
                Err("unique_track failed: ".to_owned().concat(e.as_str())),
            );
        },
    };
    let ghost before = broadcast;
    broadcast.take(&old_track.name, kind);
    broadcast.put(name.clone(), config);
    let broadcast = broadcast.publish(publish);
    assert(changed_only(before, broadcast, kind, name@, old_track.name@)) by {
        let other = old_track.name@;
        assert(broadcast.videos@.remove(name@).remove(other) =~= before.videos@.remove(
            name@,
        ).remove(other));
        assert(broadcast.audios@.remove(name@).remove(other) =~= before.audios@.remove(
            name@,
        ).remove(other));
    }
    let TrackResource { producer, name: old_name, suffix: old_suffix, kind: old_kind } = old_track;
    let BroadcastResource { broadcast, catalog, videos, audios } = broadcast;
    let (catalog, producer) = finish(catalog, producer);
    let broadcast = BroadcastResource { broadcast, catalog, videos, audios };
    let old_track = TrackResource {
        producer,
        name: old_name,
        suffix: old_suffix,
        kind: old_kind,
    };
    let producer = open(t);
    let new_track = TrackResource { producer, name: name.clone(), suffix, kind };
    assert(broadcast@ == start.without(first.name@, first.kind).with(new_track.name@, entry));
    (broadcast, old_track, Ok((new_track, name)))
}

/// Writes a frame to a track; its time is in microseconds.
pub fn send_frame<P, Write>(
    track: TrackResource<P>,
    timestamp_us: u64,
    keyframe: bool,
    data: Vec<u8>,
    write: Write,
) -> (r: (TrackResource<P>, Result<Atom, String>)) where
    Write: FnOnce(P, Frame) -> (P, Result<(), String>),

    requires
        forall|p: P, frame: Frame| call_requires(write, (p, frame)),
    ensures
        timestamp_us >= TICK_LIMIT ==> r.0 == track && (r.1 matches Err(e) && e@
            == "timestamp conversion failed: "@ + "time overflow"@),
        timestamp_us < TICK_LIMIT ==> exists|frame: Frame, after: P, result: Result<(), String>|
            {
                &&& #[trigger] call_ensures(write, (track.producer, frame), (after, result))
                &&& frame.timestamp.spec_ticks() == timestamp_us
                &&& frame.timestamp.spec_scale() == 1_000_000
                &&& frame.payload == data
                &&& frame.keyframe == keyframe
                &&& r.0 == (TrackResource { producer: after, ..track })
                &&& match result {
                    Ok(()) => r.1 == Ok::<Atom, String>(Atom::Done),
                    Err(reason) => r.1 matches Err(e) && e@ == "writing frame failed: "@ + reason@,
                }
            },
{
    let timestamp = match Timestamp::from_micros(timestamp_us) {
        Ok(timestamp) => timestamp,
        Err(e) => {
            return (track, Err("timestamp conversion failed: ".to_owned().concat(e.as_str())));
        },
    };
    let TrackResource { producer, name, suffix, kind } = track;
    let (producer, result) = write(producer, Frame { timestamp, payload: data, keyframe });
    let answer = match result {
        Ok(()) => Ok(Atom::Done),
        Err(e) => Err("writing frame failed: ".to_owned().concat(e.as_str())),
    };
    (TrackResource { producer, name, suffix, kind }, answer)
}

/// Sends out what a track still holds, then takes it out of the catalog. `finish` is given the
/// catalog too, and hands it on.
pub fn remove_track<B, C, P, Finish, Publish>(
    broadcast: BroadcastResource<B, C>,
    track: TrackResource<P>,
    finish: Finish,
    publish: Publish,
) -> (r: (BroadcastResource<B, C>, TrackResource<P>, Atom)) where
    Finish: FnOnce(C, P) -> (C, P),
    Publish: FnOnce(C, &Table<VideoConfig>, &Table<AudioConfig>) -> C,

    requires
        broadcast.wf(),
        forall|c: C, p: P| call_requires(finish, (c, p)),
        forall|c: C, videos: &Table<VideoConfig>, audios: &Table<AudioConfig>|
            call_requires(publish, (c, videos, audios)),
    ensures
        r.0.wf(),
        r.0.broadcast == broadcast.broadcast,
        r.0@ == broadcast@.without(track.name@, track.kind),
        changed_only(broadcast, r.0, track.kind, track.name@, track.name@),
        exists|mid: C, p: P|
            {
                &&& #[trigger] call_ensures(
                    finish,
                    (broadcast.catalog, track.producer),
                    (mid, p),
                )
                &&& call_ensures(publish, (mid, &r.0.videos, &r.0.audios), r.0.catalog)
                &&& r.1 == (TrackResource { producer: p, ..track })
            },
        r.2 == Atom::Done,
{
    let ghost start = broadcast;
    let TrackResource { producer, name, suffix, kind } = track;
    let BroadcastResource { broadcast, catalog, videos, audios } = broadcast;
    let (catalog, producer) = finish(catalog, producer);
    let mut broadcast = BroadcastResource { broadcast, catalog, videos, audios };
    broadcast.take(&name, kind);
    let broadcast = broadcast.publish(publish);
    assert(changed_only(start, broadcast, kind, name@, name@)) by {
        assert(broadcast.videos@.remove(name@) =~= start.videos@.remove(name@));
        assert(broadcast.audios@.remove(name@) =~= start.audios@.remove(name@));
    }
    (broadcast, TrackResource { producer, name, suffix, kind }, Atom::Done)
}

/// Removing a track takes back what adding it did to the catalog, and nothing else.
pub proof fn law_remove_undoes_add(before: RenditionsView, name: Seq<char>, entry: EntryView)
    requires
        match entry {
            EntryView::Video(_) => !before.videos.contains_key(name),
            EntryView::Audio(_) => !before.audios.contains_key(name),
        },
    ensures
        before.with(name, entry).without(name, entry_kind(entry)) == before,
{
    assert(before.with(name, entry).without(name, entry_kind(entry)) =~= before);
}

/// After a replacement the catalog has the new entry, no longer the old one, and every entry of
/// the other kind.
pub proof fn law_replacement_takes_the_place(
    before: RenditionsView,
    old_name: Seq<char>,
    name: Seq<char>,
    entry: EntryView,
)
    ensures
        ({
            let after = before.without(old_name, entry_kind(entry)).with(name, entry);
            &&& match entry {
                EntryView::Video(config) => {
                    &&& after.videos.contains_key(name) && after.videos[name] == config
                    &&& after.videos.contains_key(old_name) <==> old_name == name
                    &&& after.audios == before.audios
                },
                EntryView::Audio(config) => {
                    &&& after.audios.contains_key(name) && after.audios[name] == config
                    &&& after.audios.contains_key(old_name) <==> old_name == name
                    &&& after.videos == before.videos
                },
            }
        }),
{
}

/// Whether the catalog has a track of the given kind and name.
pub open spec fn lists(catalog: RenditionsView, kind: TrackKind, name: Seq<char>) -> bool {
    match kind {
        TrackKind::Video => catalog.videos.contains_key(name),
        TrackKind::Audio => catalog.audios.contains_key(name),
    }
}

/// After any number of replacements, one of the other, the suffix is still that of the first
/// track, which is its name, and of all their names only the last one's is in the catalog.
pub proof fn law_replacements_keep_suffix_and_place<P>(
    tracks: Seq<TrackResource<P>>,
    catalogs: Seq<RenditionsView>,
)
    requires
        tracks.len() > 1,
        catalogs.len() == tracks.len(),
        tracks[0].suffix == tracks[0].name,
        forall|i: int|
            0 <= i < tracks.len() - 1 ==> succeeds(
                catalogs[i],
                #[trigger] tracks[i],
                catalogs[i + 1],
                tracks[i + 1],
            ),
    ensures
        tracks.last().suffix == tracks[0].name,
        tracks.last().kind == tracks[0].kind,
        lists(catalogs.last(), tracks[0].kind, tracks.last().name@),
        forall|i: int|
            0 <= i < tracks.len() ==> (lists(
                catalogs.last(),
                tracks[0].kind,
                (#[trigger] tracks[i]).name@,
            ) <==> tracks[i].name@ == tracks.last().name@),
    decreases tracks.len(),
{
    let n = tracks.len() - 1;
    let kind = tracks[0].kind;
    let last = tracks[n - 1];
    assert(succeeds(catalogs[n - 1], last, catalogs[n], tracks[n]));
    if n > 1 {
        law_replacements_keep_suffix_and_place(tracks.drop_last(), catalogs.drop_last());
        assert(tracks.drop_last().last() == last);
        assert(catalogs.drop_last().last() == catalogs[n - 1]);
    }
    assert forall|i: int| 0 <= i < tracks.len() implies (lists(
        catalogs.last(),
        kind,
        (#[trigger] tracks[i]).name@,
    ) <==> tracks[i].name@ == tracks.last().name@) by {
        if i < n && n > 1 {
            assert(tracks.drop_last()[i] == tracks[i]);
        }
    }
}

} // verus!
