//! Sinks: the broadcast that one publishes, its tracks and its session.

use vstd::prelude::*;

use crate::broadcast_consumer::Closed;
use crate::frame::{Frame, Timestamp};
use crate::laws::answers::fails_with_text;
use crate::laws::formats::{resolves_to, sink_refusal};
use crate::membrane::broadcast::{
    close_broadcast, open_broadcast, BroadcastResource, RenditionsView,
};
use crate::membrane::messages::Message;
use crate::membrane::session::{
    close_session, handle_session_closed, session_over, session_started, setup_session, SessionEnd,
    SessionResource,
};
use crate::membrane::track::{self, TrackResource};
use crate::membrane::track_format::{resolved, TrackFormat};
use crate::reply::{Atom, NifError};
use crate::stack::url_verdict;
use crate::table::Table;
use crate::track_format::{AudioConfig, EntryView, ResolvedConfig, TrackKind, VideoConfig};

verus! {

/// Whether the renditions of a kind are the same by name, but for one name at most.
pub open spec fn same_videos(
    a: Map<Seq<char>, VideoConfig>,
    b: Map<Seq<char>, VideoConfig>,
    but: Option<Seq<char>>,
) -> bool {
    forall|name: Seq<char>|
        #![trigger a.contains_key(name)]
        #![trigger b.contains_key(name)]
        but != Some(name) ==> (a.contains_key(name) <==> b.contains_key(name)) && (
        a.contains_key(name) ==> a[name] == b[name])
}

/// Whether the renditions of a kind are the same by name, but for one name at most.
pub open spec fn same_audios(
    a: Map<Seq<char>, AudioConfig>,
    b: Map<Seq<char>, AudioConfig>,
    but: Option<Seq<char>>,
) -> bool {
    forall|name: Seq<char>|
        #![trigger a.contains_key(name)]
        #![trigger b.contains_key(name)]
        but != Some(name) ==> (a.contains_key(name) <==> b.contains_key(name)) && (
        a.contains_key(name) ==> a[name] == b[name])
}

/// Whether all renditions are the same.
pub open spec fn same_renditions<B, C>(
    a: BroadcastResource<B, C>,
    b: BroadcastResource<B, C>,
) -> bool {
    &&& same_videos(a.videos@, b.videos@, None)
    &&& same_audios(a.audios@, b.audios@, None)
}

proof fn lemma_same_renditions<B, C>(a: BroadcastResource<B, C>, b: BroadcastResource<B, C>)
    requires
        a.videos == b.videos,
        a.audios == b.audios,
    ensures
        same_renditions(a, b),
{
}

proof fn lemma_changed_only<B, C>(
    before: BroadcastResource<B, C>,
    after: BroadcastResource<B, C>,
    kind: TrackKind,
    name: Seq<char>,
    other: Seq<char>,
)
    requires
        track::changed_only(before, after, kind, name, other),
    ensures
        kind is Video ==> same_audios(before.audios@, after.audios@, None),
        kind is Audio ==> same_videos(before.videos@, after.videos@, None),
        kind is Video ==> forall|n: Seq<char>|
            #![trigger after.videos@.contains_key(n)]
            #![trigger before.videos@.contains_key(n)]
            n != name && n != other ==> (before.videos@.contains_key(n)
                <==> after.videos@.contains_key(n)) && (after.videos@.contains_key(n)
                ==> after.videos@[n] == before.videos@[n]),
        kind is Audio ==> forall|n: Seq<char>|
            #![trigger after.audios@.contains_key(n)]
            #![trigger before.audios@.contains_key(n)]
            n != name && n != other ==> (before.audios@.contains_key(n)
                <==> after.audios@.contains_key(n)) && (after.audios@.contains_key(n)
                ==> after.audios@[n] == before.audios@[n]),
{
    assert forall|n: Seq<char>|
        #![trigger after.videos@.contains_key(n)]
        #![trigger before.videos@.contains_key(n)]
        kind is Video && n != name && n != other implies (before.videos@.contains_key(n)
        <==> after.videos@.contains_key(n)) && (after.videos@.contains_key(n)
        ==> after.videos@[n] == before.videos@[n]) by {
        let a = after.videos@.remove(name).remove(other);
        let b = before.videos@.remove(name).remove(other);
        assert(a.contains_key(n) == after.videos@.contains_key(n));
        assert(b.contains_key(n) == before.videos@.contains_key(n));
        assert(a[n] == b[n]);
    }
    assert forall|n: Seq<char>|
        #![trigger after.audios@.contains_key(n)]
        #![trigger before.audios@.contains_key(n)]
        kind is Audio && n != name && n != other implies (before.audios@.contains_key(n)
        <==> after.audios@.contains_key(n)) && (after.audios@.contains_key(n)
        ==> after.audios@[n] == before.audios@[n]) by {
        let a = after.audios@.remove(name).remove(other);
        let b = before.audios@.remove(name).remove(other);
        assert(a.contains_key(n) == after.audios@.contains_key(n));
        assert(b.contains_key(n) == before.audios@.contains_key(n));
        assert(a[n] == b[n]);
    }
}

proof fn lemma_views<B, C>(a: BroadcastResource<B, C>)
    ensures
        forall|name: Seq<char>|
            #![trigger a.videos@.contains_key(name)]
            #![trigger a@.videos.contains_key(name)]
            a@.videos.contains_key(name) <==> a.videos@.contains_key(name),
        forall|name: Seq<char>|
            #![trigger a@.videos[name]]
            #![trigger a.videos@[name]]
            a.videos@.contains_key(name) ==> a@.videos[name] == a.videos@[name]@,
        forall|name: Seq<char>|
            #![trigger a.audios@.contains_key(name)]
            #![trigger a@.audios.contains_key(name)]
            a@.audios.contains_key(name) <==> a.audios@.contains_key(name),
        forall|name: Seq<char>|
            #![trigger a@.audios[name]]
            #![trigger a.audios@[name]]
            a.audios@.contains_key(name) ==> a@.audios[name] == a.audios@[name]@,
{
}

/// Whether the catalog has, under the name, an entry of the format's kind that says what the format
/// says.
pub open spec fn has_entry<B, C>(
    broadcast: BroadcastResource<B, C>,
    name: Seq<char>,
    format: TrackFormat,
) -> bool {
    ||| broadcast.videos@.contains_key(name) && resolves_to(
        format,
        ResolvedConfig::Video(broadcast.videos@[name]),
    )
    ||| broadcast.audios@.contains_key(name) && resolves_to(
        format,
        ResolvedConfig::Audio(broadcast.audios@[name]),
    )
}

/// Whether a format is one of video.
pub open spec fn is_video(format: TrackFormat) -> bool {
    format is H264 || format is H265
}

/// Whether the catalog is the one before with one more entry, which says what the format says.
pub open spec fn gains_entry<B, C>(
    before: BroadcastResource<B, C>,
    after: BroadcastResource<B, C>,
    name: Seq<char>,
    format: TrackFormat,
) -> bool {
    &&& has_entry(after, name, format)
    &&& is_video(format) ==> same_videos(before.videos@, after.videos@, Some(name)) && same_audios(
        before.audios@,
        after.audios@,
        None,
    )
    &&& !is_video(format) ==> same_videos(before.videos@, after.videos@, None) && same_audios(
        before.audios@,
        after.audios@,
        Some(name),
    )
}

proof fn lemma_resolved(format: TrackFormat, entry: EntryView)
    requires
        resolved(format@) == Ok::<EntryView, Seq<char>>(entry),
    ensures
        sink_refusal(format) is None,
        entry is Video <==> is_video(format),
        forall|config: VideoConfig|
            (#[trigger] config@) == entry->Video_0 && entry is Video ==> resolves_to(
                format,
                ResolvedConfig::Video(config),
            ),
        forall|config: AudioConfig|
            (#[trigger] config@) == entry->Audio_0 && entry is Audio ==> resolves_to(
                format,
                ResolvedConfig::Audio(config),
            ),
{
}

proof fn lemma_gains_entry<B, C>(
    before: BroadcastResource<B, C>,
    after: BroadcastResource<B, C>,
    name: Seq<char>,
    format: TrackFormat,
    entry: EntryView,
)
    requires
        resolved(format@) == Ok::<EntryView, Seq<char>>(entry),
        after@ == before@.with(name, entry),
        track::changed_only(before, after, track::entry_kind(entry), name, name),
    ensures
        gains_entry(before, after, name, format),
{
    lemma_changed_only(before, after, track::entry_kind(entry), name, name);
    lemma_views(before);
    lemma_views(after);
    lemma_resolved(format, entry);
    match entry {
        EntryView::Video(config) => {
            assert(after@.videos.contains_key(name));
            assert(after.videos@.contains_key(name));
            assert(after.videos@[name]@ == config);
        },
        EntryView::Audio(config) => {
            assert(after@.audios.contains_key(name));
            assert(after.audios@.contains_key(name));
            assert(after.audios@[name]@ == config);
        },
    }
}

/// A broadcast is opened with a catalog without renditions.
pub proof fn law_sink_starts_empty<B, C, Open>(
    path: &str,
    created: Option<B>,
    open_catalog: Open,
    r: Result<BroadcastResource<B, C>, String>,
) where Open: FnOnce(B) -> (B, Result<C, String>)
    requires
        call_ensures(open_broadcast::<B, C, Open>, (path, created, open_catalog), r),
    ensures
        created is None ==> (r matches Err(e) && e@ == "create_broadcast("@ + path@
            + ") refused"@),
        created matches Some(b) ==> exists|after: B, catalog: Result<C, String>|
            {
                &&& #[trigger] call_ensures(open_catalog, (b,), (after, catalog))
                &&& catalog matches Err(reason) ==> (r matches Err(e) && e@
                    == "CatalogProducer::new failed: "@ + reason@)
                &&& catalog matches Ok(c) ==> (r matches Ok(resource) && {
                    &&& resource.broadcast == after
                    &&& resource.catalog == c
                    &&& forall|name: Seq<char>| !resource.videos@.contains_key(name)
                    &&& forall|name: Seq<char>| !resource.audios@.contains_key(name)
                })
            },
{
    if let Some(b) = created {
        let (after, catalog) = choose|after: B, catalog: Result<C, String>|
            {
                &&& #[trigger] call_ensures(open_catalog, (b,), (after, catalog))
                &&& match catalog {
                    Err(reason) => r matches Err(e) && e@ == "CatalogProducer::new failed: "@
                        + reason@,
                    Ok(catalog) => r matches Ok(resource) && resource.wf() && resource.broadcast
                        == after && resource.catalog == catalog && resource@
                        == RenditionsView::none(),
                }
            };
        if let Ok(resource) = r {
            lemma_views(resource);
        }
        assert(call_ensures(open_catalog, (b,), (after, catalog)));
    }
}

/// A rendition is put into the catalog, as it is, by its kind and its name, and taken out by them;
/// every other one stays.
pub proof fn law_rendition_is_put_and_taken<B, C>(
    name: String,
    config: ResolvedConfig,
    kind: TrackKind,
)
    ensures
        forall|d: &mut BroadcastResource<B, C>| #[trigger]
            call_ensures(BroadcastResource::<B, C>::put, (d, name, config), ()) ==> {
                &&& final(d).broadcast == d.broadcast
                &&& final(d).catalog == d.catalog
                &&& config matches ResolvedConfig::Video(entry) ==> {
                    &&& final(d).videos@ == d.videos@.insert(name@, entry)
                    &&& final(d).audios == d.audios
                }
                &&& config matches ResolvedConfig::Audio(entry) ==> {
                    &&& final(d).videos == d.videos
                    &&& final(d).audios@ == d.audios@.insert(name@, entry)
                }
            },
        forall|d: &mut BroadcastResource<B, C>| #[trigger]
            call_ensures(BroadcastResource::<B, C>::take, (d, &name, kind), ()) ==> {
                &&& final(d).broadcast == d.broadcast
                &&& final(d).catalog == d.catalog
                &&& kind is Video ==> {
                    &&& final(d).videos@ == d.videos@.remove(name@)
                    &&& final(d).audios == d.audios
                }
                &&& kind is Audio ==> {
                    &&& final(d).videos == d.videos
                    &&& final(d).audios@ == d.audios@.remove(name@)
                }
            },
{
}

/// Whether the renditions are those before without the one of a kind and a name.
pub open spec fn without_entry<B, C>(
    before: BroadcastResource<B, C>,
    after: BroadcastResource<B, C>,
    name: Seq<char>,
    kind: TrackKind,
) -> bool {
    &&& kind is Video ==> {
        &&& !after.videos@.contains_key(name)
        &&& same_videos(before.videos@, after.videos@, Some(name))
        &&& same_audios(before.audios@, after.audios@, None)
    }
    &&& kind is Audio ==> {
        &&& !after.audios@.contains_key(name)
        &&& same_videos(before.videos@, after.videos@, None)
        &&& same_audios(before.audios@, after.audios@, Some(name))
    }
}

/// All renditions are published at once, and closing ends the catalog before it cancels the
/// broadcast.
pub proof fn law_sink_is_published_and_closed<B, C, Publish, End, Cancel>(
    before: BroadcastResource<B, C>,
    publish: Publish,
    published: BroadcastResource<B, C>,
    end: End,
    cancel: Cancel,
    closed: (BroadcastResource<B, C>, Atom),
) where
    Publish: FnOnce(C, &Table<VideoConfig>, &Table<AudioConfig>) -> C,
    End: FnOnce(B, C) -> (B, C),
    Cancel: FnOnce(B) -> B,

    requires
        call_ensures(
            BroadcastResource::<B, C>::publish::<Publish>,
            (before, publish),
            published,
        ),
        call_ensures(
            close_broadcast::<B, C, End, Cancel>,
            (before, end, cancel),
            closed,
        ),
    ensures
        call_ensures(
            publish,
            (before.catalog, &before.videos, &before.audios),
            published.catalog,
        ),
        published.broadcast == before.broadcast,
        published.videos == before.videos,
        published.audios == before.audios,
        closed.1 is Done,
        closed.0.videos == before.videos,
        closed.0.audios == before.audios,
        exists|mid: B|
            {
                &&& #[trigger] call_ensures(
                    end,
                    (before.broadcast, before.catalog),
                    (mid, closed.0.catalog),
                )
                &&& call_ensures(cancel, (mid,), closed.0.broadcast)
            },
{
}

/// A track of a sink is created at priority zero, advertised under the name that it stands under
/// with an entry that says what its format says, published and opened; a format that cannot be
/// published, or a track that cannot be created, changes no rendition.
pub proof fn law_sink_track_is_added<B, C, T, P, Create, Publish, Open>(
    before: BroadcastResource<B, C>,
    name: String,
    format: TrackFormat,
    create: Create,
    publish: Publish,
    open: Open,
    r: (BroadcastResource<B, C>, Result<TrackResource<P>, String>),
) where
    Create: FnOnce(B, String, u8) -> (B, Result<(T, String), String>),
    Publish: FnOnce(C, &Table<VideoConfig>, &Table<AudioConfig>) -> C,
    Open: FnOnce(T) -> P,

    requires
        call_ensures(
            track::add_track::<B, C, T, P, Create, Publish, Open>,
            (before, name, format, create, publish, open),
            r,
        ),
    ensures
        r.1 is Err ==> r.0.catalog == before.catalog && same_renditions(before, r.0),
        sink_refusal(format) matches Some(reason) ==> r.0.broadcast == before.broadcast && (
        r.1 matches Err(e) && e@ == reason),
        sink_refusal(format) is None ==> exists|made: B, created: Result<(T, String), String>|
            {
                &&& #[trigger] call_ensures(create, (before.broadcast, name, 0u8), (made, created))
                &&& r.0.broadcast == made
                &&& created matches Err(reason) ==> (r.1 matches Err(e) && e@
                    == "create_track failed: "@ + reason@)
                &&& created matches Ok((t, standing)) ==> (r.1 matches Ok(resource) && {
                    &&& gains_entry(before, r.0, standing@, format)
                    &&& call_ensures(
                        publish,
                        (before.catalog, &r.0.videos, &r.0.audios),
                        r.0.catalog,
                    )
                    &&& call_ensures(open, (t,), resource.producer)
                    &&& resource.name == standing
                    &&& resource.suffix == standing
                    &&& resource.kind is Video <==> is_video(format)
                })
            },
{
    match resolved(format@) {
        Err(_) => {
            lemma_same_renditions(before, r.0);
        },
        Ok(entry) => {
            lemma_resolved(format, entry);
            let (made, created) = choose|made: B, created: Result<(T, String), String>|
                {
                    &&& #[trigger] call_ensures(
                        create,
                        (before.broadcast, name, track::TRACK_PRIORITY),
                        (made, created),
                    )
                    &&& r.0.broadcast == made
                    &&& match created {
                        Err(reason) => {
                            &&& r.0.catalog == before.catalog
                            &&& r.0@ == before@
                            &&& r.1 matches Err(e)
                            &&& e@ == "create_track failed: "@ + reason@
                        },
                        Ok((t, standing)) => {
                            &&& r.0@ == before@.with(standing@, entry)
                            &&& call_ensures(
                                publish,
                                (before.catalog, &r.0.videos, &r.0.audios),
                                r.0.catalog,
                            )
                            &&& r.1 matches Ok(resource)
                            &&& call_ensures(open, (t,), resource.producer)
                            &&& resource.name == standing
                            &&& resource.suffix == standing
                            &&& resource.kind == track::entry_kind(entry)
                        },
                    }
                };
            match created {
                Err(_) => {
                    lemma_same_renditions(before, r.0);
                },
                Ok((t, standing)) => {
                    lemma_gains_entry(before, r.0, standing@, format, entry);
                },
            }
            assert(call_ensures(create, (before.broadcast, name, 0u8), (made, created)));
        },
    }
}

/// A replacement is a new track whose name ends with the suffix of the first: it takes the place of
/// the old one in the catalog, is published, and only then the old one is finished and the new one
/// opened. A format that cannot be published, or of another kind, changes nothing.
pub proof fn law_sink_track_is_replaced<B, C, T, P, Unique, Publish, Finish, Open>(
    before: BroadcastResource<B, C>,
    old_track: TrackResource<P>,
    format: TrackFormat,
    unique: Unique,
    publish: Publish,
    finish: Finish,
    open: Open,
    r: (
        BroadcastResource<B, C>,
        TrackResource<P>,
        Result<(TrackResource<P>, String), String>,
    ),
) where
    Unique: FnOnce(B, String) -> (B, Result<(T, String), String>),
    Publish: FnOnce(C, &Table<VideoConfig>, &Table<AudioConfig>) -> C,
    Finish: FnOnce(C, P) -> (C, P),
    Open: FnOnce(T) -> P,

    requires
        call_ensures(
            track::replace_track::<B, C, T, P, Unique, Publish, Finish, Open>,
            (before, old_track, format, unique, publish, finish, open),
            r,
        ),
    ensures
        r.1.name == old_track.name,
        r.1.suffix == old_track.suffix,
        r.1.kind == old_track.kind,
        r.2 is Err ==> {
            &&& r.0.catalog == before.catalog
            &&& same_renditions(before, r.0)
            &&& r.1 == old_track
        },
        sink_refusal(format) matches Some(reason) ==> r.0.broadcast == before.broadcast && (
        r.2 matches Err(e) && e@ == reason),
        sink_refusal(format) is None && (is_video(format) <==> old_track.kind is Audio)
            ==> r.0.broadcast == before.broadcast && (r.2 matches Err(e) && e@
            == "cannot change a track's media kind in place"@),
        sink_refusal(format) is None && (is_video(format) <==> old_track.kind is Video) ==> exists|
            made: B,
            created: Result<(T, String), String>,
        |
            {
                &&& #[trigger] call_ensures(
                    unique,
                    (before.broadcast, old_track.suffix),
                    (made, created),
                )
                &&& r.0.broadcast == made
                &&& created matches Err(reason) ==> (r.2 matches Err(e) && e@
                    == "unique_track failed: "@ + reason@)
                &&& created matches Ok((t, name)) ==> (r.2 matches Ok((resource, told)) && {
                    &&& told == name
                    &&& resource.name == name
                    &&& resource.suffix == old_track.suffix
                    &&& resource.kind == old_track.kind
                    &&& call_ensures(open, (t,), resource.producer)
                    &&& takes_the_place(before, r.0, old_track.name@, name@, format)
                    &&& exists|mid: C, c: C, p: P|
                        {
                            &&& call_ensures(
                                publish,
                                (before.catalog, &r.0.videos, &r.0.audios),
                                mid,
                            )
                            &&& #[trigger] call_ensures(
                                finish,
                                (mid, old_track.producer),
                                (c, p),
                            )
                            &&& r.0.catalog == c
                            &&& r.1.producer == p
                        }
                })
            },
{
    match resolved(format@) {
        Err(_) => {
            lemma_same_renditions(before, r.0);
        },
        Ok(entry) => {
            lemma_resolved(format, entry);
            if track::entry_kind(entry) != old_track.kind {
                lemma_same_renditions(before, r.0);
            } else {
                let (made, created) = choose|made: B, created: Result<(T, String), String>|
                    {
                        &&& #[trigger] call_ensures(
                            unique,
                            (before.broadcast, old_track.suffix),
                            (made, created),
                        )
                        &&& r.0.broadcast == made
                        &&& match created {
                            Err(reason) => {
                                &&& r.0.catalog == before.catalog
                                &&& r.0@ == before@
                                &&& r.1 == old_track
                                &&& r.2 matches Err(e)
                                &&& e@ == "unique_track failed: "@ + reason@
                            },
                            Ok((t, name)) => {
                                &&& r.0@ == before@.without(
                                    old_track.name@,
                                    old_track.kind,
                                ).with(name@, entry)
                                &&& exists|mid: C, c: C, p: P|
                                    {
                                        &&& call_ensures(
                                            publish,
                                            (before.catalog, &r.0.videos, &r.0.audios),
                                            mid,
                                        )
                                        &&& #[trigger] call_ensures(
                                            finish,
                                            (mid, old_track.producer),
                                            (c, p),
                                        )
                                        &&& r.0.catalog == c
                                        &&& r.1 == (TrackResource { producer: p, ..old_track })
                                    }
                                &&& r.2 matches Ok((resource, new_name))
                                &&& new_name == name
                                &&& call_ensures(open, (t,), resource.producer)
                                &&& resource.name == name
                                &&& resource.suffix == old_track.suffix
                                &&& resource.kind == old_track.kind
                            },
                        }
                    };
                match created {
                    Err(_) => {
                        lemma_same_renditions(before, r.0);
                    },
                    Ok((t, name)) => {
                        lemma_takes_the_place(
                            before,
                            r.0,
                            old_track.name@,
                            name@,
                            format,
                            entry,
                        );
                    },
                }
                assert(call_ensures(
                    unique,
                    (before.broadcast, old_track.suffix),
                    (made, created),
                ));
            }
        },
    }
}

/// Whether an entry that says what the format says took the place of one of its kind.
pub open spec fn takes_the_place<B, C>(
    before: BroadcastResource<B, C>,
    after: BroadcastResource<B, C>,
    old_name: Seq<char>,
    name: Seq<char>,
    format: TrackFormat,
) -> bool {
    &&& has_entry(after, name, format)
    &&& is_video(format) ==> {
        &&& old_name != name ==> !after.videos@.contains_key(old_name)
        &&& forall|n: Seq<char>|
            #![trigger after.videos@.contains_key(n)]
            n != name && n != old_name ==> (before.videos@.contains_key(n)
                <==> after.videos@.contains_key(n)) && (after.videos@.contains_key(n)
                ==> after.videos@[n] == before.videos@[n])
        &&& same_audios(before.audios@, after.audios@, None)
    }
    &&& !is_video(format) ==> {
        &&& old_name != name ==> !after.audios@.contains_key(old_name)
        &&& forall|n: Seq<char>|
            #![trigger after.audios@.contains_key(n)]
            n != name && n != old_name ==> (before.audios@.contains_key(n)
                <==> after.audios@.contains_key(n)) && (after.audios@.contains_key(n)
                ==> after.audios@[n] == before.audios@[n])
        &&& same_videos(before.videos@, after.videos@, None)
    }
}

proof fn lemma_takes_the_place<B, C>(
    before: BroadcastResource<B, C>,
    after: BroadcastResource<B, C>,
    old_name: Seq<char>,
    name: Seq<char>,
    format: TrackFormat,
    entry: EntryView,
)
    requires
        resolved(format@) == Ok::<EntryView, Seq<char>>(entry),
        after@ == before@.without(old_name, track::entry_kind(entry)).with(name, entry),
        track::changed_only(before, after, track::entry_kind(entry), name, old_name),
    ensures
        takes_the_place(before, after, old_name, name, format),
{
    lemma_changed_only(before, after, track::entry_kind(entry), name, old_name);
    lemma_views(before);
    lemma_views(after);
    lemma_resolved(format, entry);
    match entry {
        EntryView::Video(config) => {
            assert(after@.videos.contains_key(name));
            assert(after.videos@[name]@ == config);
            assert(after@.videos.contains_key(old_name) <==> old_name == name);
        },
        EntryView::Audio(config) => {
            assert(after@.audios.contains_key(name));
            assert(after.audios@[name]@ == config);
            assert(after@.audios.contains_key(old_name) <==> old_name == name);
        },
    }
}

/// A frame is written once, with the time in microseconds, the payload and the keyframe flag that
/// it was sent with, and answered `ok` only if the write was.
pub proof fn law_sink_frame_is_written<P, Write>(
    before: TrackResource<P>,
    timestamp_us: u64,
    keyframe: bool,
    data: Vec<u8>,
    write: Write,
    r: (TrackResource<P>, Result<Atom, String>),
) where Write: FnOnce(P, Frame) -> (P, Result<(), String>)
    requires
        call_ensures(
            track::send_frame::<P, Write>,
            (before, timestamp_us, keyframe, data, write),
            r,
        ),
    ensures
        r.0.name == before.name,
        r.0.suffix == before.suffix,
        r.0.kind == before.kind,
        timestamp_us >= 0x4000_0000_0000_0000 ==> r.0 == before && (r.1 matches Err(e) && e@
            == "timestamp conversion failed: "@ + "time overflow"@),
        timestamp_us < 0x4000_0000_0000_0000 ==> exists|
            frame: Frame,
            after: P,
            result: Result<(), String>,
        |
            {
                &&& #[trigger] call_ensures(write, (before.producer, frame), (after, result))
                &&& frame.payload == data
                &&& frame.keyframe == keyframe
                &&& forall|n: u64| #[trigger]
                    call_ensures(Timestamp::ticks, (&frame.timestamp,), n) ==> n == timestamp_us
                &&& forall|n: u64| #[trigger]
                    call_ensures(Timestamp::scale, (&frame.timestamp,), n) ==> n == 1_000_000
                &&& r.0.producer == after
                &&& result is Ok ==> (r.1 matches Ok(atom) && atom is Done)
                &&& result matches Err(reason) ==> (r.1 matches Err(e) && e@
                    == "writing frame failed: "@ + reason@)
            },
{
}

/// A track is finished, then taken out of the catalog by its kind and name, which is published;
/// that is always answered `ok`.
pub proof fn law_sink_track_is_removed<B, C, P, Finish, Publish>(
    before: BroadcastResource<B, C>,
    gone: TrackResource<P>,
    finish: Finish,
    publish: Publish,
    r: (BroadcastResource<B, C>, TrackResource<P>, Atom),
) where
    Finish: FnOnce(C, P) -> (C, P),
    Publish: FnOnce(C, &Table<VideoConfig>, &Table<AudioConfig>) -> C,

    requires
        call_ensures(
            track::remove_track::<B, C, P, Finish, Publish>,
            (before, gone, finish, publish),
            r,
        ),
    ensures
        r.2 is Done,
        r.0.broadcast == before.broadcast,
        without_entry(before, r.0, gone.name@, gone.kind),
        r.1.name == gone.name,
        r.1.suffix == gone.suffix,
        r.1.kind == gone.kind,
        exists|mid: C, p: P|
            {
                &&& #[trigger] call_ensures(finish, (before.catalog, gone.producer), (mid, p))
                &&& call_ensures(publish, (mid, &r.0.videos, &r.0.audios), r.0.catalog)
                &&& r.1.producer == p
            },
{
    lemma_changed_only(before, r.0, gone.kind, gone.name@, gone.name@);
    lemma_views(r.0);
    assert(gone.kind is Video ==> !r.0@.videos.contains_key(gone.name@));
    assert(gone.kind is Audio ==> !r.0@.audios.contains_key(gone.name@));
}

/// A session is set up with what the parser made of the URL and with the choice on TLS; a text that
/// is no URL sets up none.
pub proof fn law_sink_session_is_set_up<T, R, Spawn>(
    runtime: T,
    url: &str,
    disable_tls_verify: bool,
    spawn: Spawn,
    r: (T, Result<R, NifError>),
) where Spawn: FnOnce(T, String, bool) -> (T, R)
    requires
        call_ensures(
            setup_session::<T, R, Spawn>,
            (runtime, url, disable_tls_verify, spawn),
            r,
        ),
    ensures
        url_verdict(url@) matches Ok(parsed) ==> exists|text: String, after: T, resource: R|
            {
                &&& #[trigger] call_ensures(
                    spawn,
                    (runtime, text, disable_tls_verify),
                    (after, resource),
                )
                &&& text@ == parsed
                &&& r.0 == after
                &&& r.1 == Ok::<R, NifError>(resource)
            },
        url_verdict(url@) matches Err(e) ==> r.0 == runtime && fails_with_text(
            r.1,
            "invalid url: "@ + e,
        ),
{
}

/// The owner of a session hears whether it is up, and at its end why, unless the owner closed it.
pub proof fn law_sink_session_is_reported<C, O, H, Push>(
    connected: Result<C, String>,
    started: (Message, Option<C>),
    result: Result<(), String>,
    closed: Message,
    end: SessionEnd,
    over: Option<Message>,
    session: SessionResource<O, H>,
    push: Push,
    answer: Atom,
) where Push: FnOnce(&H) -> Result<(), Closed>
    requires
        call_ensures(session_started::<C>, (connected,), started),
        call_ensures(handle_session_closed, (result,), closed),
        call_ensures(session_over, (end,), over),
        call_ensures(close_session::<O, H, Push>, (&session, push), answer),
    ensures
        connected matches Ok(up) ==> started.0 is Connected && started.1 == Some(up),
        connected matches Err(e) ==> started.0 == (Message::SetupFailed { reason: e })
            && started.1 is None,
        closed matches Message::Disconnected { reason } && reason@ == (match result {
            Ok(_) => "MoQ session closed gracefully"@,
            Err(e) => e@,
        }),
        end is Shutdown ==> over is None,
        end matches SessionEnd::Closed(result) ==> (over matches Some(Message::Disconnected {
            reason,
        }) && reason@ == (match result {
            Ok(_) => "MoQ session closed gracefully"@,
            Err(e) => e@,
        })),
        answer is Done,
        exists|pushed: Result<(), Closed>| #[trigger]
            call_ensures(push, (&session.shutdown,), pushed),
{
}

} // verus!
