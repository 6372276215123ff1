//! The broadcast that a sink publishes.
//!
//! `B` is the handle of the broadcast, `C` of its catalog. The renditions of the catalog are
//! kept here, and published as they change by a function on the handle.

use vstd::prelude::*;

use crate::reply::Atom;
use crate::table::Table;
use crate::text::joined;
use crate::track_format::{
    AudioConfig, AudioConfigView, EntryView, ResolvedConfig, TrackKind, VideoConfig,
    VideoConfigView,
};

verus! {

/// A broadcast and its catalog.
pub struct BroadcastResource<B, C> {
    pub broadcast: B,
    pub catalog: C,
    pub videos: Table<VideoConfig>,
    pub audios: Table<AudioConfig>,
}

/// The renditions of a catalog.
#[verifier::ext_equal]
pub struct RenditionsView {
    pub videos: Map<Seq<char>, VideoConfigView>,
    pub audios: Map<Seq<char>, AudioConfigView>,
}

impl RenditionsView {
    /// No renditions.
    pub open spec fn none() -> Self {
        RenditionsView { videos: Map::empty(), audios: Map::empty() }
    }

    /// The renditions with one more.
    pub open spec fn with(self, name: Seq<char>, entry: EntryView) -> Self {
        match entry {
            EntryView::Video(config) => RenditionsView {
                videos: self.videos.insert(name, config),
                ..self
            },
            EntryView::Audio(config) => RenditionsView {
                audios: self.audios.insert(name, config),
                ..self
            },
        }
    }

    /// The renditions of the given kind without one, those of the other kind as they are.
    pub open spec fn without(self, name: Seq<char>, kind: TrackKind) -> Self {
        match kind {
            TrackKind::Video => RenditionsView { videos: self.videos.remove(name), ..self },
            TrackKind::Audio => RenditionsView { audios: self.audios.remove(name), ..self },
        }
    }
}

impl<B, C> View for BroadcastResource<B, C> {
    type V = RenditionsView;

    open spec fn view(&self) -> RenditionsView {
        RenditionsView {
            videos: self.videos@.map_values(|config: VideoConfig| config@),
            audios: self.audios@.map_values(|config: AudioConfig| config@),
        }
    }
}

/// A broadcast at `path`, with an empty catalog. `created` is what the session gave for it.
pub fn open_broadcast<B, C, Open>(path: &str, created: Option<B>, open_catalog: Open) -> (r: Result<
    BroadcastResource<B, C>,
    String,
>) where Open: FnOnce(B) -> (B, Result<C, String>)
    requires
        created matches Some(b) ==> call_requires(open_catalog, (b,)),
    ensures
        match created {
            None => r matches Err(e) && e@ == "create_broadcast("@ + path@ + ") refused"@,
            Some(b) => exists|after: B, catalog: Result<C, String>|
                {
                    &&& #[trigger] call_ensures(open_catalog, (b,), (after, catalog))
                    &&& match catalog {
                        Err(reason) => r matches Err(e) && e@ == "CatalogProducer::new failed: "@
                            + reason@,
                        Ok(catalog) => r matches Ok(resource) && resource.wf()
                            && resource.broadcast == after && resource.catalog == catalog
                            && resource@ == RenditionsView::none(),
                    }
                },
        },
{
    let broadcast = match created {
        Some(broadcast) => broadcast,
        None => return Err(joined("create_broadcast(", path, ") refused")),
    };
    let (broadcast, catalog) = open_catalog(broadcast);
    match catalog {
        Err(e) => Err("CatalogProducer::new failed: ".to_owned().concat(e.as_str())),
        Ok(catalog) => {
            let resource = BroadcastResource {
                broadcast,
                catalog,
                videos: Table::new(),
                audios: Table::new(),
            };
            assert(resource@ =~= RenditionsView::none());
            Ok(resource)
        },
    }
}

impl<B, C> BroadcastResource<B, C> {
    /// No name stands for two renditions of a kind.
    pub open spec fn wf(self) -> bool {
        &&& self.videos.wf()
        &&& self.audios.wf()
    }

    /// Puts a rendition into the catalog, in place of one of its kind with the name.
    pub fn put(&mut self, name: String, config: ResolvedConfig)
        requires
            old(self).wf(),
        ensures
            final(self).wf(),
            final(self)@ == old(self)@.with(name@, config@),
            match config {
                ResolvedConfig::Video(config) => {
                    &&& final(self).videos@ == old(self).videos@.insert(name@, config)
                    &&& final(self).audios == old(self).audios
                },
                ResolvedConfig::Audio(config) => {
                    &&& final(self).videos == old(self).videos
                    &&& final(self).audios@ == old(self).audios@.insert(name@, config)
                },
            },
            final(self).broadcast == old(self).broadcast,
            final(self).catalog == old(self).catalog,
    {
        match config {
            ResolvedConfig::Video(config) => {
                self.videos.insert(name, config);
            },
            ResolvedConfig::Audio(config) => {
                self.audios.insert(name, config);
            },
        }
        assert(self@ =~= old(self)@.with(name@, config@));
    }

    /// Takes a rendition out of the catalog.
    pub fn take(&mut self, name: &String, kind: TrackKind)
        requires
            old(self).wf(),
        ensures
            final(self).wf(),
            final(self)@ == old(self)@.without(name@, kind),
            match kind {
                TrackKind::Video => {
                    &&& final(self).videos@ == old(self).videos@.remove(name@)
                    &&& final(self).audios == old(self).audios
                },
                TrackKind::Audio => {
                    &&& final(self).videos == old(self).videos
                    &&& final(self).audios@ == old(self).audios@.remove(name@)
                },
            },
            final(self).broadcast == old(self).broadcast,
            final(self).catalog == old(self).catalog,
    {
        match kind {
            TrackKind::Video => {
                self.videos.remove(name);
            },
            TrackKind::Audio => {
                self.audios.remove(name);
            },
        }
        assert(self@ =~= old(self)@.without(name@, kind));
    }
}

impl<B, C> BroadcastResource<B, C> {
    /// Publishes the renditions in the catalog, in place of those that were there.
    pub fn publish<Publish>(self, publish: Publish) -> (r: Self) where
        Publish: FnOnce(C, &Table<VideoConfig>, &Table<AudioConfig>) -> C,

        requires
            call_requires(publish, (self.catalog, &self.videos, &self.audios)),
        ensures
            call_ensures(publish, (self.catalog, &self.videos, &self.audios), r.catalog),
            r.broadcast == self.broadcast,
            r.videos == self.videos,
            r.audios == self.audios,
    {
        let BroadcastResource { broadcast, catalog, videos, audios } = self;
        let catalog = publish(catalog, &videos, &audios);
        BroadcastResource { broadcast, catalog, videos, audios }
    }
}

/// Ends the catalog, then cancels the broadcast. `end` is given the broadcast too, and hands it on.
pub fn close_broadcast<B, C, End, Cancel>(
    resource: BroadcastResource<B, C>,
    end: End,
    cancel: Cancel,
) -> (r: (BroadcastResource<B, C>, Atom)) where
    End: FnOnce(B, C) -> (B, C),
    Cancel: FnOnce(B) -> B,

    requires
        forall|b: B, c: C| call_requires(end, (b, c)),
        forall|b: B| call_requires(cancel, (b,)),
    ensures
        r.1 == Atom::Done,
        exists|mid: B, catalog: C|
            {
                &&& #[trigger] call_ensures(
                    end,
                    (resource.broadcast, resource.catalog),
                    (mid, catalog),
                )
                &&& call_ensures(cancel, (mid,), r.0.broadcast)
                &&& r.0.catalog == catalog
            },
        r.0.videos == resource.videos,
        r.0.audios == resource.audios,
{
    let BroadcastResource { broadcast, catalog, videos, audios } = resource;
    let (mid, catalog) = end(broadcast, catalog);
    let broadcast = cancel(mid);
    (BroadcastResource { broadcast, catalog, videos, audios }, Atom::Done)
}

} // verus!
