//! A broadcast that is being published: its tracks and their catalog entries.
//!
//! The handles of the MoQ stack are type parameters: `B` for the broadcast, `C` for the
//! catalog, `T` for a track that frames cannot be written to yet, `W` for one that they can,
//! `V` and `A` for the video and audio entries of the catalog. What a handle does is passed
//! in as a function. Such a function takes the handle and gives it back, so a handle that comes
//! back as it was has not been touched, and a chain of calls on a handle is all that was done to
//! it, in that order.

use vstd::prelude::*;

use crate::frame::Frame;
use crate::table::Table;
use crate::text::joined;
use crate::track_format::{
    AudioConfig, CatalogContainer, Container, EntryView, ResolvedConfig, TrackFormat, TrackKind,
    VideoConfig, WireContainer,
};

verus! {

/// A track carries the kind of media that it was added with.
#[derive(Clone, Copy, Debug, PartialEq, Eq, Structural)]
pub struct KindMismatch;

/// The catalog entry of a live track.
pub enum Rendition<V, A> {
    Video(V),
    Audio(A),
}

/// Whether `rendition` came of putting `entry` into the catalog `before` under `name`, which made
/// it `after`.
pub open spec fn announced<C, V, A, Video, Audio>(
    before: C,
    after: C,
    rendition: Rendition<V, A>,
    name: String,
    entry: EntryView,
    video: Video,
    audio: Audio,
) -> bool where
    Video: FnOnce(C, String, VideoConfig) -> (C, V),
    Audio: FnOnce(C, String, AudioConfig) -> (C, A),
 {
    match entry {
        EntryView::Video(entry) => exists|config: VideoConfig, c: C, v: V|
            {
                &&& config@ == entry
                &&& #[trigger] call_ensures(video, (before, name, config), (c, v))
                &&& after == c
                &&& rendition == Rendition::<V, A>::Video(v)
            },
        EntryView::Audio(entry) => exists|config: AudioConfig, c: C, a: A|
            {
                &&& config@ == entry
                &&& #[trigger] call_ensures(audio, (before, name, config), (c, a))
                &&& after == c
                &&& rendition == Rendition::<V, A>::Audio(a)
            },
    }
}

/// Whether `after` came of replacing the entry of `before` by `entry`.
pub open spec fn revised<V, A, Video, Audio>(
    before: Rendition<V, A>,
    after: Rendition<V, A>,
    entry: EntryView,
    video: Video,
    audio: Audio,
) -> bool where Video: FnOnce(V, VideoConfig) -> V, Audio: FnOnce(A, AudioConfig) -> A {
    match entry {
        EntryView::Video(entry) => exists|v: V, config: VideoConfig, w: V|
            {
                &&& before == Rendition::<V, A>::Video(v)
                &&& config@ == entry
                &&& #[trigger] call_ensures(video, (v, config), w)
                &&& after == Rendition::<V, A>::Video(w)
            },
        EntryView::Audio(entry) => exists|a: A, config: AudioConfig, b: A|
            {
                &&& before == Rendition::<V, A>::Audio(a)
                &&& config@ == entry
                &&& #[trigger] call_ensures(audio, (a, config), b)
                &&& after == Rendition::<V, A>::Audio(b)
            },
    }
}

impl<V, A> Rendition<V, A> {
    /// The kind of media the entry advertises.
    pub open spec fn kind(self) -> TrackKind {
        match self {
            Rendition::Video(_) => TrackKind::Video,
            Rendition::Audio(_) => TrackKind::Audio,
        }
    }

    /// Puts an entry into the catalog.
    pub fn new<C, Video, Audio>(
        catalog: C,
        name: String,
        config: ResolvedConfig,
        video: Video,
        audio: Audio,
    ) -> (r: (C, Self)) where
        Video: FnOnce(C, String, VideoConfig) -> (C, V),
        Audio: FnOnce(C, String, AudioConfig) -> (C, A),

        requires
            forall|config: VideoConfig| call_requires(video, (catalog, name, config)),
            forall|config: AudioConfig| call_requires(audio, (catalog, name, config)),
        ensures
            announced(catalog, r.0, r.1, name, config@, video, audio),
            match config {
                ResolvedConfig::Video(config) => exists|c: C, v: V|
                    {
                        &&& #[trigger] call_ensures(video, (catalog, name, config), (c, v))
                        &&& r == (c, Rendition::<V, A>::Video(v))
                    },
                ResolvedConfig::Audio(config) => exists|c: C, a: A|
                    {
                        &&& #[trigger] call_ensures(audio, (catalog, name, config), (c, a))
                        &&& r == (c, Rendition::<V, A>::Audio(a))
                    },
            },
    {
        match config {
            ResolvedConfig::Video(config) => {
                let (catalog, entry) = video(catalog, name, config);
                (catalog, Rendition::Video(entry))
            },
            ResolvedConfig::Audio(config) => {
                let (catalog, entry) = audio(catalog, name, config);
                (catalog, Rendition::Audio(entry))
            },
        }
    }

    /// Replaces the entry by one of the same kind.
    pub fn set<Video, Audio>(self, config: ResolvedConfig, video: Video, audio: Audio) -> (r: (
        Self,
        Result<(), KindMismatch>,
    )) where
        Video: FnOnce(V, VideoConfig) -> V,
        Audio: FnOnce(A, AudioConfig) -> A,

        requires
            forall|v: V, config: VideoConfig| call_requires(video, (v, config)),
            forall|a: A, config: AudioConfig| call_requires(audio, (a, config)),
        ensures
            match r.1 {
                Ok(()) => revised(self, r.0, config@, video, audio),
                Err(_) => r.0 == self && self.kind() != config.of_kind(),
            },
            match (self, config) {
                (Rendition::Video(v), ResolvedConfig::Video(config)) => r.1 is Ok && exists|w: V|
                    #[trigger] call_ensures(video, (v, config), w) && r.0 == Rendition::<
                        V,
                        A,
                    >::Video(w),
                (Rendition::Audio(a), ResolvedConfig::Audio(config)) => r.1 is Ok && exists|b: A|
                    #[trigger] call_ensures(audio, (a, config), b) && r.0 == Rendition::<
                        V,
                        A,
                    >::Audio(b),
                _ => r.1 is Err,
            },
    {
        match (self, config) {
            (Rendition::Video(v), ResolvedConfig::Video(config)) => (
                Rendition::Video(video(v, config)),
                Ok(()),
            ),
            (Rendition::Audio(a), ResolvedConfig::Audio(config)) => (
                Rendition::Audio(audio(a, config)),
                Ok(()),
            ),
            (rendition, _) => (rendition, Err(KindMismatch)),
        }
    }
}

/// A track that frames can be written to.
pub struct LiveTrack<W, V, A> {
    pub producer: W,
    pub rendition: Rendition<V, A>,
    pub container: Container,
}

/// Why a broadcast could not be created.
#[derive(Debug)]
pub enum CreateError {
    Broadcast { path: String, source: String },
    Catalog(String),
}

impl CreateError {
    /// The error in words.
    pub open spec fn text(self) -> Seq<char> {
        match self {
            CreateError::Broadcast { path, source } => "create_broadcast("@ + path@
                + (") failed: "@ + source@ + ""@),
            CreateError::Catalog(source) => "CatalogProducer::new failed: "@ + source@ + ""@,
        }
    }

    /// The error in words.
    pub fn message(&self) -> (r: String)
        ensures
            r@ == self.text(),
    {
        match self {
            CreateError::Broadcast { path, source } => joined(
                "create_broadcast(",
                path.as_str(),
                joined(") failed: ", source.as_str(), "").as_str(),
            ),
            CreateError::Catalog(source) => joined(
                "CatalogProducer::new failed: ",
                source.as_str(),
                "",
            ),
        }
    }
}

/// Why a track could not be added.
#[derive(Debug)]
pub enum AddTrackError {
    AlreadyExists,
    CreateTrack(String),
    MediaProducer(String),
}

impl AddTrackError {
    /// The error in words.
    pub open spec fn text(self) -> Seq<char> {
        match self {
            AddTrackError::AlreadyExists => "track already exists"@,
            AddTrackError::CreateTrack(e) => "create_track failed: "@ + e@,
            AddTrackError::MediaProducer(e) => "media_producer failed: "@ + e@,
        }
    }

    /// The error in words.
    pub fn message(&self) -> (r: String)
        ensures
            r@ == self.text(),
    {
        match self {
            AddTrackError::AlreadyExists => "track already exists".to_owned(),
            AddTrackError::CreateTrack(e) => "create_track failed: ".to_owned().concat(e.as_str()),
            AddTrackError::MediaProducer(e) => "media_producer failed: ".to_owned().concat(
                e.as_str(),
            ),
        }
    }
}

/// Why a track could not be updated.
#[derive(Clone, Copy, Debug, PartialEq, Eq, Structural)]
pub enum UpdateTrackError {
    UnknownTrack,
    KindMismatch,
}

impl UpdateTrackError {
    /// The error in words.
    pub fn message(&self) -> (r: String)
        ensures
            r@ == (match self {
                UpdateTrackError::UnknownTrack => "unknown track"@,
                UpdateTrackError::KindMismatch => "cannot change a track's media kind in place"@,
            }),
    {
        match self {
            UpdateTrackError::UnknownTrack => "unknown track".to_owned(),
            UpdateTrackError::KindMismatch => {
                "cannot change a track's media kind in place".to_owned()
            },
        }
    }
}

/// Why the stack did not take a frame.
#[derive(Debug)]
pub enum WriteFault {
    /// No group is open, and the frame is no keyframe.
    MissingKeyframe,
    Other(String),
}

/// Why a frame could not be written.
#[derive(Debug)]
pub enum WriteFrameError {
    UnknownTrack,
    MissingKeyframe,
    Write(String),
}

impl WriteFrameError {
    /// The error in words.
    pub open spec fn text(self) -> Seq<char> {
        match self {
            WriteFrameError::UnknownTrack => "unknown track"@,
            WriteFrameError::MissingKeyframe => "missing keyframe"@,
            WriteFrameError::Write(e) => "writing frame failed: "@ + e@,
        }
    }

    /// The error in words.
    pub fn message(&self) -> (r: String)
        ensures
            r@ == self.text(),
    {
        match self {
            WriteFrameError::UnknownTrack => "unknown track".to_owned(),
            WriteFrameError::MissingKeyframe => "missing keyframe".to_owned(),
            WriteFrameError::Write(e) => "writing frame failed: ".to_owned().concat(e.as_str()),
        }
    }
}

/// What creating a track comes to: the broadcast is created a track, which is opened in the
/// wire container; if that fails the track is taken out of the broadcast again, else its entry
/// goes into the catalog. The catalog of a track that could not be created or opened stays as it
/// was.
pub open spec fn created<B, C, T, W, V, A, Create, Media, Retire, Video, Audio>(
    before: B,
    catalog: C,
    track: String,
    format: TrackFormat,
    container: Container,
    priority: u8,
    latency_ns: u64,
    create: Create,
    media: Media,
    retire: Retire,
    video: Video,
    audio: Audio,
    after: B,
    catalog_after: C,
    result: Result<LiveTrack<W, V, A>, AddTrackError>,
) -> bool where
    Create: FnOnce(B, String, u8) -> (B, Result<T, String>),
    Media: FnOnce(T, WireContainer, u64) -> Result<W, String>,
    Retire: FnOnce(B, String) -> B,
    Video: FnOnce(C, String, VideoConfig) -> (C, V),
    Audio: FnOnce(C, String, AudioConfig) -> (C, A),
 {
    exists|made: B, t: Result<T, String>|
        {
            &&& #[trigger] call_ensures(create, (before, track, priority), (made, t))
            &&& match t {
                Err(e) => {
                    &&& after == made
                    &&& catalog_after == catalog
                    &&& result == Err::<LiveTrack<W, V, A>, AddTrackError>(
                        AddTrackError::CreateTrack(e),
                    )
                },
                Ok(t) => exists|w: Result<W, String>|
                    {
                        &&& #[trigger] call_ensures(
                            media,
                            (t, container.on_wire(), latency_ns),
                            w,
                        )
                        &&& match w {
                            Err(e) => {
                                &&& call_ensures(retire, (made, track), after)
                                &&& catalog_after == catalog
                                &&& result == Err::<LiveTrack<W, V, A>, AddTrackError>(
                                    AddTrackError::MediaProducer(e),
                                )
                            },
                            Ok(w) => {
                                &&& after == made
                                &&& result matches Ok(live)
                                &&& live.producer == w
                                &&& live.container == container
                                &&& announced(
                                    catalog,
                                    catalog_after,
                                    live.rendition,
                                    track,
                                    format.entry(container.as_catalog()),
                                    video,
                                    audio,
                                )
                            },
                        }
                    },
            }
        }
}

/// Whether the tracks were finished one after the other in the given order, each once: `course` is
/// the broadcast before the first, and after each.
pub open spec fn finished_along<B, W, V, A, Finish>(
    order: Seq<Seq<char>>,
    course: Seq<B>,
    before: Map<Seq<char>, LiveTrack<W, V, A>>,
    after: Map<Seq<char>, LiveTrack<W, V, A>>,
    finish: Finish,
) -> bool where Finish: Fn(B, W) -> (B, W) {
    &&& order.no_duplicates()
    &&& forall|name: Seq<char>| #[trigger] after.contains_key(name) <==> order.contains(name)
    &&& course.len() == order.len() + 1
    &&& forall|i: int|
        0 <= i < order.len() ==> {
            let name = #[trigger] order[i];
            &&& before.contains_key(name)
            &&& call_ensures(
                finish,
                (course[i], before[name].producer),
                (course[i + 1], after[name].producer),
            )
            &&& after[name].rendition == before[name].rendition
            &&& after[name].container == before[name].container
        }
}

/// Whether `after` is `before` with the producer of every track finished, and that is all that was
/// done to the broadcast on its way from `start` to `end`. The order of the tracks is open.
pub open spec fn all_finished<B, W, V, A, Finish>(
    start: B,
    before: Map<Seq<char>, LiveTrack<W, V, A>>,
    finish: Finish,
    end: B,
    after: Map<Seq<char>, LiveTrack<W, V, A>>,
) -> bool where Finish: Fn(B, W) -> (B, W) {
    &&& after.dom() == before.dom()
    &&& exists|order: Seq<Seq<char>>, course: Seq<B>|
        {
            &&& #[trigger] finished_along(order, course, before, after, finish)
            &&& course[0] == start
            &&& course[order.len() as int] == end
        }
}

/// Whether a writer was finished where `finish` says so, and else left as it was, with the
/// broadcast.
pub open spec fn flushed<B, W, Finish>(
    finish: bool,
    finish_track: Finish,
    start: B,
    before: W,
    end: B,
    after: W,
) -> bool where Finish: FnOnce(B, W) -> (B, W) {
    if finish {
        call_ensures(finish_track, (start, before), (end, after))
    } else {
        end == start && after == before
    }
}

/// A broadcast that is being published.
pub struct Producer<B, C, W, V, A> {
    pub broadcast: B,
    pub catalog: C,
    pub tracks: Table<LiveTrack<W, V, A>>,
}

impl<B, C, W, V, A> View for Producer<B, C, W, V, A> {
    type V = Map<Seq<char>, LiveTrack<W, V, A>>;

    open spec fn view(&self) -> Map<Seq<char>, LiveTrack<W, V, A>> {
        self.tracks@
    }
}

impl<B, C, W, V, A> Producer<B, C, W, V, A> {
    /// No two tracks have the same name.
    pub open spec fn wf(self) -> bool {
        self.tracks.wf()
    }

    /// A broadcast with a catalog and without tracks. `broadcast` is what announcing it at
    /// `path` gave.
    pub fn new<Open>(path: &str, broadcast: Result<B, String>, open_catalog: Open) -> (r: Result<
        Self,
        CreateError,
    >) where Open: FnOnce(B) -> (B, Result<C, String>)
        requires
            broadcast matches Ok(b) ==> call_requires(open_catalog, (b,)),
        ensures
            match broadcast {
                Err(e) => r matches Err(CreateError::Broadcast { path: p, source }) && p@ == path@
                    && source == e,
                Ok(b) => exists|after: B, catalog: Result<C, String>|
                    {
                        &&& #[trigger] call_ensures(open_catalog, (b,), (after, catalog))
                        &&& match catalog {
                            Err(e) => r == Err::<Self, CreateError>(CreateError::Catalog(e)),
                            Ok(catalog) => r matches Ok(producer) && producer.wf()
                                && producer.broadcast == after && producer.catalog == catalog
                                && producer@ == Map::<Seq<char>, LiveTrack<W, V, A>>::empty(),
                        }
                    },
            },
    {
        let broadcast = match broadcast {
            Ok(broadcast) => broadcast,
            Err(source) => return Err(CreateError::Broadcast { path: path.to_owned(), source }),
        };
        let (broadcast, catalog) = open_catalog(broadcast);
        match catalog {
            Ok(catalog) => Ok(Producer { broadcast, catalog, tracks: Table::new() }),
            Err(e) => Err(CreateError::Catalog(e)),
        }
    }

    /// Creates the track in the broadcast, opens it for frames and puts it into the catalog.
    ///
    /// `create` makes a track of the given name and priority, `media` opens it in the given
    /// container with the given latency in nanoseconds, `retire` takes a track out of the
    /// broadcast, `video` and `audio` make a catalog entry. A track that could not be opened is
    /// taken out again.
    fn create_track<T, Create, Media, Retire, Video, Audio>(
        broadcast: B,
        catalog: C,
        track: &String,
        format: TrackFormat,
        container: Container,
        priority: u8,
        latency_ns: u64,
        create: Create,
        media: Media,
        retire: Retire,
        video: Video,
        audio: Audio,
    ) -> (r: (B, C, Result<LiveTrack<W, V, A>, AddTrackError>)) where
        Create: FnOnce(B, String, u8) -> (B, Result<T, String>),
        Media: FnOnce(T, WireContainer, u64) -> Result<W, String>,
        Retire: FnOnce(B, String) -> B,
        Video: FnOnce(C, String, VideoConfig) -> (C, V),
        Audio: FnOnce(C, String, AudioConfig) -> (C, A),

        requires
            forall|b: B| call_requires(create, (b, *track, priority)),
            forall|t: T, wire: WireContainer| call_requires(media, (t, wire, latency_ns)),
            forall|b: B| call_requires(retire, (b, *track)),
            forall|config: VideoConfig| call_requires(video, (catalog, *track, config)),
            forall|config: AudioConfig| call_requires(audio, (catalog, *track, config)),
        ensures
            created(
                broadcast,
                catalog,
                *track,
                format,
                container,
                priority,
                latency_ns,
                create,
                media,
                retire,
                video,
                audio,
                r.0,
                r.1,
                r.2,
            ),
    {
        let (broadcast, created) = create(broadcast, track.clone(), priority);
        let t = match created {
            Ok(t) => t,
            Err(e) => return (broadcast, catalog, Err(AddTrackError::CreateTrack(e))),
        };
        let producer = match media(t, WireContainer::from(container), latency_ns) {
            Ok(producer) => producer,
            Err(e) => {
                let broadcast = retire(broadcast, track.clone());
                return (broadcast, catalog, Err(AddTrackError::MediaProducer(e)));
            },
        };
        let config = ResolvedConfig::new(format, CatalogContainer::from(container));
        let (catalog, rendition) = Rendition::new(catalog, track.clone(), config, video, audio);
        (broadcast, catalog, Ok(LiveTrack { producer, rendition, container }))
    }

    /// What adding a track comes to.
    pub open spec fn track_added<T, Create, Media, Retire, Video, Audio>(
        self,
        track: String,
        format: TrackFormat,
        container: Container,
        priority: u8,
        latency_ns: u64,
        create: Create,
        media: Media,
        retire: Retire,
        video: Video,
        audio: Audio,
        next: Self,
        answer: Result<(), AddTrackError>,
    ) -> bool where
        Create: FnOnce(B, String, u8) -> (B, Result<T, String>),
        Media: FnOnce(T, WireContainer, u64) -> Result<W, String>,
        Retire: FnOnce(B, String) -> B,
        Video: FnOnce(C, String, VideoConfig) -> (C, V),
        Audio: FnOnce(C, String, AudioConfig) -> (C, A),
     {
        &&& self@.contains_key(track@) ==> (next, answer) == (
            self,
            Err::<(), AddTrackError>(AddTrackError::AlreadyExists),
        )
        &&& !self@.contains_key(track@) ==> exists|
            after: B,
            catalog: C,
            result: Result<LiveTrack<W, V, A>, AddTrackError>,
        |
            {
                &&& #[trigger] created(
                    self.broadcast,
                    self.catalog,
                    track,
                    format,
                    container,
                    priority,
                    latency_ns,
                    create,
                    media,
                    retire,
                    video,
                    audio,
                    after,
                    catalog,
                    result,
                )
                &&& next.broadcast == after
                &&& next.catalog == catalog
                &&& match result {
                    Err(e) => next@ == self@ && answer == Err::<(), AddTrackError>(e),
                    Ok(live) => next@ == self@.insert(track@, live) && answer is Ok,
                }
            }
    }

    /// Adds a track. A name that is in use is refused, and the broadcast left as it is.
    pub fn add_track<T, Create, Media, Retire, Video, Audio>(
        self,
        track: String,
        format: TrackFormat,
        container: Container,
        priority: u8,
        latency_ns: u64,
        create: Create,
        media: Media,
        retire: Retire,
        video: Video,
        audio: Audio,
    ) -> (r: (Self, Result<(), AddTrackError>)) where
        Create: FnOnce(B, String, u8) -> (B, Result<T, String>),
        Media: FnOnce(T, WireContainer, u64) -> Result<W, String>,
        Retire: FnOnce(B, String) -> B,
        Video: FnOnce(C, String, VideoConfig) -> (C, V),
        Audio: FnOnce(C, String, AudioConfig) -> (C, A),

        requires
            self.wf(),
            forall|b: B| call_requires(create, (b, track, priority)),
            forall|t: T, wire: WireContainer| call_requires(media, (t, wire, latency_ns)),
            forall|b: B| call_requires(retire, (b, track)),
            forall|config: VideoConfig| call_requires(video, (self.catalog, track, config)),
            forall|config: AudioConfig| call_requires(audio, (self.catalog, track, config)),
        ensures
            r.0.wf(),
            self.track_added(
                track,
                format,
                container,
                priority,
                latency_ns,
                create,
                media,
                retire,
                video,
                audio,
                r.0,
                r.1,
            ),
    {
        if self.tracks.contains(&track) {
            return (self, Err(AddTrackError::AlreadyExists));
        }
        let Producer { broadcast, catalog, mut tracks } = self;
        let (broadcast, catalog, result) = Self::create_track(
            broadcast,
            catalog,
            &track,
            format,
            container,
            priority,
            latency_ns,
            create,
            media,
            retire,
            video,
            audio,
        );
        match result {
            Ok(live) => {
                tracks.insert(track, live);
                (Producer { broadcast, catalog, tracks }, Ok(()))
            },
            Err(e) => (Producer { broadcast, catalog, tracks }, Err(e)),
        }
    }

    /// What updating a track comes to. The container stays.
    pub open spec fn track_updated<Video, Audio>(
        self,
        track: Seq<char>,
        format: TrackFormat,
        video: Video,
        audio: Audio,
        next: Self,
        answer: Result<(), UpdateTrackError>,
    ) -> bool where
        Video: FnOnce(V, VideoConfig) -> V,
        Audio: FnOnce(A, AudioConfig) -> A,
     {
        &&& next.broadcast == self.broadcast
        &&& next.catalog == self.catalog
        &&& answer is Err ==> next@ == self@
        &&& answer == Err::<(), UpdateTrackError>(UpdateTrackError::UnknownTrack)
            <==> !self@.contains_key(track)
        &&& answer == Err::<(), UpdateTrackError>(UpdateTrackError::KindMismatch)
            <==> self@.contains_key(track) && self@[track].rendition.kind()
            != format.kind()
        &&& answer is Ok ==> {
            let live = self@[track];
            let after = next@[track];
            &&& next@ == self@.insert(track, after)
            &&& after.producer == live.producer
            &&& after.container == live.container
            &&& revised(
                live.rendition,
                after.rendition,
                format.entry(live.container.as_catalog()),
                video,
                audio,
            )
        }
    }

    /// Replaces the catalog entry of a track by one for `format`. The container stays.
    pub fn update_track<Video, Audio>(
        self,
        track: &String,
        format: TrackFormat,
        video: Video,
        audio: Audio,
    ) -> (r: (Self, Result<(), UpdateTrackError>)) where
        Video: FnOnce(V, VideoConfig) -> V,
        Audio: FnOnce(A, AudioConfig) -> A,

        requires
            self.wf(),
            forall|v: V, config: VideoConfig| call_requires(video, (v, config)),
            forall|a: A, config: AudioConfig| call_requires(audio, (a, config)),
        ensures
            r.0.wf(),
            self.track_updated(track@, format, video, audio, r.0, r.1),
    {
        let Producer { broadcast, catalog, mut tracks } = self;
        let result = match tracks.remove(track) {
            None => Err(UpdateTrackError::UnknownTrack),
            Some(live) => {
                let LiveTrack { producer, rendition, container } = live;
                let config = ResolvedConfig::new(format, CatalogContainer::from(container));
                let (rendition, result) = rendition.set(config, video, audio);
                tracks.insert(track.clone(), LiveTrack { producer, rendition, container });
                assert(tracks@ =~= self@.insert(track@, tracks@[track@]));
                match result {
                    Ok(()) => Ok(()),
                    Err(_) => {
                        assert(tracks@ =~= self@);
                        Err(UpdateTrackError::KindMismatch)
                    },
                }
            },
        };
        (Producer { broadcast, catalog, tracks }, result)
    }

    /// What writing a frame comes to.
    pub open spec fn frame_written<Write>(
        self,
        track: Seq<char>,
        frame: Frame,
        write: Write,
        next: Self,
        answer: Result<(), WriteFrameError>,
    ) -> bool where Write: FnOnce(W, Frame) -> (W, Result<(), WriteFault>) {
        &&& next.broadcast == self.broadcast
        &&& next.catalog == self.catalog
        &&& !self@.contains_key(track) ==> next@ == self@ && answer == Err::<(), WriteFrameError>(
            WriteFrameError::UnknownTrack,
        )
        &&& self@.contains_key(track) ==> exists|w: W, result: Result<(), WriteFault>|
            {
                &&& #[trigger] call_ensures(
                    write,
                    (self@[track].producer, frame),
                    (w, result),
                )
                &&& next@ == self@.insert(
                    track,
                    LiveTrack { producer: w, ..self@[track] },
                )
                &&& answer == (match result {
                    Ok(()) => Ok::<(), WriteFrameError>(()),
                    Err(WriteFault::MissingKeyframe) => Err(WriteFrameError::MissingKeyframe),
                    Err(WriteFault::Other(e)) => Err(WriteFrameError::Write(e)),
                })
            }
    }

    /// Writes a frame to a track.
    pub fn write_frame<Write>(self, track: &String, frame: Frame, write: Write) -> (r: (
        Self,
        Result<(), WriteFrameError>,
    )) where Write: FnOnce(W, Frame) -> (W, Result<(), WriteFault>)
        requires
            self.wf(),
            forall|w: W| call_requires(write, (w, frame)),
        ensures
            r.0.wf(),
            self.frame_written(track@, frame, write, r.0, r.1),
    {
        let Producer { broadcast, catalog, mut tracks } = self;
        let result = match tracks.remove(track) {
            None => Err(WriteFrameError::UnknownTrack),
            Some(live) => {
                let LiveTrack { producer, rendition, container } = live;
                let (producer, result) = write(producer, frame);
                tracks.insert(track.clone(), LiveTrack { producer, rendition, container });
                assert(tracks@ =~= self@.insert(
                    track@,
                    LiveTrack { producer, ..self@[track@] },
                ));
                match result {
                    Ok(()) => Ok(()),
                    Err(WriteFault::MissingKeyframe) => Err(WriteFrameError::MissingKeyframe),
                    Err(WriteFault::Other(e)) => Err(WriteFrameError::Write(e)),
                }
            },
        };
        (Producer { broadcast, catalog, tracks }, result)
    }

    /// What removing a track comes to. `gone` is what was live of it, to be dropped last.
    pub open spec fn track_removed<Finish, Retire>(
        self,
        track: String,
        finish: bool,
        finish_track: Finish,
        retire: Retire,
        next: Self,
        gone: Option<LiveTrack<W, V, A>>,
    ) -> bool where Finish: FnOnce(B, W) -> (B, W), Retire: FnOnce(B, String) -> B {
        &&& next.catalog == self.catalog
        &&& next@ == self@.remove(track@)
        &&& if self@.contains_key(track@) {
            let live = self@[track@];
            exists|mid: B, w: W|
                {
                    &&& #[trigger] flushed(
                        finish,
                        finish_track,
                        self.broadcast,
                        live.producer,
                        mid,
                        w,
                    )
                    &&& call_ensures(retire, (mid, track), next.broadcast)
                    &&& gone == Some(LiveTrack { producer: w, ..live })
                }
        } else {
            next.broadcast == self.broadcast && gone is None
        }
    }

    /// Takes a track out of the broadcast; its entry leaves the catalog with what is handed back.
    /// The frames that it still holds go out first where `finish` says so, else its writer comes
    /// back as it was. Nothing happens to a broadcast without that track.
    pub fn remove_track<Finish, Retire>(
        self,
        track: &String,
        finish: bool,
        finish_track: Finish,
        retire: Retire,
    ) -> (r: (Self, Option<LiveTrack<W, V, A>>)) where
        Finish: FnOnce(B, W) -> (B, W),
        Retire: FnOnce(B, String) -> B,

        requires
            self.wf(),
            forall|b: B, w: W| call_requires(finish_track, (b, w)),
            forall|b: B| call_requires(retire, (b, *track)),
        ensures
            r.0.wf(),
            self.track_removed(*track, finish, finish_track, retire, r.0, r.1),
    {
        let Producer { broadcast, catalog, mut tracks } = self;
        match tracks.remove(track) {
            None => (Producer { broadcast, catalog, tracks }, None),
            Some(live) => {
                let LiveTrack { producer, rendition, container } = live;
                let (mid, producer) = if finish {
                    finish_track(broadcast, producer)
                } else {
                    (broadcast, producer)
                };
                assert(flushed(
                    finish,
                    finish_track,
                    self.broadcast,
                    self@[track@].producer,
                    mid,
                    producer,
                ));
                let broadcast = retire(mid, track.clone());
                let live = LiveTrack { producer, rendition, container };
                (Producer { broadcast, catalog, tracks }, Some(live))
            },
        }
    }

    /// Sends out the frames that the tracks still hold, then ends the catalog. `end` is given the
    /// broadcast too, and hands it on.
    pub fn finish<Finish, End>(self, finish: Finish, end: End) -> (r: Self) where
        Finish: Fn(B, W) -> (B, W),
        End: FnOnce(B, C) -> (B, C),

        requires
            self.wf(),
            forall|b: B, w: W| call_requires(finish, (b, w)),
            forall|b: B, c: C| call_requires(end, (b, c)),
        ensures
            r.wf(),
            self.all_ended(finish, end, r),
    {
        let Producer { broadcast, catalog, tracks } = self;
        let ghost mut order: Seq<Seq<char>> = Seq::empty();
        let ghost mut course: Seq<B> = seq![broadcast];
        let mut flushed = broadcast;
        let mut rest = tracks;
        let mut done: Table<LiveTrack<W, V, A>> = Table::new();
        loop
            invariant_except_break
                rest.wf(),
            invariant
                done.wf(),
                forall|b: B, w: W| call_requires(finish, (b, w)),
                forall|name: Seq<char>|
                    #![trigger rest@.contains_key(name)]
                    #![trigger done@.contains_key(name)]
                    {
                        &&& self@.contains_key(name) <==> rest@.contains_key(name)
                            || done@.contains_key(name)
                        &&& !(rest@.contains_key(name) && done@.contains_key(name))
                        &&& rest@.contains_key(name) ==> rest@[name] == self@[name]
                    },
                finished_along(order, course, self@, done@, finish),
                course[0] == self.broadcast,
                course[order.len() as int] == flushed,
            ensures
                rest@ == Map::<Seq<char>, LiveTrack<W, V, A>>::empty(),
            decreases rest.entries().len(),
        {
            let ghost before = done@;
            let ghost from = flushed;
            let ghost left = rest@;
            match rest.pop() {
                None => break,
                Some((name, live)) => {
                    let ghost key = name@;
                    assert(left.contains_key(key));
                    assert(!before.contains_key(key));
                    let LiveTrack { producer, rendition, container } = live;
                    let (after, producer) = finish(flushed, producer);
                    flushed = after;
                    done.insert(name, LiveTrack { producer, rendition, container });
                    proof {
                        let listed = order;
                        let passed = course;
                        order = listed.push(key);
                        course = passed.push(flushed);
                        assert forall|n: Seq<char>| #[trigger]
                            done@.contains_key(n) <==> order.contains(n) by {
                            assert(before.contains_key(n) <==> listed.contains(n));
                            if listed.contains(n) {
                                assert(order[listed.index_of(n)] == n);
                            }
                            if n == key {
                                assert(order[listed.len() as int] == n);
                            }
                        }
                        assert(!listed.contains(key));
                        assert forall|i: int| 0 <= i < order.len() implies {
                            let n = #[trigger] order[i];
                            &&& self@.contains_key(n)
                            &&& call_ensures(
                                finish,
                                (course[i], self@[n].producer),
                                (course[i + 1], done@[n].producer),
                            )
                            &&& done@[n].rendition == self@[n].rendition
                            &&& done@[n].container == self@[n].container
                        } by {
                            if i < listed.len() {
                                assert(order[i] == listed[i]);
                                assert(listed[i] != key);
                            } else {
                                assert(call_ensures(
                                    finish,
                                    (from, self@[key].producer),
                                    (flushed, producer),
                                ));
                            }
                        }
                    }
                },
            }
        }
        assert(done@.dom() =~= self@.dom()) by {
            assert forall|name: Seq<char>| done@.contains_key(name) == self@.contains_key(name) by {
                assert(!rest@.contains_key(name));
            }
        }
        assert(all_finished(self.broadcast, self@, finish, flushed, done@));
        let ghost mid = flushed;
        let (broadcast, catalog) = end(flushed, catalog);
        let ended = Producer { broadcast, catalog, tracks: done };
        assert(all_finished(self.broadcast, self@, finish, mid, ended@));
        assert(call_ensures(end, (mid, self.catalog), (ended.broadcast, ended.catalog)));
        ended
    }

    /// What finishing comes to: first every track is finished, then the catalog.
    pub open spec fn all_ended<Finish, End>(
        self,
        finish: Finish,
        end: End,
        next: Self,
    ) -> bool where Finish: Fn(B, W) -> (B, W), End: FnOnce(B, C) -> (B, C) {
        exists|mid: B|
            {
                &&& #[trigger] all_finished(self.broadcast, self@, finish, mid, next@)
                &&& call_ensures(end, (mid, self.catalog), (next.broadcast, next.catalog))
            }
    }

    /// Drops every track by `discard`, then cancels the broadcast.
    pub fn abort<Discard, Cancel>(self, discard: Discard, cancel: Cancel) -> (r: Self) where
        Discard: FnOnce(B, Table<LiveTrack<W, V, A>>) -> B,
        Cancel: FnOnce(B) -> B,

        requires
            forall|b: B| call_requires(discard, (b, self.tracks)),
            forall|b: B| call_requires(cancel, (b,)),
        ensures
            r.wf(),
            self.aborted(discard, cancel, r),
    {
        let Producer { broadcast, catalog, tracks } = self;
        let mid = discard(broadcast, tracks);
        let broadcast = cancel(mid);
        Producer { broadcast, catalog, tracks: Table::new() }
    }

    /// What aborting comes to: the tracks are dropped as they are, then the broadcast is
    /// cancelled.
    pub open spec fn aborted<Discard, Cancel>(
        self,
        discard: Discard,
        cancel: Cancel,
        next: Self,
    ) -> bool where
        Discard: FnOnce(B, Table<LiveTrack<W, V, A>>) -> B,
        Cancel: FnOnce(B) -> B,
     {
        &&& next.catalog == self.catalog
        &&& next@ == Map::<Seq<char>, LiveTrack<W, V, A>>::empty()
        &&& exists|mid: B|
            {
                &&& #[trigger] call_ensures(discard, (self.broadcast, self.tracks), mid)
                &&& call_ensures(cancel, (mid,), next.broadcast)
            }
    }
}

/// Taking out a track that was just added leaves the tracks as they were before, and hands back
/// what was added.
pub proof fn law_remove_undoes_add<
    B,
    C,
    T,
    W,
    V,
    A,
    Create,
    Media,
    Undo,
    Video,
    Audio,
    Finish,
    Retire,
>(
    before: Producer<B, C, W, V, A>,
    track: String,
    format: TrackFormat,
    container: Container,
    priority: u8,
    latency_ns: u64,
    create: Create,
    media: Media,
    undo: Undo,
    video: Video,
    audio: Audio,
    added: Producer<B, C, W, V, A>,
    finish: bool,
    finish_track: Finish,
    retire: Retire,
    removed: Producer<B, C, W, V, A>,
    gone: Option<LiveTrack<W, V, A>>,
) where
    Create: FnOnce(B, String, u8) -> (B, Result<T, String>),
    Media: FnOnce(T, WireContainer, u64) -> Result<W, String>,
    Undo: FnOnce(B, String) -> B,
    Video: FnOnce(C, String, VideoConfig) -> (C, V),
    Audio: FnOnce(C, String, AudioConfig) -> (C, A),
    Finish: FnOnce(B, W) -> (B, W),
    Retire: FnOnce(B, String) -> B,

    requires
        before.track_added(
            track,
            format,
            container,
            priority,
            latency_ns,
            create,
            media,
            undo,
            video,
            audio,
            added,
            Ok(()),
        ),
        added.track_removed(track, finish, finish_track, retire, removed, gone),
    ensures
        removed@ == before@,
        removed.catalog == added.catalog,
        gone matches Some(live) && live.container == container && live.rendition
            == added@[track@].rendition,
{
    assert(removed@ =~= before@);
}

/// A track that was added takes frames: a frame for it is never one of an unknown track.
pub proof fn law_added_track_is_known<B, C, T, W, V, A, Create, Media, Retire, Video, Audio, Write>(
    before: Producer<B, C, W, V, A>,
    track: String,
    format: TrackFormat,
    container: Container,
    priority: u8,
    latency_ns: u64,
    create: Create,
    media: Media,
    retire: Retire,
    video: Video,
    audio: Audio,
    added: Producer<B, C, W, V, A>,
    frame: Frame,
    write: Write,
    written: Producer<B, C, W, V, A>,
    answer: Result<(), WriteFrameError>,
) where
    Create: FnOnce(B, String, u8) -> (B, Result<T, String>),
    Media: FnOnce(T, WireContainer, u64) -> Result<W, String>,
    Retire: FnOnce(B, String) -> B,
    Video: FnOnce(C, String, VideoConfig) -> (C, V),
    Audio: FnOnce(C, String, AudioConfig) -> (C, A),
    Write: FnOnce(W, Frame) -> (W, Result<(), WriteFault>),

    requires
        before.track_added(
            track,
            format,
            container,
            priority,
            latency_ns,
            create,
            media,
            retire,
            video,
            audio,
            added,
            Ok(()),
        ),
        added.frame_written(track@, frame, write, written, answer),
    ensures
        !(answer matches Err(WriteFrameError::UnknownTrack)),
{
}

/// A track that was removed is unknown, to a frame and to an update.
pub proof fn law_removed_track_is_unknown<B, C, W, V, A, Finish, Retire, Write, Video, Audio>(
    before: Producer<B, C, W, V, A>,
    track: String,
    finish: bool,
    finish_track: Finish,
    retire: Retire,
    removed: Producer<B, C, W, V, A>,
    gone: Option<LiveTrack<W, V, A>>,
    frame: Frame,
    write: Write,
    format: TrackFormat,
    video: Video,
    audio: Audio,
    next: Producer<B, C, W, V, A>,
    written: Result<(), WriteFrameError>,
    updated: Result<(), UpdateTrackError>,
) where
    Finish: FnOnce(B, W) -> (B, W),
    Retire: FnOnce(B, String) -> B,
    Write: FnOnce(W, Frame) -> (W, Result<(), WriteFault>),
    Video: FnOnce(V, VideoConfig) -> V,
    Audio: FnOnce(A, AudioConfig) -> A,

    requires
        before.track_removed(track, finish, finish_track, retire, removed, gone),
    ensures
        removed.frame_written(track@, frame, write, next, written) ==> written == Err::<
            (),
            WriteFrameError,
        >(WriteFrameError::UnknownTrack),
        removed.track_updated(track@, format, video, audio, next, updated) ==> updated == Err::<
            (),
            UpdateTrackError,
        >(UpdateTrackError::UnknownTrack),
{
}

/// The name of a removed track is free: to add a track under it again is not refused as a name in
/// use.
pub proof fn law_removed_name_is_free<
    B,
    C,
    T,
    W,
    V,
    A,
    Finish,
    Retire,
    Create,
    Media,
    Undo,
    Video,
    Audio,
>(
    before: Producer<B, C, W, V, A>,
    track: String,
    finish: bool,
    finish_track: Finish,
    retire: Retire,
    removed: Producer<B, C, W, V, A>,
    gone: Option<LiveTrack<W, V, A>>,
    format: TrackFormat,
    container: Container,
    priority: u8,
    latency_ns: u64,
    create: Create,
    media: Media,
    undo: Undo,
    video: Video,
    audio: Audio,
    added: Producer<B, C, W, V, A>,
    answer: Result<(), AddTrackError>,
) where
    Finish: FnOnce(B, W) -> (B, W),
    Retire: FnOnce(B, String) -> B,
    Create: FnOnce(B, String, u8) -> (B, Result<T, String>),
    Media: FnOnce(T, WireContainer, u64) -> Result<W, String>,
    Undo: FnOnce(B, String) -> B,
    Video: FnOnce(C, String, VideoConfig) -> (C, V),
    Audio: FnOnce(C, String, AudioConfig) -> (C, A),

    requires
        before.track_removed(track, finish, finish_track, retire, removed, gone),
        removed.track_added(
            track,
            format,
            container,
            priority,
            latency_ns,
            create,
            media,
            undo,
            video,
            audio,
            added,
            answer,
        ),
    ensures
        !(answer matches Err(AddTrackError::AlreadyExists)),
        answer is Err ==> added@ == removed@ && added.catalog == before.catalog,
{
}

/// An update changes neither the kind of media nor the container of a track, and no other track.
pub proof fn law_update_keeps_kind_and_container<B, C, W, V, A, Video, Audio>(
    before: Producer<B, C, W, V, A>,
    track: Seq<char>,
    format: TrackFormat,
    video: Video,
    audio: Audio,
    next: Producer<B, C, W, V, A>,
    answer: Result<(), UpdateTrackError>,
    name: Seq<char>,
) where
    Video: FnOnce(V, VideoConfig) -> V,
    Audio: FnOnce(A, AudioConfig) -> A,

    requires
        before.track_updated(track, format, video, audio, next, answer),
    ensures
        next@.contains_key(name) <==> before@.contains_key(name),
        before@.contains_key(name) ==> {
            &&& next@[name].rendition.kind() == before@[name].rendition.kind()
            &&& next@[name].container == before@[name].container
            &&& name != track ==> next@[name] == before@[name]
        },
{
}

} // verus!
