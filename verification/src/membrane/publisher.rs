//! A publisher of opaque segments: tracks are known by number, each segment is a group.
//!
//! `B` is the handle of the broadcast, `T` of one of its tracks, `Tx` takes the commands.

use std::collections::HashMap;

use vstd::prelude::*;

use crate::broadcast_consumer::Closed;
use crate::membrane::messages::Message;
use crate::messages::PidDead;
use crate::reply::Atom;
use crate::stack::{parse_url, url_verdict};
use crate::text::{decimal, decimal_text};

verus! {

broadcast use vstd::std_specs::hash::group_hash_axioms;

/// What the owner of a publisher asks for.
#[derive(Debug)]
pub enum PublisherCmd {
    Frame { track_id: u32, data: Vec<u8> },
    AddTrack { track_id: u32 },
    Stop,
}

/// The owner's end of a publisher.
pub struct PublisherResource<Tx> {
    pub tx: Tx,
}

/// The owner's end of a subscriber.
pub struct SubscriberResource<Tx> {
    pub tx: Tx,
}

/// Starts a publisher for the server at `url`. `spawn` connects and answers commands.
pub fn start_publisher<Rt, R, Spawn>(runtime: Rt, url: &str, spawn: Spawn) -> (r: (
    Rt,
    (Atom, R),
)) where Spawn: FnOnce(Rt, String) -> (Rt, R)
    requires
        url_verdict(url@) is Ok,
        forall|url: String| call_requires(spawn, (runtime, url)),
    ensures
        r.1.0 == Atom::Done,
        exists|text: String, after: Rt, resource: R|
            {
                &&& url_verdict(url@) == Ok::<Seq<char>, Seq<char>>(text@)
                &&& #[trigger] call_ensures(spawn, (runtime, text), (after, resource))
                &&& r.0 == after
                &&& r.1.1 == resource
            },
{
    match parse_url(url) {
        Ok(url) => {
            let (runtime, resource) = spawn(runtime, url);
            (runtime, (Atom::Done, resource))
        },
        Err(_) => {
            proof {
                assert(false);
            }
            vstd::pervasive::unreached()
        },
    }
}

/// Starts a publisher if `url` is a URL, and else nothing: the runtime comes back as it was.
pub fn try_start_publisher<Rt, R, Spawn>(runtime: Rt, url: &str, spawn: Spawn) -> (r: (
    Rt,
    Option<(Atom, R)>,
)) where Spawn: FnOnce(Rt, String) -> (Rt, R)
    requires
        forall|url: String| call_requires(spawn, (runtime, url)),
    ensures
        match url_verdict(url@) {
            Err(_) => r.0 == runtime && r.1 is None,
            Ok(parsed) => exists|text: String, after: Rt, resource: R|
                {
                    &&& text@ == parsed
                    &&& #[trigger] call_ensures(spawn, (runtime, text), (after, resource))
                    &&& r.0 == after
                    &&& r.1 == Some((Atom::Done, resource))
                },
        },
{
    match parse_url(url) {
        Ok(_) => {
            let (runtime, started) = start_publisher(runtime, url, spawn);
            (runtime, Some(started))
        },
        Err(_) => (runtime, None),
    }
}

/// What happens to a running publisher.
#[derive(Debug)]
pub enum PublisherEvent {
    /// A command, or the end of all commands.
    Command(Option<PublisherCmd>),
    /// The session ended gracefully.
    Closed,
}

/// A running publisher.
pub struct Publisher<B, T> {
    pub broadcast: B,
    pub catalog: T,
    pub tracks: HashMap<u32, T>,
}

impl<B, T> Publisher<B, T> {
    /// Starts publishing once the session is up: the owner is told so, then the broadcast gets a
    /// track for its catalog. `send` is given the broadcast too, and hands it on.
    pub fn connected<O, S, Create>(broadcast: B, owner: O, send: S, create: Create) -> (r: (
        O,
        Self,
    )) where
        S: FnOnce((B, O), Message) -> ((B, O), Result<(), PidDead>),
        Create: FnOnce(B, String) -> (B, T),

        requires
            call_requires(send, ((broadcast, owner), Message::Connected)),
            forall|b: B, name: String| call_requires(create, (b, name)),
        ensures
            r.1.tracks@ == Map::<u32, T>::empty(),
            exists|
                told: (B, O),
                sent: Result<(), PidDead>,
                name: String,
                after: B,
                catalog: T,
            |
                {
                    &&& #[trigger] call_ensures(
                        send,
                        ((broadcast, owner), Message::Connected),
                        (told, sent),
                    )
                    &&& #[trigger] call_ensures(create, (told.0, name), (after, catalog))
                    &&& name@ == "catalog"@
                    &&& r.0 == told.1
                    &&& r.1.broadcast == after
                    &&& r.1.catalog == catalog
                },
    {
        let (told, _sent) = send((broadcast, owner), Message::Connected);
        let ghost heard = told;
        let (broadcast, owner) = told;
        let name = "catalog".to_owned();
        let (broadcast, catalog) = create(broadcast, name);
        assert(call_ensures(create, (heard.0, name), (broadcast, catalog)));
        (owner, Publisher { broadcast, catalog, tracks: HashMap::new() })
    }

    /// What an event comes to; `on` says whether the publisher goes on.
    pub open spec fn handled<Create, Append>(
        self,
        event: PublisherEvent,
        create: Create,
        append: Append,
        next: Self,
        on: bool,
    ) -> bool where Create: FnOnce(B, String) -> (B, T), Append: FnOnce(T, Vec<u8>) -> T {
        &&& next.catalog == self.catalog
        &&& match event {
            PublisherEvent::Closed => next == self && !on,
            PublisherEvent::Command(None) => next == self && !on,
            PublisherEvent::Command(Some(PublisherCmd::Stop)) => next == self && !on,
            PublisherEvent::Command(Some(PublisherCmd::AddTrack { track_id })) => exists|
                name: String,
                after: B,
                track: T,
            |
                {
                    &&& #[trigger] call_ensures(create, (self.broadcast, name), (after, track))
                    &&& name@ == decimal_text(track_id as nat)
                    &&& next.broadcast == after
                    &&& next.tracks@ == self.tracks@.insert(track_id, track)
                    &&& on
                },
            PublisherEvent::Command(Some(PublisherCmd::Frame { track_id, data })) => {
                &&& next.broadcast == self.broadcast
                &&& on
                &&& if self.tracks@.contains_key(track_id) {
                    exists|track: T|
                        {
                            &&& #[trigger] call_ensures(
                                append,
                                (self.tracks@[track_id], data),
                                track,
                            )
                            &&& next.tracks@ == self.tracks@.insert(track_id, track)
                        }
                } else {
                    next.tracks@ == self.tracks@
                }
            },
        }
    }

    /// Deals with an event, and says whether the publisher goes on. It stops when it is told to,
    /// when nobody is left to tell it, or with its session.
    ///
    /// `create` makes a track named by its number in decimal, `append` sends a segment as a group
    /// of one frame. A segment of an unknown track is dropped.
    pub fn handle<Create, Append>(
        self,
        event: PublisherEvent,
        create: Create,
        append: Append,
    ) -> (r: (Self, bool)) where
        Create: FnOnce(B, String) -> (B, T),
        Append: FnOnce(T, Vec<u8>) -> T,

        requires
            forall|b: B, name: String| call_requires(create, (b, name)),
            forall|t: T, data: Vec<u8>| call_requires(append, (t, data)),
        ensures
            self.handled(event, create, append, r.0, r.1),
    {
        let command = match event {
            PublisherEvent::Closed => return (self, false),
            PublisherEvent::Command(None) => return (self, false),
            PublisherEvent::Command(Some(command)) => command,
        };
        match command {
            PublisherCmd::Stop => (self, false),
            PublisherCmd::AddTrack { track_id } => {
                let Publisher { broadcast, catalog, mut tracks } = self;
                let name = decimal(track_id as u128);
                let (broadcast, track) = create(broadcast, name);
                tracks.insert(track_id, track);
                (Publisher { broadcast, catalog, tracks }, true)
            },
            PublisherCmd::Frame { track_id, data } => {
                let Publisher { broadcast, catalog, mut tracks } = self;
                match tracks.remove(&track_id) {
                    None => {
                        assert(tracks@ =~= self.tracks@);
                    },
                    Some(track) => {
                        let track = append(track, data);
                        tracks.insert(track_id, track);
                        assert(tracks@ =~= self.tracks@.insert(track_id, track));
                    },
                }
                (Publisher { broadcast, catalog, tracks }, true)
            },
        }
    }
}

/// Whether an event stops a publisher.
pub open spec fn stops(event: PublisherEvent) -> bool {
    match event {
        PublisherEvent::Closed | PublisherEvent::Command(None) | PublisherEvent::Command(
            Some(PublisherCmd::Stop),
        ) => true,
        _ => false,
    }
}

/// Whether `states` are what a publisher goes through under `events`, which it takes one after the
/// other for as long as it goes on.
pub open spec fn is_run<B, T, Create, Append>(
    states: Seq<Publisher<B, T>>,
    events: Seq<PublisherEvent>,
    creates: Seq<Create>,
    appends: Seq<Append>,
    goes_on: Seq<bool>,
) -> bool where Create: FnOnce(B, String) -> (B, T), Append: FnOnce(T, Vec<u8>) -> T {
    &&& states.len() == goes_on.len() + 1
    &&& goes_on.len() <= events.len()
    &&& forall|i: int|
        0 <= i < goes_on.len() ==> states[i].handled(
            #[trigger] events[i],
            creates[i],
            appends[i],
            states[i + 1],
            goes_on[i],
        )
    &&& forall|i: int| 0 <= i < goes_on.len() - 1 ==> #[trigger] goes_on[i]
}

/// Of a list of commands nothing behind a stop is published: the publisher that comes to the stop
/// is the one that is left at the end, and every command before it was carried out.
pub proof fn law_nothing_behind_a_stop_is_published<B, T, Create, Append>(
    states: Seq<Publisher<B, T>>,
    events: Seq<PublisherEvent>,
    creates: Seq<Create>,
    appends: Seq<Append>,
    goes_on: Seq<bool>,
    k: int,
) where Create: FnOnce(B, String) -> (B, T), Append: FnOnce(T, Vec<u8>) -> T
    requires
        is_run(states, events, creates, appends, goes_on),
        0 <= k < goes_on.len(),
        stops(events[k]),
    ensures
        goes_on.len() == k + 1,
        states.last() == states[k],
        forall|i: int| 0 <= i < k ==> !stops(#[trigger] events[i]),
{
    assert(states[k].handled(events[k], creates[k], appends[k], states[k + 1], goes_on[k]));
    assert forall|i: int| 0 <= i < k implies !stops(#[trigger] events[i]) by {
        assert(states[i].handled(events[i], creates[i], appends[i], states[i + 1], goes_on[i]));
        assert(goes_on[i]);
    }
}

/// What a subscriber to segments tells its owner.
#[derive(Debug)]
pub enum SegmentMessage {
    Frame { payload: Vec<u8> },
    Disconnected,
}

impl SegmentMessage {
    /// The atom that the message is, or starts with.
    pub fn tag(&self) -> (r: &'static str)
        ensures
            r@ == (match self {
                SegmentMessage::Frame { .. } => "moq_frame"@,
                SegmentMessage::Disconnected => "moq_disconnected"@,
            }),
    {
        match self {
            SegmentMessage::Frame { .. } => "moq_frame",
            SegmentMessage::Disconnected => "moq_disconnected",
        }
    }
}

/// What happens to a subscriber to segments.
#[derive(Debug)]
pub enum SegmentEvent {
    Frame(Vec<u8>),
    /// The subscription ended, or could not be had.
    Ended,
    /// The relay closed the connection.
    Closed,
    /// The owner stopped it.
    Stop,
}

/// Starts a subscriber to the segments of a track, which `spawn` connects to the server at `url`.
pub fn start_subscriber<Rt, R, Spawn>(
    runtime: Rt,
    url: String,
    broadcast: String,
    track: String,
    spawn: Spawn,
) -> (r: (Rt, (Atom, R))) where Spawn: FnOnce(Rt, String, String, String) -> (Rt, R)
    requires
        call_requires(spawn, (runtime, url, broadcast, track)),
    ensures
        r.1.0 == Atom::Done,
        call_ensures(spawn, (runtime, url, broadcast, track), (r.0, r.1.1)),
{
    let (runtime, resource) = spawn(runtime, url, broadcast, track);
    (runtime, (Atom::Done, resource))
}

/// Deals with an event of a subscriber to segments, and says whether it goes on. Each frame is
/// passed on; whatever ends the subscriber is told as its end.
pub fn handle_segment<O, S>(event: SegmentEvent, owner: O, send: S) -> (r: (O, bool)) where
    S: FnOnce(O, SegmentMessage) -> O,

    requires
        forall|m: SegmentMessage| call_requires(send, (owner, m)),
    ensures
        match event {
            SegmentEvent::Frame(payload) => {
                &&& call_ensures(send, (owner, SegmentMessage::Frame { payload }), r.0)
                &&& r.1
            },
            SegmentEvent::Ended | SegmentEvent::Closed | SegmentEvent::Stop => {
                &&& call_ensures(send, (owner, SegmentMessage::Disconnected), r.0)
                &&& !r.1
            },
        },
{
    match event {
        SegmentEvent::Frame(payload) => (send(owner, SegmentMessage::Frame { payload }), true),
        SegmentEvent::Ended | SegmentEvent::Closed | SegmentEvent::Stop => (
            send(owner, SegmentMessage::Disconnected),
            false,
        ),
    }
}

impl<Tx> PublisherResource<Tx> {
    /// Queues a segment of a track. The answer is `ok` in any case.
    pub fn send_segment<Push>(&self, track_id: u32, data: Vec<u8>, push: Push) -> (r: Atom) where
        Push: FnOnce(&Tx, PublisherCmd) -> Result<(), Closed>,

        requires
            forall|c: PublisherCmd| call_requires(push, (&self.tx, c)),
        ensures
            r == Atom::Done,
            exists|pushed: Result<(), Closed>| #[trigger]
                call_ensures(push, (&self.tx, PublisherCmd::Frame { track_id, data }), pushed),
    {
        let _ = push(&self.tx, PublisherCmd::Frame { track_id, data });
        Atom::Done
    }

    /// Asks for a new track. The answer is `ok` in any case.
    pub fn add_track<Push>(&self, track_id: u32, push: Push) -> (r: Atom) where
        Push: FnOnce(&Tx, PublisherCmd) -> Result<(), Closed>,

        requires
            forall|c: PublisherCmd| call_requires(push, (&self.tx, c)),
        ensures
            r == Atom::Done,
            exists|pushed: Result<(), Closed>| #[trigger]
                call_ensures(push, (&self.tx, PublisherCmd::AddTrack { track_id }), pushed),
    {
        let _ = push(&self.tx, PublisherCmd::AddTrack { track_id });
        Atom::Done
    }

    /// Stops the publisher. The answer is `ok` in any case.
    pub fn stop_publisher<Push>(&self, push: Push) -> (r: Atom) where
        Push: FnOnce(&Tx, PublisherCmd) -> Result<(), Closed>,

        requires
            forall|c: PublisherCmd| call_requires(push, (&self.tx, c)),
        ensures
            r == Atom::Done,
            exists|pushed: Result<(), Closed>| #[trigger]
                call_ensures(push, (&self.tx, PublisherCmd::Stop), pushed),
    {
        let _ = push(&self.tx, PublisherCmd::Stop);
        Atom::Done
    }
}

impl<Tx> SubscriberResource<Tx> {
    /// Stops the subscriber. The answer is `ok` in any case.
    pub fn stop_subscriber<Push>(&self, push: Push) -> (r: Atom) where
        Push: FnOnce(&Tx) -> Result<(), Closed>,

        requires
            call_requires(push, (&self.tx,)),
        ensures
            r == Atom::Done,
            exists|pushed: Result<(), Closed>| #[trigger] call_ensures(push, (&self.tx,), pushed),
    {
        let _ = push(&self.tx);
        Atom::Done
    }
}

} // verus!
