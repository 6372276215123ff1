//! A broadcast that is being followed: its catalog and the subscribed tracks.

use std::ops::ControlFlow;

use vstd::prelude::*;

use crate::broadcast_consumer::subscription_queue::{
    served, without, Entry, Subscription, SubscriptionQueue, TrackResult,
};
use crate::frame::Frame;
use crate::messages::{
    catalog_report, frame_message, report_view, send_broadcast_closed, send_broadcast_ready,
    send_catalog, send_frame, send_track_error, send_track_finished, Catalog, CatalogView,
    CloseReason, Message, PidDead, RenditionFormat, Token,
};
use crate::stack::{advertised_format, detect_catalog_format, CatalogFormat};
use crate::table::{by_name, lemma_by_name_bounded, lemma_by_name_contains, Table};
use crate::text::joined;
use crate::track_format::{
    container_fault, CatalogContainer, Container, ContainerView, WireContainer,
};

pub mod pump;
pub mod subscription_queue;
pub mod subscriptions;

verus! {

/// Why a subscription failed.
#[derive(Debug)]
pub enum TrackErrorKind {
    NotAdvertised,
    Container(String),
    SubscribeFailed(String),
    ReadFailed(String),
}

impl TrackErrorKind {
    /// The error in words.
    pub open spec fn text(self) -> Seq<char> {
        match self {
            TrackErrorKind::NotAdvertised => "not advertised in the catalog"@,
            TrackErrorKind::Container(e) => e@,
            TrackErrorKind::SubscribeFailed(e) => "subscribe failed: "@ + e@,
            TrackErrorKind::ReadFailed(e) => "track read failed: "@ + e@,
        }
    }

    /// The error in words.
    pub fn message(&self) -> (r: String)
        ensures
            r@ == self.text(),
    {
        match self {
            TrackErrorKind::NotAdvertised => "not advertised in the catalog".to_owned(),
            TrackErrorKind::Container(e) => e.clone(),
            TrackErrorKind::SubscribeFailed(e) => "subscribe failed: ".to_owned().concat(
                e.as_str(),
            ),
            TrackErrorKind::ReadFailed(e) => "track read failed: ".to_owned().concat(e.as_str()),
        }
    }
}

/// A failed subscription: the track, and what went wrong.
#[derive(Debug)]
pub struct TrackError {
    pub track: String,
    pub source: TrackErrorKind,
}

impl TrackError {
    /// The error in words.
    pub open spec fn text(self) -> Seq<char> {
        track_error_text(self.track@, self.source.text())
    }

    /// The error in words.
    pub fn message(&self) -> (r: String)
        ensures
            r@ == self.text(),
    {
        joined(
            "track(",
            self.track.as_str(),
            joined("): ", self.source.message().as_str(), "").as_str(),
        )
    }
}

/// What the owner of a consumer asks for.
#[derive(Debug)]
pub enum Command {
    Subscribe { track: String, token: Token, priority: u8 },
    Unsubscribe { token: Token },
}

/// The consumer no longer takes commands.
#[derive(Clone, Copy, Debug, PartialEq, Eq, Structural)]
pub struct Closed;

/// The owner's end of a consumer. `Q` is the queue of its commands.
pub struct Handle<Q> {
    pub commands: Q,
}

impl<Q> Handle<Q> {
    /// Hands a subscription to the consumer; `push` puts a command into its queue.
    pub fn subscribe<Push>(&self, track: String, token: Token, priority: u8, push: Push) -> (r:
        Result<(), Closed>) where Push: FnOnce(&Q, Command) -> Result<(), Closed>
        requires
            forall|c: Command| call_requires(push, (&self.commands, c)),
        ensures
            call_ensures(
                push,
                (&self.commands, Command::Subscribe { track, token, priority }),
                r,
            ),
    {
        push(&self.commands, Command::Subscribe { track, token, priority })
    }

    /// Asks the consumer to drop a subscription. One that is closed has dropped it already.
    pub fn unsubscribe<Push>(&self, token: Token, push: Push) where
        Push: FnOnce(&Q, Command) -> Result<(), Closed>,

        requires
            forall|c: Command| call_requires(push, (&self.commands, c)),
        ensures
            exists|pushed: Result<(), Closed>| #[trigger]
                call_ensures(push, (&self.commands, Command::Unsubscribe { token }), pushed),
    {
        let _ = push(&self.commands, Command::Unsubscribe { token });
    }

    /// Ends the commands, and with them the consumer.
    pub fn close<Close>(&self, close: Close) where Close: FnOnce(&Q)
        requires
            call_requires(close, (&self.commands,)),
        ensures
            call_ensures(close, (&self.commands,), ()),
    {
        close(&self.commands)
    }
}

/// What happened to a consumer.
#[derive(Debug)]
pub enum Event {
    /// A command, or the end of all commands.
    Command(Result<Command, Closed>),
    /// A new catalog, the end of the broadcast, or a catalog that cannot be read.
    Catalog(Result<Option<Catalog>, String>),
    Track(Token, TrackResult),
}

/// Closes the consumer's command queue, and reports why the broadcast is no longer followed.
pub struct CloseGuard {
    pub path: String,
    pub reason: Option<CloseReason>,
}

impl CloseGuard {
    /// A guard that reports a crash, until it learns better.
    pub fn new(path: String) -> (r: Self)
        ensures
            r == (CloseGuard { path, reason: Some(CloseReason::Crashed) }),
    {
        CloseGuard { path, reason: Some(CloseReason::Crashed) }
    }

    /// Closes the queue, then reports the reason once, if there is one to report. Without one the
    /// owner is told nothing. `send` is given the closed queue too, and hands it on: an owner that
    /// hears the reason can push no more.
    pub fn close<Q, O, Close, S>(self, queue: Q, owner: O, close: Close, send: S) -> (r: (
        Q,
        O,
    )) where Close: FnOnce(Q) -> Q, S: FnOnce((Q, O), Message) -> ((Q, O), Result<(), PidDead>)
        requires
            call_requires(close, (queue,)),
            forall|q: Q, m: Message| call_requires(send, ((q, owner), m)),
        ensures
            match self.reason {
                None => call_ensures(close, (queue,), r.0) && r.1 == owner,
                Some(why) => exists|closed: Q, told: (Q, O), sent: Result<(), PidDead>|
                    {
                        &&& call_ensures(close, (queue,), closed)
                        &&& #[trigger] call_ensures(
                            send,
                            ((closed, owner), Message::BroadcastClosed { path: self.path, why }),
                            (told, sent),
                        )
                        &&& r == told
                    },
            },
    {
        let closed = close(queue);
        match self.reason {
            None => (closed, owner),
            Some(why) => {
                let (told, _sent) = send_broadcast_closed((closed, owner), &self.path, why, send);
                told
            },
        }
    }
}

/// The containers of a catalog's renditions by name, first the videos, then the audios.
pub open spec fn container_list(catalog: CatalogView) -> Seq<(Seq<char>, ContainerView)> {
    Seq::new(
        catalog.videos.len(),
        |i: int| (catalog.videos[i].0, catalog.videos[i].1.container),
    ) + Seq::new(
        catalog.audios.len(),
        |i: int| (catalog.audios[i].0, catalog.audios[i].1.container),
    )
}

/// What the containers of a table say.
pub open spec fn container_views(containers: Map<Seq<char>, CatalogContainer>) -> Map<
    Seq<char>,
    ContainerView,
> {
    containers.map_values(|container: CatalogContainer| container@)
}

/// The container of each rendition that a catalog advertises.
pub fn advertised_containers(catalog: &Catalog) -> (r: Table<CatalogContainer>)
    ensures
        r.wf(),
        container_views(r@) == by_name(container_list(catalog@)),
{
    let ghost all = container_list(catalog@);
    let mut r: Table<CatalogContainer> = Table::new();
    assert(all.take(0) =~= Seq::empty());
    assert(container_views(r@) =~= by_name(all.take(0)));
    let mut i: usize = 0;
    while i < catalog.videos.len()
        invariant
            i <= catalog.videos@.len(),
            all == container_list(catalog@),
            r.wf(),
            container_views(r@) == by_name(all.take(i as int)),
        decreases catalog.videos@.len() - i,
    {
        let (name, config) = &catalog.videos[i];
        let container = config.container.duplicate();
        proof {
            assert(all.take(i + 1).drop_last() =~= all.take(i as int));
            assert(all[i as int] == (name@, container@));
            assert(container_views(r@.insert(name@, container)) =~= container_views(r@).insert(
                name@,
                container@,
            ));
        }
        r.insert(name.clone(), container);
        i = i + 1;
    }
    let mut j: usize = 0;
    while j < catalog.audios.len()
        invariant
            j <= catalog.audios@.len(),
            all == container_list(catalog@),
            r.wf(),
            container_views(r@) == by_name(all.take(catalog.videos@.len() + j)),
        decreases catalog.audios@.len() - j,
    {
        let (name, config) = &catalog.audios[j];
        let container = config.container.duplicate();
        proof {
            let n = catalog.videos@.len() + j;
            assert(all.take(n + 1).drop_last() =~= all.take(n));
            assert(all[n] == (name@, container@));
            assert(container_views(r@.insert(name@, container)) =~= container_views(r@).insert(
                name@,
                container@,
            ));
        }
        r.insert(name.clone(), container);
        j = j + 1;
    }
    assert(all.take(all.len() as int) =~= all);
    r
}

/// The format of the catalog of the broadcast at `path`: the one its suffix names, else hang.
pub open spec fn catalog_format_of(path: Seq<char>) -> CatalogFormat {
    match advertised_format(path) {
        Some(format) => format,
        None => CatalogFormat::Hang,
    }
}

/// What the broadcast `path` was found to be: nothing, or one whose catalog is to be read next.
pub fn find_broadcast<N>(path: &String, announced: Option<N>) -> (r: Result<
    (N, CatalogFormat),
    CloseReason,
>)
    ensures
        match announced {
            None => r == Err::<(N, CatalogFormat), CloseReason>(CloseReason::NotAnnounced),
            Some(broadcast) => r == Ok::<(N, CatalogFormat), CloseReason>(
                (broadcast, catalog_format_of(path@)),
            ),
        },
{
    match announced {
        None => Err(CloseReason::NotAnnounced),
        Some(broadcast) => {
            let format = match detect_catalog_format(path.as_str()) {
                Some(format) => format,
                None => CatalogFormat::Hang,
            };
            Ok((broadcast, format))
        },
    }
}

/// A failed subscription in words.
pub open spec fn track_error_text(track: Seq<char>, reason: Seq<char>) -> Seq<char> {
    "track("@ + track + ("): "@ + reason + ""@)
}

/// Whether the consumer goes on after a message: an owner that is gone ends it.
pub open spec fn flow_after(sent: Result<(), PidDead>) -> ControlFlow<Option<CloseReason>> {
    match sent {
        Ok(()) => ControlFlow::Continue(()),
        Err(_) => ControlFlow::Break(None),
    }
}

/// Whether `text`, and nothing else, was reported under `token`, and `flow` is how the consumer
/// goes on.
pub open spec fn reported<O, Send>(
    owner: O,
    token: Token,
    text: Seq<char>,
    send: Send,
    told: O,
    flow: ControlFlow<Option<CloseReason>>,
) -> bool where Send: FnOnce(O, Message) -> (O, Result<(), PidDead>) {
    exists|reason: String, sent: Result<(), PidDead>|
        {
            &&& reason@ == text
            &&& #[trigger] call_ensures(
                send,
                (owner, Message::TrackError { token, reason }),
                (told, sent),
            )
            &&& flow == flow_after(sent)
        }
}

/// What passing on the news of a track comes to.
pub open spec fn track_handled<O, Send>(
    owner: O,
    token: Token,
    result: TrackResult,
    send: Send,
    told: O,
    flow: ControlFlow<Option<CloseReason>>,
) -> bool where Send: FnOnce(O, Message) -> (O, Result<(), PidDead>) {
    match result {
        TrackResult::Frame(frame) => exists|sent: Result<(), PidDead>| #[trigger]
            call_ensures(send, (owner, frame_message(token, frame)), (told, sent)) && flow
                == flow_after(sent),
        TrackResult::Failed(e) => reported(owner, token, e.text(), send, told, flow),
        TrackResult::Finished => exists|sent: Result<(), PidDead>| #[trigger]
            call_ensures(send, (owner, Message::TrackFinished { token }), (told, sent)) && flow
                == flow_after(sent),
    }
}

/// A consumer of a broadcast: what its catalog advertises, and the subscribed tracks.
pub struct Driver<N, S, R> {
    pub path: String,
    pub containers: Table<CatalogContainer>,
    pub subs: SubscriptionQueue<N, S, R>,
}

impl<N, S, R> Driver<N, S, R> {
    /// Each name is advertised once, each token subscribed once.
    pub open spec fn wf(self) -> bool {
        &&& self.containers.wf()
        &&& self.subs.wf()
    }

    /// The containers that the catalog advertises, by track.
    pub open spec fn advertised(self) -> Map<Seq<char>, ContainerView> {
        container_views(self.containers@)
    }

    /// Starts to follow a broadcast, once the reader of its catalog is there, and reports so.
    /// Without a reader nothing is reported. Before the first catalog nothing is advertised.
    pub fn run_broadcast<O, Send>(
        path: String,
        broadcast: N,
        catalog: Result<(), String>,
        latency_ns: u64,
        owner: O,
        send: Send,
    ) -> (r: (O, Result<Self, Option<CloseReason>>)) where
        Send: FnOnce(O, Message) -> (O, Result<(), PidDead>),

        requires
            forall|m: Message| call_requires(send, (owner, m)),
        ensures
            match catalog {
                Err(e) => r.0 == owner && r.1 == Err::<Self, Option<CloseReason>>(
                    Some(CloseReason::CatalogError(e)),
                ),
                Ok(()) => exists|told: O, sent: Result<(), PidDead>|
                    {
                        &&& #[trigger] call_ensures(
                            send,
                            (owner, Message::BroadcastReady { path }),
                            (told, sent),
                        )
                        &&& r.0 == told
                        &&& match sent {
                            Err(_) => r.1 == Err::<Self, Option<CloseReason>>(None),
                            Ok(()) => {
                                &&& r.1 matches Ok(driver)
                                &&& driver.wf()
                                &&& driver.path == path
                                &&& driver.advertised() == Map::<Seq<char>, ContainerView>::empty()
                                &&& driver.subs@ == Seq::<Entry<S, R>>::empty()
                                &&& driver.subs.broadcast == broadcast
                                &&& driver.subs.latency_ns == latency_ns
                            },
                        }
                    },
            },
    {
        match catalog {
            Err(e) => (owner, Err(Some(CloseReason::CatalogError(e)))),
            Ok(()) => match send_broadcast_ready(owner, &path, send) {
                (owner, Err(_)) => (owner, Err(None)),
                (owner, Ok(())) => {
                    let driver = Driver {
                        path,
                        containers: Table::new(),
                        subs: SubscriptionQueue::new(broadcast, latency_ns),
                    };
                    assert(driver.advertised() =~= Map::<Seq<char>, ContainerView>::empty());
                    (owner, Ok(driver))
                },
            },
        }
    }

    /// The next event: a command before a catalog, a catalog before a track. What stands further
    /// back is not touched: with a command the catalog's reader comes back as it was, and with a
    /// command or a catalog the subscriptions do.
    pub fn next_event<Q, K, U, Pop, Next, Granted, Open, Read>(
        &mut self,
        queue: Q,
        reader: K,
        pop: Pop,
        next: Next,
        granted: &Granted,
        open: &Open,
        read: &Read,
    ) -> (r: (Q, K, Option<Event>)) where
        Pop: FnOnce(Q) -> (Q, Option<Result<Command, Closed>>),
        Next: FnOnce(K) -> (K, Option<Result<Option<Catalog>, String>>),
        Granted: Fn(S) -> (S, Option<Result<U, String>>),
        Open: Fn(U, WireContainer, u64) -> R,
        Read: Fn(R) -> (R, Option<Result<Option<Frame>, String>>),

        requires
            old(self).wf(),
            call_requires(pop, (queue,)),
            call_requires(next, (reader,)),
            forall|s: S| call_requires(granted, (s,)),
            forall|u: U, wire: WireContainer|
                call_requires(open, (u, wire, old(self).subs.latency_ns)),
            forall|reader: R| call_requires(read, (reader,)),
        ensures
            final(self).wf(),
            final(self).path == old(self).path,
            final(self).containers == old(self).containers,
            final(self).subs.broadcast == old(self).subs.broadcast,
            final(self).subs.latency_ns == old(self).subs.latency_ns,
            exists|after: Q, popped: Option<Result<Command, Closed>>|
                {
                    &&& #[trigger] call_ensures(pop, (queue,), (after, popped))
                    &&& r.0 == after
                    &&& match popped {
                        Some(command) => {
                            &&& r.1 == reader
                            &&& r.2 == Some(Event::Command(command))
                            &&& final(self).subs@ == old(self).subs@
                        },
                        None => exists|after: K, snapshot: Option<Result<Option<Catalog>, String>>|
                            {
                                &&& #[trigger] call_ensures(next, (reader,), (after, snapshot))
                                &&& r.1 == after
                                &&& match snapshot {
                                    Some(snapshot) => {
                                        &&& r.2 == Some(Event::Catalog(snapshot))
                                        &&& final(self).subs@ == old(self).subs@
                                    },
                                    None => exists|
                                        waited: Seq<Entry<S, R>>,
                                        event: Option<(Token, TrackResult)>,
                                    |
                                        {
                                            &&& #[trigger] served(
                                                old(self).subs@,
                                                waited,
                                                old(self).subs.latency_ns,
                                                *granted,
                                                *open,
                                                *read,
                                                final(self).subs@,
                                                event,
                                            )
                                            &&& r.2 == (match event {
                                                Some((token, result)) => Some(
                                                    Event::Track(token, result),
                                                ),
                                                None => None,
                                            })
                                        },
                                }
                            },
                    }
                },
    {
        let (queue, popped) = pop(queue);
        if let Some(command) = popped {
            return (queue, reader, Some(Event::Command(command)));
        }
        let (reader, snapshot) = next(reader);
        if let Some(snapshot) = snapshot {
            return (queue, reader, Some(Event::Catalog(snapshot)));
        }
        match self.subs.poll_event(granted, open, read) {
            Some((token, result)) => (queue, reader, Some(Event::Track(token, result))),
            None => (queue, reader, None),
        }
    }

    /// The container to read a track with, if the catalog advertises one that can be read.
    pub fn get_container(&self, track: &String) -> (r: Result<WireContainer, TrackErrorKind>)
        requires
            self.wf(),
        ensures
            !self.advertised().contains_key(track@) ==> r == Err::<WireContainer, TrackErrorKind>(
                TrackErrorKind::NotAdvertised,
            ),
            self.advertised().contains_key(track@) ==> match container_fault(
                self.advertised()[track@],
            ) {
                None => r matches Ok(wire) && wire@ == self.advertised()[track@],
                Some(reason) => r matches Err(TrackErrorKind::Container(e)) && e@ == reason,
            },
    {
        match self.containers.get(track) {
            None => Err(TrackErrorKind::NotAdvertised),
            Some(container) => match WireContainer::from_catalog(container) {
                Ok(wire) => Ok(wire),
                Err(e) => Err(TrackErrorKind::Container(e)),
            },
        }
    }

    /// Why a track cannot be subscribed to, or `None` if it can.
    pub open spec fn refusal(self, track: Seq<char>) -> Option<Seq<char>> {
        if !self.advertised().contains_key(track) {
            Some("not advertised in the catalog"@)
        } else {
            container_fault(self.advertised()[track])
        }
    }

    /// What carrying out a command comes to. The owner is told of a failed subscription, and of
    /// nothing else.
    pub open spec fn command_handled<O, Ask, Send>(
        self,
        command: Result<Command, Closed>,
        owner: O,
        ask: Ask,
        send: Send,
        next: Self,
        told: O,
        flow: ControlFlow<Option<CloseReason>>,
    ) -> bool where
        Ask: FnOnce(N, String, u8) -> (N, Result<S, String>),
        Send: FnOnce(O, Message) -> (O, Result<(), PidDead>),
     {
        &&& next.path == self.path
        &&& next.containers == self.containers
        &&& next.subs.latency_ns == self.subs.latency_ns
        &&& match command {
            Err(_) => {
                &&& next == self
                &&& told == owner
                &&& flow == ControlFlow::<Option<CloseReason>, ()>::Break(None)
            },
            Ok(Command::Unsubscribe { token }) => {
                &&& next.subs@ == without(self.subs@, token)
                &&& next.subs.broadcast == self.subs.broadcast
                &&& told == owner
                &&& flow == ControlFlow::<Option<CloseReason>, ()>::Continue(())
            },
            Ok(Command::Subscribe { track, token, priority }) => match self.refusal(track@) {
                Some(reason) => {
                    &&& next.subs == self.subs
                    &&& reported(
                        owner,
                        token,
                        track_error_text(track@, reason),
                        send,
                        told,
                        flow,
                    )
                },
                None => exists|after: N, asked: Result<S, String>|
                    {
                        &&& #[trigger] call_ensures(
                            ask,
                            (self.subs.broadcast, track, priority),
                            (after, asked),
                        )
                        &&& next.subs.broadcast == after
                        &&& match asked {
                            Err(e) => {
                                &&& next.subs@ == without(self.subs@, token)
                                &&& reported(
                                    owner,
                                    token,
                                    track_error_text(track@, "subscribe failed: "@ + e@),
                                    send,
                                    told,
                                    flow,
                                )
                            },
                            Ok(asked) => {
                                let entry = next.subs@.last();
                                &&& next.subs@ == without(self.subs@, token).push(entry)
                                &&& entry.token == token
                                &&& entry.track == track
                                &&& entry.state matches Subscription::Pending(pending, wire)
                                &&& pending == asked
                                &&& wire@ == self.advertised()[track@]
                                &&& told == owner
                                &&& flow == ControlFlow::<Option<CloseReason>, ()>::Continue(
                                    (),
                                )
                            },
                        }
                    },
            },
        }
    }

    /// Carries out a command. A subscription that fails is reported under its token; only an
    /// owner that is gone, or that ends the commands, ends the consumer, and silently.
    pub fn handle_command<O, Ask, Send>(
        self,
        command: Result<Command, Closed>,
        owner: O,
        ask: Ask,
        send: Send,
    ) -> (r: (Self, O, ControlFlow<Option<CloseReason>>)) where
        Ask: FnOnce(N, String, u8) -> (N, Result<S, String>),
        Send: FnOnce(O, Message) -> (O, Result<(), PidDead>),

        requires
            self.wf(),
            forall|n: N, track: String, priority: u8| call_requires(ask, (n, track, priority)),
            forall|m: Message| call_requires(send, (owner, m)),
        ensures
            r.0.wf(),
            self.command_handled(command, owner, ask, send, r.0, r.1, r.2),
    {
        let command = match command {
            Err(_) => return (self, owner, ControlFlow::Break(None)),
            Ok(command) => command,
        };
        match command {
            Command::Unsubscribe { token } => {
                let mut driver = self;
                driver.subs.remove(token);
                (driver, owner, ControlFlow::Continue(()))
            },
            Command::Subscribe { track, token, priority } => {
                let container = self.get_container(&track);
                let Driver { path, containers, subs } = self;
                let (subs, result) = match container {
                    Ok(container) => subs.insert(token, track, container, priority, ask),
                    Err(source) => (subs, Err(TrackError { track, source })),
                };
                let driver = Driver { path, containers, subs };
                match result {
                    Ok(()) => (driver, owner, ControlFlow::Continue(())),
                    Err(e) => {
                        let reason = e.message();
                        match send_track_error(owner, token, reason, send) {
                            (owner, Ok(())) => (driver, owner, ControlFlow::Continue(())),
                            (owner, Err(_)) => (driver, owner, ControlFlow::Break(None)),
                        }
                    },
                }
            },
        }
    }

    /// What taking over a catalog comes to. The owner is told the catalog, and nothing where there
    /// is none.
    pub open spec fn catalog_handled<O, Send>(
        self,
        snapshot: Result<Option<Catalog>, String>,
        owner: O,
        send: Send,
        after: Self,
        told: O,
        flow: ControlFlow<Option<CloseReason>>,
    ) -> bool where Send: FnOnce(O, Message) -> (O, Result<(), PidDead>) {
        &&& after.path == self.path
        &&& after.subs == self.subs
        &&& match snapshot {
            Ok(Some(catalog)) => {
                &&& after.advertised() == by_name(container_list(catalog@))
                &&& exists|
                    renditions: Vec<(String, RenditionFormat)>,
                    sent: Result<(), PidDead>,
                |
                    {
                        &&& #[trigger] call_ensures(
                            send,
                            (owner, Message::Catalog { path: self.path, renditions }),
                            (told, sent),
                        )
                        &&& report_view(renditions@) == catalog_report(catalog@)
                        &&& flow == flow_after(sent)
                    }
            },
            Ok(None) => {
                &&& after == self
                &&& told == owner
                &&& flow == ControlFlow::<Option<CloseReason>, ()>::Break(Some(CloseReason::Ended))
            },
            Err(e) => {
                &&& after == self
                &&& told == owner
                &&& flow == ControlFlow::<Option<CloseReason>, ()>::Break(
                    Some(CloseReason::CatalogError(e)),
                )
            },
        }
    }

    /// Takes over a new catalog and passes it on. The end of the broadcast, or a catalog that
    /// cannot be read, ends the consumer.
    pub fn handle_catalog<O, Send>(
        &mut self,
        snapshot: Result<Option<Catalog>, String>,
        owner: O,
        send: Send,
    ) -> (r: (O, ControlFlow<Option<CloseReason>>)) where
        Send: FnOnce(O, Message) -> (O, Result<(), PidDead>),

        requires
            old(self).wf(),
            forall|m: Message| call_requires(send, (owner, m)),
        ensures
            final(self).wf(),
            old(self).catalog_handled(snapshot, owner, send, *final(self), r.0, r.1),
    {
        match snapshot {
            Ok(Some(catalog)) => {
                self.containers = advertised_containers(&catalog);
                match send_catalog(owner, &self.path, &catalog, send) {
                    (owner, Ok(())) => (owner, ControlFlow::Continue(())),
                    (owner, Err(_)) => (owner, ControlFlow::Break(None)),
                }
            },
            Ok(None) => (owner, ControlFlow::Break(Some(CloseReason::Ended))),
            Err(e) => (owner, ControlFlow::Break(Some(CloseReason::CatalogError(e)))),
        }
    }

    /// Passes on what became of a track.
    pub fn handle_track<O, Send>(
        &self,
        token: Token,
        result: TrackResult,
        owner: O,
        send: Send,
    ) -> (r: (O, ControlFlow<Option<CloseReason>>)) where
        Send: FnOnce(O, Message) -> (O, Result<(), PidDead>),

        requires
            forall|m: Message| call_requires(send, (owner, m)),
        ensures
            track_handled(owner, token, result, send, r.0, r.1),
    {
        let (owner, sent) = match result {
            TrackResult::Frame(frame) => send_frame(owner, token, frame, send),
            TrackResult::Failed(e) => send_track_error(owner, token, e.message(), send),
            TrackResult::Finished => send_track_finished(owner, token, send),
        };
        match sent {
            Ok(()) => (owner, ControlFlow::Continue(())),
            Err(_) => (owner, ControlFlow::Break(None)),
        }
    }

    /// What dealing with an event comes to.
    pub open spec fn event_handled<O, Ask, Send>(
        self,
        event: Event,
        owner: O,
        ask: Ask,
        send: Send,
        next: Self,
        told: O,
        flow: ControlFlow<Option<CloseReason>>,
    ) -> bool where
        Ask: FnOnce(N, String, u8) -> (N, Result<S, String>),
        Send: FnOnce(O, Message) -> (O, Result<(), PidDead>),
     {
        match event {
            Event::Command(command) => self.command_handled(
                command,
                owner,
                ask,
                send,
                next,
                told,
                flow,
            ),
            Event::Catalog(snapshot) => self.catalog_handled(
                snapshot,
                owner,
                send,
                next,
                told,
                flow,
            ),
            Event::Track(token, result) => next == self && track_handled(
                owner,
                token,
                result,
                send,
                told,
                flow,
            ),
        }
    }

    /// Deals with an event, and says whether the consumer goes on.
    pub fn handle_event<O, Ask, Send>(self, event: Event, owner: O, ask: Ask, send: Send) -> (r: (
        Self,
        O,
        ControlFlow<Option<CloseReason>>,
    )) where
        Ask: FnOnce(N, String, u8) -> (N, Result<S, String>),
        Send: FnOnce(O, Message) -> (O, Result<(), PidDead>),

        requires
            self.wf(),
            forall|n: N, track: String, priority: u8| call_requires(ask, (n, track, priority)),
            forall|m: Message| call_requires(send, (owner, m)),
        ensures
            r.0.wf(),
            self.event_handled(event, owner, ask, send, r.0, r.1, r.2),
    {
        match event {
            Event::Command(command) => self.handle_command(command, owner, ask, send),
            Event::Catalog(snapshot) => {
                let mut driver = self;
                let (owner, flow) = driver.handle_catalog(snapshot, owner, send);
                (driver, owner, flow)
            },
            Event::Track(token, result) => {
                let (owner, flow) = self.handle_track(token, result, owner, send);
                (self, owner, flow)
            },
        }
    }
}

/// A consumer that comes to its end by itself has told nothing in the step that ended it, and one
/// whose owner is gone has no reason left to tell: the reason is told once, by the guard.
pub proof fn law_reason_is_left_to_the_guard<N, S, R, O, Ask, Send>(
    driver: Driver<N, S, R>,
    event: Event,
    owner: O,
    ask: Ask,
    send: Send,
    next: Driver<N, S, R>,
    told: O,
    why: CloseReason,
) where
    Ask: FnOnce(N, String, u8) -> (N, Result<S, String>),
    Send: FnOnce(O, Message) -> (O, Result<(), PidDead>),

    requires
        driver.event_handled(
            event,
            owner,
            ask,
            send,
            next,
            told,
            ControlFlow::Break(Some(why)),
        ),
    ensures
        told == owner,
        next == driver,
        why == (match event {
            Event::Catalog(Err(e)) => CloseReason::CatalogError(e),
            _ => CloseReason::Ended,
        }),
{
}

/// A subscriber can read every track that a publisher put into its catalog: once the catalog
/// has come in, a subscription to such a track is not refused.
pub proof fn law_published_track_can_be_subscribed<N, S, R>(
    driver: Driver<N, S, R>,
    catalog: CatalogView,
    track: Seq<char>,
    container: Container,
)
    requires
        driver.advertised() == by_name(container_list(catalog)),
        by_name(container_list(catalog)).contains_key(track),
        by_name(container_list(catalog))[track] == container.as_catalog(),
    ensures
        driver.refusal(track) is None,
{
}

/// A consumer reads a track in the container that it was published in: its subscription, once the
/// stack takes it, waits to be read in that container.
pub proof fn law_track_is_read_in_its_published_container<N, S, R, O, Ask, Send>(
    driver: Driver<N, S, R>,
    track: String,
    token: Token,
    priority: u8,
    container: Container,
    owner: O,
    ask: Ask,
    send: Send,
    next: Driver<N, S, R>,
    told: O,
    flow: ControlFlow<Option<CloseReason>>,
) where
    Ask: FnOnce(N, String, u8) -> (N, Result<S, String>),
    Send: FnOnce(O, Message) -> (O, Result<(), PidDead>),

    requires
        driver.advertised().contains_key(track@),
        driver.advertised()[track@] == container.as_catalog(),
        forall|n: N, asked: Result<S, String>|
            call_ensures(ask, (driver.subs.broadcast, track, priority), (n, asked)) ==> asked is Ok,
        driver.command_handled(
            Ok(Command::Subscribe { track, token, priority }),
            owner,
            ask,
            send,
            next,
            told,
            flow,
        ),
    ensures
        flow == ControlFlow::<Option<CloseReason>, ()>::Continue(()),
        next.subs@.len() > 0,
        next.subs@.last().token == token,
        next.subs@.last().state matches Subscription::Pending(_, wire) && wire@
            == container.on_wire()@,
{
}

/// A track that a catalog names, among the videos or the audios, is advertised.
pub proof fn law_every_rendition_is_advertised(catalog: CatalogView)
    ensures
        forall|i: int|
            0 <= i < catalog.videos.len() ==> by_name(container_list(catalog)).contains_key(
                #[trigger] catalog.videos[i].0,
            ),
        forall|i: int|
            0 <= i < catalog.audios.len() ==> by_name(container_list(catalog)).contains_key(
                #[trigger] catalog.audios[i].0,
            ),
{
    let all = container_list(catalog);
    assert forall|i: int| 0 <= i < catalog.videos.len() implies by_name(all).contains_key(
        #[trigger] catalog.videos[i].0,
    ) by {
        lemma_by_name_contains(all, i);
    }
    assert forall|i: int| 0 <= i < catalog.audios.len() implies by_name(all).contains_key(
        #[trigger] catalog.audios[i].0,
    ) by {
        lemma_by_name_contains(all, catalog.videos.len() + i);
    }
}

/// A track that the latest catalog does not name cannot be subscribed to, whatever earlier
/// catalogs named.
pub proof fn law_withdrawn_track_is_refused<N, S, R>(
    driver: Driver<N, S, R>,
    catalog: CatalogView,
    track: Seq<char>,
)
    requires
        driver.advertised() == by_name(container_list(catalog)),
        forall|i: int| 0 <= i < catalog.videos.len() ==> (#[trigger] catalog.videos[i]).0 != track,
        forall|i: int| 0 <= i < catalog.audios.len() ==> (#[trigger] catalog.audios[i]).0 != track,
    ensures
        driver.refusal(track) == Some("not advertised in the catalog"@),
{
    let all = container_list(catalog);
    if by_name(all).contains_key(track) {
        lemma_by_name_bounded(all, track);
        let i = choose|i: int| 0 <= i < all.len() && (#[trigger] all[i]).0 == track && all[i].1
            == by_name(all)[track];
        if i < catalog.videos.len() {
            assert(catalog.videos[i].0 == track);
        } else {
            assert(catalog.audios[i - catalog.videos.len()].0 == track);
        }
    }
}

} // verus!
