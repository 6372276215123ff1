//! Tasks that pump single tracks, and publishers and subscribers of opaque segments.

use std::collections::HashMap;

use vstd::prelude::*;

use crate::broadcast_consumer::pump::{Progress, Pump};
use crate::broadcast_consumer::subscriptions::{
    run_subscription, Subscriptions, TaskEnd, TaskError,
};
use crate::broadcast_consumer::Closed;
use crate::frame::Frame;
use crate::laws::messages::tells_frame;
use crate::laws::tools::is_number;
use crate::membrane::messages as membrane;
use crate::membrane::publisher::{
    handle_segment, start_publisher, start_subscriber, try_start_publisher, Publisher,
    PublisherCmd, PublisherEvent, PublisherResource, SegmentEvent, SegmentMessage,
    SubscriberResource,
};
use crate::messages::{Message, PidDead, Token};
use crate::reply::Atom;
use crate::stack::url_verdict;
use crate::tokens::tokens_of;
use crate::track_format::WireContainer;

verus! {

broadcast use vstd::std_specs::hash::group_hash_axioms;

/// A pump holds what it was made of, asks for its own track at its own priority, and opens it in
/// its own container with its own latency.
pub proof fn law_pump_serves_its_own_track<B, U, R, Open>(
    broadcast: B,
    track: String,
    wire: WireContainer,
    token: Token,
    priority: u8,
    latency_ns: u64,
    pump: Pump<B>,
    asked: (&String, u8),
    subscriber: U,
    open: Open,
    reader: R,
) where Open: FnOnce(U, WireContainer, u64) -> R
    requires
        call_ensures(
            Pump::<B>::new,
            (broadcast, track, wire, token, priority, latency_ns),
            pump,
        ),
        call_ensures(Pump::<B>::subscription, (&pump,), asked),
        call_ensures(Pump::<B>::open::<U, R, Open>, (&pump, subscriber, open), reader),
    ensures
        pump.broadcast == broadcast,
        pump.token == token,
        pump.track == track,
        *asked.0 == track,
        asked.1 == priority,
        exists|opened: WireContainer|
            {
                &&& #[trigger] call_ensures(open, (subscriber, opened, latency_ns), reader)
                &&& match (opened, wire) {
                    (WireContainer::Legacy, WireContainer::Legacy) => true,
                    (WireContainer::Loc, WireContainer::Loc) => true,
                    (WireContainer::Cmaf(a), WireContainer::Cmaf(b)) => a@ == b@,
                    _ => false,
                }
            },
{
}

/// The faults of a pump are passed on in words, with the name of its track.
pub proof fn law_pump_faults_in_words<B, T>(
    pump: Pump<B>,
    result: Result<T, String>,
    found: Result<T, String>,
    subscribed: Result<T, String>,
)
    requires
        call_ensures(Pump::<B>::found::<T>, (&pump, result), found),
        call_ensures(Pump::<B>::subscribed::<T>, (&pump, result), subscribed),
    ensures
        result matches Ok(t) ==> found == Ok::<T, String>(t) && subscribed == Ok::<T, String>(t),
        result matches Err(reason) ==> {
            &&& found matches Err(e)
            &&& e@ == "track("@ + pump.track@ + ") failed: "@ + reason@
        },
        result matches Err(reason) ==> {
            &&& subscribed matches Err(e)
            &&& e@ == "subscribe("@ + pump.track@ + ") failed: "@ + reason@
        },
{
    reveal_strlit("");
    if let Err(reason) = result {
        assert("track("@ + pump.track@ + (") failed: "@ + reason@ + ""@) =~= "track("@
            + pump.track@ + ") failed: "@ + reason@);
        assert("subscribe("@ + pump.track@ + (") failed: "@ + reason@ + ""@) =~= "subscribe("@
            + pump.track@ + ") failed: "@ + reason@);
    }
}

/// A pump, and a task, tell each frame once under their token, and tell nothing else.
pub proof fn law_tasks_tell_frames<B, O, S>(
    pump: Pump<B>,
    token: Token,
    read: Result<Option<Frame>, String>,
    owner: O,
    send: S,
    pumped: (O, Progress),
    run: (O, Option<Result<(), TaskError>>),
) where S: FnOnce(O, Message) -> (O, Result<(), PidDead>)
    requires
        call_ensures(Pump::<B>::run::<O, S>, (&pump, read, owner, send), pumped),
        call_ensures(run_subscription::<O, S>, (token, read, owner, send), run),
    ensures
        read matches Err(e) ==> {
            &&& pumped.0 == owner
            &&& pumped.1 == Progress::Failed(e)
            &&& run.0 == owner
            &&& run.1 == Some(Err::<(), TaskError>(TaskError::ReadFailed(e)))
        },
        read matches Ok(None) ==> {
            &&& pumped.0 == owner
            &&& pumped.1 is Finished
            &&& run.0 == owner
            &&& run.1 matches Some(Ok(_))
        },
        read matches Ok(Some(frame)) ==> exists|m: Message, told: O, sent: Result<(), PidDead>|
            {
                &&& #[trigger] call_ensures(send, (owner, m), (told, sent))
                &&& tells_frame(m, pump.token, frame)
                &&& pumped.0 == told
                &&& sent is Ok ==> pumped.1 is Reading
                &&& sent is Err ==> (pumped.1 matches Progress::Failed(e) && e@
                    == "consumer pid is dead"@)
            },
        read matches Ok(Some(frame)) ==> exists|m: Message, told: O, sent: Result<(), PidDead>|
            {
                &&& #[trigger] call_ensures(send, (owner, m), (told, sent))
                &&& tells_frame(m, token, frame)
                &&& run.0 == told
                &&& sent is Ok ==> run.1 is None
                &&& sent is Err ==> (run.1 matches Some(Ok(_)))
            },
{
    if let Ok(Some(frame)) = read {
        let m = crate::messages::frame_message(pump.token, frame);
        assert(tells_frame(m, pump.token, frame));
        let (told, sent) = choose|told: O, sent: Result<(), PidDead>|
            {
                &&& #[trigger] call_ensures(send, (owner, m), (told, sent))
                &&& pumped.0 == told
                &&& match sent {
                    Ok(()) => pumped.1 == Progress::Reading,
                    Err(_) => pumped.1 matches Progress::Failed(e) && e@
                        == "consumer pid is dead"@,
                }
            };
        assert(call_ensures(send, (owner, m), (told, sent)));
        let n = crate::messages::frame_message(token, frame);
        assert(tells_frame(n, token, frame));
        let (heard, gone) = choose|told: O, sent: Result<(), PidDead>|
            {
                &&& #[trigger] call_ensures(send, (owner, n), (told, sent))
                &&& run.0 == told
                &&& run.1 == (match sent {
                    Ok(()) => None,
                    Err(_) => Some(Ok::<(), TaskError>(())),
                })
            };
        assert(call_ensures(send, (owner, n), (heard, gone)));
    }
}

/// A task is started for a track that was found, with the token, container and priority asked for
/// and the latency of the consumer, and only then the earlier one of the token is aborted; where
/// the track is not found no task is touched.
pub proof fn law_task_is_started<N, J, H, T, TrackOf, Spawn, Abort>(
    before: Subscriptions<N, J, H>,
    token: Token,
    track: String,
    container: WireContainer,
    priority: u8,
    track_of: TrackOf,
    spawn: Spawn,
    abort: Abort,
    r: (Subscriptions<N, J, H>, Result<(), TaskError>),
) where
    TrackOf: FnOnce(N, String) -> (N, Result<T, String>),
    Spawn: FnOnce(J, Token, T, WireContainer, u8, u64) -> (J, H),
    Abort: FnOnce(J, H) -> J,

    requires
        call_ensures(
            Subscriptions::<N, J, H>::subscribe::<T, TrackOf, Spawn, Abort>,
            (before, token, track, container, priority, track_of, spawn, abort),
            r,
        ),
    ensures
        r.0.latency_ns == before.latency_ns,
        r.1 is Err ==> r.0.aborts@ == before.aborts@ && r.0.tasks == before.tasks,
        exists|t: Result<T, String>|
            {
                &&& #[trigger] call_ensures(
                    track_of,
                    (before.broadcast, track),
                    (r.0.broadcast, t),
                )
                &&& t matches Err(e) ==> r.1 == Err::<(), TaskError>(
                    TaskError::SubscribeFailed(e),
                )
                &&& t matches Ok(t) ==> r.1 is Ok && exists|running: J, task: H|
                    {
                        &&& #[trigger] call_ensures(
                            spawn,
                            (
                                before.tasks,
                                token,
                                t,
                                container,
                                priority,
                                before.latency_ns,
                            ),
                            (running, task),
                        )
                        &&& r.0.aborts@ == before.aborts@.insert(token, task)
                        &&& before.aborts@.contains_key(token) ==> call_ensures(
                            abort,
                            (running, before.aborts@[token]),
                            r.0.tasks,
                        )
                        &&& !before.aborts@.contains_key(token) ==> r.0.tasks == running
                    }
            },
{
}

/// Subscriptions start empty; giving one up aborts its task and no other.
pub proof fn law_task_is_aborted<N, J, H, Abort>(
    broadcast: N,
    latency_ns: u64,
    tasks: J,
    fresh: Subscriptions<N, J, H>,
    before: Subscriptions<N, J, H>,
    token: Token,
    abort: Abort,
    r: Subscriptions<N, J, H>,
) where Abort: FnOnce(J, H) -> J
    requires
        call_ensures(Subscriptions::<N, J, H>::new, (broadcast, latency_ns, tasks), fresh),
        call_ensures(
            Subscriptions::<N, J, H>::unsubscribe::<Abort>,
            (before, token, abort),
            r,
        ),
    ensures
        fresh.broadcast == broadcast,
        fresh.latency_ns == latency_ns,
        fresh.tasks == tasks,
        forall|token: Token| !fresh.aborts@.contains_key(token),
        r.broadcast == before.broadcast,
        r.latency_ns == before.latency_ns,
        r.aborts@ == before.aborts@.remove(token),
        before.aborts@.contains_key(token) ==> call_ensures(
            abort,
            (before.tasks, before.aborts@[token]),
            r.tasks,
        ),
        !before.aborts@.contains_key(token) ==> r.tasks == before.tasks,
{
}

/// The end of a task is that of the subscription whose token it hands back, or whose handle is that
/// of the task that panicked; a task that was cancelled has none.
pub proof fn law_end_of_a_task_is_noted<N, J, H, IsIt>(
    end: TaskEnd,
    is_it: IsIt,
    r: Option<(Token, Result<(), TaskError>)>,
) where IsIt: Fn(&H) -> bool
    ensures
        forall|d: &mut Subscriptions<N, J, H>| #[trigger]
            call_ensures(
                Subscriptions::<N, J, H>::finished::<IsIt>,
                (d, end, is_it),
                r,
            ) ==> {
                &&& final(d).broadcast == d.broadcast
                &&& final(d).latency_ns == d.latency_ns
                &&& final(d).tasks == d.tasks
                &&& r is None ==> final(d).aborts@ == d.aborts@
                &&& r matches Some((token, _)) ==> final(d).aborts@ == d.aborts@.remove(token)
                &&& end matches TaskEnd::Returned(token, result) ==> r == Some((token, result))
                &&& end is Cancelled ==> r is None
                &&& end matches TaskEnd::Panicked(e) ==> match r {
                    Some((token, result)) => {
                        &&& d.aborts@.contains_key(token)
                        &&& call_ensures(is_it, (&d.aborts@[token],), true)
                        &&& result == Err::<(), TaskError>(TaskError::Panicked(e))
                    },
                    None => forall|other: Token|
                        #![trigger d.aborts@.contains_key(other)]
                        d.aborts@.contains_key(other) ==> call_ensures(
                            is_it,
                            (&d.aborts@[other],),
                            false,
                        ),
                }
            },
{
}

/// A walk over a map comes by each of its tokens once.
pub proof fn law_tokens_are_walked_once<V>(map: HashMap<Token, V>, r: Vec<Token>)
    requires
        call_ensures(tokens_of::<V>, (&map,), r),
    ensures
        r@.no_duplicates(),
        forall|token: Token| #[trigger] r@.contains(token) <==> map@.contains_key(token),
{
}

/// A publisher of segments is started with what the parser made of the URL; a text that is no URL
/// starts none.
pub proof fn law_publisher_is_started<Rt, R, Spawn>(
    runtime: Rt,
    url: &str,
    spawn: Spawn,
    started: (Rt, (Atom, R)),
    tried: (Rt, Option<(Atom, R)>),
) where Spawn: FnOnce(Rt, String) -> (Rt, R)
    ensures
        call_ensures(start_publisher::<Rt, R, Spawn>, (runtime, url, spawn), started) ==> {
            &&& started.1.0 is Done
            &&& exists|text: String| #[trigger]
                call_ensures(spawn, (runtime, text), (started.0, started.1.1)) && url_verdict(url@)
                    == Ok::<Seq<char>, Seq<char>>(text@)
        },
        call_ensures(try_start_publisher::<Rt, R, Spawn>, (runtime, url, spawn), tried) ==> {
            &&& url_verdict(url@) is Err ==> tried.0 == runtime && tried.1 is None
            &&& url_verdict(url@) matches Ok(parsed) ==> (tried.1 matches Some((atom, resource))
                && atom is Done && exists|text: String| #[trigger]
                call_ensures(spawn, (runtime, text), (tried.0, resource)) && text@ == parsed)
        },
{
}

/// The owner of a publisher hears that it is connected before the track of its catalog is created,
/// which is named `catalog`; no other track is there yet.
pub proof fn law_publisher_connects<B, T, O, S, Create>(
    broadcast: B,
    owner: O,
    send: S,
    create: Create,
    r: (O, Publisher<B, T>),
) where
    S: FnOnce((B, O), membrane::Message) -> ((B, O), Result<(), PidDead>),
    Create: FnOnce(B, String) -> (B, T),

    requires
        call_ensures(
            Publisher::<B, T>::connected::<O, S, Create>,
            (broadcast, owner, send, create),
            r,
        ),
    ensures
        forall|id: u32| !r.1.tracks@.contains_key(id),
        exists|mid: B, sent: Result<(), PidDead>, name: String|
            {
                &&& #[trigger] call_ensures(
                    send,
                    ((broadcast, owner), membrane::Message::Connected),
                    ((mid, r.0), sent),
                )
                &&& #[trigger] call_ensures(
                    create,
                    (mid, name),
                    (r.1.broadcast, r.1.catalog),
                )
                &&& name@ == "catalog"@
            },
{
    let (told, sent, name, after, catalog) = choose|
        told: (B, O),
        sent: Result<(), PidDead>,
        name: String,
        after: B,
        catalog: T,
    |
        {
            &&& #[trigger] call_ensures(
                send,
                ((broadcast, owner), membrane::Message::Connected),
                (told, sent),
            )
            &&& #[trigger] call_ensures(create, (told.0, name), (after, catalog))
            &&& name@ == "catalog"@
            &&& r.0 == told.1
            &&& r.1.broadcast == after
            &&& r.1.catalog == catalog
        };
    assert(told == (told.0, r.0));
    assert(call_ensures(
        send,
        ((broadcast, owner), membrane::Message::Connected),
        ((told.0, r.0), sent),
    ));
    assert(call_ensures(create, (told.0, name), (r.1.broadcast, r.1.catalog)));
}

/// A publisher creates a track under the number that it was asked for, written in decimal; a
/// segment goes once to its own track, as it is, or is dropped where there is none; a stop, the end
/// of the commands and the end of the session end it, and nothing else does.
pub proof fn law_publisher_carries_out_commands<B, T, Create, Append>(
    before: Publisher<B, T>,
    event: PublisherEvent,
    create: Create,
    append: Append,
    r: (Publisher<B, T>, bool),
) where Create: FnOnce(B, String) -> (B, T), Append: FnOnce(T, Vec<u8>) -> T
    requires
        call_ensures(
            Publisher::<B, T>::handle::<Create, Append>,
            (before, event, create, append),
            r,
        ),
    ensures
        r.0.catalog == before.catalog,
        !r.1 ==> r.0 == before,
        event is Closed ==> !r.1,
        event matches PublisherEvent::Command(None) ==> !r.1,
        event matches PublisherEvent::Command(Some(PublisherCmd::Stop)) ==> !r.1,
        event matches PublisherEvent::Command(Some(PublisherCmd::AddTrack { track_id })) ==> r.1
            && exists|name: String, track: T|
            {
                &&& #[trigger] call_ensures(
                    create,
                    (before.broadcast, name),
                    (r.0.broadcast, track),
                )
                &&& is_number(name@, track_id as int)
                &&& r.0.tracks@ == before.tracks@.insert(track_id, track)
            },
        event matches PublisherEvent::Command(Some(PublisherCmd::Frame { track_id, data })) ==> {
            &&& r.1
            &&& r.0.broadcast == before.broadcast
            &&& !before.tracks@.contains_key(track_id) ==> r.0.tracks@ == before.tracks@
            &&& before.tracks@.contains_key(track_id) ==> exists|track: T|
                {
                    &&& #[trigger] call_ensures(append, (before.tracks@[track_id], data), track)
                    &&& r.0.tracks@ == before.tracks@.insert(track_id, track)
                }
        },
{
    if let PublisherEvent::Command(Some(PublisherCmd::AddTrack { track_id })) = event {
        crate::laws::tools::lemma_decimal(track_id as nat);
        let (name, after, track) = choose|name: String, after: B, track: T|
            {
                &&& #[trigger] call_ensures(create, (before.broadcast, name), (after, track))
                &&& name@ == crate::text::decimal_text(track_id as nat)
                &&& r.0.broadcast == after
                &&& r.0.tracks@ == before.tracks@.insert(track_id, track)
                &&& r.1
            };
        assert(call_ensures(create, (before.broadcast, name), (r.0.broadcast, track)));
    }
}

/// A publisher and a subscriber of segments are asked exactly what their owner asked for, and that
/// is always answered `ok`.
pub proof fn law_segments_are_queued<Tx, Push, Halt>(
    publisher: PublisherResource<Tx>,
    subscriber: SubscriberResource<Tx>,
    track_id: u32,
    data: Vec<u8>,
    push: Push,
    halt: Halt,
    sent: Atom,
    added: Atom,
    stopped: Atom,
    halted: Atom,
) where
    Push: FnOnce(&Tx, PublisherCmd) -> Result<(), Closed>,
    Halt: FnOnce(&Tx) -> Result<(), Closed>,

    requires
        call_ensures(
            PublisherResource::<Tx>::send_segment::<Push>,
            (&publisher, track_id, data, push),
            sent,
        ),
        call_ensures(
            PublisherResource::<Tx>::add_track::<Push>,
            (&publisher, track_id, push),
            added,
        ),
        call_ensures(
            PublisherResource::<Tx>::stop_publisher::<Push>,
            (&publisher, push),
            stopped,
        ),
        call_ensures(
            SubscriberResource::<Tx>::stop_subscriber::<Halt>,
            (&subscriber, halt),
            halted,
        ),
    ensures
        sent is Done,
        added is Done,
        stopped is Done,
        halted is Done,
        exists|pushed: Result<(), Closed>| #[trigger]
            call_ensures(push, (&publisher.tx, PublisherCmd::Frame { track_id, data }), pushed),
        exists|pushed: Result<(), Closed>| #[trigger]
            call_ensures(push, (&publisher.tx, PublisherCmd::AddTrack { track_id }), pushed),
        exists|pushed: Result<(), Closed>| #[trigger]
            call_ensures(push, (&publisher.tx, PublisherCmd::Stop), pushed),
        exists|pushed: Result<(), Closed>| #[trigger]
            call_ensures(halt, (&subscriber.tx,), pushed),
{
}

/// A subscriber to segments is started for the server, the broadcast and the track asked for; it
/// passes each segment on as it is, and goes on; whatever else happens it tells as its end.
pub proof fn law_segments_are_passed_on<Rt, R, Spawn, O, S>(
    runtime: Rt,
    url: String,
    broadcast: String,
    track: String,
    spawn: Spawn,
    started: (Rt, (Atom, R)),
    event: SegmentEvent,
    owner: O,
    send: S,
    r: (O, bool),
    m: SegmentMessage,
    tag: &'static str,
) where
    Spawn: FnOnce(Rt, String, String, String) -> (Rt, R),
    S: FnOnce(O, SegmentMessage) -> O,

    requires
        call_ensures(
            start_subscriber::<Rt, R, Spawn>,
            (runtime, url, broadcast, track, spawn),
            started,
        ),
        call_ensures(handle_segment::<O, S>, (event, owner, send), r),
        call_ensures(SegmentMessage::tag, (&m,), tag),
    ensures
        started.1.0 is Done,
        call_ensures(spawn, (runtime, url, broadcast, track), (started.0, started.1.1)),
        r.1 <==> event is Frame,
        event matches SegmentEvent::Frame(payload) ==> call_ensures(
            send,
            (owner, SegmentMessage::Frame { payload }),
            r.0,
        ),
        !(event is Frame) ==> call_ensures(send, (owner, SegmentMessage::Disconnected), r.0),
        m is Frame ==> tag@ == "moq_frame"@,
        m is Disconnected ==> tag@ == "moq_disconnected"@,
{
}

} // verus!
