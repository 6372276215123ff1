//! Sources: the catalog that one follows, its subscriptions and its course.

use vstd::prelude::*;

use crate::broadcast_consumer::Closed;
use crate::frame::{Frame, Timestamp};
use crate::laws::answers::fails_with_text;
use crate::laws::catalogs::{lemma_takes_over, takes_over};
use crate::laws::formats::format_tells;
use crate::membrane::messages::{
    send_frame, send_track_ended, send_track_format, send_tracks, Message, TrackEntry,
};
use crate::membrane::source::{advance, advanced, Phase, SourceEvent, Turn};
use crate::membrane::subscriber::{
    announced_broadcast, await_broadcast, catalog_handled, catalog_updated, command_handled,
    event_handled, handle_command, handle_new_catalog, has_start, params_views, pump_frames,
    pump_started, pump_track, pumps_started_along, resolved_by, run_pump, run_session,
    session_ended, start_pumps, start_subscriber, started_from, subscribe_catalog, track_request,
    Awaited, Command, LoopState, SessionEvent, SessionStep, Start, SubscriberResource,
};
use crate::membrane::track_format::{TrackFormat, TrackParams};
use crate::messages::{Catalog, PidDead, Token};
use crate::reply::{Atom, NifError};
use crate::stack::url_verdict;
use crate::table::Table;
use crate::text::debug_text;

verus! {

broadcast use vstd::std_specs::hash::group_hash_axioms;

/// Each message starts with the atom of its kind.
pub proof fn law_source_messages_are_tagged(m: Message, tag: &'static str)
    requires
        call_ensures(Message::tag, (&m,), tag),
    ensures
        m is Connected ==> tag@ == "moq_connected"@,
        m is SetupFailed ==> tag@ == "moq_setup_failed"@,
        m is Disconnected ==> tag@ == "moq_disconnected"@,
        m is Tracks ==> tag@ == "moq_tracks"@,
        m is TrackAdded ==> tag@ == "moq_track_added"@,
        m is TrackRemoved ==> tag@ == "moq_track_removed"@,
        m is TrackFormat ==> tag@ == "moq_track_format"@,
        m is Frame ==> tag@ == "moq_frame"@,
        m is TrackEnded ==> tag@ == "moq_track_ended"@,
{
}

/// Whether a list of formats tells tracks, each under its name with its own format.
pub open spec fn tells_tracks(list: Seq<(String, TrackFormat)>, tracks: Seq<TrackEntry>) -> bool {
    &&& list.len() == tracks.len()
    &&& forall|i: int|
        0 <= i < tracks.len() ==> (#[trigger] list[i]).0@ == tracks[i].name@ && format_tells(
            list[i].1,
            tracks[i].params,
        )
}

/// All tracks are told at once, each with its own format; the format of one track alone is told
/// under its token; so is the end of a track.
pub proof fn law_tracks_are_told<O, S>(
    owner: O,
    tracks: Vec<TrackEntry>,
    token: Token,
    params: TrackParams,
    reason: String,
    send: S,
    all: (O, Result<(), PidDead>),
    one: O,
    ended: O,
) where S: FnOnce(O, Message) -> (O, Result<(), PidDead>)
    requires
        call_ensures(send_tracks::<O, S>, (owner, &tracks, send), all),
        call_ensures(send_track_format::<O, S>, (owner, token, &params, send), one),
        call_ensures(send_track_ended::<O, S>, (owner, token, reason, send), ended),
    ensures
        exists|list: Vec<(String, TrackFormat)>|
            {
                &&& #[trigger] call_ensures(send, (owner, Message::Tracks { tracks: list }), all)
                &&& tells_tracks(list@, tracks@)
            },
        exists|format: TrackFormat, sent: Result<(), PidDead>|
            {
                &&& #[trigger] call_ensures(
                    send,
                    (owner, Message::TrackFormat { token, format }),
                    (one, sent),
                )
                &&& format_tells(format, params)
            },
        exists|sent: Result<(), PidDead>| #[trigger]
            call_ensures(send, (owner, Message::TrackEnded { token, reason }), (ended, sent)),
{
    let list = choose|list: Vec<(String, TrackFormat)>|
        {
            &&& #[trigger] call_ensures(send, (owner, Message::Tracks { tracks: list }), all)
            &&& crate::membrane::messages::formats_view(list@)
                == crate::membrane::messages::entries_view(tracks@)
        };
    let formats = crate::membrane::messages::formats_view(list@);
    let entries = crate::membrane::messages::entries_view(tracks@);
    assert(formats.len() == entries.len());
    assert forall|i: int| 0 <= i < tracks@.len() implies (#[trigger] list@[i]).0@
        == tracks@[i].name@ && format_tells(list@[i].1, tracks@[i].params) by {
        assert(formats[i] == entries[i]);
    }
    assert(tells_tracks(list@, tracks@));
}

/// Whether a message tells a frame under a token: its payload, its keyframe flag, and its time in
/// microseconds as a signed number holds it, at whatever scale it is counted.
pub open spec fn tells_frame_in_micros(m: Message, token: Token, frame: Frame) -> bool {
    &&& m matches Message::Frame { token: told, payload, timestamp_us, keyframe }
    &&& told == token
    &&& payload == frame.payload
    &&& keyframe == frame.keyframe
    &&& forall|ticks: u64, scale: u64|
        #![trigger call_ensures(Timestamp::ticks, (&frame.timestamp,), ticks),
            call_ensures(Timestamp::scale, (&frame.timestamp,), scale)]
        call_ensures(Timestamp::ticks, (&frame.timestamp,), ticks) && call_ensures(
            Timestamp::scale,
            (&frame.timestamp,),
            scale,
        ) ==> {
            let low = ((ticks * 1_000_000) / scale as int) % 0x1_0000_0000_0000_0000;
            timestamp_us as int == (if low < 0x8000_0000_0000_0000 {
                low
            } else {
                low - 0x1_0000_0000_0000_0000
            })
        }
}

/// A frame is told once, under the token of its subscription, with its own payload, keyframe flag
/// and time.
pub proof fn law_source_frame_is_told<O, S>(
    owner: O,
    token: Token,
    frame: Frame,
    send: S,
    r: (O, Result<(), PidDead>),
) where S: FnOnce(O, Message) -> (O, Result<(), PidDead>)
    requires
        call_ensures(send_frame::<O, S>, (owner, token, frame, send), r),
    ensures
        exists|m: Message| #[trigger]
            call_ensures(send, (owner, m), r) && tells_frame_in_micros(m, token, frame),
{
    let m = crate::membrane::messages::frame_message(token, frame);
    assert(tells_frame_in_micros(m, token, frame));
}

/// Whether a command had the given outcome. A subscription to an advertised track starts at once,
/// with the format that the catalog says; one to any other waits. A subscription that is given up
/// no longer waits, and its pump is to be cancelled.
pub open spec fn obeys<X, Y, Channel>(
    command: Command,
    before: LoopState<X, Y>,
    channel: Channel,
    after: LoopState<X, Y>,
    start: Option<Start<Y>>,
    cancel: Option<X>,
) -> bool where Channel: FnOnce() -> (X, Y) {
    &&& after.params == before.params
    &&& command matches Command::Unsubscribe { token } ==> {
        &&& start is None
        &&& after.cancels@ == before.cancels@.remove(token)
        &&& after.pending@ == before.pending@.remove(token)
        &&& before.cancels@.contains_key(token) ==> cancel == Some(before.cancels@[token])
        &&& !before.cancels@.contains_key(token) ==> cancel is None
    }
    &&& command matches Command::Subscribe { track, token } ==> cancel is None && exists|x: X, y: Y|
        {
            &&& #[trigger] call_ensures(channel, (), (x, y))
            &&& after.cancels@ == before.cancels@.insert(token, x)
            &&& before.params@.contains_key(track@) ==> {
                &&& after.pending@ == before.pending@
                &&& start matches Some(start)
                &&& start.track == track
                &&& start.token == token
                &&& start.cancel == y
                &&& format_tells(start.format, before.params@[track@])
            }
            &&& !before.params@.contains_key(track@) ==> {
                &&& start is None
                &&& after.pending@ == before.pending@.insert(token, (track, y))
            }
        }
}

proof fn lemma_obeys<X, Y, Channel>(
    command: Command,
    before: LoopState<X, Y>,
    channel: Channel,
    after: LoopState<X, Y>,
    start: Option<Start<Y>>,
    cancel: Option<X>,
) where Channel: FnOnce() -> (X, Y)
    requires
        command_handled(command, before, channel, after, start, cancel),
    ensures
        obeys(command, before, channel, after, start, cancel),
{
    if let Command::Subscribe { track, token } = command {
        let views = before.advertised();
        assert(views.contains_key(track@) == before.params@.contains_key(track@));
        if before.params@.contains_key(track@) {
            assert(views[track@] == before.params@[track@]@);
        }
    }
}

/// Whether the waiting subscriptions whose track is advertised start, each once and with the format
/// of its track, and all others wait on.
pub open spec fn starts_the_ready<Y>(
    pending: Map<Token, (String, Y)>,
    params: Map<Seq<char>, TrackParams>,
    left: Map<Token, (String, Y)>,
    starts: Seq<Start<Y>>,
) -> bool {
    &&& forall|token: Token| #[trigger]
        left.contains_key(token) <==> pending.contains_key(token) && !params.contains_key(
            pending[token].0@,
        )
    &&& forall|token: Token| #[trigger]
        left.contains_key(token) ==> left[token] == pending[token]
    &&& forall|i: int|
        0 <= i < starts.len() ==> {
            let start = #[trigger] starts[i];
            &&& pending.contains_key(start.token)
            &&& pending[start.token].0 == start.track
            &&& pending[start.token].1 == start.cancel
            &&& params.contains_key(start.track@)
            &&& format_tells(start.format, params[start.track@])
        }
    &&& forall|i: int, j: int|
        0 <= i < j < starts.len() ==> (#[trigger] starts[i]).token != (#[trigger] starts[j]).token
    &&& forall|token: Token| #[trigger]
        pending.contains_key(token) && params.contains_key(pending[token].0@) ==> exists|i: int|
            0 <= i < starts.len() && (#[trigger] starts[i]).token == token
}

proof fn lemma_starts_the_ready<Y>(
    pending: Map<Token, (String, Y)>,
    params: Map<Seq<char>, TrackParams>,
    left: Map<Token, (String, Y)>,
    starts: Seq<Start<Y>>,
)
    requires
        resolved_by(pending, params_views(params), left, starts),
    ensures
        starts_the_ready(pending, params, left, starts),
{
    let views = params_views(params);
    assert forall|token: Token| #[trigger] left.contains_key(token) <==> pending.contains_key(token)
        && !params.contains_key(pending[token].0@) by {
        assert(views.contains_key(pending[token].0@) == params.contains_key(pending[token].0@));
    }
    assert forall|i: int| 0 <= i < starts.len() implies {
        let start = #[trigger] starts[i];
        &&& pending.contains_key(start.token)
        &&& pending[start.token].0 == start.track
        &&& pending[start.token].1 == start.cancel
        &&& params.contains_key(start.track@)
        &&& format_tells(start.format, params[start.track@])
    } by {
        let start = starts[i];
        assert(started_from(pending, views, start));
        assert(views.contains_key(start.track@));
        assert(views[start.track@] == params[start.track@]@);
    }
    assert forall|token: Token| #[trigger]
        pending.contains_key(token) && params.contains_key(pending[token].0@) implies exists|i: int|
        0 <= i < starts.len() && (#[trigger] starts[i]).token == token by {
        assert(views.contains_key(pending[token].0@));
        assert(has_start(starts, token));
    }
}

/// Whether a catalog had the given outcome: it is taken over, and the waiting subscriptions that it
/// brings a track for start; else there is a reason to disconnect.
pub open spec fn follows<X, Y, O, S>(
    snapshot: Result<Option<Catalog>, String>,
    before: LoopState<X, Y>,
    owner: O,
    send: S,
    told: O,
    result: Result<(LoopState<X, Y>, Vec<Start<Y>>), String>,
) -> bool where S: Fn(O, Message) -> (O, Result<(), PidDead>) {
    &&& snapshot matches Err(reason) ==> told == owner && (result matches Err(e) && e@
        == "catalog error: "@ + reason@)
    &&& snapshot matches Ok(None) ==> told == owner && (result matches Err(e) && e@
        == "broadcast ended"@)
    &&& snapshot matches Ok(Some(catalog)) ==> match result {
        Err(e) => takes_over(
            catalog,
            before.params@,
            owner,
            send,
            told,
            Err::<Table<TrackParams>, String>(e),
        ),
        Ok((after, starts)) => {
            &&& takes_over(
                catalog,
                before.params@,
                owner,
                send,
                told,
                Ok::<Table<TrackParams>, String>(after.params),
            )
            &&& after.cancels == before.cancels
            &&& starts_the_ready(before.pending@, after.params@, after.pending@, starts@)
        },
    }
}

proof fn lemma_follows<X, Y, O, S>(
    snapshot: Result<Option<Catalog>, String>,
    before: LoopState<X, Y>,
    owner: O,
    send: S,
    told: O,
    result: Result<(LoopState<X, Y>, Vec<Start<Y>>), String>,
) where S: Fn(O, Message) -> (O, Result<(), PidDead>)
    requires
        before.wf(),
        catalog_handled(snapshot, before, owner, send, told, result),
    ensures
        follows(snapshot, before, owner, send, told, result),
{
    if let Ok(Some(catalog)) = snapshot {
        let params = choose|params: Result<Table<TrackParams>, String>|
            {
                &&& #[trigger] catalog_updated(catalog@, before.params, owner, send, told, params)
                &&& match params {
                    Err(e) => result == Err::<(LoopState<X, Y>, Vec<Start<Y>>), String>(e),
                    Ok(params) => {
                        &&& result matches Ok((after, starts))
                        &&& after.params == params
                        &&& after.cancels == before.cancels
                        &&& resolved_by(
                            before.pending@,
                            after.advertised(),
                            after.pending@,
                            starts@,
                        )
                    },
                }
            };
        lemma_takes_over(catalog, before.params, owner, send, told, params);
        if let Ok((after, starts)) = result {
            lemma_starts_the_ready(before.pending@, after.params@, after.pending@, starts@);
        }
    }
}

/// Whether an event had the given outcome.
pub open spec fn deals_with<X, Y, O, Channel, S>(
    before: LoopState<X, Y>,
    event: SessionEvent,
    owner: O,
    channel: Channel,
    send: S,
    told: O,
    step: SessionStep<X, Y>,
) -> bool where
    Channel: FnOnce() -> (X, Y),
    S: Fn(O, Message) -> (O, Result<(), PidDead>),
 {
    &&& !(event is Catalog) ==> told == owner
    &&& event is Shutdown ==> step is Stop
    &&& event matches SessionEvent::Command(None) ==> step is Stop
    &&& event matches SessionEvent::Command(Some(command)) ==> {
        &&& step matches SessionStep::Continue { state, starts, cancel }
        &&& starts@.len() <= 1
        &&& starts@.len() == 0 ==> obeys(
            command,
            before,
            channel,
            state,
            None::<Start<Y>>,
            cancel,
        )
        &&& starts@.len() == 1 ==> obeys(
            command,
            before,
            channel,
            state,
            Some(starts@[0]),
            cancel,
        )
    }
    &&& event is PumpDone ==> (step matches SessionStep::Continue { state, starts, cancel } && state
        == before && starts@.len() == 0 && cancel is None)
    &&& event matches SessionEvent::Closed(Ok(_)) ==> (step matches SessionStep::Disconnect {
        reason,
    } && reason@ == "session closed gracefully"@)
    &&& event matches SessionEvent::Closed(Err(e)) ==> (step matches SessionStep::Disconnect {
        reason,
    } && reason@ == "session error: "@ + e@)
    &&& event matches SessionEvent::Catalog(snapshot) ==> match step {
        SessionStep::Stop => false,
        SessionStep::Disconnect { reason } => follows(
            snapshot,
            before,
            owner,
            send,
            told,
            Err::<(LoopState<X, Y>, Vec<Start<Y>>), String>(reason),
        ),
        SessionStep::Continue { state, starts, cancel } => cancel is None && follows(
            snapshot,
            before,
            owner,
            send,
            told,
            Ok::<(LoopState<X, Y>, Vec<Start<Y>>), String>((state, starts)),
        ),
    }
}

proof fn lemma_deals_with<X, Y, O, Channel, S>(
    before: LoopState<X, Y>,
    event: SessionEvent,
    owner: O,
    channel: Channel,
    send: S,
    told: O,
    step: SessionStep<X, Y>,
) where Channel: FnOnce() -> (X, Y), S: Fn(O, Message) -> (O, Result<(), PidDead>)
    requires
        before.wf(),
        event_handled(before, event, owner, channel, send, told, step),
    ensures
        deals_with(before, event, owner, channel, send, told, step),
{
    match event {
        SessionEvent::Command(Some(command)) => {
            if let SessionStep::Continue { state, starts, cancel } = step {
                let start = if starts@.len() == 1 {
                    Some(starts@[0])
                } else {
                    None
                };
                lemma_obeys(command, before, channel, state, start, cancel);
            }
        },
        SessionEvent::Catalog(snapshot) => {
            match step {
                SessionStep::Continue { state, starts, cancel } => {
                    lemma_follows(snapshot, before, owner, send, told, Ok((state, starts)));
                },
                SessionStep::Disconnect { reason } => {
                    lemma_follows(snapshot, before, owner, send, told, Err(reason));
                },
                SessionStep::Stop => {},
            }
        },
        _ => {},
    }
}

/// A source starts without a catalog and without subscriptions, and deals with commands, catalogs
/// and the end of its session each in its own way.
pub proof fn law_source_deals_with_events<X, Y, O, Channel, S>(
    fresh: LoopState<X, Y>,
    before: LoopState<X, Y>,
    command: Command,
    snapshot: Result<Option<Catalog>, String>,
    event: SessionEvent,
    owner: O,
    channel: Channel,
    send: S,
    commanded: (LoopState<X, Y>, Option<Start<Y>>, Option<X>),
    followed: (O, Result<(LoopState<X, Y>, Vec<Start<Y>>), String>),
    stepped: (O, SessionStep<X, Y>),
) where Channel: FnOnce() -> (X, Y), S: Fn(O, Message) -> (O, Result<(), PidDead>)
    requires
        before.wf(),
        call_ensures(LoopState::<X, Y>::new, (), fresh),
    ensures
        forall|name: Seq<char>| !fresh.params@.contains_key(name),
        forall|token: Token| !fresh.cancels@.contains_key(token),
        forall|token: Token| !fresh.pending@.contains_key(token),
        call_ensures(
            handle_command::<X, Y, Channel>,
            (command, before, channel),
            commanded,
        ) ==> obeys(command, before, channel, commanded.0, commanded.1, commanded.2),
        call_ensures(
            handle_new_catalog::<X, Y, O, S>,
            (snapshot, before, owner, &send),
            followed,
        ) ==> follows(snapshot, before, owner, send, followed.0, followed.1),
        call_ensures(
            run_session::<X, Y, O, Channel, S>,
            (before, event, owner, channel, &send),
            stepped,
        ) ==> deals_with(before, event, owner, channel, send, stepped.0, stepped.1),
{
    assert forall|name: Seq<char>| !fresh.params@.contains_key(name) by {
        assert(!fresh.advertised().contains_key(name));
    }
    if call_ensures(handle_command::<X, Y, Channel>, (command, before, channel), commanded) {
        lemma_obeys(command, before, channel, commanded.0, commanded.1, commanded.2);
    }
    if call_ensures(
        handle_new_catalog::<X, Y, O, S>,
        (snapshot, before, owner, &send),
        followed,
    ) {
        lemma_follows(snapshot, before, owner, send, followed.0, followed.1);
    }
    if call_ensures(
        run_session::<X, Y, O, Channel, S>,
        (before, event, owner, channel, &send),
        stepped,
    ) {
        lemma_deals_with(before, event, owner, channel, send, stepped.0, stepped.1);
    }
}

/// Only an announcement under its name that brings a broadcast finds the broadcast, and only the
/// end of all announcements ends the wait for it.
pub proof fn law_broadcast_is_awaited_by_name<B>(
    name: String,
    announced: Option<(String, Option<B>)>,
    r: Awaited<B>,
    found: Option<B>,
    answer: Result<B, String>,
)
    requires
        call_ensures(await_broadcast::<B>, (&name, announced), r),
        call_ensures(announced_broadcast::<B>, (&name, found), answer),
    ensures
        r is Closed <==> announced is None,
        announced matches Some((path, Some(b))) ==> (path@ == name@ <==> r == Awaited::Found(b)),
        r matches Awaited::Found(b) ==> (announced matches Some((path, Some(c))) && path@ == name@
            && b == c),
        found matches Some(b) ==> answer == Ok::<B, String>(b),
        found is None ==> (answer matches Err(e) && e@ == "broadcast "@ + debug_text(name@)
            + " was not announced before origin closed"@),
{
}

/// A fault of a subscription is passed on in words, and a subscription that was granted as it is; a
/// track is asked for by its name at priority zero.
pub proof fn law_source_subscribes<T>(
    subscribed: Result<T, String>,
    name: String,
    catalog: Result<T, String>,
    pumped: Result<T, String>,
    request: (String, u8),
)
    requires
        call_ensures(subscribe_catalog::<T>, (subscribed,), catalog),
        call_ensures(pump_track::<T>, (&name, subscribed), pumped),
        call_ensures(track_request, (&name,), request),
    ensures
        subscribed matches Ok(t) ==> catalog == Ok::<T, String>(t) && pumped == Ok::<T, String>(t),
        subscribed matches Err(reason) ==> {
            &&& catalog matches Err(e)
            &&& e@ == "subscribe_track(catalog) failed: "@ + reason@
        },
        subscribed matches Err(reason) ==> {
            &&& pumped matches Err(e)
            &&& e@ == "subscribe_track("@ + name@ + ") failed: "@ + reason@
        },
        request.0@ == name@,
        request.1 == 0,
{
    reveal_strlit("");
    if let Err(reason) = subscribed {
        assert("subscribe_track("@ + name@ + (") failed: "@ + reason@ + ""@)
            =~= "subscribe_track("@ + name@ + ") failed: "@ + reason@);
    }
}

/// Whether pumps were started one after the other: of each the format of its track is told first,
/// under its token, and then its track is handed to the tasks with its token and its cancellation.
/// `course` is the owner and the tasks before the first and after each.
pub open spec fn starts_in_order<Y, O, P, S, Spawn>(
    starts: Seq<Start<Y>>,
    course: Seq<(O, P)>,
    send: S,
    spawn: Spawn,
) -> bool where
    S: Fn(O, Message) -> (O, Result<(), PidDead>),
    Spawn: Fn(O, P, String, Token, Y) -> (O, P),
 {
    &&& course.len() == starts.len() + 1
    &&& forall|i: int|
        #![trigger starts[i]]
        0 <= i < starts.len() ==> exists|mid: O, sent: Result<(), PidDead>|
            {
                &&& #[trigger] call_ensures(
                    send,
                    (
                        course[i].0,
                        Message::TrackFormat { token: starts[i].token, format: starts[i].format },
                    ),
                    (mid, sent),
                )
                &&& call_ensures(
                    spawn,
                    (mid, course[i].1, starts[i].track, starts[i].token, starts[i].cancel),
                    course[i + 1],
                )
            }
}

/// The format of a track is told before its pump starts, and the pumps start in order.
pub proof fn law_format_is_told_before_the_pump_starts<Y, O, P, S, Spawn>(
    starts: Vec<Start<Y>>,
    owner: O,
    pumps: P,
    send: S,
    spawn: Spawn,
    r: (O, P),
) where
    S: Fn(O, Message) -> (O, Result<(), PidDead>),
    Spawn: Fn(O, P, String, Token, Y) -> (O, P),

    requires
        call_ensures(
            start_pumps::<Y, O, P, S, Spawn>,
            (starts, owner, pumps, &send, &spawn),
            r,
        ),
    ensures
        exists|course: Seq<(O, P)>|
            {
                &&& #[trigger] starts_in_order(starts@, course, send, spawn)
                &&& course.first() == (owner, pumps)
                &&& course.last() == r
            },
{
    let course = choose|course: Seq<(O, P)>|
        {
            &&& #[trigger] pumps_started_along(course, starts@, send, spawn)
            &&& course[0] == (owner, pumps)
            &&& course[starts@.len() as int] == r
        };
    assert forall|i: int| #![trigger starts@[i]] 0 <= i < starts@.len() implies exists|
        mid: O,
        sent: Result<(), PidDead>,
    |
        {
            &&& #[trigger] call_ensures(
                send,
                (
                    course[i].0,
                    Message::TrackFormat { token: starts@[i].token, format: starts@[i].format },
                ),
                (mid, sent),
            )
            &&& call_ensures(
                spawn,
                (mid, course[i].1, starts@[i].track, starts@[i].token, starts@[i].cancel),
                course[i + 1],
            )
        } by {
        assert(pump_started(starts@[i], course[i], send, spawn, course[i + 1]));
    }
    assert(starts_in_order(starts@, course, send, spawn));
}

/// A pump tells each frame once, goes on while its owner is there, and at its end tells why the
/// track ended, unless it was cancelled.
pub proof fn law_pump_tells_frames_and_its_end<O, S>(
    token: Token,
    read: Result<Option<Frame>, String>,
    owner: O,
    send: S,
    r: (O, Option<Result<(), String>>),
    result: Option<Result<(), String>>,
    last: Option<Message>,
) where S: FnOnce(O, Message) -> (O, Result<(), PidDead>)
    requires
        call_ensures(pump_frames::<O, S>, (token, read, owner, send), r),
        call_ensures(run_pump, (token, result), last),
    ensures
        read matches Err(e) ==> r.0 == owner && r.1 == Some(Err::<(), String>(e)),
        read matches Ok(None) ==> r.0 == owner && (r.1 matches Some(Ok(_))),
        read matches Ok(Some(frame)) ==> exists|m: Message, told: O, sent: Result<(), PidDead>|
            {
                &&& #[trigger] call_ensures(send, (owner, m), (told, sent))
                &&& tells_frame_in_micros(m, token, frame)
                &&& r.0 == told
                &&& sent is Ok ==> r.1 is None
                &&& sent is Err ==> (r.1 matches Some(Err(e)) && e@ == "subscriber pid is dead"@)
            },
        result is None ==> last is None,
        result matches Some(end) ==> (last matches Some(Message::TrackEnded { token: t, reason })
            && t == token && reason@ == (match end {
            Ok(_) => "track ended"@,
            Err(e) => "track error: "@ + e@,
        })),
{
    if let Ok(Some(frame)) = read {
        let m = crate::membrane::messages::frame_message(token, frame);
        assert(tells_frame_in_micros(m, token, frame));
        let (told, sent) = choose|told: O, sent: Result<(), PidDead>|
            {
                &&& #[trigger] call_ensures(send, (owner, m), (told, sent))
                &&& r.0 == told
                &&& match sent {
                    Ok(()) => r.1 is None,
                    Err(_) => r.1 matches Some(Err(e)) && e@ == "subscriber pid is dead"@,
                }
            };
        assert(call_ensures(send, (owner, m), (told, sent)));
    }
}

/// A source is started with what the parser made of the URL and with the latency asked for; a text
/// that is no URL starts none. A failure on the way is told, and nothing else.
pub proof fn law_source_is_started<T, R, Spawn>(
    runtime: T,
    url: &str,
    latency_ns: u64,
    spawn: Spawn,
    r: (T, Result<R, NifError>),
    result: Result<(), String>,
    told: Option<Message>,
) where Spawn: FnOnce(T, String, u64) -> (T, R)
    requires
        call_ensures(
            start_subscriber::<T, R, Spawn>,
            (runtime, url, latency_ns, spawn),
            r,
        ),
        call_ensures(session_ended, (result,), told),
    ensures
        url_verdict(url@) matches Ok(parsed) ==> exists|text: String, after: T, resource: R|
            {
                &&& #[trigger] call_ensures(spawn, (runtime, text, latency_ns), (after, resource))
                &&& text@ == parsed
                &&& r.0 == after
                &&& r.1 == Ok::<R, NifError>(resource)
            },
        url_verdict(url@) matches Err(e) ==> r.0 == runtime && fails_with_text(
            r.1,
            "invalid url: "@ + e,
        ),
        result is Ok ==> told is None,
        result matches Err(e) ==> told == Some(Message::SetupFailed { reason: e }),
{
}

/// A source is asked exactly what its owner asked for, and that is always answered `ok`.
pub proof fn law_source_is_asked<Q, H, Push, Halt>(
    source: SubscriberResource<Q, H>,
    track: String,
    token: Token,
    push: Push,
    halt: Halt,
    subscribed: Atom,
    unsubscribed: Atom,
    stopped: Atom,
) where
    Push: FnOnce(&Q, Command) -> Result<(), Closed>,
    Halt: FnOnce(&H) -> Result<(), Closed>,

    requires
        call_ensures(
            SubscriberResource::<Q, H>::subscribe_track::<Push>,
            (&source, track, token, push),
            subscribed,
        ),
        call_ensures(
            SubscriberResource::<Q, H>::unsubscribe_track::<Push>,
            (&source, token, push),
            unsubscribed,
        ),
        call_ensures(
            SubscriberResource::<Q, H>::stop_subscriber::<Halt>,
            (&source, halt),
            stopped,
        ),
    ensures
        subscribed is Done,
        unsubscribed is Done,
        stopped is Done,
        exists|pushed: Result<(), Closed>| #[trigger]
            call_ensures(push, (&source.commands, Command::Subscribe { track, token }), pushed),
        exists|pushed: Result<(), Closed>| #[trigger]
            call_ensures(push, (&source.commands, Command::Unsubscribe { token }), pushed),
        exists|pushed: Result<(), Closed>| #[trigger]
            call_ensures(halt, (&source.shutdown,), pushed),
{
}

/// Whether nothing more is to be done than to stand in a phase.
pub open spec fn rests<B, X, Y>(turn: Turn<B, X, Y>) -> bool {
    &&& turn.broadcast is None
    &&& turn.starts@.len() == 0
    &&& turn.cancel is None
}

/// Whether an event had the given outcome in the course of a source: it waits for the announcement
/// of its broadcast, says that it is connected, waits for its catalog, then follows it until a
/// reason to disconnect, which it tells last. An event that is not waited for changes nothing.
pub open spec fn goes_through<B, X, Y, O, Channel, S>(
    phase: Phase<X, Y>,
    name: Seq<char>,
    event: SourceEvent<B>,
    owner: O,
    channel: Channel,
    send: S,
    told: O,
    turn: Turn<B, X, Y>,
) -> bool where
    Channel: FnOnce() -> (X, Y),
    S: Fn(O, Message) -> (O, Result<(), PidDead>),
 {
    match (phase, event) {
        (Phase::Awaiting, SourceEvent::Announced(Some((path, Some(broadcast))))) if path@
            == name => {
            &&& turn.phase is Opening
            &&& turn.broadcast == Some(broadcast)
            &&& turn.starts@.len() == 0
            &&& turn.cancel is None
            &&& exists|sent: Result<(), PidDead>| #[trigger]
                call_ensures(send, (owner, Message::Connected), (told, sent))
        },
        (Phase::Awaiting, SourceEvent::Announced(None)) => {
            &&& told == owner
            &&& rests(turn)
            &&& turn.phase matches Phase::Over(Err(e))
            &&& e@ == "broadcast "@ + debug_text(name) + " was not announced before origin closed"@
        },
        (Phase::Awaiting, SourceEvent::Session(SessionEvent::Shutdown)) => {
            &&& told == owner
            &&& rests(turn)
            &&& turn.phase matches Phase::Over(Ok(_))
        },
        (Phase::Opening, SourceEvent::CatalogOpened(opened)) => {
            &&& told == owner
            &&& rests(turn)
            &&& opened is Ok ==> (turn.phase matches Phase::Following(state) && {
                &&& forall|name: Seq<char>| !state.params@.contains_key(name)
                &&& forall|token: Token| !state.cancels@.contains_key(token)
                &&& forall|token: Token| !state.pending@.contains_key(token)
            })
            &&& opened matches Err(reason) ==> (turn.phase matches Phase::Over(Err(e)) && e@
                == "subscribe_track(catalog) failed: "@ + reason@)
        },
        (Phase::Following(state), SourceEvent::Session(event)) => exists|
            mid: O,
            step: SessionStep<X, Y>,
        |
            {
                &&& #[trigger] deals_with(state, event, owner, channel, send, mid, step)
                &&& match step {
                    SessionStep::Continue { state, starts, cancel } => {
                        &&& told == mid
                        &&& turn.phase == Phase::Following(state)
                        &&& turn.broadcast is None
                        &&& turn.starts == starts
                        &&& turn.cancel == cancel
                    },
                    SessionStep::Stop => {
                        &&& told == mid
                        &&& rests(turn)
                        &&& turn.phase matches Phase::Over(Ok(_))
                    },
                    SessionStep::Disconnect { reason } => {
                        &&& rests(turn)
                        &&& turn.phase matches Phase::Over(Ok(_))
                        &&& exists|sent: Result<(), PidDead>| #[trigger]
                            call_ensures(
                                send,
                                (mid, Message::Disconnected { reason }),
                                (told, sent),
                            )
                    },
                }
            },
        _ => told == owner && rests(turn) && turn.phase == phase,
    }
}

/// A source goes through its course one event at a time.
pub proof fn law_source_goes_through_its_course<B, X, Y, O, Channel, S>(
    phase: Phase<X, Y>,
    name: String,
    event: SourceEvent<B>,
    owner: O,
    channel: Channel,
    send: S,
    r: (O, Turn<B, X, Y>),
) where Channel: FnOnce() -> (X, Y), S: Fn(O, Message) -> (O, Result<(), PidDead>)
    requires
        phase.wf(),
        call_ensures(
            advance::<B, X, Y, O, Channel, S>,
            (phase, &name, event, owner, channel, &send),
            r,
        ),
    ensures
        goes_through(phase, name@, event, owner, channel, send, r.0, r.1),
{
    assert(advanced(phase, name@, event, owner, channel, send, r.0, r.1));
    match (phase, event) {
        (Phase::Opening, SourceEvent::CatalogOpened(opened)) => {
            if let Phase::Following(state) = r.1.phase {
                assert forall|name: Seq<char>| !state.params@.contains_key(name) by {
                    assert(!state.advertised().contains_key(name));
                }
            }
        },
        (Phase::Following(state), SourceEvent::Session(event)) => {
            let (mid, step) = choose|mid: O, step: SessionStep<X, Y>|
                {
                    &&& #[trigger] event_handled(state, event, owner, channel, send, mid, step)
                    &&& crate::membrane::source::step_taken(step, mid, send, r.0, r.1)
                };
            lemma_deals_with(state, event, owner, channel, send, mid, step);
        },
        _ => {},
    }
}

} // verus!
