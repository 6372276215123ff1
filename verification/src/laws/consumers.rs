//! Broadcasts that are being followed, and their subscriptions.

use std::ops::ControlFlow;

use vstd::prelude::*;

use crate::broadcast_consumer::subscription_queue::{
    self as queue, served, stepped, without, Entry, Step, Subscription, SubscriptionQueue,
    TrackResult,
};
use crate::broadcast_consumer::{
    container_views, find_broadcast, CloseGuard, Closed,
    Command, Driver, Event, Handle, TrackError, TrackErrorKind,
};
use crate::frame::Frame;
use crate::laws::catalogs::{advertises, last_audio, last_video, lemma_advertises};
use crate::laws::formats::is_wire_of;
use crate::laws::messages::{lemma_reports, reports, tells_frame};
use crate::messages::{Catalog, CloseReason, Message, PidDead, RenditionFormat, Token};
use crate::stack::{advertised_format, CatalogFormat};
use crate::track_format::{CatalogContainer, WireContainer};

verus! {

broadcast use vstd::std_specs::hash::group_hash_axioms;

/// The faults of a subscription in words.
pub proof fn law_track_faults_in_words(
    kind: TrackErrorKind,
    kind_text: String,
    fault: TrackError,
    text: String,
)
    requires
        call_ensures(TrackErrorKind::message, (&kind,), kind_text),
        call_ensures(TrackError::message, (&fault,), text),
        fault.source == kind,
    ensures
        kind_text@ == (match kind {
            TrackErrorKind::NotAdvertised => "not advertised in the catalog"@,
            TrackErrorKind::Container(e) => e@,
            TrackErrorKind::SubscribeFailed(e) => "subscribe failed: "@ + e@,
            TrackErrorKind::ReadFailed(e) => "track read failed: "@ + e@,
        }),
        text@ == "track("@ + fault.track@ + "): "@ + kind_text@,
{
    reveal_strlit("");
    assert(text@ =~= "track("@ + fault.track@ + "): "@ + kind_text@);
}

/// A handle pushes the command that its caller asked for, and passes on whether it was taken.
pub proof fn law_handle_pushes_commands<Q, Push, Close>(
    handle: Handle<Q>,
    track: String,
    token: Token,
    priority: u8,
    push: Push,
    close: Close,
    r: Result<(), Closed>,
) where Push: FnOnce(&Q, Command) -> Result<(), Closed>, Close: FnOnce(&Q)
    ensures
        call_ensures(
            Handle::<Q>::subscribe::<Push>,
            (&handle, track, token, priority, push),
            r,
        ) ==> call_ensures(
            push,
            (&handle.commands, Command::Subscribe { track, token, priority }),
            r,
        ),
        call_ensures(Handle::<Q>::unsubscribe::<Push>, (&handle, token, push), ()) ==> exists|
            pushed: Result<(), Closed>,
        | #[trigger]
            call_ensures(push, (&handle.commands, Command::Unsubscribe { token }), pushed),
        call_ensures(Handle::<Q>::close::<Close>, (&handle, close), ()) ==> call_ensures(
            close,
            (&handle.commands,),
            (),
        ),
{
}

/// A guard holds a crash until it learns better. It closes the queue, and only then tells the
/// reason once, if it has one; without one the owner is told nothing.
pub proof fn law_guard_closes_before_it_tells<Q, O, Close, S>(
    path: String,
    fresh: CloseGuard,
    guard: CloseGuard,
    queue: Q,
    owner: O,
    close: Close,
    send: S,
    r: (Q, O),
) where Close: FnOnce(Q) -> Q, S: FnOnce((Q, O), Message) -> ((Q, O), Result<(), PidDead>)
    requires
        call_ensures(CloseGuard::new, (path,), fresh),
        call_ensures(
            CloseGuard::close::<Q, O, Close, S>,
            (guard, queue, owner, close, send),
            r,
        ),
    ensures
        fresh.path == path,
        fresh.reason == Some(CloseReason::Crashed),
        guard.reason is None ==> call_ensures(close, (queue,), r.0) && r.1 == owner,
        guard.reason matches Some(why) ==> exists|
            closed: Q,
            told: (Q, O),
            sent: Result<(), PidDead>,
        |
            {
                &&& call_ensures(close, (queue,), closed)
                &&& #[trigger] call_ensures(
                    send,
                    ((closed, owner), Message::BroadcastClosed { path: guard.path, why }),
                    (told, sent),
                )
                &&& r == told
            },
{
}

/// A broadcast is found if and only if it is announced; its catalog is in the format that the
/// path names, else hang.
pub proof fn law_announced_broadcast_is_found<N>(
    path: String,
    announced: Option<N>,
    r: Result<(N, CatalogFormat), CloseReason>,
)
    requires
        call_ensures(find_broadcast::<N>, (&path, announced), r),
    ensures
        announced is None ==> (r matches Err(why) && why is NotAnnounced),
        announced matches Some(n) ==> (r matches Ok((found, format)) && found == n && format == (
        match advertised_format(path@) {
            Some(format) => format,
            None => CatalogFormat::Hang,
        })),
{
}

/// What a read of a track comes to: a frame and the rest of the track, its end, the fault, or a
/// wait.
pub open spec fn is_read<S, R, Read>(reader: R, read: Read, step: Step<S, R>) -> bool where
    Read: Fn(R) -> (R, Option<Result<Option<Frame>, String>>),
 {
    exists|after: R, answer: Option<Result<Option<Frame>, String>>|
        {
            &&& #[trigger] call_ensures(read, (reader,), (after, answer))
            &&& answer is None ==> step == Step::<S, R>::Wait(Subscription::Streaming(after))
            &&& answer matches Some(Ok(Some(frame))) ==> step == Step::<S, R>::Yield(
                frame,
                Subscription::Streaming(after),
            )
            &&& answer matches Some(Ok(None)) ==> step is Finished
            &&& answer matches Some(Err(e)) ==> step == Step::<S, R>::Failed(
                TrackErrorKind::ReadFailed(e),
            )
        }
}

/// What serving a subscription once comes to: one that was asked for is read at once when it is
/// granted, in the container that it was asked for with and with the latency of the consumer.
pub open spec fn is_served<S, U, R, Granted, Open, Read>(
    state: Subscription<S, R>,
    latency_ns: u64,
    granted: Granted,
    open: Open,
    read: Read,
    step: Step<S, R>,
) -> bool where
    Granted: Fn(S) -> (S, Option<Result<U, String>>),
    Open: Fn(U, WireContainer, u64) -> R,
    Read: Fn(R) -> (R, Option<Result<Option<Frame>, String>>),
 {
    &&& state matches Subscription::Streaming(reader) ==> is_read(reader, read, step)
    &&& state matches Subscription::Pending(asked, wire) ==> exists|
        after: S,
        answer: Option<Result<U, String>>,
    |
        {
            &&& #[trigger] call_ensures(granted, (asked,), (after, answer))
            &&& answer is None ==> step == Step::<S, R>::Wait(Subscription::Pending(after, wire))
            &&& answer matches Some(Err(e)) ==> step == Step::<S, R>::Failed(
                TrackErrorKind::SubscribeFailed(e),
            )
            &&& answer matches Some(Ok(u)) ==> exists|reader: R|
                {
                    &&& #[trigger] call_ensures(open, (u, wire, latency_ns), reader)
                    &&& is_read(reader, read, step)
                }
        }
}

/// A subscription is served as far as it has come.
pub proof fn law_subscription_is_served<S, U, R, Granted, Open, Read>(
    state: Subscription<S, R>,
    latency_ns: u64,
    granted: Granted,
    open: Open,
    read: Read,
    r: Step<S, R>,
) where
    Granted: Fn(S) -> (S, Option<Result<U, String>>),
    Open: Fn(U, WireContainer, u64) -> R,
    Read: Fn(R) -> (R, Option<Result<Option<Frame>, String>>),

    requires
        call_ensures(
            queue::step::<S, U, R, Granted, Open, Read>,
            (state, latency_ns, &granted, &open, &read),
            r,
        ),
    ensures
        is_served(state, latency_ns, granted, open, read, r),
{
}

/// What a poll of the subscriptions comes to: `waited` were served first, in turn, and had nothing
/// to give; either that was all of them, or the next one decides. One that gave a frame goes to
/// the back, one that ended or failed is gone, and the others keep their order.
pub open spec fn is_polled<S, U, R, Granted, Open, Read>(
    before: Seq<Entry<S, R>>,
    waited: Seq<Entry<S, R>>,
    latency_ns: u64,
    granted: Granted,
    open: Open,
    read: Read,
    after: Seq<Entry<S, R>>,
    event: Option<(Token, TrackResult)>,
) -> bool where
    Granted: Fn(S) -> (S, Option<Result<U, String>>),
    Open: Fn(U, WireContainer, u64) -> R,
    Read: Fn(R) -> (R, Option<Result<Option<Frame>, String>>),
 {
    let k = waited.len() as int;
    &&& k <= before.len()
    &&& forall|i: int|
        #![trigger waited[i]]
        0 <= i < k ==> {
            &&& waited[i].token == before[i].token
            &&& waited[i].track == before[i].track
            &&& is_served(
                before[i].state,
                latency_ns,
                granted,
                open,
                read,
                Step::Wait(waited[i].state),
            )
        }
    &&& event is None ==> k == before.len() && after == waited
    &&& event matches Some((token, result)) ==> {
        let rest = before.subrange(k + 1, before.len() as int) + waited;
        &&& k < before.len()
        &&& token == before[k].token
        &&& exists|step: Step<S, R>|
            {
                &&& #[trigger] is_served(before[k].state, latency_ns, granted, open, read, step)
                &&& !(step is Wait)
                &&& step matches Step::Yield(frame, state) ==> {
                    &&& result == TrackResult::Frame(frame)
                    &&& after.len() == rest.len() + 1
                    &&& after.drop_last() =~= rest
                    &&& after.last().token == token
                    &&& after.last().track == before[k].track
                    &&& after.last().state == state
                }
                &&& step is Finished ==> result is Finished && after =~= rest
                &&& step matches Step::Failed(source) ==> {
                    &&& result matches TrackResult::Failed(fault)
                    &&& fault.track == before[k].track
                    &&& fault.source == source
                    &&& after =~= rest
                }
            }
    }
}

proof fn lemma_is_polled<S, U, R, Granted, Open, Read>(
    before: Seq<Entry<S, R>>,
    waited: Seq<Entry<S, R>>,
    latency_ns: u64,
    granted: Granted,
    open: Open,
    read: Read,
    after: Seq<Entry<S, R>>,
    event: Option<(Token, TrackResult)>,
) where
    Granted: Fn(S) -> (S, Option<Result<U, String>>),
    Open: Fn(U, WireContainer, u64) -> R,
    Read: Fn(R) -> (R, Option<Result<Option<Frame>, String>>),

    requires
        served(before, waited, latency_ns, granted, open, read, after, event),
    ensures
        is_polled(before, waited, latency_ns, granted, open, read, after, event),
{
    let k = waited.len() as int;
    assert forall|i: int| #![trigger waited[i]] 0 <= i < k implies {
        &&& waited[i].token == before[i].token
        &&& waited[i].track == before[i].track
        &&& is_served(
            before[i].state,
            latency_ns,
            granted,
            open,
            read,
            Step::Wait(waited[i].state),
        )
    } by {
        assert(stepped(
            before[i].state,
            latency_ns,
            granted,
            open,
            read,
            Step::Wait(waited[i].state),
        ));
    }
    if let Some((token, result)) = event {
        let rest = before.subrange(k + 1, before.len() as int) + waited;
        assert(rest =~= before.skip(k + 1) + waited);
        let step = choose|step: Step<S, R>|
            {
                &&& #[trigger] stepped(before[k].state, latency_ns, granted, open, read, step)
                &&& match step {
                    Step::Wait(_) => false,
                    Step::Yield(frame, state) => {
                        &&& result == TrackResult::Frame(frame)
                        &&& after == (before.skip(k + 1) + waited).push(
                            Entry { token: before[k].token, track: before[k].track, state },
                        )
                    },
                    Step::Finished => {
                        &&& result is Finished
                        &&& after == before.skip(k + 1) + waited
                    },
                    Step::Failed(source) => {
                        &&& result == TrackResult::Failed(
                            TrackError { track: before[k].track, source },
                        )
                        &&& after == before.skip(k + 1) + waited
                    },
                }
            };
        assert(is_served(before[k].state, latency_ns, granted, open, read, step));
        if step is Yield {
            assert(after.drop_last() =~= rest);
        }
    }
}

/// Each poll serves the subscriptions in turn, until one has something to give.
pub proof fn law_subscriptions_are_served_in_turn<N, S, U, R, Granted, Open, Read>(
    granted: Granted,
    open: Open,
    read: Read,
    r: Option<(Token, TrackResult)>,
) where
    Granted: Fn(S) -> (S, Option<Result<U, String>>),
    Open: Fn(U, WireContainer, u64) -> R,
    Read: Fn(R) -> (R, Option<Result<Option<Frame>, String>>),

    ensures
        forall|q: &mut SubscriptionQueue<N, S, R>| #[trigger]
            call_ensures(
                SubscriptionQueue::<N, S, R>::poll_event::<U, Granted, Open, Read>,
                (q, &granted, &open, &read),
                r,
            ) ==> {
                &&& final(q).broadcast == q.broadcast
                &&& final(q).latency_ns == q.latency_ns
                &&& exists|waited: Seq<Entry<S, R>>| #[trigger]
                    is_polled(
                        q.entries@,
                        waited,
                        q.latency_ns,
                        granted,
                        open,
                        read,
                        final(q).entries@,
                        r,
                    )
            },
{
    assert forall|q: &mut SubscriptionQueue<N, S, R>| #[trigger]
        call_ensures(
            SubscriptionQueue::<N, S, R>::poll_event::<U, Granted, Open, Read>,
            (q, &granted, &open, &read),
            r,
        ) implies {
        &&& final(q).broadcast == q.broadcast
        &&& final(q).latency_ns == q.latency_ns
        &&& exists|waited: Seq<Entry<S, R>>| #[trigger]
            is_polled(
                q.entries@,
                waited,
                q.latency_ns,
                granted,
                open,
                read,
                final(q).entries@,
                r,
            )
    } by {
        let waited = choose|waited: Seq<Entry<S, R>>| #[trigger]
            served(
                q.entries@,
                waited,
                q.latency_ns,
                granted,
                open,
                read,
                final(q).entries@,
                r,
            );
        lemma_is_polled(
            q.entries@,
            waited,
            q.latency_ns,
            granted,
            open,
            read,
            final(q).entries@,
            r,
        );
    }
}

/// Whether `after` is `before` without the subscriptions of a token, in order.
pub open spec fn drops_token<S, R>(
    before: Seq<Entry<S, R>>,
    after: Seq<Entry<S, R>>,
    token: Token,
) -> bool {
    after == before.filter(|entry: Entry<S, R>| entry.token != token)
}

proof fn lemma_drops_token<S, R>(before: Seq<Entry<S, R>>, token: Token)
    ensures
        drops_token(before, without(before, token), token),
{
    let f = |entry: Entry<S, R>| entry.token != token;
    assert(without(before, token) == before.filter(f));
}

/// A queue starts empty, and dropping a token drops its subscription and no other.
pub proof fn law_token_is_dropped<N, S, R>(
    broadcast: N,
    latency_ns: u64,
    fresh: SubscriptionQueue<N, S, R>,
    token: Token,
)
    requires
        call_ensures(SubscriptionQueue::<N, S, R>::new, (broadcast, latency_ns), fresh),
    ensures
        fresh.entries@.len() == 0,
        fresh.broadcast == broadcast,
        fresh.latency_ns == latency_ns,
        forall|q: &mut SubscriptionQueue<N, S, R>| #[trigger]
            call_ensures(SubscriptionQueue::<N, S, R>::remove, (q, token), ()) ==> {
                &&& drops_token(q.entries@, final(q).entries@, token)
                &&& final(q).broadcast == q.broadcast
                &&& final(q).latency_ns == q.latency_ns
            },
{
    assert forall|q: &mut SubscriptionQueue<N, S, R>| #[trigger]
        call_ensures(SubscriptionQueue::<N, S, R>::remove, (q, token), ()) implies {
        &&& drops_token(q.entries@, final(q).entries@, token)
        &&& final(q).broadcast == q.broadcast
        &&& final(q).latency_ns == q.latency_ns
    } by {
        lemma_drops_token(q.entries@, token);
    }
}

/// Whether asking for a track had the given outcome: the broadcast is asked once, for that track at
/// that priority; an earlier subscription of the token is gone either way; a new one stands last.
pub open spec fn asks_for_track<N, S, R, Ask>(
    before: SubscriptionQueue<N, S, R>,
    token: Token,
    track: String,
    priority: u8,
    ask: Ask,
    after: SubscriptionQueue<N, S, R>,
    asked: Result<S, String>,
) -> bool where Ask: FnOnce(N, String, u8) -> (N, Result<S, String>) {
    &&& call_ensures(ask, (before.broadcast, track, priority), (after.broadcast, asked))
    &&& after.latency_ns == before.latency_ns
    &&& asked is Err ==> drops_token(before.entries@, after.entries@, token)
    &&& asked matches Ok(s) ==> {
        &&& after.entries@.len() > 0
        &&& drops_token(before.entries@, after.entries@.drop_last(), token)
        &&& after.entries@.last().token == token
        &&& after.entries@.last().track == track
        &&& after.entries@.last().state matches Subscription::Pending(pending, _)
        &&& pending == s
    }
}

/// A track is asked for once, and waits in the container that it is to be read in.
pub proof fn law_track_is_asked_for<N, S, R, Ask>(
    before: SubscriptionQueue<N, S, R>,
    token: Token,
    track: String,
    container: WireContainer,
    priority: u8,
    ask: Ask,
    r: (SubscriptionQueue<N, S, R>, Result<(), TrackError>),
) where Ask: FnOnce(N, String, u8) -> (N, Result<S, String>)
    requires
        call_ensures(
            SubscriptionQueue::<N, S, R>::insert::<Ask>,
            (before, token, track, container, priority, ask),
            r,
        ),
    ensures
        exists|asked: Result<S, String>|
            {
                &&& #[trigger] asks_for_track(before, token, track, priority, ask, r.0, asked)
                &&& asked is Ok <==> r.1 is Ok
                &&& asked is Ok ==> (r.0.entries@.last().state matches Subscription::Pending(
                    _,
                    wire,
                ) && wire == container)
                &&& asked matches Err(e) ==> (r.1 matches Err(fault) && fault.track == track
                    && fault.source == TrackErrorKind::SubscribeFailed(e))
            },
{
    let (after, asked) = choose|after: N, asked: Result<S, String>|
        {
            &&& #[trigger] call_ensures(ask, (before.broadcast, track, priority), (after, asked))
            &&& r.0.broadcast == after
            &&& match asked {
                Err(e) => {
                    &&& r.0@ == without(before@, token)
                    &&& r.1 == Err::<(), TrackError>(
                        TrackError { track, source: TrackErrorKind::SubscribeFailed(e) },
                    )
                },
                Ok(asked) => {
                    &&& r.0@ == without(before@, token).push(
                        Entry { token, track, state: Subscription::Pending(asked, container) },
                    )
                    &&& r.1 is Ok
                },
            }
        };
    lemma_drops_token(before.entries@, token);
    if asked is Ok {
        assert(r.0.entries@.drop_last() =~= without(before.entries@, token));
    }
    assert(asks_for_track(before, token, track, priority, ask, r.0, asked));
}

/// Whether the consumer goes on after a message: it does unless the owner is gone, and then it
/// ends without a reason.
pub open spec fn goes_on(
    sent: Result<(), PidDead>,
    flow: ControlFlow<Option<CloseReason>>,
) -> bool {
    &&& sent is Ok ==> flow is Continue
    &&& sent is Err ==> (flow matches ControlFlow::Break(why) && why is None)
}

/// Whether the owner was told the fault of a subscription, once.
pub open spec fn tells_fault<O, Send>(
    owner: O,
    token: Token,
    text: Seq<char>,
    send: Send,
    told: O,
    flow: ControlFlow<Option<CloseReason>>,
) -> bool where Send: FnOnce(O, Message) -> (O, Result<(), PidDead>) {
    exists|reason: String, sent: Result<(), PidDead>|
        {
            &&& #[trigger] call_ensures(
                send,
                (owner, Message::TrackError { token, reason }),
                (told, sent),
            )
            &&& reason@ == text
            &&& goes_on(sent, flow)
        }
}

/// A consumer starts without a catalog and without subscriptions, once its owner was told that the
/// broadcast is there; without a reader of the catalog it does not start and tells nothing.
pub proof fn law_consumer_starts<N, S, R, O, Send>(
    path: String,
    broadcast: N,
    catalog: Result<(), String>,
    latency_ns: u64,
    owner: O,
    send: Send,
    r: (O, Result<Driver<N, S, R>, Option<CloseReason>>),
) where Send: FnOnce(O, Message) -> (O, Result<(), PidDead>)
    requires
        call_ensures(
            Driver::<N, S, R>::run_broadcast::<O, Send>,
            (path, broadcast, catalog, latency_ns, owner, send),
            r,
        ),
    ensures
        catalog matches Err(e) ==> r.0 == owner && (r.1 matches Err(Some(why)) && why
            == CloseReason::CatalogError(e)),
        catalog is Ok ==> exists|told: O, sent: Result<(), PidDead>|
            {
                &&& #[trigger] call_ensures(
                    send,
                    (owner, Message::BroadcastReady { path }),
                    (told, sent),
                )
                &&& r.0 == told
                &&& sent is Err ==> (r.1 matches Err(why) && why is None)
                &&& sent is Ok ==> (r.1 matches Ok(driver) && {
                    &&& driver.path == path
                    &&& driver.subs.entries@.len() == 0
                    &&& driver.subs.broadcast == broadcast
                    &&& driver.subs.latency_ns == latency_ns
                    &&& forall|name: Seq<char>| !driver.containers@.contains_key(name)
                })
            },
{
    if catalog is Ok {
        let (told, sent) = choose|told: O, sent: Result<(), PidDead>|
            {
                &&& #[trigger] call_ensures(
                    send,
                    (owner, Message::BroadcastReady { path }),
                    (told, sent),
                )
                &&& r.0 == told
                &&& match sent {
                    Err(_) => r.1 == Err::<Driver<N, S, R>, Option<CloseReason>>(None),
                    Ok(()) => {
                        &&& r.1 matches Ok(driver)
                        &&& driver.wf()
                        &&& driver.path == path
                        &&& container_views(driver.containers@).dom() =~= Set::empty()
                        &&& driver.subs@ == Seq::<Entry<S, R>>::empty()
                        &&& driver.subs.broadcast == broadcast
                        &&& driver.subs.latency_ns == latency_ns
                    },
                }
            };
        if let Ok(driver) = r.1 {
            assert forall|name: Seq<char>| !driver.containers@.contains_key(name) by {
                assert(!container_views(driver.containers@).contains_key(name));
            }
        }
        assert(call_ensures(send, (owner, Message::BroadcastReady { path }), (told, sent)));
    }
}

/// A track is read in the container that the catalog advertises for it, whatever that is.
pub proof fn law_advertised_container_is_read<N, S, R>(
    driver: Driver<N, S, R>,
    track: String,
    r: Result<WireContainer, TrackErrorKind>,
)
    requires
        call_ensures(Driver::<N, S, R>::get_container, (&driver, &track), r),
    ensures
        !driver.containers@.contains_key(track@) <==> (r matches Err(
            TrackErrorKind::NotAdvertised,
        )),
        r matches Ok(wire) ==> is_wire_of(wire, driver.containers@[track@]),
        driver.containers@.contains_key(track@) ==> {
            let container = driver.containers@[track@];
            &&& container is Legacy || container is Loc ==> r is Ok
            &&& container matches CatalogContainer::Unknown(kind) ==> (r matches Err(
                TrackErrorKind::Container(e),
            ) && e@ == "unsupported container: "@ + (match kind {
                Some(kind) => kind@,
                None => "<missing>"@,
            }))
            &&& r matches Err(fault) ==> fault is Container
            &&& forall|again: Result<WireContainer, String>| #[trigger]
                call_ensures(WireContainer::from_catalog, (&container,), again) ==> (match (
                    r,
                    again,
                ) {
                    (Ok(_), Ok(_)) => true,
                    (Err(TrackErrorKind::Container(a)), Err(b)) => a@ == b@,
                    _ => false,
                })
        },
{
    assert(driver.advertised().contains_key(track@) == driver.containers@.contains_key(track@));
    if driver.containers@.contains_key(track@) {
        assert(driver.advertised()[track@] == driver.containers@[track@]@);
    }
}

/// The fault of a track in words.
pub open spec fn fault_of_track(track: Seq<char>, reason: Seq<char>) -> Seq<char> {
    "track("@ + track + "): "@ + reason
}

proof fn lemma_fault_of_track(track: Seq<char>, reason: Seq<char>)
    ensures
        crate::broadcast_consumer::track_error_text(track, reason) == fault_of_track(track, reason),
{
    reveal_strlit("");
    assert(crate::broadcast_consumer::track_error_text(track, reason) =~= fault_of_track(
        track,
        reason,
    ));
}

/// Whether a request to subscribe had the given outcome: a track that the catalog does not
/// advertise, or whose container cannot be read, is told as a fault under the token, and touches
/// no subscription. Any other is asked for, and is then read in the container that the catalog
/// advertises for it.
pub open spec fn subscribes<N, S, R, O, Ask, Send>(
    before: Driver<N, S, R>,
    track: String,
    token: Token,
    priority: u8,
    owner: O,
    ask: Ask,
    send: Send,
    after: Driver<N, S, R>,
    told: O,
    flow: ControlFlow<Option<CloseReason>>,
) -> bool where
    Ask: FnOnce(N, String, u8) -> (N, Result<S, String>),
    Send: FnOnce(O, Message) -> (O, Result<(), PidDead>),
 {
    let refused = |reason: Seq<char>|
        after.subs == before.subs && tells_fault(
            owner,
            token,
            fault_of_track(track@, reason),
            send,
            told,
            flow,
        );
    let asked_for = exists|asked: Result<S, String>|
        {
            &&& #[trigger] asks_for_track(
                before.subs,
                token,
                track,
                priority,
                ask,
                after.subs,
                asked,
            )
            &&& asked is Ok ==> told == owner && flow is Continue
            &&& asked is Ok ==> (after.subs.entries@.last().state matches Subscription::Pending(
                _,
                wire,
            ) && is_wire_of(wire, before.containers@[track@]))
            &&& asked matches Err(e) ==> tells_fault(
                owner,
                token,
                fault_of_track(track@, "subscribe failed: "@ + e@),
                send,
                told,
                flow,
            )
        };
    &&& !before.containers@.contains_key(track@) ==> refused("not advertised in the catalog"@)
    &&& before.containers@.contains_key(track@) ==> {
        let container = before.containers@[track@];
        &&& container is Legacy || container is Loc ==> asked_for
        &&& container matches CatalogContainer::Unknown(kind) ==> refused(
            "unsupported container: "@ + (match kind {
                Some(kind) => kind@,
                None => "<missing>"@,
            }),
        )
        &&& forall|verdict: Result<WireContainer, String>| #[trigger]
            call_ensures(WireContainer::from_catalog, (&container,), verdict) ==> match verdict {
                Ok(_) => asked_for,
                Err(e) => refused(e@),
            }
    }
}

/// Whether a command had the given outcome. The end of the commands ends the consumer without a
/// reason; a token that is dropped is told nothing of.
pub open spec fn carries_out<N, S, R, O, Ask, Send>(
    before: Driver<N, S, R>,
    command: Result<Command, Closed>,
    owner: O,
    ask: Ask,
    send: Send,
    after: Driver<N, S, R>,
    told: O,
    flow: ControlFlow<Option<CloseReason>>,
) -> bool where
    Ask: FnOnce(N, String, u8) -> (N, Result<S, String>),
    Send: FnOnce(O, Message) -> (O, Result<(), PidDead>),
 {
    &&& after.path == before.path
    &&& after.containers == before.containers
    &&& after.subs.latency_ns == before.subs.latency_ns
    &&& command is Err ==> after == before && told == owner && (flow matches ControlFlow::Break(why)
        && why is None)
    &&& command matches Ok(Command::Unsubscribe { token }) ==> {
        &&& drops_token(before.subs.entries@, after.subs.entries@, token)
        &&& after.subs.broadcast == before.subs.broadcast
        &&& told == owner
        &&& flow is Continue
    }
    &&& command matches Ok(Command::Subscribe { track, token, priority }) ==> subscribes(
        before,
        track,
        token,
        priority,
        owner,
        ask,
        send,
        after,
        told,
        flow,
    )
}

proof fn lemma_carries_out<N, S, R, O, Ask, Send>(
    before: Driver<N, S, R>,
    command: Result<Command, Closed>,
    owner: O,
    ask: Ask,
    send: Send,
    after: Driver<N, S, R>,
    told: O,
    flow: ControlFlow<Option<CloseReason>>,
) where
    Ask: FnOnce(N, String, u8) -> (N, Result<S, String>),
    Send: FnOnce(O, Message) -> (O, Result<(), PidDead>),

    requires
        before.command_handled(command, owner, ask, send, after, told, flow),
    ensures
        carries_out(before, command, owner, ask, send, after, told, flow),
{
    match command {
        Err(_) => {},
        Ok(Command::Unsubscribe { token }) => {
            lemma_drops_token(before.subs.entries@, token);
        },
        Ok(Command::Subscribe { track, token, priority }) => {
            let advertised = before.advertised();
            assert(advertised.contains_key(track@) == before.containers@.contains_key(track@));
            if advertised.contains_key(track@) {
                assert(advertised[track@] == before.containers@[track@]@);
            }
            match before.refusal(track@) {
                Some(reason) => {
                    lemma_fault_of_track(track@, reason);
                },
                None => {
                    let (n, asked) = choose|n: N, asked: Result<S, String>|
                        {
                            &&& #[trigger] call_ensures(
                                ask,
                                (before.subs.broadcast, track, priority),
                                (n, asked),
                            )
                            &&& after.subs.broadcast == n
                            &&& match asked {
                                Err(e) => {
                                    &&& after.subs@ == without(before.subs@, token)
                                    &&& crate::broadcast_consumer::reported(
                                        owner,
                                        token,
                                        crate::broadcast_consumer::track_error_text(
                                            track@,
                                            "subscribe failed: "@ + e@,
                                        ),
                                        send,
                                        told,
                                        flow,
                                    )
                                },
                                Ok(asked) => {
                                    let entry = after.subs@.last();
                                    &&& after.subs@ == without(before.subs@, token).push(entry)
                                    &&& entry.token == token
                                    &&& entry.track == track
                                    &&& entry.state matches Subscription::Pending(pending, wire)
                                    &&& pending == asked
                                    &&& wire@ == before.advertised()[track@]
                                    &&& told == owner
                                    &&& flow == ControlFlow::<Option<CloseReason>, ()>::Continue(
                                        (),
                                    )
                                },
                            }
                        };
                    lemma_drops_token(before.subs.entries@, token);
                    match asked {
                        Err(e) => {
                            lemma_fault_of_track(track@, "subscribe failed: "@ + e@);
                        },
                        Ok(_) => {
                            assert(after.subs.entries@.drop_last() =~= without(
                                before.subs.entries@,
                                token,
                            ));
                        },
                    }
                    assert(asks_for_track(
                        before.subs,
                        token,
                        track,
                        priority,
                        ask,
                        after.subs,
                        asked,
                    ));
                },
            }
        },
    }
}

/// Whether a catalog had the given outcome: the consumer advertises what it names from now on, and
/// its owner is told it once. The end of the broadcast, or a catalog that cannot be read, ends the
/// consumer with that reason, and tells nothing.
pub open spec fn takes_catalog<N, S, R, O, Send>(
    before: Driver<N, S, R>,
    snapshot: Result<Option<Catalog>, String>,
    owner: O,
    send: Send,
    after: Driver<N, S, R>,
    told: O,
    flow: ControlFlow<Option<CloseReason>>,
) -> bool where Send: FnOnce(O, Message) -> (O, Result<(), PidDead>) {
    &&& after.path == before.path
    &&& after.subs == before.subs
    &&& snapshot matches Ok(Some(catalog)) ==> {
        &&& advertises(after.containers@, catalog)
        &&& exists|renditions: Vec<(String, RenditionFormat)>, sent: Result<(), PidDead>|
            {
                &&& #[trigger] call_ensures(
                    send,
                    (owner, Message::Catalog { path: before.path, renditions }),
                    (told, sent),
                )
                &&& reports(renditions@, catalog)
                &&& goes_on(sent, flow)
            }
    }
    &&& snapshot matches Ok(None) ==> after == before && told == owner && (
    flow matches ControlFlow::Break(Some(why)) && why is Ended)
    &&& snapshot matches Err(e) ==> after == before && told == owner && (
    flow matches ControlFlow::Break(Some(why)) && why == CloseReason::CatalogError(e))
}

proof fn lemma_takes_catalog<N, S, R, O, Send>(
    before: Driver<N, S, R>,
    snapshot: Result<Option<Catalog>, String>,
    owner: O,
    send: Send,
    after: Driver<N, S, R>,
    told: O,
    flow: ControlFlow<Option<CloseReason>>,
) where Send: FnOnce(O, Message) -> (O, Result<(), PidDead>)
    requires
        before.catalog_handled(snapshot, owner, send, after, told, flow),
    ensures
        takes_catalog(before, snapshot, owner, send, after, told, flow),
{
    if let Ok(Some(catalog)) = snapshot {
        lemma_advertises(after.containers@, catalog);
        let (renditions, sent) = choose|
            renditions: Vec<(String, RenditionFormat)>,
            sent: Result<(), PidDead>,
        |
            {
                &&& #[trigger] call_ensures(
                    send,
                    (owner, Message::Catalog { path: before.path, renditions }),
                    (told, sent),
                )
                &&& crate::messages::report_view(renditions@) == crate::messages::catalog_report(
                    catalog@,
                )
                &&& flow == crate::broadcast_consumer::flow_after(sent)
            };
        lemma_reports(renditions@, catalog);
        assert(call_ensures(
            send,
            (owner, Message::Catalog { path: before.path, renditions }),
            (told, sent),
        ));
    }
}

/// Whether the news of a track had the given outcome: it is told once, under the token.
pub open spec fn passes_on<O, Send>(
    owner: O,
    token: Token,
    result: TrackResult,
    send: Send,
    told: O,
    flow: ControlFlow<Option<CloseReason>>,
) -> bool where Send: FnOnce(O, Message) -> (O, Result<(), PidDead>) {
    &&& result matches TrackResult::Frame(frame) ==> exists|m: Message, sent: Result<(), PidDead>|
        {
            &&& #[trigger] call_ensures(send, (owner, m), (told, sent))
            &&& tells_frame(m, token, frame)
            &&& goes_on(sent, flow)
        }
    &&& result is Finished ==> exists|sent: Result<(), PidDead>|
        {
            &&& #[trigger] call_ensures(
                send,
                (owner, Message::TrackFinished { token }),
                (told, sent),
            )
            &&& goes_on(sent, flow)
        }
    &&& result matches TrackResult::Failed(fault) ==> tells_fault(
        owner,
        token,
        fault_of_track(
            fault.track@,
            match fault.source {
                TrackErrorKind::NotAdvertised => "not advertised in the catalog"@,
                TrackErrorKind::Container(e) => e@,
                TrackErrorKind::SubscribeFailed(e) => "subscribe failed: "@ + e@,
                TrackErrorKind::ReadFailed(e) => "track read failed: "@ + e@,
            },
        ),
        send,
        told,
        flow,
    )
}

proof fn lemma_passes_on<O, Send>(
    owner: O,
    token: Token,
    result: TrackResult,
    send: Send,
    told: O,
    flow: ControlFlow<Option<CloseReason>>,
) where Send: FnOnce(O, Message) -> (O, Result<(), PidDead>)
    requires
        crate::broadcast_consumer::track_handled(owner, token, result, send, told, flow),
    ensures
        passes_on(owner, token, result, send, told, flow),
{
    match result {
        TrackResult::Frame(frame) => {
            let m = crate::messages::frame_message(token, frame);
            let sent = choose|sent: Result<(), PidDead>| #[trigger]
                call_ensures(send, (owner, m), (told, sent)) && flow
                    == crate::broadcast_consumer::flow_after(sent);
            assert(call_ensures(send, (owner, m), (told, sent)));
            assert(tells_frame(m, token, frame));
        },
        TrackResult::Failed(fault) => {
            lemma_fault_of_track(fault.track@, fault.source.text());
        },
        TrackResult::Finished => {},
    }
}

/// Commands, catalogs and the news of tracks are dealt with each in its own way.
pub proof fn law_events_are_dealt_with<N, S, R, O, Ask, Send>(
    driver: Driver<N, S, R>,
    command: Result<Command, Closed>,
    snapshot: Result<Option<Catalog>, String>,
    token: Token,
    result: TrackResult,
    event: Event,
    owner: O,
    ask: Ask,
    send: Send,
    r: (Driver<N, S, R>, O, ControlFlow<Option<CloseReason>>),
) where
    Ask: FnOnce(N, String, u8) -> (N, Result<S, String>),
    Send: FnOnce(O, Message) -> (O, Result<(), PidDead>),

    ensures
        call_ensures(
            Driver::<N, S, R>::handle_command::<O, Ask, Send>,
            (driver, command, owner, ask, send),
            r,
        ) ==> carries_out(driver, command, owner, ask, send, r.0, r.1, r.2),
        forall|d: &mut Driver<N, S, R>| #[trigger]
            call_ensures(
                Driver::<N, S, R>::handle_catalog::<O, Send>,
                (d, snapshot, owner, send),
                (r.1, r.2),
            ) ==> takes_catalog(*d, snapshot, owner, send, *final(d), r.1, r.2),
        call_ensures(
            Driver::<N, S, R>::handle_track::<O, Send>,
            (&driver, token, result, owner, send),
            (r.1, r.2),
        ) ==> passes_on(owner, token, result, send, r.1, r.2),
        call_ensures(
            Driver::<N, S, R>::handle_event::<O, Ask, Send>,
            (driver, event, owner, ask, send),
            r,
        ) ==> match event {
            Event::Command(command) => carries_out(
                driver,
                command,
                owner,
                ask,
                send,
                r.0,
                r.1,
                r.2,
            ),
            Event::Catalog(snapshot) => takes_catalog(
                driver,
                snapshot,
                owner,
                send,
                r.0,
                r.1,
                r.2,
            ),
            Event::Track(token, result) => r.0 == driver && passes_on(
                owner,
                token,
                result,
                send,
                r.1,
                r.2,
            ),
        },
{
    if call_ensures(
        Driver::<N, S, R>::handle_command::<O, Ask, Send>,
        (driver, command, owner, ask, send),
        r,
    ) {
        lemma_carries_out(driver, command, owner, ask, send, r.0, r.1, r.2);
    }
    assert forall|d: &mut Driver<N, S, R>| #[trigger]
        call_ensures(
            Driver::<N, S, R>::handle_catalog::<O, Send>,
            (d, snapshot, owner, send),
            (r.1, r.2),
        ) implies takes_catalog(*d, snapshot, owner, send, *final(d), r.1, r.2) by {
        lemma_takes_catalog(*d, snapshot, owner, send, *final(d), r.1, r.2);
    }
    if call_ensures(
        Driver::<N, S, R>::handle_track::<O, Send>,
        (&driver, token, result, owner, send),
        (r.1, r.2),
    ) {
        lemma_passes_on(owner, token, result, send, r.1, r.2);
    }
    if call_ensures(
        Driver::<N, S, R>::handle_event::<O, Ask, Send>,
        (driver, event, owner, ask, send),
        r,
    ) {
        match event {
            Event::Command(command) => {
                lemma_carries_out(driver, command, owner, ask, send, r.0, r.1, r.2);
            },
            Event::Catalog(snapshot) => {
                lemma_takes_catalog(driver, snapshot, owner, send, r.0, r.1, r.2);
            },
            Event::Track(token, result) => {
                lemma_passes_on(owner, token, result, send, r.1, r.2);
            },
        }
    }
}

/// Once a catalog has come in, a subscription to one of its audios or videos, if it is granted,
/// waits to be read in the container of that very rendition.
pub proof fn law_rendition_is_read_in_its_container<N, S, R, O, P, Ask, Send, Tell>(
    before: Driver<N, S, R>,
    catalog: Catalog,
    listener: P,
    tell: Tell,
    listed: Driver<N, S, R>,
    heard: P,
    heard_flow: ControlFlow<Option<CloseReason>>,
    i: int,
    track: String,
    token: Token,
    priority: u8,
    owner: O,
    ask: Ask,
    send: Send,
    r: (Driver<N, S, R>, O, ControlFlow<Option<CloseReason>>),
) where
    Ask: FnOnce(N, String, u8) -> (N, Result<S, String>),
    Send: FnOnce(O, Message) -> (O, Result<(), PidDead>),
    Tell: FnOnce(P, Message) -> (P, Result<(), PidDead>),

    requires
        call_ensures(
            Driver::<N, S, R>::handle_event::<P, Ask, Tell>,
            (before, Event::Catalog(Ok(Some(catalog))), listener, ask, tell),
            (listed, heard, heard_flow),
        ),
        call_ensures(
            Driver::<N, S, R>::handle_event::<O, Ask, Send>,
            (
                listed,
                Event::Command(Ok(Command::Subscribe { track, token, priority })),
                owner,
                ask,
                send,
            ),
            r,
        ),
        forall|asked: Result<S, String>, n: N|
            call_ensures(ask, (listed.subs.broadcast, track, priority), (n, asked)) ==> asked is Ok,
    ensures
        last_audio(catalog, i) && catalog.audios@[i].0@ == track@ && (
        catalog.audios@[i].1.container is Loc || catalog.audios@[i].1.container is Legacy) ==> {
            &&& r.0.subs.entries@.len() > 0
            &&& r.0.subs.entries@.last().token == token
            &&& r.0.subs.entries@.last().state matches Subscription::Pending(_, wire)
            &&& is_wire_of(wire, catalog.audios@[i].1.container)
        },
        last_video(catalog, i) && catalog.videos@[i].0@ == track@ && (
        catalog.videos@[i].1.container is Loc || catalog.videos@[i].1.container is Legacy) ==> {
            &&& r.0.subs.entries@.len() > 0
            &&& r.0.subs.entries@.last().token == token
            &&& r.0.subs.entries@.last().state matches Subscription::Pending(_, wire)
            &&& is_wire_of(wire, catalog.videos@[i].1.container)
        },
{
    lemma_takes_catalog(before, Ok(Some(catalog)), listener, tell, listed, heard, heard_flow);
    let command = Ok(Command::Subscribe { track, token, priority });
    lemma_carries_out(listed, command, owner, ask, send, r.0, r.1, r.2);
}

/// Whether an event came next: a command if there is one, else a catalog, else one of a track. What
/// stands further back is not touched.
pub open spec fn comes_next<N, S, R, Q, K, U, Pop, Next, Granted, Open, Read>(
    before: Driver<N, S, R>,
    queue: Q,
    reader: K,
    pop: Pop,
    next: Next,
    granted: Granted,
    open: Open,
    read: Read,
    after: Driver<N, S, R>,
    r: (Q, K, Option<Event>),
) -> bool where
    Pop: FnOnce(Q) -> (Q, Option<Result<Command, Closed>>),
    Next: FnOnce(K) -> (K, Option<Result<Option<Catalog>, String>>),
    Granted: Fn(S) -> (S, Option<Result<U, String>>),
    Open: Fn(U, WireContainer, u64) -> R,
    Read: Fn(R) -> (R, Option<Result<Option<Frame>, String>>),
 {
    &&& after.path == before.path
    &&& after.containers == before.containers
    &&& after.subs.broadcast == before.subs.broadcast
    &&& after.subs.latency_ns == before.subs.latency_ns
    &&& exists|q: Q, popped: Option<Result<Command, Closed>>|
        {
            &&& #[trigger] call_ensures(pop, (queue,), (q, popped))
            &&& r.0 == q
            &&& popped matches Some(command) ==> {
                &&& r.1 == reader
                &&& r.2 == Some(Event::Command(command))
                &&& after.subs.entries@ == before.subs.entries@
            }
            &&& popped is None ==> exists|k: K, snapshot: Option<Result<Option<Catalog>, String>>|
                {
                    &&& #[trigger] call_ensures(next, (reader,), (k, snapshot))
                    &&& r.1 == k
                    &&& snapshot matches Some(catalog) ==> {
                        &&& r.2 == Some(Event::Catalog(catalog))
                        &&& after.subs.entries@ == before.subs.entries@
                    }
                    &&& snapshot is None ==> exists|
                        waited: Seq<Entry<S, R>>,
                        event: Option<(Token, TrackResult)>,
                    |
                        {
                            &&& #[trigger] is_polled(
                                before.subs.entries@,
                                waited,
                                before.subs.latency_ns,
                                granted,
                                open,
                                read,
                                after.subs.entries@,
                                event,
                            )
                            &&& event is None ==> r.2 is None
                            &&& event matches Some((token, result)) ==> r.2 == Some(
                                Event::Track(token, result),
                            )
                        }
                }
        }
}

/// Commands come before catalogs, and catalogs before tracks.
pub proof fn law_commands_come_first<N, S, R, Q, K, U, Pop, Next, Granted, Open, Read>(
    queue: Q,
    reader: K,
    pop: Pop,
    next: Next,
    granted: Granted,
    open: Open,
    read: Read,
    r: (Q, K, Option<Event>),
) where
    Pop: FnOnce(Q) -> (Q, Option<Result<Command, Closed>>),
    Next: FnOnce(K) -> (K, Option<Result<Option<Catalog>, String>>),
    Granted: Fn(S) -> (S, Option<Result<U, String>>),
    Open: Fn(U, WireContainer, u64) -> R,
    Read: Fn(R) -> (R, Option<Result<Option<Frame>, String>>),

    ensures
        forall|d: &mut Driver<N, S, R>| #[trigger]
            call_ensures(
                Driver::<N, S, R>::next_event::<Q, K, U, Pop, Next, Granted, Open, Read>,
                (d, queue, reader, pop, next, &granted, &open, &read),
                r,
            ) ==> comes_next(
                *d,
                queue,
                reader,
                pop,
                next,
                granted,
                open,
                read,
                *final(d),
                r,
            ),
{
    assert forall|d: &mut Driver<N, S, R>| #[trigger]
        call_ensures(
            Driver::<N, S, R>::next_event::<Q, K, U, Pop, Next, Granted, Open, Read>,
            (d, queue, reader, pop, next, &granted, &open, &read),
            r,
        ) implies comes_next(
        *d,
        queue,
        reader,
        pop,
        next,
        granted,
        open,
        read,
        *final(d),
        r,
    ) by {
        assert forall|waited: Seq<Entry<S, R>>, event: Option<(Token, TrackResult)>| #[trigger]
            served(
                d.subs.entries@,
                waited,
                d.subs.latency_ns,
                granted,
                open,
                read,
                final(d).subs.entries@,
                event,
            ) implies is_polled(
            d.subs.entries@,
            waited,
            d.subs.latency_ns,
            granted,
            open,
            read,
            final(d).subs.entries@,
            event,
        ) by {
            lemma_is_polled(
                d.subs.entries@,
                waited,
                d.subs.latency_ns,
                granted,
                open,
                read,
                final(d).subs.entries@,
                event,
            );
        }
    }
}

} // verus!
