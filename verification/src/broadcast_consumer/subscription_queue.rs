//! The subscribed tracks of a broadcast, served in turn.
//!
//! `S` is the handle of a subscription that was asked for, `U` of one that was granted, `R` a
//! reader of frames. What a handle does is passed in as a function that takes the handle and
//! gives it back; `None` in its answer says that there is nothing yet.

use std::collections::VecDeque;

use vstd::prelude::*;

use crate::broadcast_consumer::{TrackError, TrackErrorKind};
use crate::frame::Frame;
use crate::messages::Token;
use crate::track_format::WireContainer;

verus! {

/// How far a subscription has come.
pub enum Subscription<S, R> {
    /// Asked for; its frames will be read from the container.
    Pending(S, WireContainer),
    Streaming(R),
}

/// What serving a subscription once came to.
pub enum Step<S, R> {
    Yield(Frame, Subscription<S, R>),
    Wait(Subscription<S, R>),
    Finished,
    Failed(TrackErrorKind),
}

/// What became of a track.
#[derive(Debug)]
pub enum TrackResult {
    Frame(Frame),
    Failed(TrackError),
    Finished,
}

/// A subscribed track.
pub struct Entry<S, R> {
    pub token: Token,
    pub track: String,
    pub state: Subscription<S, R>,
}

/// What serving a reader once comes to: a frame or the end, an error, or a wait.
pub open spec fn read_step<S, R, Read>(reader: R, read: Read, step: Step<S, R>) -> bool where
    Read: Fn(R) -> (R, Option<Result<Option<Frame>, String>>),
 {
    exists|after: R, answer: Option<Result<Option<Frame>, String>>|
        {
            &&& #[trigger] call_ensures(read, (reader,), (after, answer))
            &&& step == (match answer {
                Some(Ok(Some(frame))) => Step::Yield(frame, Subscription::<S, R>::Streaming(after)),
                Some(Ok(None)) => Step::Finished,
                Some(Err(e)) => Step::Failed(TrackErrorKind::ReadFailed(e)),
                None => Step::Wait(Subscription::Streaming(after)),
            })
        }
}

/// What serving a subscription once comes to. One that was just granted is read at once.
pub open spec fn stepped<S, U, R, Granted, Open, Read>(
    state: Subscription<S, R>,
    latency_ns: u64,
    granted: Granted,
    open: Open,
    read: Read,
    step: Step<S, R>,
) -> bool where
    Granted: Fn(S) -> (S, Option<Result<U, String>>),
    Open: Fn(U, WireContainer, u64) -> R,
    Read: Fn(R) -> (R, Option<Result<Option<Frame>, String>>),
 {
    match state {
        Subscription::Streaming(reader) => read_step(reader, read, step),
        Subscription::Pending(asked, container) => exists|
            after: S,
            answer: Option<Result<U, String>>,
        |
            {
                &&& #[trigger] call_ensures(granted, (asked,), (after, answer))
                &&& match answer {
                    None => step == Step::<S, R>::Wait(Subscription::Pending(after, container)),
                    Some(Err(e)) => step == Step::<S, R>::Failed(
                        TrackErrorKind::SubscribeFailed(e),
                    ),
                    Some(Ok(subscriber)) => exists|reader: R|
                        {
                            &&& #[trigger] call_ensures(
                                open,
                                (subscriber, container, latency_ns),
                                reader,
                            )
                            &&& read_step(reader, read, step)
                        },
                }
            },
    }
}

fn read_once<S, R, Read>(reader: R, read: &Read) -> (r: Step<S, R>) where
    Read: Fn(R) -> (R, Option<Result<Option<Frame>, String>>),

    requires
        forall|reader: R| call_requires(read, (reader,)),
    ensures
        read_step(reader, *read, r),
{
    let (reader, answer) = read(reader);
    match answer {
        Some(Ok(Some(frame))) => Step::Yield(frame, Subscription::Streaming(reader)),
        Some(Ok(None)) => Step::Finished,
        Some(Err(e)) => Step::Failed(TrackErrorKind::ReadFailed(e)),
        None => Step::Wait(Subscription::Streaming(reader)),
    }
}

/// Serves a subscription once.
pub fn step<S, U, R, Granted, Open, Read>(
    state: Subscription<S, R>,
    latency_ns: u64,
    granted: &Granted,
    open: &Open,
    read: &Read,
) -> (r: Step<S, R>) where
    Granted: Fn(S) -> (S, Option<Result<U, String>>),
    Open: Fn(U, WireContainer, u64) -> R,
    Read: Fn(R) -> (R, Option<Result<Option<Frame>, String>>),

    requires
        forall|s: S| call_requires(granted, (s,)),
        forall|u: U, wire: WireContainer| call_requires(open, (u, wire, latency_ns)),
        forall|reader: R| call_requires(read, (reader,)),
    ensures
        stepped(state, latency_ns, *granted, *open, *read, r),
{
    match state {
        Subscription::Pending(asked, container) => {
            let (asked, answer) = granted(asked);
            match answer {
                Some(Ok(subscriber)) => {
                    let reader = open(subscriber, container, latency_ns);
                    read_once(reader, read)
                },
                Some(Err(e)) => Step::Failed(TrackErrorKind::SubscribeFailed(e)),
                None => Step::Wait(Subscription::Pending(asked, container)),
            }
        },
        Subscription::Streaming(reader) => read_once(reader, read),
    }
}

/// Whether no two entries have the same token.
pub open spec fn tokens_distinct<S, R>(entries: Seq<Entry<S, R>>) -> bool {
    forall|i: int, j: int|
        0 <= i < j < entries.len() ==> (#[trigger] entries[i]).token != (
        #[trigger] entries[j]).token
}

/// The entries with another token than `target`, in order.
pub open spec fn without<S, R>(entries: Seq<Entry<S, R>>, target: Token) -> Seq<Entry<S, R>> {
    entries.filter(|entry: Entry<S, R>| entry.token != target)
}

/// Whether `waited` are the first `waited.len()` of `entries`, each served once without result.
pub open spec fn all_waited<S, U, R, Granted, Open, Read>(
    entries: Seq<Entry<S, R>>,
    waited: Seq<Entry<S, R>>,
    latency_ns: u64,
    granted: Granted,
    open: Open,
    read: Read,
) -> bool where
    Granted: Fn(S) -> (S, Option<Result<U, String>>),
    Open: Fn(U, WireContainer, u64) -> R,
    Read: Fn(R) -> (R, Option<Result<Option<Frame>, String>>),
 {
    &&& waited.len() <= entries.len()
    &&& forall|i: int|
        #![trigger waited[i]]
        0 <= i < waited.len() ==> {
            &&& waited[i].token == entries[i].token
            &&& waited[i].track == entries[i].track
            &&& stepped(
                entries[i].state,
                latency_ns,
                granted,
                open,
                read,
                Step::Wait(waited[i].state),
            )
        }
}

/// What serving the entries in turn comes to, once `waited` had nothing to give: either that was
/// all of them, or the next one decides. One that gave a frame goes to the back; one that ended
/// or failed is dropped.
pub open spec fn served<S, U, R, Granted, Open, Read>(
    before: Seq<Entry<S, R>>,
    waited: Seq<Entry<S, R>>,
    latency_ns: u64,
    granted: Granted,
    open: Open,
    read: Read,
    after: Seq<Entry<S, R>>,
    event: Option<(Token, TrackResult)>,
) -> bool where
    Granted: Fn(S) -> (S, Option<Result<U, String>>),
    Open: Fn(U, WireContainer, u64) -> R,
    Read: Fn(R) -> (R, Option<Result<Option<Frame>, String>>),
 {
    &&& all_waited(before, waited, latency_ns, granted, open, read)
    &&& match event {
        None => waited.len() == before.len() && after == waited,
        Some((token, result)) => {
            let k = waited.len() as int;
            &&& k < before.len()
            &&& token == before[k].token
            &&& exists|step: Step<S, R>|
                {
                    &&& #[trigger] stepped(before[k].state, latency_ns, granted, open, read, step)
                    &&& match step {
                        Step::Wait(_) => false,
                        Step::Yield(frame, state) => {
                            &&& result == TrackResult::Frame(frame)
                            &&& after == (before.skip(k + 1) + waited).push(
                                Entry { token: before[k].token, track: before[k].track, state },
                            )
                        },
                        Step::Finished => {
                            &&& result is Finished
                            &&& after == before.skip(k + 1) + waited
                        },
                        Step::Failed(source) => {
                            &&& result == TrackResult::Failed(
                                TrackError { track: before[k].track, source },
                            )
                            &&& after == before.skip(k + 1) + waited
                        },
                    }
                }
        },
    }
}

/// The subscribed tracks of a broadcast. `N` is the handle of the broadcast.
pub struct SubscriptionQueue<N, S, R> {
    pub entries: VecDeque<Entry<S, R>>,
    pub broadcast: N,
    pub latency_ns: u64,
}

impl<N, S, R> View for SubscriptionQueue<N, S, R> {
    type V = Seq<Entry<S, R>>;

    open spec fn view(&self) -> Seq<Entry<S, R>> {
        self.entries@
    }
}

proof fn lemma_without_distinct<S, R>(entries: Seq<Entry<S, R>>, target: Token)
    requires
        tokens_distinct(entries),
    ensures
        tokens_distinct(without(entries, target)),
        forall|i: int|
            0 <= i < without(entries, target).len() ==> {
                &&& (#[trigger] without(entries, target)[i]).token != target
                &&& exists|j: int|
                    0 <= j < entries.len() && #[trigger] entries[j] == without(entries, target)[i]
            },
    decreases entries.len(),
{
    reveal(Seq::filter);
    if entries.len() > 0 {
        let last = entries.last();
        let head = entries.drop_last();
        lemma_without_distinct(head, target);
        let kept = without(head, target);
        let all = without(entries, target);
        assert(all == if last.token != target {
            kept.push(last)
        } else {
            kept
        });
        assert forall|i: int| 0 <= i < all.len() implies (#[trigger] all[i]).token != target
            && exists|j: int| 0 <= j < entries.len() && #[trigger] entries[j] == all[i] by {
            if i < kept.len() {
                let j = choose|j: int| 0 <= j < head.len() && #[trigger] head[j] == kept[i];
                assert(entries[j] == all[i]);
            } else {
                assert(entries[entries.len() - 1] == all[i]);
            }
        }
        assert forall|i: int, j: int| 0 <= i < j < all.len() implies (#[trigger] all[i]).token != (
        #[trigger] all[j]).token by {
            if j == kept.len() {
                let m = choose|m: int| 0 <= m < head.len() && #[trigger] head[m] == kept[i];
                assert(entries[m].token != entries[entries.len() - 1].token);
            } else {
                assert(kept[i].token != kept[j].token);
            }
        }
    }
}

/// Rotating the entries keeps the tokens distinct.
proof fn lemma_rotated_distinct<S, R>(
    entries: Seq<Entry<S, R>>,
    waited: Seq<Entry<S, R>>,
    entry: Entry<S, R>,
)
    requires
        tokens_distinct(entries),
        waited.len() < entries.len(),
        forall|i: int|
            0 <= i < waited.len() ==> (#[trigger] waited[i]).token == entries[i].token,
        entry.token == entries[waited.len() as int].token,
    ensures
        tokens_distinct(entries.skip(waited.len() as int + 1) + waited),
        tokens_distinct((entries.skip(waited.len() as int + 1) + waited).push(entry)),
{
    let k = waited.len() as int;
    let n = entries.len() as int;
    let all = (entries.skip(k + 1) + waited).push(entry);
    assert forall|i: int, j: int| 0 <= i < j < all.len() implies (#[trigger] all[i]).token != (
    #[trigger] all[j]).token by {
        let a = if i < n - k - 1 { i + k + 1 } else { i - (n - k - 1) };
        let b = if j < n - k - 1 { j + k + 1 } else { j - (n - k - 1) };
        assert(all[i].token == entries[a].token && all[j].token == entries[b].token);
        if a < b {
            assert(entries[a].token != entries[b].token);
        } else {
            assert(entries[b].token != entries[a].token);
        }
    }
    let rest = entries.skip(k + 1) + waited;
    assert forall|i: int, j: int| 0 <= i < j < rest.len() implies (#[trigger] rest[i]).token != (
    #[trigger] rest[j]).token by {
        assert(all[i] == rest[i] && all[j] == rest[j]);
    }
}

impl<N, S, R> SubscriptionQueue<N, S, R> {
    /// No two subscriptions have the same token.
    pub open spec fn wf(self) -> bool {
        tokens_distinct(self@)
    }

    /// A queue without subscriptions.
    pub fn new(broadcast: N, latency_ns: u64) -> (r: Self)
        ensures
            r.wf(),
            r@ == Seq::<Entry<S, R>>::empty(),
            r.broadcast == broadcast,
            r.latency_ns == latency_ns,
    {
        SubscriptionQueue { entries: VecDeque::new(), broadcast, latency_ns }
    }

    /// Drops the subscription with the token `target`.
    pub fn remove(&mut self, target: Token)
        requires
            old(self).wf(),
        ensures
            final(self).wf(),
            final(self)@ == without(old(self)@, target),
            forall|i: int|
                0 <= i < final(self)@.len() ==> (#[trigger] final(self)@[i]).token != target,
            final(self).broadcast == old(self).broadcast,
            final(self).latency_ns == old(self).latency_ns,
    {
        let ghost all = self.entries@;
        let len: usize = self.entries.len();
        let mut i: usize = 0;
        assert(without(all.take(0), target) =~= Seq::empty()) by {
            reveal(Seq::filter);
        }
        assert(self.entries@ =~= all.skip(0) + without(all.take(0), target));
        while i < len
            invariant
                i <= len == all.len(),
                self.entries@ == all.skip(i as int) + without(all.take(i as int), target),
                self.broadcast == old(self).broadcast,
                self.latency_ns == old(self).latency_ns,
            decreases len - i,
        {
            let ghost rotated = self.entries@;
            assert(rotated[0] == all[i as int]);
            if let Some(entry) = self.entries.pop_front() {
                proof {
                    reveal(Seq::filter);
                    assert(all.take(i + 1).drop_last() =~= all.take(i as int));
                    assert(rotated.subrange(1, rotated.len() as int) =~= all.skip(i + 1) + without(
                        all.take(i as int),
                        target,
                    ));
                }
                if entry.token != target {
                    self.entries.push_back(entry);
                }
                assert(self.entries@ =~= all.skip(i + 1) + without(all.take(i + 1), target));
            }
            i = i + 1;
        }
        proof {
            assert(all.take(len as int) =~= all);
            assert(self.entries@ =~= without(all, target));
            lemma_without_distinct(all, target);
        }
    }

    /// Subscribes to a track under `token`, in place of a subscription that had the token.
    ///
    /// `ask` asks the broadcast for the track at the given priority. Where that fails the earlier
    /// subscription is gone all the same.
    pub fn insert<Ask>(
        self,
        token: Token,
        track: String,
        container: WireContainer,
        priority: u8,
        ask: Ask,
    ) -> (r: (Self, Result<(), TrackError>)) where
        Ask: FnOnce(N, String, u8) -> (N, Result<S, String>),

        requires
            self.wf(),
            forall|n: N| call_requires(ask, (n, track, priority)),
        ensures
            r.0.wf(),
            r.0.latency_ns == self.latency_ns,
            exists|after: N, asked: Result<S, String>|
                {
                    &&& #[trigger] call_ensures(
                        ask,
                        (self.broadcast, track, priority),
                        (after, asked),
                    )
                    &&& r.0.broadcast == after
                    &&& match asked {
                        Err(e) => {
                            &&& r.0@ == without(self@, token)
                            &&& r.1 == Err::<(), TrackError>(
                                TrackError { track, source: TrackErrorKind::SubscribeFailed(e) },
                            )
                        },
                        Ok(asked) => {
                            &&& r.0@ == without(self@, token).push(
                                Entry {
                                    token,
                                    track,
                                    state: Subscription::Pending(asked, container),
                                },
                            )
                            &&& r.1 is Ok
                        },
                    }
                },
    {
        let mut queue = self;
        queue.remove(token);
        let SubscriptionQueue { mut entries, broadcast, latency_ns } = queue;
        let (broadcast, asked) = ask(broadcast, track.clone(), priority);
        match asked {
            Err(e) => (
                SubscriptionQueue { entries, broadcast, latency_ns },
                Err(TrackError { track, source: TrackErrorKind::SubscribeFailed(e) }),
            ),
            Ok(asked) => {
                entries.push_back(
                    Entry { token, track, state: Subscription::Pending(asked, container) },
                );
                (SubscriptionQueue { entries, broadcast, latency_ns }, Ok(()))
            },
        }
    }

    /// Serves the subscriptions in turn until one has something to tell, each once at most.
    pub fn poll_event<U, Granted, Open, Read>(
        &mut self,
        granted: &Granted,
        open: &Open,
        read: &Read,
    ) -> (r: Option<(Token, TrackResult)>) where
        Granted: Fn(S) -> (S, Option<Result<U, String>>),
        Open: Fn(U, WireContainer, u64) -> R,
        Read: Fn(R) -> (R, Option<Result<Option<Frame>, String>>),

        requires
            old(self).wf(),
            forall|s: S| call_requires(granted, (s,)),
            forall|u: U, wire: WireContainer|
                call_requires(open, (u, wire, old(self).latency_ns)),
            forall|reader: R| call_requires(read, (reader,)),
        ensures
            final(self).wf(),
            final(self).broadcast == old(self).broadcast,
            final(self).latency_ns == old(self).latency_ns,
            exists|waited: Seq<Entry<S, R>>|
                #[trigger] served(
                    old(self)@,
                    waited,
                    old(self).latency_ns,
                    *granted,
                    *open,
                    *read,
                    final(self)@,
                    r,
                ),
    {
        let ghost all = self.entries@;
        let ghost mut waited: Seq<Entry<S, R>> = Seq::empty();
        let len: usize = self.entries.len();
        let mut i: usize = 0;
        assert(self.entries@ =~= all.skip(0) + waited);
        while i < len
            invariant
                i <= len == all.len(),
                i == waited.len(),
                all == old(self)@,
                tokens_distinct(all),
                self.entries@ == all.skip(i as int) + waited,
                self.broadcast == old(self).broadcast,
                self.latency_ns == old(self).latency_ns,
                all_waited(all, waited, self.latency_ns, *granted, *open, *read),
                forall|s: S| call_requires(granted, (s,)),
                forall|u: U, wire: WireContainer|
                    call_requires(open, (u, wire, self.latency_ns)),
                forall|reader: R| call_requires(read, (reader,)),
            decreases len - i,
        {
            let ghost rotated = self.entries@;
            assert(rotated[0] == all[i as int]);
            if let Some(entry) = self.entries.pop_front() {
                let Entry { token, track, state } = entry;
                let ghost rest = all.skip(i + 1) + waited;
                assert(self.entries@ =~= rest);
                let step = step(state, self.latency_ns, granted, open, read);
                assert(stepped(
                    all[i as int].state,
                    self.latency_ns,
                    *granted,
                    *open,
                    *read,
                    step,
                ));
                match step {
                    Step::Wait(state) => {
                        let entry = Entry { token, track, state };
                        proof {
                            assert(rest.push(entry) =~= all.skip(i + 1) + waited.push(entry));
                            waited = waited.push(entry);
                        }
                        self.entries.push_back(entry);
                    },
                    Step::Yield(frame, state) => {
                        proof {
                            lemma_rotated_distinct(all, waited, Entry { token, track, state });
                        }
                        self.entries.push_back(Entry { token, track, state });
                        let r = Some((token, TrackResult::Frame(frame)));
                        assert(served(
                            all,
                            waited,
                            self.latency_ns,
                            *granted,
                            *open,
                            *read,
                            self@,
                            r,
                        ));
                        return r;
                    },
                    Step::Finished => {
                        proof {
                            lemma_rotated_distinct(all, waited, all[i as int]);
                        }
                        let r = Some((token, TrackResult::Finished));
                        assert(served(
                            all,
                            waited,
                            self.latency_ns,
                            *granted,
                            *open,
                            *read,
                            self@,
                            r,
                        ));
                        return r;
                    },
                    Step::Failed(source) => {
                        proof {
                            lemma_rotated_distinct(all, waited, all[i as int]);
                        }
                        let r = Some((token, TrackResult::Failed(TrackError { track, source })));
                        assert(served(
                            all,
                            waited,
                            self.latency_ns,
                            *granted,
                            *open,
                            *read,
                            self@,
                            r,
                        ));
                        return r;
                    },
                }
            }
            i = i + 1;
        }
        assert(self.entries@ =~= waited);
        assert(served(all, waited, self.latency_ns, *granted, *open, *read, self@, None));
        None
    }
}

/// A track that gave a frame is served again only after every other one.
pub proof fn law_yielding_track_goes_last<S, U, R, Granted, Open, Read>(
    before: Seq<Entry<S, R>>,
    waited: Seq<Entry<S, R>>,
    latency_ns: u64,
    granted: Granted,
    open: Open,
    read: Read,
    after: Seq<Entry<S, R>>,
    token: Token,
    frame: Frame,
) where
    Granted: Fn(S) -> (S, Option<Result<U, String>>),
    Open: Fn(U, WireContainer, u64) -> R,
    Read: Fn(R) -> (R, Option<Result<Option<Frame>, String>>),

    requires
        served(
            before,
            waited,
            latency_ns,
            granted,
            open,
            read,
            after,
            Some((token, TrackResult::Frame(frame))),
        ),
    ensures
        after.len() == before.len(),
        after.last().token == token,
{
}

/// An event of one track drops no other: every subscription with another token stays, with its
/// track.
pub proof fn law_event_keeps_other_subscriptions<S, U, R, Granted, Open, Read>(
    before: Seq<Entry<S, R>>,
    waited: Seq<Entry<S, R>>,
    latency_ns: u64,
    granted: Granted,
    open: Open,
    read: Read,
    after: Seq<Entry<S, R>>,
    event: Option<(Token, TrackResult)>,
    i: int,
) where
    Granted: Fn(S) -> (S, Option<Result<U, String>>),
    Open: Fn(U, WireContainer, u64) -> R,
    Read: Fn(R) -> (R, Option<Result<Option<Frame>, String>>),

    requires
        served(before, waited, latency_ns, granted, open, read, after, event),
        0 <= i < before.len(),
        event matches Some((token, _)) ==> before[i].token != token,
    ensures
        exists|j: int|
            0 <= j < after.len() && (#[trigger] after[j]).token == before[i].token
                && after[j].track == before[i].track,
{
    let k = waited.len() as int;
    if i < k {
        let j = if event is None { i } else { i + before.len() - k - 1 };
        assert(waited[i].token == before[i].token);
        assert(after[j] == waited[i]);
    } else {
        assert(after[i - k - 1] == before[i]);
    }
}

/// A track that ended or failed is not served again.
pub proof fn law_ended_track_is_dropped<S, U, R, Granted, Open, Read>(
    before: Seq<Entry<S, R>>,
    waited: Seq<Entry<S, R>>,
    latency_ns: u64,
    granted: Granted,
    open: Open,
    read: Read,
    after: Seq<Entry<S, R>>,
    token: Token,
    result: TrackResult,
    j: int,
) where
    Granted: Fn(S) -> (S, Option<Result<U, String>>),
    Open: Fn(U, WireContainer, u64) -> R,
    Read: Fn(R) -> (R, Option<Result<Option<Frame>, String>>),

    requires
        tokens_distinct(before),
        served(
            before,
            waited,
            latency_ns,
            granted,
            open,
            read,
            after,
            Some((token, result)),
        ),
        !(result is Frame),
        0 <= j < after.len(),
    ensures
        after[j].token != token,
{
    let k = waited.len() as int;
    let rest = before.len() - k - 1;
    if j < rest {
        assert(before[k].token != before[j + k + 1].token);
    } else {
        assert(after[j] == waited[j - rest]);
        assert(before[j - rest].token != before[k].token);
    }
}

/// Nothing comes of a subscription that was dropped: an event is that of another token.
pub proof fn law_dropped_subscription_gives_nothing<S, U, R, Granted, Open, Read>(
    before: Seq<Entry<S, R>>,
    target: Token,
    waited: Seq<Entry<S, R>>,
    latency_ns: u64,
    granted: Granted,
    open: Open,
    read: Read,
    after: Seq<Entry<S, R>>,
    event: Option<(Token, TrackResult)>,
) where
    Granted: Fn(S) -> (S, Option<Result<U, String>>),
    Open: Fn(U, WireContainer, u64) -> R,
    Read: Fn(R) -> (R, Option<Result<Option<Frame>, String>>),

    requires
        tokens_distinct(before),
        served(
            without(before, target),
            waited,
            latency_ns,
            granted,
            open,
            read,
            after,
            event,
        ),
    ensures
        event matches Some((token, _)) ==> token != target,
{
    lemma_without_distinct(before, target);
}

/// Whether `queues` is what becomes of the subscriptions in a row of polls: one before the first,
/// and after each. In every poll the tracks of `waits` had nothing to give, and `events` is what
/// came of it.
pub open spec fn polled_along<S, U, R, Granted, Open, Read>(
    queues: Seq<Seq<Entry<S, R>>>,
    waits: Seq<Seq<Entry<S, R>>>,
    events: Seq<Option<(Token, TrackResult)>>,
    latency_ns: u64,
    granted: Granted,
    open: Open,
    read: Read,
) -> bool where
    Granted: Fn(S) -> (S, Option<Result<U, String>>),
    Open: Fn(U, WireContainer, u64) -> R,
    Read: Fn(R) -> (R, Option<Result<Option<Frame>, String>>),
 {
    &&& queues.len() == events.len() + 1
    &&& waits.len() == events.len()
    &&& forall|k: int|
        #![trigger events[k]]
        0 <= k < events.len() ==> served(
            queues[k],
            waits[k],
            latency_ns,
            granted,
            open,
            read,
            queues[k + 1],
            events[k],
        )
}

/// Whether a track always has a frame to give: serving it comes to nothing else.
pub open spec fn always_ready<S, U, R, Granted, Open, Read>(
    entry: Entry<S, R>,
    latency_ns: u64,
    granted: Granted,
    open: Open,
    read: Read,
) -> bool where
    Granted: Fn(S) -> (S, Option<Result<U, String>>),
    Open: Fn(U, WireContainer, u64) -> R,
    Read: Fn(R) -> (R, Option<Result<Option<Frame>, String>>),
 {
    forall|step: Step<S, R>| #[trigger]
        stepped(entry.state, latency_ns, granted, open, read, step) ==> step is Yield
}

/// The tokens and the tracks of the subscriptions, in order.
pub open spec fn names<S, R>(entries: Seq<Entry<S, R>>) -> Seq<(Token, String)> {
    Seq::new(entries.len(), |i: int| (entries[i].token, entries[i].track))
}

/// Polling as many times as there are tracks that always have a frame serves each of them once,
/// in order, and leaves them in their order. Before that, after `k` polls, the first `k` have been
/// served and stand last.
pub proof fn law_ready_tracks_are_served_in_turn<S, U, R, Granted, Open, Read>(
    queues: Seq<Seq<Entry<S, R>>>,
    waits: Seq<Seq<Entry<S, R>>>,
    events: Seq<Option<(Token, TrackResult)>>,
    latency_ns: u64,
    granted: Granted,
    open: Open,
    read: Read,
    k: int,
) where
    Granted: Fn(S) -> (S, Option<Result<U, String>>),
    Open: Fn(U, WireContainer, u64) -> R,
    Read: Fn(R) -> (R, Option<Result<Option<Frame>, String>>),

    requires
        polled_along(queues, waits, events, latency_ns, granted, open, read),
        events.len() == queues[0].len(),
        forall|j: int, i: int|
            0 <= j < queues.len() && 0 <= i < queues[j].len() ==> always_ready(
                #[trigger] queues[j][i],
                latency_ns,
                granted,
                open,
                read,
            ),
        0 <= k <= events.len(),
    ensures
        names(queues[k]) == names(queues[0]).skip(k) + names(queues[0]).take(k),
        names(queues.last()) == names(queues[0]),
        forall|i: int|
            0 <= i < events.len() ==> (#[trigger] events[i] matches Some((token, result)) && token
                == queues[0][i].token && result is Frame),
{
    let n = events.len() as int;
    assert forall|m: int| 0 <= m <= n implies #[trigger] names(queues[m]) == names(
        queues[0],
    ).skip(m) + names(queues[0]).take(m) by {
        lemma_served_in_turn(queues, waits, events, latency_ns, granted, open, read, m);
    }
    assert(names(queues[n]) == names(queues[0]).skip(n) + names(queues[0]).take(n));
    assert(names(queues[0]).skip(n) + names(queues[0]).take(n) =~= names(queues[0]));
    assert forall|i: int| 0 <= i < events.len() implies (#[trigger] events[i] matches Some(
        (token, result),
    ) && token == queues[0][i].token && result is Frame) by {
        lemma_first_is_served(queues, waits, events, latency_ns, granted, open, read, i);
        assert(names(queues[i]) == names(queues[0]).skip(i) + names(queues[0]).take(i));
        assert(names(queues[i]).len() == n);
        assert(names(queues[i])[0] == names(queues[0])[i]);
    }
}

/// A poll of tracks that always have a frame serves the first and puts it last.
proof fn lemma_first_is_served<S, U, R, Granted, Open, Read>(
    queues: Seq<Seq<Entry<S, R>>>,
    waits: Seq<Seq<Entry<S, R>>>,
    events: Seq<Option<(Token, TrackResult)>>,
    latency_ns: u64,
    granted: Granted,
    open: Open,
    read: Read,
    k: int,
) where
    Granted: Fn(S) -> (S, Option<Result<U, String>>),
    Open: Fn(U, WireContainer, u64) -> R,
    Read: Fn(R) -> (R, Option<Result<Option<Frame>, String>>),

    requires
        polled_along(queues, waits, events, latency_ns, granted, open, read),
        0 <= k < events.len(),
        forall|j: int, i: int|
            0 <= j < queues.len() && 0 <= i < queues[j].len() ==> always_ready(
                #[trigger] queues[j][i],
                latency_ns,
                granted,
                open,
                read,
            ),
    ensures
        queues[k].len() > 0 ==> {
            &&& events[k] matches Some((token, result))
            &&& token == queues[k][0].token
            &&& result is Frame
            &&& names(queues[k + 1]) == names(queues[k]).skip(1).push(names(queues[k])[0])
        },
{
    let before = queues[k];
    let waited = waits[k];
    let event = events[k];
    assert(served(before, waited, latency_ns, granted, open, read, queues[k + 1], event));
    if before.len() > 0 {
        assert(always_ready(queues[k][0], latency_ns, granted, open, read));
        if waited.len() > 0 {
            assert(stepped(
                before[0].state,
                latency_ns,
                granted,
                open,
                read,
                Step::Wait(waited[0].state),
            ));
        }
        assert(waited.len() == 0);
        assert(waited =~= Seq::empty());
        assert(names(queues[k + 1]) =~= names(before).skip(1).push(names(before)[0]));
    }
}

proof fn lemma_served_in_turn<S, U, R, Granted, Open, Read>(
    queues: Seq<Seq<Entry<S, R>>>,
    waits: Seq<Seq<Entry<S, R>>>,
    events: Seq<Option<(Token, TrackResult)>>,
    latency_ns: u64,
    granted: Granted,
    open: Open,
    read: Read,
    k: int,
) where
    Granted: Fn(S) -> (S, Option<Result<U, String>>),
    Open: Fn(U, WireContainer, u64) -> R,
    Read: Fn(R) -> (R, Option<Result<Option<Frame>, String>>),

    requires
        polled_along(queues, waits, events, latency_ns, granted, open, read),
        events.len() == queues[0].len(),
        forall|j: int, i: int|
            0 <= j < queues.len() && 0 <= i < queues[j].len() ==> always_ready(
                #[trigger] queues[j][i],
                latency_ns,
                granted,
                open,
                read,
            ),
        0 <= k <= events.len(),
    ensures
        names(queues[k]) == names(queues[0]).skip(k) + names(queues[0]).take(k),
    decreases k,
{
    let all = names(queues[0]);
    if k == 0 {
        assert(all.skip(0) + all.take(0) =~= all);
    } else {
        lemma_served_in_turn(queues, waits, events, latency_ns, granted, open, read, k - 1);
        lemma_first_is_served(queues, waits, events, latency_ns, granted, open, read, k - 1);
        assert(names(queues[k - 1]).len() == all.len());
        assert((all.skip(k - 1) + all.take(k - 1)).skip(1).push(all[k - 1]) =~= all.skip(k)
            + all.take(k));
    }
}

} // verus!
