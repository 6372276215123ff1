//! The subscribed tracks of a broadcast, each served by a task of its own.
//!
//! `N` is the handle of the broadcast, `T` of one of its tracks, `J` of the tasks, `H` one that
//! aborts a task.

use std::collections::HashMap;

use vstd::prelude::*;

use crate::frame::Frame;
use crate::messages::{frame_message, send_frame, Message, PidDead, Token};
use crate::tokens::tokens_of;
use crate::track_format::WireContainer;

verus! {

broadcast use vstd::std_specs::hash::group_hash_axioms;

/// Why a task ended early.
#[derive(Debug)]
pub enum TaskError {
    SubscribeFailed(String),
    ReadFailed(String),
    Panicked(String),
}

/// How a task came to its end.
#[derive(Debug)]
pub enum TaskEnd {
    /// It ran to its end, and hands back its token.
    Returned(Token, Result<(), TaskError>),
    Cancelled,
    Panicked(String),
}

/// The subscribed tracks of a broadcast, the tasks that serve them, and how to abort each.
pub struct Subscriptions<N, J, H> {
    pub broadcast: N,
    pub latency_ns: u64,
    pub tasks: J,
    pub aborts: HashMap<Token, H>,
}

impl<N, J, H> View for Subscriptions<N, J, H> {
    type V = Map<Token, H>;

    open spec fn view(&self) -> Map<Token, H> {
        self.aborts@
    }
}

/// Whether the task of a subscription, if it has one, was aborted, and nothing else was done to the
/// tasks.
pub open spec fn aborted<J, H, Abort>(
    subscriptions: Map<Token, H>,
    token: Token,
    before: J,
    abort: Abort,
    after: J,
) -> bool where Abort: FnOnce(J, H) -> J {
    if subscriptions.contains_key(token) {
        call_ensures(abort, (before, subscriptions[token]), after)
    } else {
        after == before
    }
}

impl<N, J, H> Subscriptions<N, J, H> {
    /// No subscriptions yet.
    pub fn new(broadcast: N, latency_ns: u64, tasks: J) -> (r: Self)
        ensures
            r@ == Map::<Token, H>::empty(),
            r.broadcast == broadcast,
            r.latency_ns == latency_ns,
            r.tasks == tasks,
    {
        Subscriptions { broadcast, latency_ns, tasks, aborts: HashMap::new() }
    }

    /// Starts a task for a track, then aborts one that had the same token.
    ///
    /// `track_of` finds the track in the broadcast, `spawn` starts a task that reads it at the
    /// given priority and latency. Where the track is not found, no task is touched.
    pub fn subscribe<T, TrackOf, Spawn, Abort>(
        self,
        token: Token,
        track: String,
        container: WireContainer,
        priority: u8,
        track_of: TrackOf,
        spawn: Spawn,
        abort: Abort,
    ) -> (r: (Self, Result<(), TaskError>)) where
        TrackOf: FnOnce(N, String) -> (N, Result<T, String>),
        Spawn: FnOnce(J, Token, T, WireContainer, u8, u64) -> (J, H),
        Abort: FnOnce(J, H) -> J,

        requires
            forall|n: N| call_requires(track_of, (n, track)),
            forall|j: J, t: T|
                call_requires(spawn, (j, token, t, container, priority, self.latency_ns)),
            forall|j: J, h: H| call_requires(abort, (j, h)),
        ensures
            r.0.latency_ns == self.latency_ns,
            exists|after: N, t: Result<T, String>|
                {
                    &&& #[trigger] call_ensures(track_of, (self.broadcast, track), (after, t))
                    &&& r.0.broadcast == after
                    &&& match t {
                        Err(e) => {
                            &&& r.0@ == self@
                            &&& r.0.tasks == self.tasks
                            &&& r.1 == Err::<(), TaskError>(TaskError::SubscribeFailed(e))
                        },
                        Ok(t) => exists|running: J, task: H|
                            {
                                &&& #[trigger] call_ensures(
                                    spawn,
                                    (
                                        self.tasks,
                                        token,
                                        t,
                                        container,
                                        priority,
                                        self.latency_ns,
                                    ),
                                    (running, task),
                                )
                                &&& aborted(self@, token, running, abort, r.0.tasks)
                                &&& r.0@ == self@.insert(token, task)
                                &&& r.1 is Ok
                            },
                    }
                },
    {
        let Subscriptions { broadcast, latency_ns, tasks, mut aborts } = self;
        let (broadcast, found) = track_of(broadcast, track);
        match found {
            Err(e) => (
                Subscriptions { broadcast, latency_ns, tasks, aborts },
                Err(TaskError::SubscribeFailed(e)),
            ),
            Ok(t) => {
                let (running, task) = spawn(tasks, token, t, container, priority, latency_ns);
                let tasks = match aborts.insert(token, task) {
                    Some(previous) => abort(running, previous),
                    None => running,
                };
                (Subscriptions { broadcast, latency_ns, tasks, aborts }, Ok(()))
            },
        }
    }

    /// Aborts the task with the given token, if there is one.
    pub fn unsubscribe<Abort>(self, token: Token, abort: Abort) -> (r: Self) where
        Abort: FnOnce(J, H) -> J,

        requires
            forall|j: J, h: H| call_requires(abort, (j, h)),
        ensures
            r@ == self@.remove(token),
            r.broadcast == self.broadcast,
            r.latency_ns == self.latency_ns,
            aborted(self@, token, self.tasks, abort, r.tasks),
    {
        let Subscriptions { broadcast, latency_ns, tasks, mut aborts } = self;
        let tasks = match aborts.remove(&token) {
            Some(task) => abort(tasks, task),
            None => tasks,
        };
        assert(aborts@ =~= self@.remove(token));
        Subscriptions { broadcast, latency_ns, tasks, aborts }
    }

    /// Takes note of the end of a task, and says of which subscription it was, if of any.
    ///
    /// `is_it` tells whether a handle is that of the task that panicked. A task that was aborted
    /// has no subscription any more.
    pub fn finished<IsIt>(&mut self, end: TaskEnd, is_it: IsIt) -> (r: Option<
        (Token, Result<(), TaskError>),
    >) where IsIt: Fn(&H) -> bool
        requires
            forall|h: &H| call_requires(is_it, (h,)),
        ensures
            final(self).broadcast == old(self).broadcast,
            final(self).latency_ns == old(self).latency_ns,
            final(self).tasks == old(self).tasks,
            match end {
                TaskEnd::Returned(token, result) => {
                    &&& r == Some((token, result))
                    &&& final(self)@ == old(self)@.remove(token)
                },
                TaskEnd::Cancelled => r is None && final(self)@ == old(self)@,
                TaskEnd::Panicked(e) => match r {
                    Some((token, result)) => {
                        &&& old(self)@.contains_key(token)
                        &&& call_ensures(is_it, (&old(self)@[token],), true)
                        &&& result == Err::<(), TaskError>(TaskError::Panicked(e))
                        &&& final(self)@ == old(self)@.remove(token)
                    },
                    None => {
                        &&& final(self)@ == old(self)@
                        &&& forall|token: Token|
                            #![trigger old(self)@.contains_key(token)]
                            old(self)@.contains_key(token) ==> call_ensures(
                                is_it,
                                (&old(self)@[token],),
                                false,
                            )
                    },
                },
            },
    {
        match end {
            TaskEnd::Returned(token, result) => {
                let _ = self.aborts.remove(&token);
                assert(self@ =~= old(self)@.remove(token));
                Some((token, result))
            },
            TaskEnd::Cancelled => None,
            TaskEnd::Panicked(e) => {
                let tokens = tokens_of(&self.aborts);
                let mut i: usize = 0;
                while i < tokens.len()
                    invariant
                        end == TaskEnd::Panicked(e),
                        i <= tokens@.len(),
                        *self == *old(self),
                        forall|h: &H| call_requires(is_it, (h,)),
                        forall|t: Token| #[trigger] tokens@.contains(t) <==> self@.contains_key(t),
                        forall|j: int|
                            0 <= j < i ==> call_ensures(
                                is_it,
                                (&self@[#[trigger] tokens@[j]],),
                                false,
                            ),
                    decreases tokens@.len() - i,
                {
                    let token: Token = tokens[i];
                    assert(tokens@.contains(token));
                    if let Some(task) = self.aborts.get(&token) {
                        if is_it(task) {
                            let _ = self.aborts.remove(&token);
                            assert(self@ =~= old(self)@.remove(token));
                            return Some((token, Err(TaskError::Panicked(e))));
                        }
                    }
                    i = i + 1;
                }
                proof {
                    assert forall|t: Token| #[trigger] self@.contains_key(t) implies call_ensures(
                        is_it,
                        (&self@[t],),
                        false,
                    ) by {
                        assert(tokens@.contains(t));
                        let j = tokens@.index_of(t);
                        assert(tokens@[j] == t);
                    }
                }
                None
            },
        }
    }
}

/// What a task does with the answer of a read: `None` if it goes on reading.
///
/// It ends with the track, with an error, or when nobody is left to send the frame to. Only a
/// frame is told.
pub fn run_subscription<O, S>(
    token: Token,
    read: Result<Option<Frame>, String>,
    owner: O,
    send: S,
) -> (r: (O, Option<Result<(), TaskError>>)) where
    S: FnOnce(O, Message) -> (O, Result<(), PidDead>),

    requires
        forall|m: Message| call_requires(send, (owner, m)),
    ensures
        match read {
            Err(e) => r.0 == owner && r.1 == Some(Err::<(), TaskError>(TaskError::ReadFailed(e))),
            Ok(None) => r.0 == owner && r.1 == Some(Ok::<(), TaskError>(())),
            Ok(Some(frame)) => exists|told: O, sent: Result<(), PidDead>|
                {
                    &&& #[trigger] call_ensures(
                        send,
                        (owner, frame_message(token, frame)),
                        (told, sent),
                    )
                    &&& r.0 == told
                    &&& r.1 == (match sent {
                        Ok(()) => None,
                        Err(_) => Some(Ok::<(), TaskError>(())),
                    })
                },
        },
{
    match read {
        Err(e) => (owner, Some(Err(TaskError::ReadFailed(e)))),
        Ok(None) => (owner, Some(Ok(()))),
        Ok(Some(frame)) => match send_frame(owner, token, frame, send) {
            (owner, Ok(())) => (owner, None),
            (owner, Err(_)) => (owner, Some(Ok(()))),
        },
    }
}

} // verus!
