//! The course of a source, from the wait for its broadcast to its end.
//!
//! The owner hears that the source is connected once its broadcast was announced, then how the
//! catalog changes, and at last why the source disconnects, unless the owner stopped it.

use vstd::prelude::*;

use crate::membrane::messages::Message;
use crate::membrane::subscriber::{
    announced_broadcast, await_broadcast, awaited, event_handled, run_session, subscribe_catalog,
    Awaited, LoopState, SessionEvent, SessionStep, Start,
};
use crate::membrane::track_format::ParamsView;
use crate::messages::{PidDead, Token};
use crate::text::debug_text;

verus! {

/// How far a source has come.
pub enum Phase<X, Y> {
    /// It waits for its broadcast to be announced.
    Awaiting,
    /// The broadcast was found, and its catalog is being subscribed to.
    Opening,
    Following(LoopState<X, Y>),
    /// It is over; an error says what it failed of before it followed a catalog.
    Over(Result<(), String>),
}

impl<X, Y> Phase<X, Y> {
    /// The state of a source that follows its catalog is well formed.
    pub open spec fn wf(self) -> bool {
        self matches Phase::Following(state) ==> state.wf()
    }

    /// The number of the phase in the course of a source.
    pub open spec fn rank(self) -> int {
        match self {
            Phase::Awaiting => 0,
            Phase::Opening => 1,
            Phase::Following(_) => 2,
            Phase::Over(_) => 3,
        }
    }
}

/// What happens to a source in its course. `B` is a broadcast.
pub enum SourceEvent<B> {
    /// An announcement, or the end of all announcements.
    Announced(Option<(String, Option<B>)>),
    /// What the subscription to the catalog came to.
    CatalogOpened(Result<(), String>),
    Session(SessionEvent),
}

/// What a source comes to by an event: its phase, the broadcast that was found, the pumps to start
/// and the one to cancel.
pub struct Turn<B, X, Y> {
    pub phase: Phase<X, Y>,
    pub broadcast: Option<B>,
    pub starts: Vec<Start<Y>>,
    pub cancel: Option<X>,
}

impl<B, X, Y> Turn<B, X, Y> {
    fn quiet(phase: Phase<X, Y>) -> (r: Self)
        ensures
            r.is_quiet(phase),
    {
        Turn { phase, broadcast: None, starts: Vec::new(), cancel: None }
    }

    /// Whether the source is in `phase` now, with nothing more to do.
    pub open spec fn is_quiet(self, phase: Phase<X, Y>) -> bool {
        &&& self.phase == phase
        &&& self.broadcast is None
        &&& self.starts@ == Seq::<Start<Y>>::empty()
        &&& self.cancel is None
    }
}

/// Whether the owner was told `message`, and nothing else, until it became `after`.
pub open spec fn told<O, S>(owner: O, message: Message, send: S, after: O) -> bool where
    S: Fn(O, Message) -> (O, Result<(), PidDead>),
 {
    exists|sent: Result<(), PidDead>| #[trigger]
        call_ensures(send, (owner, message), (after, sent))
}

/// What a source that follows its catalog comes to, once an event was dealt with: a reason to
/// disconnect is told, and ends it.
pub open spec fn step_taken<B, X, Y, O, S>(
    step: SessionStep<X, Y>,
    owner: O,
    send: S,
    after: O,
    turn: Turn<B, X, Y>,
) -> bool where S: Fn(O, Message) -> (O, Result<(), PidDead>) {
    match step {
        SessionStep::Continue { state, starts, cancel } => {
            &&& after == owner
            &&& turn.phase == Phase::Following(state)
            &&& turn.broadcast is None
            &&& turn.starts == starts
            &&& turn.cancel == cancel
        },
        SessionStep::Stop => after == owner && turn.is_quiet(Phase::Over(Ok(()))),
        SessionStep::Disconnect { reason } => {
            &&& told(owner, Message::Disconnected { reason }, send, after)
            &&& turn.is_quiet(Phase::Over(Ok(())))
        },
    }
}

/// What an event comes to in the course of a source. An event that the phase does not wait for
/// changes nothing.
pub open spec fn advanced<B, X, Y, O, Channel, S>(
    phase: Phase<X, Y>,
    name: Seq<char>,
    event: SourceEvent<B>,
    owner: O,
    channel: Channel,
    send: S,
    after: O,
    turn: Turn<B, X, Y>,
) -> bool where
    Channel: FnOnce() -> (X, Y),
    S: Fn(O, Message) -> (O, Result<(), PidDead>),
 {
    match (phase, event) {
        (Phase::Awaiting, SourceEvent::Announced(announced)) => match awaited(name, announced) {
            Awaited::Found(broadcast) => {
                &&& told(owner, Message::Connected, send, after)
                &&& turn.phase is Opening
                &&& turn.broadcast == Some(broadcast)
                &&& turn.starts@ == Seq::<Start<Y>>::empty()
                &&& turn.cancel is None
            },
            Awaited::Waiting => after == owner && turn.is_quiet(Phase::Awaiting),
            Awaited::Closed => {
                &&& after == owner
                &&& turn.phase matches Phase::Over(Err(e))
                &&& e@ == "broadcast "@ + debug_text(name)
                    + " was not announced before origin closed"@
                &&& turn.is_quiet(turn.phase)
            },
        },
        (Phase::Awaiting, SourceEvent::Session(SessionEvent::Shutdown)) => {
            &&& after == owner
            &&& turn.is_quiet(Phase::Over(Ok(())))
        },
        (Phase::Opening, SourceEvent::CatalogOpened(opened)) => {
            &&& after == owner
            &&& turn.is_quiet(turn.phase)
            &&& match opened {
                Ok(()) => {
                    &&& turn.phase matches Phase::Following(state)
                    &&& state.advertised() == Map::<Seq<char>, ParamsView>::empty()
                    &&& state.cancels@ == Map::<Token, X>::empty()
                    &&& state.pending@ == Map::<Token, (String, Y)>::empty()
                },
                Err(reason) => {
                    &&& turn.phase matches Phase::Over(Err(e))
                    &&& e@ == "subscribe_track(catalog) failed: "@ + reason@
                },
            }
        },
        (Phase::Following(state), SourceEvent::Session(event)) => exists|
            mid: O,
            step: SessionStep<X, Y>,
        |
            {
                &&& #[trigger] event_handled(state, event, owner, channel, send, mid, step)
                &&& step_taken(step, mid, send, after, turn)
            },
        _ => after == owner && turn.is_quiet(phase),
    }
}

/// Deals with one event in the course of a source that waits for, or follows, the broadcast
/// `name`.
pub fn advance<B, X, Y, O, Channel, S>(
    phase: Phase<X, Y>,
    name: &String,
    event: SourceEvent<B>,
    owner: O,
    channel: Channel,
    send: &S,
) -> (r: (O, Turn<B, X, Y>)) where
    Channel: FnOnce() -> (X, Y),
    S: Fn(O, Message) -> (O, Result<(), PidDead>),

    requires
        phase.wf(),
        call_requires(channel, ()),
        forall|o: O, m: Message| call_requires(send, (o, m)),
    ensures
        r.1.phase.wf(),
        advanced(phase, name@, event, owner, channel, *send, r.0, r.1),
{
    match (phase, event) {
        (Phase::Awaiting, SourceEvent::Announced(announced)) => {
            let found = match await_broadcast(name, announced) {
                Awaited::Waiting => return (owner, Turn::quiet(Phase::Awaiting)),
                Awaited::Found(broadcast) => Some(broadcast),
                Awaited::Closed => None,
            };
            match announced_broadcast(name, found) {
                Ok(broadcast) => {
                    let ghost before = owner;
                    let (owner, _sent) = send(owner, Message::Connected);
                    assert(told(before, Message::Connected, *send, owner));
                    let turn = Turn {
                        phase: Phase::Opening,
                        broadcast: Some(broadcast),
                        starts: Vec::new(),
                        cancel: None,
                    };
                    (owner, turn)
                },
                Err(e) => (owner, Turn::quiet(Phase::Over(Err(e)))),
            }
        },
        (Phase::Awaiting, SourceEvent::Session(SessionEvent::Shutdown)) => (
            owner,
            Turn::quiet(Phase::Over(Ok(()))),
        ),
        (Phase::Opening, SourceEvent::CatalogOpened(opened)) => match subscribe_catalog(opened) {
            Ok(_) => (owner, Turn::quiet(Phase::Following(LoopState::new()))),
            Err(e) => (owner, Turn::quiet(Phase::Over(Err(e)))),
        },
        (Phase::Following(state), SourceEvent::Session(event)) => {
            let (mid, step) = run_session(state, event, owner, channel, send);
            match step {
                SessionStep::Continue { state, starts, cancel } => (
                    mid,
                    Turn { phase: Phase::Following(state), broadcast: None, starts, cancel },
                ),
                SessionStep::Stop => (mid, Turn::quiet(Phase::Over(Ok(())))),
                SessionStep::Disconnect { reason } => {
                    let ghost before = mid;
                    let (after, _sent) = send(mid, Message::Disconnected { reason });
                    assert(told(before, Message::Disconnected { reason }, *send, after));
                    (after, Turn::quiet(Phase::Over(Ok(()))))
                },
            }
        },
        (phase, _) => (owner, Turn::quiet(phase)),
    }
}

/// A source goes through its phases in order, and says that it is connected only as it leaves the
/// wait for its broadcast: in the wait, as the catalog opens, and after its end it says nothing.
pub proof fn law_phases_go_forward<B, X, Y, O, Channel, S>(
    phase: Phase<X, Y>,
    name: Seq<char>,
    event: SourceEvent<B>,
    owner: O,
    channel: Channel,
    send: S,
    after: O,
    turn: Turn<B, X, Y>,
) where Channel: FnOnce() -> (X, Y), S: Fn(O, Message) -> (O, Result<(), PidDead>)
    requires
        advanced(phase, name, event, owner, channel, send, after, turn),
    ensures
        phase.rank() <= turn.phase.rank(),
        match phase {
            Phase::Awaiting => if turn.phase is Opening {
                told(owner, Message::Connected, send, after)
            } else {
                after == owner && (turn.phase is Awaiting || turn.phase is Over)
            },
            Phase::Opening => after == owner,
            Phase::Following(_) => turn.phase is Following || turn.phase == Phase::<X, Y>::Over(
                Ok(()),
            ),
            Phase::Over(_) => after == owner && turn.phase == phase,
        },
{
}

/// A source that followed its catalog tells why it ends, exactly once and last, unless the owner
/// asked for the end: then it ends in silence. Nothing but the end of the session, of the catalog
/// or of the owner ends it.
pub proof fn law_end_is_told_unless_asked_for<B, X, Y, O, Channel, S>(
    state: LoopState<X, Y>,
    name: Seq<char>,
    event: SessionEvent,
    owner: O,
    channel: Channel,
    send: S,
    after: O,
    turn: Turn<B, X, Y>,
) where Channel: FnOnce() -> (X, Y), S: Fn(O, Message) -> (O, Result<(), PidDead>)
    requires
        advanced(
            Phase::Following(state),
            name,
            SourceEvent::Session(event),
            owner,
            channel,
            send,
            after,
            turn,
        ),
        turn.phase is Over,
    ensures
        match event {
            SessionEvent::Shutdown | SessionEvent::Command(None) => after == owner,
            SessionEvent::Command(Some(_)) | SessionEvent::PumpDone => false,
            SessionEvent::Closed(_) | SessionEvent::Catalog(Ok(None)) | SessionEvent::Catalog(
                Err(_),
            ) => exists|reason: String| #[trigger]
                told(owner, Message::Disconnected { reason }, send, after),
            SessionEvent::Catalog(Ok(Some(_))) => exists|mid: O, reason: String|
                {
                    &&& reason@ == "subscriber pid is dead"@
                    &&& #[trigger] told(mid, Message::Disconnected { reason }, send, after)
                },
        },
{
}

/// Whether `phases` and `owners` are the course of a source under `events`: one of each before the
/// first event, and after each event.
pub open spec fn is_course<B, X, Y, O, Channel, S>(
    name: Seq<char>,
    phases: Seq<Phase<X, Y>>,
    owners: Seq<O>,
    events: Seq<SourceEvent<B>>,
    channels: Seq<Channel>,
    turns: Seq<Turn<B, X, Y>>,
    send: S,
) -> bool where Channel: FnOnce() -> (X, Y), S: Fn(O, Message) -> (O, Result<(), PidDead>) {
    &&& phases.len() == events.len() + 1
    &&& owners.len() == events.len() + 1
    &&& channels.len() == events.len()
    &&& turns.len() == events.len()
    &&& phases[0] is Awaiting
    &&& forall|i: int|
        #![trigger events[i]]
        0 <= i < events.len() ==> {
            &&& turns[i].phase == phases[i + 1]
            &&& advanced(
                phases[i],
                name,
                events[i],
                owners[i],
                channels[i],
                send,
                owners[i + 1],
                turns[i],
            )
        }
}

/// In the whole course of a source: nothing is told before the broadcast was announced, and
/// nothing at all if the source is over without having found it; nothing is told behind the end.
pub proof fn law_course_of_a_source<B, X, Y, O, Channel, S>(
    name: Seq<char>,
    phases: Seq<Phase<X, Y>>,
    owners: Seq<O>,
    events: Seq<SourceEvent<B>>,
    channels: Seq<Channel>,
    turns: Seq<Turn<B, X, Y>>,
    send: S,
    i: int,
    j: int,
) where Channel: FnOnce() -> (X, Y), S: Fn(O, Message) -> (O, Result<(), PidDead>)
    requires
        is_course(name, phases, owners, events, channels, turns, send),
        0 <= i <= j < phases.len(),
    ensures
        phases[i].rank() <= phases[j].rank(),
        phases[j] is Awaiting ==> owners[j] == owners[0],
        phases[j] is Over && (forall|m: int| 0 <= m < j ==> !((#[trigger] phases[m]) is Opening))
            ==> owners[j] == owners[0],
        phases[i] is Over ==> owners[j] == owners[i] && phases[j] == phases[i],
    decreases j,
{
    if j > 0 {
        let event = events[j - 1];
        let turn = turns[j - 1];
        law_phases_go_forward(
            phases[j - 1],
            name,
            event,
            owners[j - 1],
            channels[j - 1],
            send,
            owners[j],
            turn,
        );
        law_course_of_a_source(
            name,
            phases,
            owners,
            events,
            channels,
            turns,
            send,
            0,
            j - 1,
        );
        if i < j {
            law_course_of_a_source(
                name,
                phases,
                owners,
                events,
                channels,
                turns,
                send,
                i,
                j - 1,
            );
        }
        if phases[j] is Over && (forall|m: int|
            0 <= m < j ==> !((#[trigger] phases[m]) is Opening)) {
            assert(!(phases[j - 1] is Opening));
            if phases[j - 1] is Following {
                lemma_following_was_opened(
                    name,
                    phases,
                    owners,
                    events,
                    channels,
                    turns,
                    send,
                    j - 1,
                );
            }
        }
    }
}

/// A source that follows its catalog has been through the opening of it.
proof fn lemma_following_was_opened<B, X, Y, O, Channel, S>(
    name: Seq<char>,
    phases: Seq<Phase<X, Y>>,
    owners: Seq<O>,
    events: Seq<SourceEvent<B>>,
    channels: Seq<Channel>,
    turns: Seq<Turn<B, X, Y>>,
    send: S,
    j: int,
) where Channel: FnOnce() -> (X, Y), S: Fn(O, Message) -> (O, Result<(), PidDead>)
    requires
        is_course(name, phases, owners, events, channels, turns, send),
        0 <= j < phases.len(),
        phases[j] is Following,
    ensures
        exists|m: int| 0 <= m < j && (#[trigger] phases[m]) is Opening,
    decreases j,
{
    if j > 0 {
        let event = events[j - 1];
        let turn = turns[j - 1];
        assert(phases[j - 1] is Following || phases[j - 1] is Opening);
        if phases[j - 1] is Following {
            lemma_following_was_opened(
                name,
                phases,
                owners,
                events,
                channels,
                turns,
                send,
                j - 1,
            );
        }
    }
}

} // verus!
