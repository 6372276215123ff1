//! The session of a sink.

use vstd::prelude::*;

use crate::broadcast_consumer::Closed;
use crate::membrane::messages::Message;
use crate::native::session_url;
use crate::reply::{Atom, FaultView, NifError};
use crate::stack::{parse_url, url_verdict};

verus! {

/// The owner's end of a session. `O` is the origin that broadcasts are published to, `H` takes
/// the shutdown.
pub struct SessionResource<O, H> {
    pub origin: O,
    pub shutdown: H,
}

/// Starts a session with the server at `url`. A text that is no URL is refused, and starts
/// nothing: the runtime comes back as it was.
pub fn setup_session<T, R, Spawn>(
    runtime: T,
    url: &str,
    disable_tls_verify: bool,
    spawn: Spawn,
) -> (r: (T, Result<R, NifError>)) where Spawn: FnOnce(T, String, bool) -> (T, R)
    requires
        forall|url: String| call_requires(spawn, (runtime, url, disable_tls_verify)),
    ensures
        match url_verdict(url@) {
            Ok(parsed) => exists|text: String, after: T, resource: R|
                {
                    &&& text@ == parsed
                    &&& #[trigger] call_ensures(
                        spawn,
                        (runtime, text, disable_tls_verify),
                        (after, resource),
                    )
                    &&& r.0 == after
                    &&& r.1 == Ok::<R, NifError>(resource)
                },
            Err(e) => r.0 == runtime && (r.1 matches Err(fault) && fault@ == FaultView::Text(
                "invalid url: "@ + e,
            )),
        },
{
    match session_url(parse_url(url)) {
        Ok(url) => {
            let (runtime, resource) = spawn(runtime, url, disable_tls_verify);
            (runtime, Ok(resource))
        },
        Err(fault) => (runtime, Err(fault)),
    }
}

/// What the attempt to connect comes to: a message to the owner, and the session to wait for, if
/// it is up.
pub fn session_started<C>(connected: Result<C, String>) -> (r: (Message, Option<C>))
    ensures
        r == (match connected {
            Ok(session) => (Message::Connected, Some(session)),
            Err(reason) => (Message::SetupFailed { reason }, None),
        }),
{
    match connected {
        Ok(session) => (Message::Connected, Some(session)),
        Err(reason) => (Message::SetupFailed { reason }, None),
    }
}

/// The message that tells the end of a session.
pub fn handle_session_closed(result: Result<(), String>) -> (r: Message)
    ensures
        r matches Message::Disconnected { reason } && reason@ == (match result {
            Ok(()) => "MoQ session closed gracefully"@,
            Err(e) => e@,
        }),
{
    match result {
        Ok(()) => Message::Disconnected { reason: "MoQ session closed gracefully".to_owned() },
        Err(reason) => Message::Disconnected { reason },
    }
}

/// How a session that was up comes to its end.
#[derive(Debug)]
pub enum SessionEnd {
    /// The owner closed it.
    Shutdown,
    Closed(Result<(), String>),
}

/// What is told at the end of a session: nothing to the owner who closed it.
pub fn session_over(end: SessionEnd) -> (r: Option<Message>)
    ensures
        match end {
            SessionEnd::Shutdown => r is None,
            SessionEnd::Closed(result) => r matches Some(Message::Disconnected { reason })
                && reason@ == (match result {
                Ok(()) => "MoQ session closed gracefully"@,
                Err(e) => e@,
            }),
        },
{
    match end {
        SessionEnd::Shutdown => None,
        SessionEnd::Closed(result) => Some(handle_session_closed(result)),
    }
}

/// Closes a session. The answer is `ok` in any case.
pub fn close_session<O, H, Push>(session: &SessionResource<O, H>, push: Push) -> (r: Atom) where
    Push: FnOnce(&H) -> Result<(), Closed>,

    requires
        call_requires(push, (&session.shutdown,)),
    ensures
        r == Atom::Done,
        exists|pushed: Result<(), Closed>| #[trigger]
            call_ensures(push, (&session.shutdown,), pushed),
{
    let _ = push(&session.shutdown);
    Atom::Done
}

} // verus!
