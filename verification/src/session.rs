//! The course of a session, from the attempt to connect to its end.

use vstd::prelude::*;

use crate::messages::{
    send_connected, send_disconnected, send_setup_failed, Message, PidDead,
};

verus! {

/// The message that tells what the attempt to connect came to.
pub open spec fn set_up_message<C>(connected: Result<C, String>) -> Message {
    match connected {
        Ok(_) => Message::Connected,
        Err(reason) => Message::SetupFailed { reason },
    }
}

/// Reports what the attempt to connect came to. A session that is up is handed back, to wait for
/// its end; `None` says that there is none. An owner that is gone ends it at once.
pub fn run_session<O, C, S>(connected: Result<C, String>, owner: O, send: S) -> (r: (
    O,
    Result<Option<C>, PidDead>,
)) where S: FnOnce(O, Message) -> (O, Result<(), PidDead>)
    requires
        forall|m: Message| call_requires(send, (owner, m)),
    ensures
        exists|told: O, sent: Result<(), PidDead>|
            {
                &&& #[trigger] call_ensures(
                    send,
                    (owner, set_up_message(connected)),
                    (told, sent),
                )
                &&& r.0 == told
                &&& r.1 == (match sent {
                    Err(dead) => Err::<Option<C>, PidDead>(dead),
                    Ok(()) => Ok(
                        match connected {
                            Ok(session) => Some(session),
                            Err(_) => None,
                        },
                    ),
                })
            },
{
    match connected {
        Ok(session) => match send_connected(owner, send) {
            (owner, Ok(())) => (owner, Ok(Some(session))),
            (owner, Err(dead)) => (owner, Err(dead)),
        },
        Err(e) => match send_setup_failed(owner, e, send) {
            (owner, Ok(())) => (owner, Ok(None)),
            (owner, Err(dead)) => (owner, Err(dead)),
        },
    }
}

/// Reports the end of a session that was up.
pub fn session_closed<O, S>(owner: O, reason: String, send: S) -> (r: (
    O,
    Result<(), PidDead>,
)) where S: FnOnce(O, Message) -> (O, Result<(), PidDead>)
    requires
        forall|m: Message| call_requires(send, (owner, m)),
    ensures
        call_ensures(send, (owner, Message::Disconnected { reason }), r),
{
    send_disconnected(owner, reason, send)
}

} // verus!
