//! Time, frames and what the owner of a session is told.

use vstd::prelude::*;

use crate::frame::{Frame, Timestamp};
use crate::laws::formats::{read_from_audio, read_from_video};
use crate::messages::{
    send_broadcast_closed, send_broadcast_ready, send_catalog, send_connected, send_disconnected,
    send_frame, send_setup_failed, send_track_error, send_track_finished, Catalog, CloseReason,
    Message, PidDead, RenditionFormat, Token,
};
use crate::session::{run_session, session_closed};

verus! {

/// A timestamp holds what it was made of, and is made of any count below two to the power of 62.
pub proof fn law_timestamp_holds_what_it_was_made_of(
    n: u64,
    scale: u64,
    scaled: Option<Timestamp>,
    nanos: Result<Timestamp, String>,
    micros: Result<Timestamp, String>,
)
    requires
        call_ensures(Timestamp::from_scale, (n, scale), scaled),
        call_ensures(Timestamp::from_nanos, (n,), nanos),
        call_ensures(Timestamp::from_micros, (n,), micros),
    ensures
        scaled is Some <==> n < 0x4000_0000_0000_0000 && 0 < scale < 0x4000_0000_0000_0000,
        nanos is Ok <==> n < 0x4000_0000_0000_0000,
        micros is Ok <==> n < 0x4000_0000_0000_0000,
        nanos matches Err(e) ==> e@ == "time overflow"@,
        micros matches Err(e) ==> e@ == "time overflow"@,
        forall|t: Timestamp, r: u64| #[trigger]
            call_ensures(Timestamp::ticks, (&t,), r) ==> {
                &&& scaled == Some(t) ==> r == n
                &&& nanos == Ok::<Timestamp, String>(t) ==> r == n
                &&& micros == Ok::<Timestamp, String>(t) ==> r == n
            },
        forall|t: Timestamp, r: u64| #[trigger]
            call_ensures(Timestamp::scale, (&t,), r) ==> {
                &&& scaled == Some(t) ==> r == scale
                &&& nanos == Ok::<Timestamp, String>(t) ==> r == 1_000_000_000
                &&& micros == Ok::<Timestamp, String>(t) ==> r == 1_000_000
            },
{
}

/// A timestamp is read in nanoseconds and in microseconds rounded down, in as many bits as the
/// number has.
pub proof fn law_timestamp_is_converted(
    t: Timestamp,
    ticks: u64,
    scale: u64,
    nanos: u64,
    micros: u128,
    signed: i64,
)
    requires
        call_ensures(Timestamp::ticks, (&t,), ticks),
        call_ensures(Timestamp::scale, (&t,), scale),
        call_ensures(Timestamp::as_nanos, (&t,), nanos),
        call_ensures(Timestamp::as_micros, (&t,), micros),
        call_ensures(Timestamp::as_signed_micros, (&t,), signed),
    ensures
        nanos as int == ((ticks * 1_000_000_000) / scale as int) % 0x1_0000_0000_0000_0000,
        micros as int == (ticks * 1_000_000) / scale as int,
        signed as int == (if micros % 0x1_0000_0000_0000_0000 < 0x8000_0000_0000_0000 {
            (micros % 0x1_0000_0000_0000_0000) as int
        } else {
            micros % 0x1_0000_0000_0000_0000 - 0x1_0000_0000_0000_0000
        }),
{
}

/// Whether a message tells a frame under a token: its payload, its keyframe flag, and its time in
/// nanoseconds, at whatever scale it is counted.
pub open spec fn tells_frame(m: Message, token: Token, frame: Frame) -> bool {
    &&& m matches Message::Frame { token: told, payload, timestamp_ns, keyframe }
    &&& told == token
    &&& payload == frame.payload
    &&& keyframe == frame.keyframe
    &&& forall|ticks: u64, scale: u64|
        #![trigger call_ensures(Timestamp::ticks, (&frame.timestamp,), ticks),
            call_ensures(Timestamp::scale, (&frame.timestamp,), scale)]
        call_ensures(Timestamp::ticks, (&frame.timestamp,), ticks) && call_ensures(
            Timestamp::scale,
            (&frame.timestamp,),
            scale,
        ) ==> timestamp_ns as int == ((ticks * 1_000_000_000) / scale as int)
            % 0x1_0000_0000_0000_0000
}

/// A frame is told once, under the token of its subscription, with its own payload, its own
/// keyframe flag and its own time in nanoseconds, at whatever scale the time was counted.
pub proof fn law_frame_is_told_with_its_time<O, S>(
    owner: O,
    token: Token,
    frame: Frame,
    send: S,
    ticks: u64,
    scale: u64,
    r: (O, Result<(), PidDead>),
) where S: FnOnce(O, Message) -> (O, Result<(), PidDead>)
    requires
        call_ensures(send_frame::<O, S>, (owner, token, frame, send), r),
        call_ensures(Timestamp::ticks, (&frame.timestamp,), ticks),
        call_ensures(Timestamp::scale, (&frame.timestamp,), scale),
    ensures
        exists|told: Message|
            {
                &&& #[trigger] call_ensures(send, (owner, told), r)
                &&& told matches Message::Frame {
                    token: told_token,
                    payload,
                    timestamp_ns,
                    keyframe,
                }
                &&& told_token == token
                &&& payload == frame.payload
                &&& keyframe == frame.keyframe
                &&& timestamp_ns as int == ((ticks * 1_000_000_000) / scale as int)
                    % 0x1_0000_0000_0000_0000
            },
{
}

/// A frame whose time was given in nanoseconds or in microseconds is told with that time.
pub proof fn law_frame_time_is_told_as_given<O, S>(
    owner: O,
    token: Token,
    frame: Frame,
    send: S,
    n: u64,
    r: (O, Result<(), PidDead>),
) where S: FnOnce(O, Message) -> (O, Result<(), PidDead>)
    requires
        call_ensures(send_frame::<O, S>, (owner, token, frame, send), r),
    ensures
        call_ensures(Timestamp::from_nanos, (n,), Ok(frame.timestamp)) ==> exists|told: Message|
            {
                &&& #[trigger] call_ensures(send, (owner, told), r)
                &&& told matches Message::Frame { timestamp_ns, .. }
                &&& timestamp_ns == n
            },
        call_ensures(Timestamp::from_micros, (n,), Ok(frame.timestamp)) && n * 1000
            < 0x1_0000_0000_0000_0000 ==> exists|told: Message|
            {
                &&& #[trigger] call_ensures(send, (owner, told), r)
                &&& told matches Message::Frame { timestamp_ns, .. }
                &&& timestamp_ns == n * 1000
            },
{
    assert((n * 1_000_000_000) / 1_000_000_000int == n) by (nonlinear_arith);
    assert((n * 1_000_000_000) / 1_000_000int == n * 1000) by (nonlinear_arith);
}

/// Each event is told once, in a message of its own kind, with what it was told about.
pub proof fn law_events_are_told<O, S>(
    owner: O,
    token: Token,
    reason: String,
    path: String,
    why: CloseReason,
    send: S,
    r: (O, Result<(), PidDead>),
) where S: FnOnce(O, Message) -> (O, Result<(), PidDead>)
    ensures
        call_ensures(send_connected::<O, S>, (owner, send), r) ==> call_ensures(
            send,
            (owner, Message::Connected),
            r,
        ),
        call_ensures(send_setup_failed::<O, S>, (owner, reason, send), r) ==> call_ensures(
            send,
            (owner, Message::SetupFailed { reason }),
            r,
        ),
        call_ensures(send_disconnected::<O, S>, (owner, reason, send), r) ==> call_ensures(
            send,
            (owner, Message::Disconnected { reason }),
            r,
        ),
        call_ensures(session_closed::<O, S>, (owner, reason, send), r) ==> call_ensures(
            send,
            (owner, Message::Disconnected { reason }),
            r,
        ),
        call_ensures(send_broadcast_ready::<O, S>, (owner, &path, send), r) ==> call_ensures(
            send,
            (owner, Message::BroadcastReady { path }),
            r,
        ),
        call_ensures(send_broadcast_closed::<O, S>, (owner, &path, why, send), r)
            ==> call_ensures(send, (owner, Message::BroadcastClosed { path, why }), r),
        call_ensures(send_track_finished::<O, S>, (owner, token, send), r) ==> call_ensures(
            send,
            (owner, Message::TrackFinished { token }),
            r,
        ),
        call_ensures(send_track_error::<O, S>, (owner, token, reason, send), r) ==> call_ensures(
            send,
            (owner, Message::TrackError { token, reason }),
            r,
        ),
{
}

/// Each message starts with the atom of its kind.
pub proof fn law_messages_are_tagged(m: Message, tag: &'static str)
    requires
        call_ensures(Message::tag, (&m,), tag),
    ensures
        m is Connected ==> tag@ == "moq_connected"@,
        m is SetupFailed ==> tag@ == "moq_setup_failed"@,
        m is Disconnected ==> tag@ == "moq_disconnected"@,
        m is BroadcastReady ==> tag@ == "moq_broadcast_ready"@,
        m is BroadcastClosed ==> tag@ == "moq_broadcast_closed"@,
        m is TrackFinished ==> tag@ == "moq_track_finished"@,
        m is TrackError ==> tag@ == "moq_track_error"@,
        m is Frame ==> tag@ == "moq_frame"@,
        m is Catalog ==> tag@ == "moq_catalog"@,
{
}

/// Whether a list of renditions reports a catalog: each rendition under its name with the format
/// that its entry says, first the videos, then the audios.
pub open spec fn reports(renditions: Seq<(String, RenditionFormat)>, catalog: Catalog) -> bool {
    let videos = catalog.videos@.len() as int;
    &&& renditions.len() == videos + catalog.audios@.len()
    &&& forall|i: int|
        #![trigger renditions[i]]
        0 <= i < videos ==> {
            &&& renditions[i].0@ == catalog.videos@[i].0@
            &&& match renditions[i].1 {
                RenditionFormat::Video(format) => read_from_video(format, catalog.videos@[i].1),
                RenditionFormat::Unrecognized => catalog.videos@[i].1.codec is Other,
                RenditionFormat::Audio(_) => false,
            }
        }
    &&& forall|i: int|
        #![trigger catalog.audios@[i]]
        0 <= i < catalog.audios@.len() ==> {
            &&& renditions[videos + i].0@ == catalog.audios@[i].0@
            &&& match renditions[videos + i].1 {
                RenditionFormat::Audio(format) => read_from_audio(format, catalog.audios@[i].1),
                RenditionFormat::Unrecognized => catalog.audios@[i].1.codec is Other,
                RenditionFormat::Video(_) => false,
            }
        }
}

/// A list that reads as the report of a catalog reports it.
pub proof fn lemma_reports(renditions: Seq<(String, RenditionFormat)>, catalog: Catalog)
    requires
        crate::messages::report_view(renditions) == crate::messages::catalog_report(catalog@),
    ensures
        reports(renditions, catalog),
{
    let told = crate::messages::report_view(renditions);
    let report = crate::messages::catalog_report(catalog@);
    assert(told.len() == renditions.len());
    assert forall|i: int| 0 <= i < renditions.len() implies #[trigger] renditions[i].0@
        == report[i].0 && renditions[i].1@ == report[i].1 by {
        assert(told[i] == report[i]);
    }
    let videos = catalog.videos@.len() as int;
    assert forall|i: int| 0 <= i < videos implies {
        &&& (#[trigger] renditions[i]).0@ == catalog.videos@[i].0@
        &&& renditions[i].1@ == crate::messages::video_report(catalog.videos@[i].1@)
    } by {
        assert(report[i].0 == catalog.videos@[i].0@);
        assert(renditions[i].0@ == report[i].0);
    }
    assert forall|i: int| 0 <= i < catalog.audios@.len() implies {
        &&& renditions[videos + i].0@ == (#[trigger] catalog.audios@[i]).0@
        &&& renditions[videos + i].1@ == crate::messages::audio_report(catalog.audios@[i].1@)
    } by {
        assert(report[videos + i].0 == catalog.audios@[i].0@);
        assert(renditions[videos + i].0@ == report[videos + i].0);
    }
}

/// A catalog is told once, every rendition of it.
pub proof fn law_catalog_is_told<O, S>(
    owner: O,
    path: String,
    catalog: Catalog,
    send: S,
    r: (O, Result<(), PidDead>),
) where S: FnOnce(O, Message) -> (O, Result<(), PidDead>)
    requires
        call_ensures(send_catalog::<O, S>, (owner, &path, &catalog, send), r),
    ensures
        exists|renditions: Vec<(String, RenditionFormat)>|
            {
                &&& #[trigger] call_ensures(send, (owner, Message::Catalog { path, renditions }), r)
                &&& reports(renditions@, catalog)
            },
{
    let renditions = choose|renditions: Vec<(String, RenditionFormat)>|
        {
            &&& #[trigger] call_ensures(send, (owner, Message::Catalog { path, renditions }), r)
            &&& crate::messages::report_view(renditions@) == crate::messages::catalog_report(
                catalog@,
            )
        };
    lemma_reports(renditions@, catalog);
}

/// The attempt to connect is reported once: a session that is up is handed on, one that is not is
/// told with the reason, and an owner that is gone ends it.
pub proof fn law_attempt_to_connect_is_reported<O, C, S>(
    connected: Result<C, String>,
    owner: O,
    send: S,
    r: (O, Result<Option<C>, PidDead>),
) where S: FnOnce(O, Message) -> (O, Result<(), PidDead>)
    requires
        call_ensures(run_session::<O, C, S>, (connected, owner, send), r),
    ensures
        exists|m: Message, told: O, sent: Result<(), PidDead>|
            {
                &&& #[trigger] call_ensures(send, (owner, m), (told, sent))
                &&& r.0 == told
                &&& sent is Err <==> r.1 is Err
                &&& match connected {
                    Ok(session) => m is Connected && (r.1 is Ok ==> r.1 == Ok::<
                        Option<C>,
                        PidDead,
                    >(Some(session))),
                    Err(e) => m == Message::SetupFailed { reason: e } && (r.1 is Ok ==> r.1
                        == Ok::<Option<C>, PidDead>(None)),
                }
            },
{
}

} // verus!
