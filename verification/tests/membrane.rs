use std::cell::RefCell;

use ex_moq::broadcast_consumer::Closed;
use ex_moq::frame::{Frame, Timestamp};
use ex_moq::membrane::broadcast::{close_broadcast, open_broadcast, BroadcastResource};
use ex_moq::membrane::messages::{
    send_track_ended, send_track_format, send_tracks, Message, TrackEntry,
};
use ex_moq::membrane::publisher::{
    handle_segment, try_start_publisher, Publisher, PublisherCmd, PublisherEvent,
    PublisherResource, SegmentEvent, SegmentMessage,
};
use ex_moq::membrane::session::{
    close_session, handle_session_closed, session_over, session_started, setup_session, SessionEnd,
    SessionResource,
};
use ex_moq::membrane::source::{advance, Phase, SourceEvent, Turn};
use ex_moq::membrane::subscriber::{
    announced_broadcast, await_broadcast, catalog_changes, catalog_params, handle_command,
    handle_new_catalog, pump_frames, pump_track, run_pump, run_session, session_ended,
    start_pumps, start_subscriber, subscribe_catalog, track_request, update_catalog, Awaited, Change, Command, LoopState,
    SessionEvent, SessionStep, SubscriberResource,
};
use ex_moq::membrane::track::{
    add_track, remove_track, replace_track, send_frame, TrackResource,
};
use ex_moq::membrane::track_format::{
    audio_params, encode_format, video_params, TrackFormat, TrackParams, VideoTrackParams,
};
use ex_moq::messages::{Catalog, PidDead};
use ex_moq::reply::{Atom, NifError};
use ex_moq::table::Table;
use ex_moq::track_format::{
    AudioConfig, CatalogAudioCodec, CatalogContainer, CatalogVideoCodec, ResolvedConfig, TrackKind, VideoConfig,
};
use ex_moq::web_codecs::{
    AacCodec, AudioTrackParams, Framerate, H264Codec, H265CodecWire,
};

/// The owner of a sink or a source: what it was told, in order.
type Owner = Vec<Message>;

fn tell(mut owner: Owner, message: Message) -> (Owner, Result<(), PidDead>) {
    owner.push(message);
    (owner, Ok(()))
}

/// An owner that is gone once it was told one message.
fn tell_one(mut owner: Owner, message: Message) -> (Owner, Result<(), PidDead>) {
    owner.push(message);
    let sent = if owner.len() > 1 { Err(PidDead) } else { Ok(()) };
    (owner, sent)
}

fn tags(owner: &Owner) -> Vec<&'static str> {
    owner.iter().map(|message| message.tag()).collect()
}

fn rate(value: f64) -> Framerate {
    Framerate { bits: value.to_bits() }
}

fn params() -> VideoTrackParams {
    VideoTrackParams { width: 640, height: 480, framerate: rate(25.0) }
}

fn h264(description: Vec<u8>) -> TrackFormat {
    let codec = H264Codec { in_band: false, profile: 66, constraints: 1, level: 30 };
    TrackFormat::H264 { params: params(), description, codec }
}

fn h265(compatibility: usize, constraint: usize) -> TrackFormat {
    let codec = H265CodecWire {
        in_band: true,
        profile_space: 1,
        profile_idc: 2,
        profile_compatibility_flags: vec![3; compatibility],
        tier_flag: true,
        level_idc: 4,
        constraint_flags: vec![5; constraint],
    };
    TrackFormat::H265 { params: params(), description: vec![8], codec }
}

fn aac() -> TrackFormat {
    TrackFormat::Aac {
        params: AudioTrackParams { sample_rate: 44_100, channels: 1 },
        codec: AacCodec { profile: 2 },
    }
}

fn opus() -> TrackFormat {
    TrackFormat::Opus { params: AudioTrackParams { sample_rate: 48_000, channels: 2 } }
}

fn video_entry(format: TrackFormat) -> VideoConfig {
    match format.resolve() {
        Ok(ResolvedConfig::Video(config)) => config,
        _ => panic!("no video"),
    }
}

#[test]
fn sink_video_entry() {
    let config = video_entry(h264(vec![1]));
    assert_eq!(config.description, Some(vec![1]));
    assert_eq!(config.coded_width, Some(640));
    assert_eq!(config.coded_height, Some(480));
    assert_eq!(config.framerate.unwrap().bits, 25.0f64.to_bits());
    assert_eq!(config.optimize_for_latency, Some(true));
    assert!(matches!(config.container, CatalogContainer::Legacy));
    assert_eq!(video_entry(h264(vec![])).description, None);
}

#[test]
fn sink_audio_entry() {
    match aac().resolve() {
        Ok(ResolvedConfig::Audio(config)) => {
            assert_eq!(config.codec, CatalogAudioCodec::Aac(AacCodec { profile: 2 }));
            assert_eq!(config.description, None);
            assert!(matches!(config.container, CatalogContainer::Legacy));
        }
        _ => panic!("no audio"),
    }
}

#[test]
fn sink_refusals() {
    assert_eq!(
        TrackFormat::Unrecognized.resolve().unwrap_err(),
        "cannot publish an unrecognized track format"
    );
    assert_eq!(
        h265(5, 6).resolve().unwrap_err(),
        "profile_compatibility_flags must be exactly 4 bytes"
    );
    assert_eq!(h265(4, 0).resolve().unwrap_err(), "constraint_flags must be exactly 6 bytes");
}

#[test]
fn source_reads_what_the_sink_wrote() {
    let read = video_params(&video_entry(h265(4, 6)));
    match encode_format(&read) {
        TrackFormat::H265 { params: p, description, codec } => {
            assert_eq!((p.width, p.height, p.framerate.bits), (640, 480, 25.0f64.to_bits()));
            assert_eq!(description, [8]);
            assert_eq!(codec.profile_compatibility_flags, [3; 4]);
            assert_eq!(codec.constraint_flags, [5; 6]);
            assert!(codec.in_band && codec.tier_flag);
        }
        _ => panic!("not H.265"),
    }
    match encode_format(&video_params(&video_entry(h264(vec![])))) {
        TrackFormat::H264 { description, codec, .. } => {
            assert!(description.is_empty());
            assert_eq!(codec.profile, 66);
        }
        _ => panic!("not H.264"),
    }
    for format in [aac(), opus()] {
        let expected = matches!(format, TrackFormat::Opus { .. });
        match format.resolve() {
            Ok(ResolvedConfig::Audio(config)) => {
                let read = encode_format(&audio_params(&config));
                assert_eq!(matches!(read, TrackFormat::Opus { .. }), expected);
            }
            _ => panic!("no audio"),
        }
    }
}

#[test]
fn a_received_format_can_be_published_again() {
    let mut config = video_entry(h265(4, 6));
    assert!(encode_format(&video_params(&config)).resolve().is_ok());
    config.codec = CatalogVideoCodec::Other;
    assert!(encode_format(&video_params(&config)).resolve().is_err());
}

#[test]
fn unknown_values_are_read_as_zero() {
    let mut config = video_entry(h264(vec![]));
    config.coded_width = None;
    config.coded_height = None;
    config.framerate = None;
    match video_params(&config) {
        TrackParams::Video { params, .. } => {
            assert_eq!((params.width, params.height, params.framerate.bits), (0, 0, 0));
        }
        _ => panic!("no video"),
    }
    config.codec = CatalogVideoCodec::Other;
    assert!(matches!(video_params(&config), TrackParams::Unrecognized));
}

#[test]
fn params_with_a_rate_that_is_no_number_differ_from_themselves() {
    let mut config = video_entry(h264(vec![]));
    let fine = video_params(&config);
    assert!(fine.same(&video_params(&config)));
    config.framerate = Some(rate(f64::NAN));
    let odd = video_params(&config);
    assert!(!odd.same(&odd));
    assert!(!odd.same(&fine));
    assert!(TrackParams::Unrecognized.same(&TrackParams::Unrecognized));
    assert!(!TrackParams::Unrecognized.same(&fine));
}

type Log = Vec<String>;
type Sink = BroadcastResource<Log, Log>;

fn sink() -> Sink {
    open_broadcast("room", Some(vec![]), |b: Log| (b, Ok(vec![]))).ok().unwrap()
}

/// Publishes the names of all renditions as a line of the catalog.
fn publish_names(
    mut catalog: Log,
    videos: &Table<VideoConfig>,
    audios: &Table<AudioConfig>,
) -> Log {
    let videos = (0..videos.len()).map(|i| videos.at(i).0.as_str());
    let audios = (0..audios.len()).map(|i| audios.at(i).0.as_str());
    catalog.push(videos.chain(audios).collect::<Vec<_>>().join(" "));
    catalog
}

/// Finishes a track, and notes so in the catalog.
fn finish_track(mut catalog: Log, mut track: Log) -> (Log, Log) {
    catalog.push("finish".to_string());
    track.push("finish".to_string());
    (catalog, track)
}

fn add(sink: Sink, name: &str, format: TrackFormat) -> (Sink, Result<TrackResource<Log>, String>) {
    add_track(
        sink,
        name.to_string(),
        format,
        |mut b: Log, name: String, priority: u8| {
            assert_eq!(priority, 0);
            b.push(format!("create {name}"));
            if name == "full" {
                (b, Err("no room".to_string()))
            } else {
                (b, Ok((name.clone(), name)))
            }
        },
        publish_names,
        |name: String| vec![format!("open {name}")],
    )
}

#[test]
fn broadcasts_open_and_close() {
    let refused = open_broadcast("room", None::<Log>, |b: Log| (b, Ok(())));
    assert_eq!(refused.err().unwrap(), "create_broadcast(room) refused");
    let failed = open_broadcast("room", Some(vec![]), |b: Log| (b, Err::<(), _>("x".to_string())));
    assert_eq!(failed.err().unwrap(), "CatalogProducer::new failed: x");
    let (closed, answer) = close_broadcast(
        sink(),
        |mut b: Log, mut c: Log| {
            b.push("end".to_string());
            c.push("end".to_string());
            (b, c)
        },
        |mut b: Log| {
            b.push("cancel".to_string());
            b
        },
    );
    assert_eq!(answer, Atom::Done);
    assert_eq!(closed.catalog, ["end"]);
    assert_eq!(closed.broadcast, ["end", "cancel"]);
}

#[test]
fn sink_tracks_are_advertised() {
    let (sink, track) = add(sink(), "cam", h264(vec![]));
    let track = track.ok().unwrap();
    assert_eq!((track.name.as_str(), track.suffix.as_str()), ("cam", "cam"));
    assert_eq!(track.kind, TrackKind::Video);
    assert_eq!(track.producer, ["open cam"]);
    assert!(sink.videos.contains(&"cam".to_string()));
    assert_eq!(sink.catalog, ["cam"]);
    let (sink, failed) = add(sink, "full", opus());
    assert_eq!(failed.err().unwrap(), "create_track failed: no room");
    assert_eq!(sink.audios.len(), 0);
    let (sink, refused) = add(sink, "cam", TrackFormat::Unrecognized);
    assert_eq!(refused.err().unwrap(), "cannot publish an unrecognized track format");
    assert_eq!(sink.broadcast, ["create cam", "create full"]);
    // Nothing was published for the tracks that were not added.
    assert_eq!(sink.catalog, ["cam"]);
    let (sink, _) = add(sink, "mic", opus());
    assert_eq!(sink.catalog, ["cam", "cam mic"]);
    let (sink, track, answer) = remove_track(sink, track, finish_track, publish_names);
    assert_eq!(sink.catalog, ["cam", "cam mic", "finish", "mic"]);
    assert_eq!(answer, Atom::Done);
    assert_eq!(track.producer, ["open cam", "finish"]);
    assert_eq!(sink.videos.len(), 0);
}

fn replace(
    sink: Sink,
    old: TrackResource<Log>,
    format: TrackFormat,
) -> (Sink, TrackResource<Log>, Result<(TrackResource<Log>, String), String>) {
    replace_track(
        sink,
        old,
        format,
        |mut b: Log, suffix: String| {
            b.push(format!("unique {suffix}"));
            if b.len() > 4 {
                (b, Err("no room".to_string()))
            } else {
                let name = format!("{}{suffix}", b.len());
                (b, Ok((name.clone(), name)))
            }
        },
        publish_names,
        finish_track,
        |name: String| vec![format!("open {name}")],
    )
}

#[test]
fn a_replacement_is_a_track_of_its_own() {
    let (sink, track) = add(sink(), "cam", h264(vec![]));
    let (sink, old, replaced) = replace(sink, track.ok().unwrap(), h265(4, 6));
    assert_eq!(old.producer, ["open cam", "finish"]);
    let (new, name) = replaced.ok().unwrap();
    assert_eq!(name, "2cam");
    assert_eq!(new.name, "2cam");
    assert_eq!(new.suffix, "cam");
    assert_eq!(new.producer, ["open 2cam"]);
    assert!(!sink.videos.contains(&"cam".to_string()));
    assert!(sink.videos.contains(&"2cam".to_string()));
    // The suffix stays that of the first track.
    let (sink, _, replaced) = replace(sink, new, h264(vec![]));
    let (new, name) = replaced.ok().unwrap();
    assert_eq!(name, "3cam");
    assert_eq!(sink.videos.len(), 1);
    let (sink, new, mismatch) = replace(sink, new, opus());
    assert_eq!(mismatch.err().unwrap(), "cannot change a track's media kind in place");
    let (sink, new, refused) = replace(sink, new, TrackFormat::Unrecognized);
    assert_eq!(refused.err().unwrap(), "cannot publish an unrecognized track format");
    let (sink, new, _) = replace(sink, new, h264(vec![]));
    let (sink, new, failed) = replace(sink, new, h264(vec![]));
    assert_eq!(failed.err().unwrap(), "unique_track failed: no room");
    assert_eq!(new.name, "3cam");
    assert_eq!(sink.videos.len(), 1);
    // The catalog changes before the old track is finished.
    assert_eq!(
        sink.catalog,
        ["cam", "2cam", "finish", "3cam", "finish", "4cam", "finish"]
    );
}

#[test]
fn sink_frames_are_in_microseconds() {
    let (_, track) = add(sink(), "cam", h264(vec![]));
    let write = |mut p: Log, frame: Frame| {
        if frame.payload.is_empty() {
            return (p, Err("empty".to_string()));
        }
        p.push(format!("{}/{}", frame.timestamp.ticks(), frame.timestamp.scale()));
        (p, Ok(()))
    };
    let (track, answer) = send_frame(track.ok().unwrap(), 5, true, vec![1], write);
    assert_eq!(answer, Ok(Atom::Done));
    assert_eq!(track.producer, ["open cam", "5/1000000"]);
    let (track, answer) = send_frame(track, 5, true, vec![], write);
    assert_eq!(answer.unwrap_err(), "writing frame failed: empty");
    let (_, answer) = send_frame(track, u64::MAX, true, vec![1], write);
    assert_eq!(answer.unwrap_err(), "timestamp conversion failed: time overflow");
}

fn catalog(names: &[(&str, u32)]) -> Catalog {
    let videos = names
        .iter()
        .map(|(name, width)| {
            let mut config = video_entry(h264(vec![]));
            config.coded_width = Some(*width);
            (name.to_string(), config)
        })
        .collect();
    Catalog { videos, audios: vec![] }
}

fn lines(changes: &[Change]) -> Vec<String> {
    changes
        .iter()
        .map(|change| match change {
            Change::Removed(name) => format!("-{name}"),
            Change::Added(name, TrackFormat::H264 { params, .. }) => {
                format!("+{name} {}", params.width)
            }
            Change::Added(name, _) => format!("+{name}"),
        })
        .collect()
}

#[test]
fn catalogs_are_told_by_their_differences() {
    let old = catalog_params(&catalog(&[("a", 1), ("b", 2), ("c", 3)]));
    let new = catalog_params(&catalog(&[("c", 3), ("b", 9), ("d", 4)]));
    assert_eq!(lines(&catalog_changes(&old, &new)), ["-a", "-b", "+b 9", "+d 4"]);
    assert!(catalog_changes(&new, &new).is_empty());
}

#[test]
fn a_catalog_update_stops_at_a_dead_process() {
    let old = catalog_params(&catalog(&[("a", 1)]));
    let (owner, updated) =
        update_catalog(Ok(Some(catalog(&[("b", 2), ("c", 3)]))), &old, vec![], &tell_one);
    assert_eq!(updated.err().unwrap(), "subscriber pid is dead");
    assert_eq!(tags(&owner), ["moq_track_removed", "moq_track_added"]);
    let (owner, updated) = update_catalog(Ok(None), &old, vec![], &tell);
    assert_eq!(updated.err().unwrap(), "broadcast ended");
    assert!(owner.is_empty());
    let (owner, failed) = update_catalog(Err("json".to_string()), &old, vec![], &tell);
    assert_eq!(failed.err().unwrap(), "catalog error: json");
    assert!(owner.is_empty());
    let (_, updated) = update_catalog(Ok(Some(catalog(&[("b", 2)]))), &old, vec![], &tell);
    assert!(updated.ok().unwrap().contains(&"b".to_string()));
}

#[test]
fn removals_are_told_before_additions_each_once() {
    let old = catalog_params(&catalog(&[("a", 1), ("b", 2)]));
    let new = catalog(&[("b", 9), ("c", 3)]);
    let (owner, updated) = update_catalog(Ok(Some(new)), &old, vec![], &tell);
    assert!(updated.is_ok());
    assert!(matches!(
        &owner[..],
        [
            Message::TrackRemoved { name: first },
            Message::TrackRemoved { name: second },
            Message::TrackAdded { name: third, .. },
            Message::TrackAdded { name: fourth, .. },
        ] if first == "a" && second == "b" && third == "b" && fourth == "c"
    ));
}

#[test]
fn an_unchanged_catalog_is_taken_over_in_silence() {
    let old = catalog_params(&catalog(&[("a", 1), ("b", 2)]));
    let same = catalog(&[("b", 2), ("a", 1)]);
    let (owner, updated) = update_catalog(Ok(Some(same)), &old, vec![], &tell);
    assert_eq!(updated.ok().unwrap().len(), 2);
    assert!(owner.is_empty());
}

type State = LoopState<u32, u32>;

fn subscribe(state: State, track: &str, token: i64, id: u32) -> (State, bool) {
    let command = Command::Subscribe { track: track.to_string(), token };
    let (state, start, cancel) = handle_command(command, state, || (id, id + 1));
    assert!(cancel.is_none());
    let started = match start {
        Some(start) => {
            assert_eq!((start.track.as_str(), start.token, start.cancel), (track, token, id + 1));
            true
        }
        None => false,
    };
    (state, started)
}

#[test]
fn a_subscription_waits_for_its_track() {
    let (state, started) = subscribe(LoopState::new(), "cam", 1, 10);
    assert!(!started);
    let (state, started) = subscribe(state, "mic", 2, 20);
    assert!(!started);
    let (owner, handled) =
        handle_new_catalog(Ok(Some(catalog(&[("cam", 7)]))), state, vec![], &tell);
    assert_eq!(tags(&owner), ["moq_track_added"]);
    let (state, starts) = handled.ok().unwrap();
    assert_eq!(starts.len(), 1);
    assert_eq!((starts[0].token, starts[0].cancel), (1, 11));
    assert!(matches!(&starts[0].format, TrackFormat::H264 { params, .. } if params.width == 7));
    assert_eq!(state.pending.len(), 1);
    assert_eq!(state.cancels.len(), 2);
    let (state, started) = subscribe(state, "cam", 3, 30);
    assert!(started);
    // Given up before its track came, the other one does not start any more.
    let (state, start, cancel) = handle_command(Command::Unsubscribe { token: 2 }, state, || (0, 0));
    assert!(start.is_none());
    assert_eq!(cancel, Some(20));
    let (owner, handled) =
        handle_new_catalog(Ok(Some(catalog(&[("mic", 7)]))), state, vec![], &tell);
    assert_eq!(tags(&owner), ["moq_track_removed", "moq_track_added"]);
    let (state, starts) = handled.ok().unwrap();
    assert!(starts.is_empty());
    assert_eq!(state.pending.len(), 0);
    let (_, _, cancel) = handle_command(Command::Unsubscribe { token: 2 }, state, || (0, 0));
    assert!(cancel.is_none());
}

#[test]
fn a_format_is_told_before_its_pump_starts() {
    let (state, _) = subscribe(LoopState::new(), "cam", 1, 10);
    let (state, _) = subscribe(state, "mic", 2, 20);
    let both = catalog(&[("cam", 7), ("mic", 8)]);
    let (_, handled) = handle_new_catalog(Ok(Some(both)), state, vec![], &tell);
    let (_, starts) = handled.ok().unwrap();
    let expected: Vec<i64> = starts.iter().map(|start| start.token).collect();
    let (owner, pumps) = start_pumps(
        starts,
        vec![],
        vec![],
        &tell,
        &|owner: Owner, mut pumps: Vec<(usize, i64, u32)>, _: String, token: i64, cancel: u32| {
            pumps.push((owner.len(), token, cancel));
            (owner, pumps)
        },
    );
    let told: Vec<i64> = owner
        .iter()
        .map(|message| match message {
            Message::TrackFormat { token, .. } => *token,
            other => panic!("{other:?}"),
        })
        .collect();
    assert_eq!(told, expected);
    // Each pump started after its own format was told, and before the next one's.
    let counts: Vec<(usize, i64)> = pumps.iter().map(|(told, token, _)| (*told, *token)).collect();
    assert_eq!(counts, [(1, expected[0]), (2, expected[1])]);
    assert!(pumps.iter().all(|(_, token, cancel)| *cancel == *token as u32 * 10 + 1));
}

fn step(event: SessionEvent) -> SessionStep<u32, u32> {
    let told = matches!(&event, SessionEvent::Catalog(Ok(Some(_))));
    let (owner, step) = run_session(LoopState::new(), event, vec![], || (1, 2), &tell);
    assert_eq!(owner.is_empty(), !told);
    step
}

/// The course of a source under some events: what the owner was told, and where it stands.
fn course(events: Vec<SourceEvent<u8>>) -> (Vec<&'static str>, Phase<u32, u32>) {
    let name = "room".to_string();
    let mut owner = vec![];
    let mut phase: Phase<u32, u32> = Phase::Awaiting;
    for event in events {
        let (next, Turn { phase: after, .. }) =
            advance(phase, &name, event, owner, || (1, 2), &tell);
        owner = next;
        phase = after;
    }
    (tags(&owner), phase)
}

fn announce(path: &str) -> SourceEvent<u8> {
    SourceEvent::Announced(Some((path.to_string(), Some(1))))
}

#[test]
fn a_source_says_once_that_it_is_connected_and_once_that_it_is_not() {
    let (told, phase) = course(vec![
        announce("hall"),
        announce("room"),
        announce("room"),
        SourceEvent::CatalogOpened(Ok(())),
        SourceEvent::Session(SessionEvent::Catalog(Ok(Some(catalog(&[("cam", 1)]))))),
        SourceEvent::Session(SessionEvent::Closed(Ok(()))),
        SourceEvent::Session(SessionEvent::Closed(Ok(()))),
        announce("room"),
    ]);
    assert_eq!(told, ["moq_connected", "moq_track_added", "moq_disconnected"]);
    assert!(matches!(phase, Phase::Over(Ok(()))));
    let (told, _) = course(vec![
        announce("room"),
        SourceEvent::CatalogOpened(Ok(())),
        SourceEvent::Session(SessionEvent::Catalog(Ok(None))),
    ]);
    assert_eq!(told, ["moq_connected", "moq_disconnected"]);
}

#[test]
fn a_source_that_is_stopped_says_nothing_more() {
    let (told, phase) = course(vec![SourceEvent::Session(SessionEvent::Shutdown), announce("room")]);
    assert!(told.is_empty());
    assert!(matches!(phase, Phase::Over(Ok(()))));
    for stop in [SessionEvent::Shutdown, SessionEvent::Command(None)] {
        let (told, phase) = course(vec![
            announce("room"),
            SourceEvent::CatalogOpened(Ok(())),
            SourceEvent::Session(stop),
            SourceEvent::Session(SessionEvent::Closed(Ok(()))),
        ]);
        assert_eq!(told, ["moq_connected"]);
        assert!(matches!(phase, Phase::Over(Ok(()))));
    }
}

#[test]
fn a_source_without_its_broadcast_fails_in_silence() {
    let (told, phase) = course(vec![announce("hall"), SourceEvent::Announced(None)]);
    assert!(told.is_empty());
    assert!(matches!(
        phase,
        Phase::Over(Err(e)) if e == "broadcast \"room\" was not announced before origin closed"
    ));
    let (told, phase) =
        course(vec![announce("room"), SourceEvent::CatalogOpened(Err("gone".to_string()))]);
    assert_eq!(told, ["moq_connected"]);
    assert!(matches!(
        phase,
        Phase::Over(Err(e)) if e == "subscribe_track(catalog) failed: gone"
    ));
}

#[test]
fn the_owner_stops_a_source_silently() {
    assert!(matches!(step(SessionEvent::Shutdown), SessionStep::Stop));
    assert!(matches!(step(SessionEvent::Command(None)), SessionStep::Stop));
}

#[test]
fn a_source_tells_why_it_disconnects() {
    let reason = |event| match step(event) {
        SessionStep::Disconnect { reason } => reason,
        _ => panic!("goes on"),
    };
    assert_eq!(reason(SessionEvent::Closed(Ok(()))), "session closed gracefully");
    assert_eq!(reason(SessionEvent::Closed(Err("reset".to_string()))), "session error: reset");
    assert_eq!(reason(SessionEvent::Catalog(Ok(None))), "broadcast ended");
    assert_eq!(reason(SessionEvent::Catalog(Err("bad".to_string()))), "catalog error: bad");
}

#[test]
fn a_source_goes_on() {
    assert!(matches!(
        step(SessionEvent::PumpDone),
        SessionStep::Continue { starts, cancel: None, .. } if starts.is_empty()
    ));
    let command = Command::Subscribe { track: "cam".to_string(), token: 1 };
    match step(SessionEvent::Command(Some(command))) {
        SessionStep::Continue { state, starts, cancel: None } => {
            assert!(starts.is_empty());
            assert_eq!(state.pending.len(), 1);
        }
        _ => panic!("stops"),
    }
    match step(SessionEvent::Catalog(Ok(Some(catalog(&[("cam", 1)]))))) {
        SessionStep::Continue { state, .. } => assert_eq!(state.params.len(), 1),
        _ => panic!("stops"),
    }
}

#[test]
fn broadcasts_are_found_by_name() {
    let name = "room".to_string();
    let seen = |path: &str, broadcast: Option<u8>| {
        await_broadcast(&name, Some((path.to_string(), broadcast)))
    };
    assert!(matches!(seen("room", Some(1)), Awaited::Found(1)));
    assert!(matches!(seen("room", None), Awaited::Waiting));
    assert!(matches!(seen("hall", Some(1)), Awaited::Waiting));
    assert!(matches!(await_broadcast::<u8>(&name, None), Awaited::Closed));
    assert_eq!(announced_broadcast(&name, Some(1)), Ok(1));
    assert_eq!(
        announced_broadcast::<u8>(&"a\"b".to_string(), None).unwrap_err(),
        "broadcast \"a\\\"b\" was not announced before origin closed"
    );
    assert_eq!(subscribe_catalog(Ok(1)), Ok(1));
    assert_eq!(
        subscribe_catalog::<u8>(Err("x".to_string())).unwrap_err(),
        "subscribe_track(catalog) failed: x"
    );
    assert_eq!(track_request(&name), ("room".to_string(), 0));
    assert_eq!(pump_track(&name, Ok(1)), Ok(1));
    assert_eq!(
        pump_track::<u8>(&name, Err("x".to_string())).unwrap_err(),
        "subscribe_track(room) failed: x"
    );
}

fn frame(micros: u64) -> Frame {
    Frame { timestamp: Timestamp::from_micros(micros).unwrap(), payload: vec![1], keyframe: true }
}

#[test]
fn pumps_pass_frames_on() {
    let (owner, going) = pump_frames(3, Ok(Some(frame(9))), vec![], tell);
    assert!(matches!(
        &owner[..],
        [Message::Frame { token: 3, timestamp_us: 9, keyframe: true, payload }] if payload == &[1]
    ));
    assert!(going.is_none());
    let (_, dead) = pump_frames(3, Ok(Some(frame(9))), owner, tell_one);
    assert_eq!(dead, Some(Err("subscriber pid is dead".to_string())));
    let (owner, end) = pump_frames(3, Ok(None), vec![], tell);
    assert!(owner.is_empty());
    assert_eq!(end, Some(Ok(())));
    let (owner, end) = pump_frames(3, Err("x".to_string()), vec![], tell);
    assert!(owner.is_empty());
    assert_eq!(end, Some(Err("x".to_string())));
}

#[test]
fn pumps_tell_their_end() {
    assert!(run_pump(3, None).is_none());
    assert!(matches!(
        run_pump(3, Some(Ok(()))),
        Some(Message::TrackEnded { token: 3, reason }) if reason == "track ended"
    ));
    assert!(matches!(
        run_pump(3, Some(Err("x".to_string()))),
        Some(Message::TrackEnded { token: 3, reason }) if reason == "track error: x"
    ));
    let owner = send_track_ended(vec![], 4, "done".to_string(), tell);
    assert!(matches!(
        &owner[..],
        [Message::TrackEnded { token: 4, reason }] if reason == "done"
    ));
}

#[test]
fn tracks_are_listed_with_their_format() {
    let entry = TrackEntry {
        name: "cam".to_string(),
        params: video_params(&video_entry(h264(vec![2]))),
    };
    let owner = send_track_format(vec![], 6, &entry.params, tell);
    let (owner, sent) = send_tracks(owner, &vec![entry], tell);
    assert!(sent.is_ok());
    assert!(matches!(
        &owner[..],
        [
            Message::TrackFormat { token: 6, format: TrackFormat::H264 { description, .. } },
            Message::Tracks { tracks }
        ] if description == &[2] && tracks.len() == 1 && tracks[0].0 == "cam"
    ));
    assert_eq!(owner[1].tag(), "moq_tracks");
}

#[test]
fn a_sink_session_reports_its_course() {
    let spawn = |started: u32, url: String, insecure: bool| (started + 1, (url, insecure));
    let (started, session) = setup_session(0, "https://localhost:4443", true, spawn);
    assert_eq!(started, 1);
    assert_eq!(session.ok().unwrap(), ("https://localhost:4443/".to_string(), true));
    let (started, refused) = setup_session(0, "no url", false, spawn);
    assert_eq!(started, 0);
    assert!(matches!(
        refused,
        Err(NifError::Text(text)) if text.starts_with("invalid url: ")
    ));
    assert!(matches!(session_started(Ok(1)), (Message::Connected, Some(1))));
    assert!(matches!(
        session_started::<u8>(Err("x".to_string())),
        (Message::SetupFailed { reason }, None) if reason == "x"
    ));
    assert!(matches!(
        handle_session_closed(Ok(())),
        Message::Disconnected { reason } if reason == "MoQ session closed gracefully"
    ));
    assert!(matches!(
        session_over(SessionEnd::Closed(Err("x".to_string()))),
        Some(Message::Disconnected { reason }) if reason == "x"
    ));
    assert!(session_over(SessionEnd::Shutdown).is_none());
    let session = SessionResource { origin: (), shutdown: RefCell::new(0) };
    let answer = close_session(&session, |shutdown: &RefCell<i32>| {
        *shutdown.borrow_mut() += 1;
        Err(Closed)
    });
    assert_eq!(answer, Atom::Done);
    assert_eq!(session.shutdown.into_inner(), 1);
}

#[test]
fn a_source_takes_commands() {
    let spawn = |tasks: u32, url: String, latency_ns: u64| (tasks + 1, (url, latency_ns));
    let (tasks, started) = start_subscriber(0, "https://a.b", 5, spawn);
    assert_eq!(tasks, 1);
    assert_eq!(started.ok().unwrap(), ("https://a.b/".to_string(), 5));
    let (tasks, refused) = start_subscriber(0, "a.b", 5, spawn);
    assert_eq!(tasks, 0);
    assert!(refused.is_err());
    assert!(session_ended(Ok(())).is_none());
    assert!(matches!(
        session_ended(Err("x".to_string())),
        Some(Message::SetupFailed { reason }) if reason == "x"
    ));
    let source = SubscriberResource { commands: RefCell::new(vec![]), shutdown: RefCell::new(0) };
    let push = |queue: &RefCell<Vec<Command>>, command: Command| {
        queue.borrow_mut().push(command);
        Ok(())
    };
    assert_eq!(source.subscribe_track("cam".to_string(), 1, push), Atom::Done);
    assert_eq!(source.unsubscribe_track(1, push), Atom::Done);
    assert_eq!(source.unsubscribe_track(1, |_: &RefCell<Vec<Command>>, _| Err(Closed)), Atom::Done);
    assert_eq!(source.commands.borrow().len(), 2);
    let stop = |shutdown: &RefCell<i32>| {
        *shutdown.borrow_mut() += 1;
        Ok(())
    };
    assert_eq!(source.stop_subscriber(stop), Atom::Done);
    assert_eq!(source.shutdown.into_inner(), 1);
}

fn publish(
    publisher: Publisher<Log, Log>,
    event: PublisherEvent,
) -> (Publisher<Log, Log>, bool) {
    publisher.handle(
        event,
        |mut b: Log, name: String| {
            b.push(name.clone());
            (b, vec![name])
        },
        |mut track: Log, data: Vec<u8>| {
            track.push(format!("{data:?}"));
            track
        },
    )
}

fn connected() -> (Owner, Publisher<Log, Log>) {
    Publisher::connected(
        vec![],
        vec![],
        |(mut b, owner): (Log, Owner), message: Message| {
            b.push("told".to_string());
            let (owner, sent) = tell(owner, message);
            ((b, owner), sent)
        },
        |mut b: Log, name: String| {
            b.push(name.clone());
            (b, vec![name])
        },
    )
}

#[test]
fn segments_go_to_numbered_tracks() {
    let (owner, publisher) = connected();
    assert!(matches!(&owner[..], [Message::Connected]));
    assert_eq!(publisher.catalog, ["catalog"]);
    let add = PublisherEvent::Command(Some(PublisherCmd::AddTrack { track_id: 4_000_000_000 }));
    let (publisher, on) = publish(publisher, add);
    assert!(on);
    // The owner heard of the connection before the catalog's track was created.
    assert_eq!(publisher.broadcast, ["told", "catalog", "4000000000"]);
    let segment = |track_id: u32| {
        PublisherEvent::Command(Some(PublisherCmd::Frame { track_id, data: vec![1, 2] }))
    };
    let (publisher, on) = publish(publisher, segment(4_000_000_000));
    assert!(on);
    let (publisher, on) = publish(publisher, segment(1));
    assert!(on);
    assert_eq!(publisher.tracks.get(&4_000_000_000).unwrap(), &["4000000000", "[1, 2]"]);
    assert_eq!(publisher.tracks.len(), 1);
    for end in [
        PublisherEvent::Command(Some(PublisherCmd::Stop)),
        PublisherEvent::Command(None),
        PublisherEvent::Closed,
    ] {
        let (_, publisher) = connected();
        assert!(!publish(publisher, end).1);
    }
}

#[test]
fn nothing_behind_a_stop_is_published() {
    let add = |track_id: u32| PublisherEvent::Command(Some(PublisherCmd::AddTrack { track_id }));
    let stop = PublisherEvent::Command(Some(PublisherCmd::Stop));
    let (_, mut publisher) = connected();
    for event in [add(1), stop, add(2)] {
        let (next, on) = publish(publisher, event);
        publisher = next;
        if !on {
            break;
        }
    }
    assert_eq!(publisher.broadcast, ["told", "catalog", "1"]);
    assert_eq!(publisher.tracks.len(), 1);
}

#[test]
fn a_subscriber_to_segments_passes_frames_on_until_its_end() {
    let spawn = |tasks: u32, url: String, broadcast: String, track: String| {
        (tasks + 1, format!("{url} {broadcast} {track}"))
    };
    let (tasks, started) = ex_moq::membrane::publisher::start_subscriber(
        0,
        "u".to_string(),
        "b".to_string(),
        "t".to_string(),
        spawn,
    );
    assert_eq!((tasks, started), (1, (Atom::Done, "u b t".to_string())));
    let note = |mut owner: Vec<SegmentMessage>, message: SegmentMessage| {
        owner.push(message);
        owner
    };
    let (owner, on) = handle_segment(SegmentEvent::Frame(vec![4]), vec![], note);
    assert!(on);
    assert!(matches!(&owner[..], [SegmentMessage::Frame { payload }] if payload == &[4]));
    assert_eq!(owner[0].tag(), "moq_frame");
    for end in [SegmentEvent::Ended, SegmentEvent::Closed, SegmentEvent::Stop] {
        let (owner, on) = handle_segment(end, vec![], note);
        assert!(!on);
        assert!(matches!(&owner[..], [SegmentMessage::Disconnected]));
        assert_eq!(owner[0].tag(), "moq_disconnected");
    }
}

#[test]
fn a_publisher_takes_commands() {
    let spawn = |tasks: u32, url: String| (tasks + 1, url);
    let (tasks, started) = try_start_publisher(0, "https://a.b", spawn);
    assert_eq!(tasks, 1);
    assert_eq!(started, Some((Atom::Done, "https://a.b/".to_string())));
    let (tasks, refused) = try_start_publisher(0, "::", spawn);
    assert_eq!(tasks, 0);
    assert!(refused.is_none());
    let resource = PublisherResource { tx: RefCell::new(vec![]) };
    let push = |queue: &RefCell<Vec<PublisherCmd>>, command: PublisherCmd| {
        queue.borrow_mut().push(command);
        Ok(())
    };
    assert_eq!(resource.add_track(7, push), Atom::Done);
    assert_eq!(resource.send_segment(7, vec![1], push), Atom::Done);
    assert_eq!(resource.stop_publisher(push), Atom::Done);
    assert!(matches!(
        &resource.tx.borrow()[..],
        [
            PublisherCmd::AddTrack { track_id: 7 },
            PublisherCmd::Frame { track_id: 7, data },
            PublisherCmd::Stop
        ] if data == &[1]
    ));
    let subscriber = ex_moq::membrane::publisher::SubscriberResource { tx: RefCell::new(0) };
    let answer = subscriber.stop_subscriber(|tx: &RefCell<i32>| {
        *tx.borrow_mut() += 1;
        Err(Closed)
    });
    assert_eq!(answer, Atom::Done);
    assert_eq!(subscriber.tx.into_inner(), 1);
}
