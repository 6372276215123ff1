use ex_moq::broadcast_producer::{
    AddTrackError, CreateError, LiveTrack, Producer, Rendition, UpdateTrackError, WriteFault,
    WriteFrameError,
};
use ex_moq::frame::{Frame, Timestamp};
use ex_moq::native;
use ex_moq::reply::{Atom, NifError};
use ex_moq::table::Table;
use ex_moq::track_format::{
    AudioCodec, AudioConfig, AudioTrackFormat, CatalogContainer, Container, TrackFormat,
    VideoCodec, VideoConfig, VideoTrackFormat, WireContainer,
};
use ex_moq::web_codecs::{AudioTrackParams, H264Codec, OpusCodec, VideoTrackParams};

/// The broadcast, the catalog and a track's producer are the list of what was done with them.
type Log = Vec<String>;
type Recorder = Producer<Log, Log, Log, (String, VideoConfig), (String, AudioConfig)>;

fn producer() -> Recorder {
    match Producer::new("room", Ok(vec![]), |log: Log| (log, Ok(vec![]))) {
        Ok(producer) => producer,
        Err(e) => panic!("{}", e.message()),
    }
}

fn video(width: u32) -> TrackFormat {
    TrackFormat::Video(VideoTrackFormat {
        params: VideoTrackParams { width: Some(width), height: None, framerate: None },
        description: vec![],
        codec: VideoCodec::H264(H264Codec { in_band: true, profile: 1, constraints: 2, level: 3 }),
    })
}

fn audio() -> TrackFormat {
    TrackFormat::Audio(AudioTrackFormat {
        params: AudioTrackParams { sample_rate: 48_000, channels: 2 },
        codec: AudioCodec::Opus(OpusCodec),
    })
}

fn wire_name(wire: &WireContainer) -> &'static str {
    match wire {
        WireContainer::Legacy => "legacy",
        WireContainer::Cmaf(_) => "cmaf",
        WireContainer::Loc => "loc",
    }
}

fn add(
    producer: Recorder,
    track: &str,
    format: TrackFormat,
    container: Container,
    create_ok: bool,
    media_ok: bool,
) -> (Recorder, Result<(), AddTrackError>) {
    producer.add_track(
        track.to_string(),
        format,
        container,
        60,
        5_000,
        |mut log: Log, name: String, priority: u8| {
            log.push(format!("create {name} {priority}"));
            (log, if create_ok { Ok(name) } else { Err("no room".to_string()) })
        },
        |name: String, wire: WireContainer, latency_ns: u64| {
            if media_ok {
                Ok(vec![format!("open {name} {} {latency_ns}", wire_name(&wire))])
            } else {
                Err("no media".to_string())
            }
        },
        |mut log: Log, name: String| {
            log.push(format!("retire {name}"));
            log
        },
        list_video,
        list_audio,
    )
}

fn list_video(mut catalog: Log, name: String, config: VideoConfig) -> (Log, (String, VideoConfig)) {
    catalog.push(format!("list {name}"));
    (catalog, (name, config))
}

fn list_audio(mut catalog: Log, name: String, config: AudioConfig) -> (Log, (String, AudioConfig)) {
    catalog.push(format!("list {name}"));
    (catalog, (name, config))
}

/// Finishes a writer, and notes so in the broadcast, by the first thing done with the writer.
fn finish(mut broadcast: Log, mut writer: Log) -> (Log, Log) {
    broadcast.push(format!("flush {}", writer[0]));
    writer.push("finish".to_string());
    (broadcast, writer)
}

fn retire(mut broadcast: Log, name: String) -> Log {
    broadcast.push(format!("retire {name}"));
    broadcast
}

fn frame(nanos: u64, keyframe: bool) -> Frame {
    Frame { timestamp: Timestamp::from_nanos(nanos).unwrap(), payload: vec![1, 2, 3], keyframe }
}

fn write(mut log: Log, frame: Frame) -> (Log, Result<(), WriteFault>) {
    let open = log.iter().any(|line| line.starts_with("frame"));
    if !open && !frame.keyframe {
        return (log, Err(WriteFault::MissingKeyframe));
    }
    if frame.payload.is_empty() {
        return (log, Err(WriteFault::Other("empty".to_string())));
    }
    log.push(format!("frame {} {:?}", frame.timestamp.as_nanos(), frame.payload));
    (log, Ok(()))
}

#[test]
fn creation_errors_name_the_step() {
    let refused = Recorder::new("room", Err("taken".to_string()), |log: Log| (log, Ok(vec![])));
    let error = match refused {
        Err(e) => e,
        Ok(_) => panic!("created"),
    };
    assert!(matches!(&error, CreateError::Broadcast { path, source } if path == "room" && source == "taken"));
    assert_eq!(error.message(), "create_broadcast(room) failed: taken");

    let failed = Recorder::new("room", Ok(vec![]), |log: Log| (log, Err("full".to_string())));
    match failed {
        Err(e) => assert_eq!(e.message(), "CatalogProducer::new failed: full"),
        Ok(_) => panic!("created"),
    }
}

#[test]
fn adding_a_track_creates_opens_and_advertises_it() {
    let (producer, result) = add(producer(), "cam", video(640), Container::Loc, true, true);
    assert!(result.is_ok());
    assert_eq!(producer.broadcast, ["create cam 60"]);
    assert_eq!(producer.catalog, ["list cam"]);
    let live = producer.tracks.get(&"cam".to_string()).unwrap();
    assert_eq!(live.producer, ["open cam loc 5000"]);
    assert_eq!(live.container, Container::Loc);
    match &live.rendition {
        Rendition::Video((name, config)) => {
            assert_eq!(name, "cam");
            assert_eq!(config.coded_width, Some(640));
            assert_eq!(config.optimize_for_latency, Some(true));
            assert!(matches!(config.container, CatalogContainer::Loc));
        }
        Rendition::Audio(_) => panic!("audio"),
    }
}

#[test]
fn a_name_in_use_is_refused() {
    let (producer, _) = add(producer(), "cam", video(640), Container::Legacy, true, true);
    let (producer, result) = add(producer, "cam", audio(), Container::Legacy, true, true);
    let error = result.unwrap_err();
    assert!(matches!(error, AddTrackError::AlreadyExists));
    assert_eq!(error.message(), "track already exists");
    assert_eq!(producer.broadcast, ["create cam 60"]);
    assert_eq!(producer.catalog, ["list cam"]);
    let live = producer.tracks.get(&"cam".to_string()).unwrap();
    assert!(matches!(live.rendition, Rendition::Video(_)));
}

#[test]
fn a_track_that_is_not_created_is_not_kept() {
    let (producer, result) = add(producer(), "cam", audio(), Container::Legacy, false, true);
    assert_eq!(result.unwrap_err().message(), "create_track failed: no room");
    assert_eq!(producer.broadcast, ["create cam 60"]);
    assert!(producer.catalog.is_empty());
    assert_eq!(producer.tracks.len(), 0);
}

#[test]
fn a_track_that_is_not_opened_is_taken_out_again() {
    let (producer, result) = add(producer(), "cam", audio(), Container::Legacy, true, false);
    assert_eq!(result.unwrap_err().message(), "media_producer failed: no media");
    assert_eq!(producer.broadcast, ["create cam 60", "retire cam"]);
    assert!(producer.catalog.is_empty());
    assert_eq!(producer.tracks.len(), 0);
}

#[test]
fn an_update_keeps_container_and_kind() {
    let (producer, _) = add(producer(), "cam", video(640), Container::Loc, true, true);
    let (producer, result) = producer.update_track(
        &"cam".to_string(),
        video(1920),
        |(name, _), config| (name, config),
        |(name, _), config| (name, config),
    );
    assert!(result.is_ok());
    let live = producer.tracks.get(&"cam".to_string()).unwrap();
    match &live.rendition {
        Rendition::Video((_, config)) => {
            assert_eq!(config.coded_width, Some(1920));
            assert!(matches!(config.container, CatalogContainer::Loc));
        }
        Rendition::Audio(_) => panic!("audio"),
    }
    let (producer, result) = producer.update_track(
        &"cam".to_string(),
        audio(),
        |(name, _), config| (name, config),
        |(name, _), config| (name, config),
    );
    assert_eq!(result, Err(UpdateTrackError::KindMismatch));
    assert_eq!(
        UpdateTrackError::KindMismatch.message(),
        "cannot change a track's media kind in place"
    );
    let live = producer.tracks.get(&"cam".to_string()).unwrap();
    assert!(matches!(&live.rendition, Rendition::Video((_, config)) if config.coded_width == Some(1920)));
}

#[test]
fn an_update_of_an_unknown_track_is_refused() {
    let (_, result) = producer().update_track(
        &"cam".to_string(),
        audio(),
        |(name, _), config| (name, config),
        |(name, _), config| (name, config),
    );
    assert_eq!(result, Err(UpdateTrackError::UnknownTrack));
    assert_eq!(UpdateTrackError::UnknownTrack.message(), "unknown track");
}

#[test]
fn frames_go_to_their_track() {
    let (producer, _) = add(producer(), "cam", video(640), Container::Legacy, true, true);
    let (producer, result) = producer.write_frame(&"cam".to_string(), frame(1, false), write);
    let error = result.unwrap_err();
    assert!(matches!(error, WriteFrameError::MissingKeyframe));
    assert_eq!(error.message(), "missing keyframe");
    let (producer, result) = producer.write_frame(&"cam".to_string(), frame(2, true), write);
    assert!(result.is_ok());
    let (producer, result) = producer.write_frame(&"cam".to_string(), frame(3, false), write);
    assert!(result.is_ok());
    let live = producer.tracks.get(&"cam".to_string()).unwrap();
    assert_eq!(
        live.producer,
        ["open cam legacy 5000", "frame 2 [1, 2, 3]", "frame 3 [1, 2, 3]"]
    );
    let mut empty = frame(4, true);
    empty.payload = vec![];
    let (producer, result) = producer.write_frame(&"cam".to_string(), empty, write);
    assert_eq!(result.unwrap_err().message(), "writing frame failed: empty");
    let (_, result) = producer.write_frame(&"mic".to_string(), frame(5, true), write);
    let error = result.unwrap_err();
    assert!(matches!(error, WriteFrameError::UnknownTrack));
    assert_eq!(error.message(), "unknown track");
}

#[test]
fn removal_undoes_addition() {
    let (producer, _) = add(producer(), "cam", video(640), Container::Legacy, true, true);
    let (producer, _) = add(producer, "mic", audio(), Container::Legacy, true, true);
    let (producer, gone) = producer.remove_track(&"cam".to_string(), true, finish, retire);
    assert_eq!(gone.unwrap().producer, ["open cam legacy 5000", "finish"]);
    // What the track held went out before the track left.
    assert_eq!(
        producer.broadcast,
        ["create cam 60", "create mic 60", "flush open cam legacy 5000", "retire cam"]
    );
    assert_eq!(producer.tracks.len(), 1);
    let other = producer.tracks.get(&"mic".to_string()).unwrap();
    assert_eq!(other.producer, ["open mic legacy 5000"]);
    let (producer, result) = producer.write_frame(&"cam".to_string(), frame(5, true), write);
    assert!(matches!(result, Err(WriteFrameError::UnknownTrack)));
    let (producer, gone) = producer.remove_track(&"cam".to_string(), true, finish, retire);
    assert!(gone.is_none());
    assert_eq!(producer.broadcast.len(), 4);
    let (producer, result) = add(producer, "cam", video(640), Container::Legacy, true, true);
    assert!(result.is_ok());
    assert_eq!(producer.tracks.len(), 2);
}

#[test]
fn removal_without_finish_drops_what_is_held() {
    let (producer, _) = add(producer(), "cam", video(640), Container::Legacy, true, true);
    let (producer, gone) = producer.remove_track(&"cam".to_string(), false, finish, retire);
    assert_eq!(gone.unwrap().producer, ["open cam legacy 5000"]);
    assert_eq!(producer.broadcast, ["create cam 60", "retire cam"]);
    assert_eq!(producer.tracks.len(), 0);
}

fn close(poisoned: bool) -> (Recorder, Atom) {
    let (producer, _) = add(producer(), "cam", video(640), Container::Legacy, true, true);
    let (producer, _) = add(producer, "mic", audio(), Container::Legacy, true, true);
    native::close_broadcast_producer(
        producer,
        poisoned,
        finish,
        |mut broadcast: Log, mut catalog: Log| {
            broadcast.push("end".to_string());
            catalog.push("end".to_string());
            (broadcast, catalog)
        },
        |mut broadcast: Log, mut tracks: Table<LiveTrack<Log, _, _>>| {
            while let Some((name, live)) = tracks.pop() {
                broadcast.push(format!("drop {name} {}", live.producer.last().unwrap()));
            }
            broadcast
        },
        |mut broadcast: Log| {
            broadcast.push("cancel".to_string());
            broadcast
        },
    )
}

#[test]
fn closing_flushes_every_track_once() {
    let (producer, atom) = close(false);
    assert_eq!(atom, Atom::Done);
    assert_eq!(producer.catalog, ["list cam", "list mic", "end"]);
    let mut course = producer.broadcast[2..].to_vec();
    course[..2].sort();
    course[3..5].sort();
    assert_eq!(
        course,
        [
            "flush open cam legacy 5000",
            "flush open mic legacy 5000",
            "end",
            "drop cam finish",
            "drop mic finish",
            "cancel",
        ]
    );
    assert_eq!(producer.tracks.len(), 0);
}

#[test]
fn closing_a_poisoned_producer_flushes_nothing() {
    let (producer, atom) = close(true);
    assert_eq!(atom, Atom::Done);
    assert_eq!(producer.catalog, ["list cam", "list mic"]);
    let mut course = producer.broadcast[2..].to_vec();
    course[..2].sort();
    assert_eq!(
        course,
        ["drop cam open cam legacy 5000", "drop mic open mic legacy 5000", "cancel"]
    );
    assert_eq!(producer.tracks.len(), 0);
}

fn call_add(
    producer: Option<Recorder>,
    create_ok: bool,
) -> (Option<Recorder>, Result<Atom, NifError>) {
    native::add_track(
        producer,
        "cam".to_string(),
        video(640),
        1,
        Container::Legacy,
        0,
        |log: Log, name: String, _: u8| {
            (log, if create_ok { Ok(name) } else { Err("no room".to_string()) })
        },
        |_: String, _: WireContainer, _: u64| Ok(vec![]),
        |log: Log, _: String| log,
        list_video,
        list_audio,
    )
}

#[test]
fn add_track_answers() {
    let (producer, answer) = call_add(Some(producer()), true);
    assert_eq!(answer.unwrap(), Atom::Done);
    let (_, answer) = call_add(producer, true);
    assert!(matches!(answer, Err(NifError::Atom(Atom::TrackAlreadyExists))));
    assert_eq!(Atom::TrackAlreadyExists.name(), "track_already_exists");
    let (_, answer) = call_add(Some(self::producer()), false);
    assert!(matches!(answer, Err(NifError::Text(text)) if text == "create_track failed: no room"));
    let (producer, answer) = call_add(None, true);
    assert!(producer.is_none());
    assert!(matches!(answer, Err(NifError::Atom(Atom::ProducerPoisoned))));
    assert_eq!(Atom::ProducerPoisoned.name(), "producer_poisoned");
}

#[test]
fn update_track_answers() {
    let update = |producer: Option<Recorder>, format: TrackFormat| {
        native::update_track(
            producer,
            &"cam".to_string(),
            format,
            |(name, _), config| (name, config),
            |(name, _), config| (name, config),
        )
    };
    let (producer, answer) = update(Some(producer()), video(1));
    assert!(matches!(answer, Err(NifError::Atom(Atom::UnknownTrack))));
    let (producer, _) = call_add(producer, true);
    let (producer, answer) = update(producer, video(1));
    assert_eq!(answer.unwrap(), Atom::Done);
    let (_, answer) = update(producer, audio());
    assert!(matches!(answer, Err(NifError::Atom(Atom::KindMismatch))));
    let (_, answer) = update(None, audio());
    assert!(matches!(answer, Err(NifError::Atom(Atom::ProducerPoisoned))));
}

#[test]
fn send_frame_answers() {
    let send = |producer: Option<Recorder>, nanos: u64, keyframe: bool, data: Vec<u8>| {
        native::send_frame(producer, &"cam".to_string(), nanos, keyframe, data, write)
    };
    let (producer, answer) = send(Some(producer()), 0, true, vec![1]);
    assert!(matches!(answer, Err(NifError::Atom(Atom::UnknownTrack))));
    let (producer, _) = call_add(producer, true);
    let (producer, answer) = send(producer, 0, false, vec![1]);
    assert_eq!(answer.unwrap(), Atom::MissingKeyframe);
    assert_eq!(Atom::MissingKeyframe.name(), "missing_keyframe");
    let (producer, answer) = send(producer, 0, true, vec![1]);
    assert_eq!(answer.unwrap(), Atom::Done);
    let (producer, answer) = send(producer, 0, true, vec![]);
    assert!(matches!(answer, Err(NifError::Text(text)) if text == "writing frame failed: empty"));
    let (producer, answer) = send(producer, 1 << 62, true, vec![1]);
    assert!(producer.is_some());
    assert!(matches!(
        answer,
        Err(NifError::Text(text)) if text == "timestamp conversion failed: time overflow"
    ));
    let (_, answer) = send(None, 0, true, vec![1]);
    assert!(matches!(answer, Err(NifError::Atom(Atom::ProducerPoisoned))));
    // The time is looked at before the lock.
    let (_, answer) = send(None, u64::MAX, true, vec![1]);
    assert!(matches!(answer, Err(NifError::Text(_))));
}

#[test]
fn remove_track_answers() {
    let (producer, _) = call_add(Some(producer()), true);
    let remove = |producer: Option<Recorder>| {
        native::remove_track(
            producer,
            &"cam".to_string(),
            |mut broadcast: Log, mut writer: Log| {
                broadcast.push("flush".to_string());
                writer.push("finish".to_string());
                (broadcast, writer)
            },
            retire,
        )
    };
    let (producer, gone, answer) = remove(producer);
    assert_eq!(answer.unwrap(), Atom::Done);
    assert_eq!(gone.unwrap().producer, ["finish"]);
    let (producer, gone, answer) = remove(producer);
    assert_eq!(answer.unwrap(), Atom::Done);
    assert!(gone.is_none());
    assert_eq!(producer.unwrap().broadcast, ["flush", "retire cam"]);
    let (_, gone, answer) = remove(None);
    assert!(gone.is_none());
    assert!(matches!(answer, Err(NifError::Atom(Atom::ProducerPoisoned))));
}

#[test]
fn create_broadcast_producer_answers() {
    let created = native::create_broadcast_producer::<Log, Log, Log, u8, u8, _>(
        "room",
        Ok(vec!["b".to_string()]),
        |log: Log| (log, Ok(vec!["c".to_string()])),
    );
    let producer = created.ok().unwrap();
    assert_eq!(producer.broadcast, ["b"]);
    assert_eq!(producer.catalog, ["c"]);
    let refused = native::create_broadcast_producer::<Log, Log, Log, u8, u8, _>(
        "room",
        Err("taken".to_string()),
        |log: Log| (log, Ok(vec![])),
    );
    assert!(matches!(
        refused.err(),
        Some(NifError::Text(text)) if text == "create_broadcast(room) failed: taken"
    ));
}

#[test]
fn sessions_start_with_a_url() {
    let connect = |started: u32, url: String| (started + 1, url);
    let (started, session) = native::create_session(0, "HTTPS://Example.com", connect);
    assert_eq!(started, 1);
    assert_eq!(session.unwrap(), "https://example.com/");
    let (started, session) = native::create_session(0, "nowhere", connect);
    assert_eq!(started, 0);
    let expected = format!("invalid url: {}", url::Url::parse("nowhere").unwrap_err());
    assert!(matches!(session, Err(NifError::Text(text)) if text == expected));
    assert!(matches!(
        native::session_url(Err("odd".to_string())),
        Err(NifError::Text(text)) if text == "invalid url: odd"
    ));
}

/// The same library over handles of the MoQ stack.
#[test]
fn frames_reach_a_track_of_the_stack() {
    type Wire = moq_mux::catalog::hang::Container;
    let broadcast = moq_net::broadcast::Info::new().produce();
    let created = Producer::new("room", Ok(broadcast), |mut b: moq_net::broadcast::Producer| {
        let catalog = moq_mux::catalog::Producer::new(&mut b).map_err(|e| e.to_string());
        (b, catalog)
    });
    let producer = created.ok().unwrap();
    let catalog = producer.catalog.clone();
    let media = catalog.clone();
    let (producer, result) = producer.add_track(
        "mic".to_string(),
        audio(),
        Container::Legacy,
        10,
        0,
        |mut b: moq_net::broadcast::Producer, name: String, priority: u8| {
            let info = moq_net::track::Info::default().with_priority(priority);
            let track = b.create_track(name, info).map_err(|e| e.to_string());
            (b, track)
        },
        |track: moq_net::track::Producer, _: WireContainer, _: u64| {
            media.media_producer(track, Wire::Legacy).map_err(|e| e.to_string())
        },
        |b: moq_net::broadcast::Producer, _: String| b,
        |entries: moq_mux::catalog::Producer, _: String, _: VideoConfig| (entries, ()),
        |entries: moq_mux::catalog::Producer, name: String, config: AudioConfig| {
            let mut handle = entries.reserve().audio(name);
            handle.set(hang::catalog::AudioConfig::new(
                hang::catalog::AudioCodec::Opus,
                config.sample_rate,
                config.channel_count,
            ));
            (entries, handle)
        },
    );
    assert!(result.is_ok());
    assert!(catalog.snapshot().audio.renditions.contains_key("mic"));
    let (producer, result) = producer.write_frame(
        &"mic".to_string(),
        frame(7, true),
        |mut track: moq_mux::container::Producer<Wire>, frame: Frame| {
            let written = track.write(moq_mux::container::Frame {
                timestamp: moq_net::Timestamp::from_scale(
                    frame.timestamp.ticks(),
                    frame.timestamp.scale(),
                )
                .unwrap(),
                payload: bytes::Bytes::from(frame.payload),
                keyframe: frame.keyframe,
                duration: None,
            });
            (track, written.map_err(|e| WriteFault::Other(e.to_string())))
        },
    );
    assert!(result.is_ok());
    let (producer, gone) = producer.remove_track(
        &"mic".to_string(),
        true,
        |b, mut track| {
            let _ = track.finish();
            (b, track)
        },
        |mut b: moq_net::broadcast::Producer, name: String| {
            let _ = b.remove_track(&name);
            b
        },
    );
    assert_eq!(producer.tracks.len(), 0);
    drop(gone);
    assert!(!catalog.snapshot().audio.renditions.contains_key("mic"));
}
