use std::cell::RefCell;
use std::rc::{Rc, Weak};

use ex_moq::broadcast_producer::{Rendition, WriteFault};
use ex_moq::frame::Frame;
use ex_moq::reply::Atom;
use ex_moq::track::{
    add_track, prune, remove_track, send_frame, update_track, Broadcast, TrackResource,
};
use ex_moq::track_format::{
    AudioCodec, AudioConfig, AudioTrackFormat, CatalogContainer, Container, TrackFormat,
    VideoCodec, VideoConfig, VideoTrackFormat, WireContainer,
};
use ex_moq::web_codecs::{AudioTrackParams, H264Codec, OpusCodec, VideoTrackParams};

type Log = Vec<String>;
type Shared = Rc<RefCell<Log>>;
type Track = TrackResource<Log, Shared, VideoConfig, AudioConfig>;
type Owner = Broadcast<Log, Log, Weak<RefCell<Log>>>;

fn video() -> TrackFormat {
    TrackFormat::Video(VideoTrackFormat {
        params: VideoTrackParams { width: Some(320), height: None, framerate: None },
        description: vec![],
        codec: VideoCodec::H264(H264Codec { in_band: true, profile: 1, constraints: 2, level: 3 }),
    })
}

fn audio() -> TrackFormat {
    TrackFormat::Audio(AudioTrackFormat {
        params: AudioTrackParams { sample_rate: 48_000, channels: 2 },
        codec: AudioCodec::Opus(OpusCodec),
    })
}

fn add(inner: Option<Owner>, created: bool, opened: bool) -> (Option<Owner>, Result<Track, String>) {
    add_track(
        inner,
        "cam".to_string(),
        video(),
        60,
        Container::Loc,
        9,
        |mut log: Log, name: String, priority: u8| {
            log.push(format!("create {name} {priority}"));
            let track = if created { Ok(((), name + "!")) } else { Err("full".to_string()) };
            (log, track)
        },
        |mut catalog: Log, name: String, config: VideoConfig| {
            catalog.push(format!("list {name}"));
            (catalog, config)
        },
        |catalog: Log, _: String, config: AudioConfig| (catalog, config),
        |mut catalog: Log, _: (), wire: WireContainer, latency_ns: u64| {
            assert!(matches!(wire, WireContainer::Loc));
            assert_eq!(latency_ns, 9);
            catalog.push("open".to_string());
            let opened = if opened {
                let shared = Rc::new(RefCell::new(vec![]));
                let weak = Rc::downgrade(&shared);
                Ok((shared, weak))
            } else {
                Err("shut".to_string())
            };
            (catalog, opened)
        },
        |weak: &Weak<RefCell<Log>>| weak.strong_count() > 0,
    )
}

fn owner() -> Option<Owner> {
    Some(Broadcast { broadcast: vec![], catalog: vec![], tracks: vec![] })
}

fn track() -> Track {
    add(owner(), true, true).1.ok().unwrap()
}

fn write(shared: Shared, frame: Frame) -> (Shared, Option<Result<(), WriteFault>>) {
    if frame.payload == [0] {
        return (shared, None);
    }
    if frame.payload == [1] {
        return (shared, Some(Err(WriteFault::Other("disk".to_string()))));
    }
    if !frame.keyframe {
        return (shared, Some(Err(WriteFault::MissingKeyframe)));
    }
    shared.borrow_mut().push(format!("{} {:?}", frame.timestamp.as_nanos(), frame.payload));
    (shared, Some(Ok(())))
}

#[test]
fn dead_handles_are_pruned() {
    let left = prune(vec![1, 2, 3, 4, 5], |n: &u8| n % 2 == 1);
    assert_eq!(left, [1, 3, 5]);
    assert!(prune(vec![1], |_: &u8| false).is_empty());
}

#[test]
fn an_added_track_is_a_resource() {
    let (inner, track) = add(owner(), true, true);
    let inner = inner.unwrap();
    let track = track.ok().unwrap();
    assert_eq!(inner.broadcast, ["create cam 60"]);
    assert_eq!(inner.catalog, ["list cam!", "open"]);
    assert_eq!(inner.tracks.len(), 1);
    assert_eq!(track.name, "cam!");
    assert_eq!(track.container, Container::Loc);
    let live = track.live.as_ref().unwrap();
    assert_eq!(live.broadcast, ["create cam 60"]);
    assert!(matches!(
        &live.rendition,
        Rendition::Video(config)
            if config.coded_width == Some(320) && matches!(config.container, CatalogContainer::Loc)
    ));
    drop(track);
    // The handle of the dropped track goes when the next one comes.
    let (inner, track) = add(Some(inner), true, true);
    assert!(track.is_ok());
    assert_eq!(inner.unwrap().tracks.len(), 1);
}

#[test]
fn failures_of_an_addition_are_named() {
    let (inner, track) = add(None, true, true);
    assert!(inner.is_none());
    assert_eq!(
        track.err().unwrap(),
        "broadcast producer poisoned by panic in an earlier NIF call"
    );
    let (inner, track) = add(owner(), false, true);
    assert_eq!(track.err().unwrap(), "create_track failed: full");
    let inner = inner.unwrap();
    assert!(inner.tracks.is_empty());
    assert!(inner.catalog.is_empty());
    let (inner, track) = add(owner(), true, false);
    assert_eq!(track.err().unwrap(), "media_producer failed: shut");
    let inner = inner.unwrap();
    assert!(inner.tracks.is_empty());
    assert_eq!(inner.broadcast, ["create cam 60"]);
}

#[test]
fn a_resource_is_updated_in_its_kind() {
    let replace = |_: VideoConfig, config: VideoConfig| config;
    let keep = |config: AudioConfig, _: AudioConfig| config;
    let (track, answer) = update_track(track(), false, video(), replace, keep);
    assert_eq!(answer, Ok(Atom::Done));
    let (track, answer) = update_track(track, false, audio(), replace, keep);
    assert_eq!(
        answer.unwrap_err(),
        "track \"cam!\": cannot change a track's media kind in place"
    );
    let (track, answer) = update_track(track, true, video(), replace, keep);
    assert_eq!(answer.unwrap_err(), "track poisoned by panic in an earlier NIF call");
    let (track, _, _) = remove_track(track, |b: Log, p: Shared| (b, p), |b: Log, _: String| b);
    let (_, answer) = update_track(track, false, video(), replace, keep);
    assert_eq!(
        answer.unwrap_err(),
        "track \"cam!\" was removed; a stale resource cannot update the catalog"
    );
}

#[test]
fn frames_go_through_a_resource() {
    let (track, answer) = send_frame(track(), false, 5, true, vec![7], write);
    assert_eq!(answer, Ok(Atom::Done));
    assert_eq!(*track.live.as_ref().unwrap().producer.borrow(), ["5 [7]"]);
    let (track, answer) = send_frame(track, false, 5, false, vec![7], write);
    assert_eq!(answer, Ok(Atom::MoqMissingKeyframe));
    assert_eq!(Atom::MoqMissingKeyframe.name(), "moq_missing_keyframe");
    let (track, answer) = send_frame(track, false, 5, true, vec![0], write);
    assert_eq!(
        answer.unwrap_err(),
        "track producer poisoned by panic in an earlier nif call"
    );
    let (track, answer) = send_frame(track, false, 5, true, vec![1], write);
    assert_eq!(answer.unwrap_err(), "writing frame for track cam! failed: disk");
    let (track, answer) = send_frame(track, true, 5, true, vec![7], write);
    assert_eq!(
        answer.unwrap_err(),
        "track resource poisoned by panic in an earlier NIF call"
    );
    let (track, answer) = send_frame(track, true, 1 << 62, true, vec![7], write);
    assert_eq!(answer.unwrap_err(), "timestamp conversion failed: time overflow");
    let (track, _, _) = remove_track(track, |b: Log, p: Shared| (b, p), |b: Log, _: String| b);
    let (_, answer) = send_frame(track, false, 5, true, vec![7], write);
    assert_eq!(answer.unwrap_err(), "track \"cam!\" was removed");
}

#[test]
fn a_resource_is_taken_down_once() {
    let finish = |mut b: Log, p: Shared| {
        b.push("flush".to_string());
        p.borrow_mut().push("finish".to_string());
        (b, p)
    };
    let retire = |mut b: Log, name: String| {
        b.push(format!("retire {name}"));
        b
    };
    let (track, gone, answer) = remove_track(track(), finish, retire);
    assert_eq!(answer, Atom::Done);
    assert!(track.live.is_none());
    let gone = gone.unwrap();
    assert_eq!(gone.broadcast, ["create cam 60", "flush", "retire cam!"]);
    assert_eq!(*gone.producer.borrow(), ["finish"]);
    let (track, gone, answer) = remove_track(track, finish, retire);
    assert_eq!(answer, Atom::Done);
    assert!(gone.is_none());
    let (track, gone) = track.teardown(finish, retire);
    assert!(track.live.is_none());
    assert!(gone.is_none());
}
