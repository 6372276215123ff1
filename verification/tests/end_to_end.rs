//! A publisher and a subscriber over the MoQ stack, in one process.

use std::cell::RefCell;
use std::ops::ControlFlow;
use std::task::Poll;
use std::time::Duration;

use ex_moq::broadcast_consumer::{find_broadcast, Closed, Command, Driver, Event};
use ex_moq::broadcast_producer::{Producer, WriteFault};
use ex_moq::frame::{Frame, Timestamp};
use ex_moq::messages::{Catalog, CloseReason, Message, PidDead, RenditionFormat};
use ex_moq::native;
use ex_moq::reply::Atom;
use ex_moq::track_format::{
    AudioConfig, CatalogAudioCodec, CatalogContainer, CatalogVideoCodec, Container, TrackFormat,
    VideoCodec, VideoConfig, VideoTrackFormat, WireContainer,
};
use ex_moq::web_codecs::{AacCodec, Framerate, H264Codec, VideoTrackParams};
use moq_mux::catalog::Stream;
use moq_net::kio;

type Wire = moq_mux::catalog::hang::Container;
type Writer = moq_mux::container::Producer<Wire>;
type Reader = moq_mux::container::Consumer<Wire>;
type Publisher = Producer<
    moq_net::broadcast::Producer,
    moq_mux::catalog::Producer,
    Writer,
    moq_mux::catalog::VideoTrack,
    moq_mux::catalog::AudioTrack,
>;
type Subscriber = Driver<moq_net::broadcast::Consumer, moq_net::track::Subscribing, Reader>;

fn stack_wire(wire: WireContainer) -> Wire {
    match wire {
        WireContainer::Legacy => Wire::Legacy,
        WireContainer::Loc => Wire::Loc,
        WireContainer::Cmaf(_) => panic!("not published here"),
    }
}

fn stack_video(config: VideoConfig) -> hang::catalog::VideoConfig {
    let codec = match config.codec {
        CatalogVideoCodec::H264(codec) => hang::catalog::VideoCodec::H264(hang::catalog::H264 {
            inline: codec.in_band,
            profile: codec.profile,
            constraints: codec.constraints,
            level: codec.level,
        }),
        _ => panic!("not published here"),
    };
    let mut entry = hang::catalog::VideoConfig::new(codec);
    entry.description = config.description.map(bytes::Bytes::from);
    entry.coded_width = config.coded_width;
    entry.coded_height = config.coded_height;
    entry.framerate = config.framerate.map(|rate| f64::from_bits(rate.bits));
    entry.optimize_for_latency = config.optimize_for_latency;
    entry.container = match config.container {
        CatalogContainer::Loc => hang::catalog::Container::Loc,
        _ => hang::catalog::Container::Legacy,
    };
    entry
}

fn own_container(container: &hang::catalog::Container) -> CatalogContainer {
    match container {
        hang::catalog::Container::Legacy => CatalogContainer::Legacy,
        hang::catalog::Container::Loc => CatalogContainer::Loc,
        hang::catalog::Container::Cmaf { init } => CatalogContainer::Cmaf(init.to_vec()),
        hang::catalog::Container::Unknown(unknown) => {
            CatalogContainer::Unknown(unknown.kind().map(str::to_string))
        }
    }
}

fn own_catalog(catalog: &moq_mux::catalog::hang::Catalog) -> Catalog {
    let video = |config: &hang::catalog::VideoConfig| VideoConfig {
        codec: match &config.codec {
            hang::catalog::VideoCodec::H264(codec) => CatalogVideoCodec::H264(H264Codec {
                in_band: codec.inline,
                profile: codec.profile,
                constraints: codec.constraints,
                level: codec.level,
            }),
            _ => CatalogVideoCodec::Other,
        },
        description: config.description.as_ref().map(|bytes| bytes.to_vec()),
        coded_width: config.coded_width,
        coded_height: config.coded_height,
        framerate: config.framerate.map(|rate| Framerate { bits: rate.to_bits() }),
        optimize_for_latency: config.optimize_for_latency,
        container: own_container(&config.container),
    };
    let audio = |config: &hang::catalog::AudioConfig| AudioConfig {
        codec: match &config.codec {
            hang::catalog::AudioCodec::AAC(codec) => {
                CatalogAudioCodec::Aac(AacCodec { profile: codec.profile })
            }
            hang::catalog::AudioCodec::Opus => CatalogAudioCodec::Opus,
            _ => CatalogAudioCodec::Other,
        },
        sample_rate: config.sample_rate,
        channel_count: config.channel_count,
        description: config.description.as_ref().map(|bytes| bytes.to_vec()),
        container: own_container(&config.container),
    };
    Catalog {
        videos: catalog.video.renditions.iter().map(|(name, c)| (name.clone(), video(c))).collect(),
        audios: catalog.audio.renditions.iter().map(|(name, c)| (name.clone(), audio(c))).collect(),
    }
}

fn publish(publisher: Publisher, track: &str, width: u32) -> Publisher {
    let media = publisher.catalog.clone();
    let format = TrackFormat::Video(VideoTrackFormat {
        params: VideoTrackParams { width: Some(width), height: None, framerate: None },
        description: vec![],
        codec: VideoCodec::H264(H264Codec { in_band: true, profile: 1, constraints: 2, level: 3 }),
    });
    let (publisher, answer) = native::add_track(
        Some(publisher),
        track.to_string(),
        format,
        60,
        Container::Legacy,
        0,
        |mut b: moq_net::broadcast::Producer, name: String, priority: u8| {
            let info = moq_net::track::Info::default().with_priority(priority);
            let track = b.create_track(name, info).map_err(|e| e.to_string());
            (b, track)
        },
        |track: moq_net::track::Producer, wire: WireContainer, latency_ns: u64| {
            media
                .media_producer(track, stack_wire(wire))
                .map(|producer| producer.with_latency(Duration::from_nanos(latency_ns)))
                .map_err(|e| e.to_string())
        },
        |mut b: moq_net::broadcast::Producer, name: String| {
            let _ = b.remove_track(&name);
            b
        },
        |catalog: moq_mux::catalog::Producer, name: String, config: VideoConfig| {
            let mut entry = catalog.reserve().video(name);
            entry.set(stack_video(config));
            (catalog, entry)
        },
        |catalog: moq_mux::catalog::Producer, name: String, _: AudioConfig| {
            let entry = catalog.reserve().audio(name);
            (catalog, entry)
        },
    );
    assert_eq!(answer.unwrap(), Atom::Done);
    publisher.unwrap()
}

fn write(mut writer: Writer, frame: Frame) -> (Writer, Result<(), WriteFault>) {
    let timestamp =
        moq_net::Timestamp::from_scale(frame.timestamp.ticks(), frame.timestamp.scale()).unwrap();
    let written = writer.write(moq_mux::container::Frame {
        timestamp,
        payload: bytes::Bytes::from(frame.payload),
        keyframe: frame.keyframe,
        duration: None,
    });
    let result = match written {
        Ok(()) => Ok(()),
        Err(moq_mux::Error::MissingKeyframe(_)) => Err(WriteFault::MissingKeyframe),
        Err(e) => Err(WriteFault::Other(e.to_string())),
    };
    (writer, result)
}

fn send(publisher: Publisher, track: &str, nanos: u64, keyframe: bool) -> (Publisher, Atom) {
    let (publisher, answer) = native::send_frame(
        Some(publisher),
        &track.to_string(),
        nanos,
        keyframe,
        vec![nanos as u8],
        write,
    );
    (publisher.unwrap(), answer.unwrap())
}

async fn next_event(
    driver: &mut Subscriber,
    commands: &kio::Queue<Command>,
    catalog: &mut moq_mux::catalog::Consumer<()>,
) -> Event {
    kio::wait(|waiter| {
        let (_, _, event) = driver.next_event(
            commands,
            &mut *catalog,
            |commands: &kio::Queue<Command>| {
                let popped = match commands.poll_pop(waiter) {
                    Poll::Ready(Ok(command)) => Some(Ok(command)),
                    Poll::Ready(Err(_)) => Some(Err(Closed)),
                    Poll::Pending => None,
                };
                (commands, popped)
            },
            |catalog: &mut moq_mux::catalog::Consumer<()>| {
                let read = match catalog.poll_next(waiter) {
                    Poll::Ready(Ok(snapshot)) => Some(Ok(snapshot.map(|c| own_catalog(&c)))),
                    Poll::Ready(Err(e)) => Some(Err(e.to_string())),
                    Poll::Pending => None,
                };
                (catalog, read)
            },
            &|asked: moq_net::track::Subscribing| {
                let answer = match asked.poll_ok(waiter) {
                    Poll::Ready(answer) => Some(answer.map_err(|e| e.to_string())),
                    Poll::Pending => None,
                };
                (asked, answer)
            },
            &|subscriber: moq_net::track::Subscriber, wire: WireContainer, latency_ns: u64| {
                Reader::new(subscriber, stack_wire(wire))
                    .with_latency(Duration::from_nanos(latency_ns))
            },
            &|mut reader: Reader| {
                let answer = match reader.poll_read(waiter) {
                    Poll::Ready(Ok(frame)) => Some(Ok(frame.map(|frame| Frame {
                        timestamp: Timestamp::from_scale(
                            frame.timestamp.value(),
                            frame.timestamp.scale().as_u64(),
                        )
                        .unwrap(),
                        payload: frame.payload.to_vec(),
                        keyframe: frame.keyframe,
                    }))),
                    Poll::Ready(Err(e)) => Some(Err(e.to_string())),
                    Poll::Pending => None,
                };
                (reader, answer)
            },
        );
        match event {
            Some(event) => Poll::Ready(event),
            None => Poll::Pending,
        }
    })
    .await
}

async fn follow(
    broadcast: moq_net::broadcast::Consumer,
    commands: kio::Queue<Command>,
    sent: &RefCell<Vec<Message>>,
    until: usize,
    on_catalog: &dyn Fn(),
) -> Option<CloseReason> {
    let (broadcast, _) = find_broadcast(&"room".to_string(), Some(broadcast)).ok().unwrap();
    let format = moq_mux::catalog::CatalogFormat::Hang;
    let mut catalog = moq_mux::catalog::Consumer::new(&broadcast, format).await.ok().unwrap();
    let note = |sent: &RefCell<Vec<Message>>, message: Message| -> Result<(), PidDead> {
        sent.borrow_mut().push(message);
        Ok(())
    };
    let (_, started) =
        Subscriber::run_broadcast("room".to_string(), broadcast, Ok(()), 0, sent, |owner, m| {
            (owner, note(owner, m))
        });
    let mut driver = started.ok().unwrap();
    while sent.borrow().len() < until {
        let event = next_event(&mut driver, &commands, &mut catalog).await;
        let (next, _, flow) = driver.handle_event(
            event,
            sent,
            |broadcast: moq_net::broadcast::Consumer, track: String, priority: u8| {
                let subscription = moq_net::track::Subscription::default().with_priority(priority);
                let asked = broadcast
                    .track(&track)
                    .map(|track| track.subscribe(subscription).into_inner())
                    .map_err(|e| e.to_string());
                (broadcast, asked)
            },
            |owner, message| {
                if matches!(message, Message::Catalog { .. }) {
                    on_catalog();
                }
                (owner, note(owner, message))
            },
        );
        driver = next;
        if let ControlFlow::Break(reason) = flow {
            return reason;
        }
    }
    None
}

fn run<F: std::future::Future>(future: F) -> F::Output {
    let runtime = tokio::runtime::Builder::new_current_thread().enable_all().build().unwrap();
    runtime.block_on(async { tokio::time::timeout(Duration::from_secs(10), future).await.unwrap() })
}

fn publisher() -> Publisher {
    let broadcast = moq_net::broadcast::Info::new().produce();
    Producer::new("room", Ok(broadcast), |mut b: moq_net::broadcast::Producer| {
        let catalog = moq_mux::catalog::Producer::new(&mut b).map_err(|e| e.to_string());
        (b, catalog)
    })
    .ok()
    .unwrap()
}

#[test]
fn a_subscriber_gets_what_a_publisher_sends() {
    let sent = RefCell::new(vec![]);
    run(async {
        let publisher = publish(publisher(), "cam", 640);
        let consumer = publisher.broadcast.consume();
        let commands = kio::Queue::new();
        // The catalog comes first, so the command finds its track advertised.
        follow(consumer.clone(), kio::Queue::new(), &sent, 2, &|| ()).await;
        sent.borrow_mut().clear();

        let (publisher, answer) = send(publisher, "cam", 1_000, false);
        assert_eq!(answer, Atom::MissingKeyframe);
        let subscribe = Command::Subscribe { track: "mic".to_string(), token: 8, priority: 1 };
        assert!(commands.try_push(subscribe).is_ok());
        let (publisher, answer) = send(publisher, "cam", 1_000, true);
        assert_eq!(answer, Atom::Done);
        let (publisher, _) = send(publisher, "cam", 2_000, false);
        follow(consumer, commands, &sent, 3, &|| ()).await;
        drop(publisher);
    });
    let sent = sent.into_inner();
    assert!(matches!(&sent[0], Message::BroadcastReady { path } if path == "room"));
    assert!(matches!(
        &sent[1],
        Message::TrackError { token: 8, reason }
            if reason == "track(mic): not advertised in the catalog"
    ));
    assert!(matches!(
        &sent[2],
        Message::Catalog { renditions, .. }
            if renditions.len() == 1
                && renditions[0].0 == "cam"
                && matches!(&renditions[0].1, RenditionFormat::Video(f) if f.params.width == Some(640))
    ));
}

#[test]
fn frames_of_a_subscribed_track_arrive_in_order() {
    let sent = RefCell::new(vec![]);
    run(async {
        let publisher = publish(publisher(), "cam", 640);
        let consumer = publisher.broadcast.consume();
        let commands = kio::Queue::new();
        let publisher = RefCell::new(Some(publisher));
        let feed = || {
            let subscribe = Command::Subscribe { track: "cam".to_string(), token: 8, priority: 1 };
            assert!(commands.try_push(subscribe).is_ok());
            let held = publisher.borrow_mut().take().unwrap();
            let (held, _) = send(held, "cam", 1_000_000, true);
            let (held, _) = send(held, "cam", 2_000_000, false);
            let (held, _) = send(held, "cam", 3_000_000, true);
            *publisher.borrow_mut() = Some(held);
        };
        follow(consumer, commands.clone(), &sent, 5, &feed).await;
    });
    let frames: Vec<(i64, u64, bool, Vec<u8>)> = sent
        .into_inner()
        .into_iter()
        .filter_map(|message| match message {
            Message::Frame { token, payload, timestamp_ns, keyframe } => {
                Some((token, timestamp_ns, keyframe, payload))
            }
            _ => None,
        })
        .collect();
    assert_eq!(
        frames,
        [
            (8, 1_000_000, true, vec![1_000_000u64 as u8]),
            (8, 2_000_000, false, vec![2_000_000u64 as u8]),
            (8, 3_000_000, true, vec![3_000_000u64 as u8]),
        ]
    );
}
