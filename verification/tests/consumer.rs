use std::cell::RefCell;
use std::ops::ControlFlow;

use ex_moq::broadcast_consumer::pump::{Progress, Pump};
use ex_moq::broadcast_consumer::subscription_queue::{
    step, Step, Subscription, SubscriptionQueue, TrackResult,
};
use ex_moq::broadcast_consumer::subscriptions::{
    run_subscription, Subscriptions, TaskEnd, TaskError,
};
use ex_moq::broadcast_consumer::{
    advertised_containers, CloseGuard, Closed, Command, Driver, Event, Handle, TrackError,
    TrackErrorKind,
};
use ex_moq::frame::{Frame, Timestamp};
use ex_moq::messages::{Catalog, CloseReason, Message, PidDead};
use ex_moq::native;
use ex_moq::reply::{Atom, NifError};
use ex_moq::session::{run_session, session_closed};
use ex_moq::track_format::{
    AudioConfig, CatalogAudioCodec, CatalogContainer, CatalogVideoCodec, VideoConfig, WireContainer,
};

/// A subscription that was asked for: what it will be told, in order.
type Asked = Vec<Option<Result<Reader, String>>>;
/// A reader: what it will read, in order.
type Reader = Vec<Option<Result<Option<u64>, String>>>;
type Queue = SubscriptionQueue<Vec<String>, Asked, Reader>;

/// The owner of a session or a consumer: what it was told, in order.
type Owner = Vec<Message>;

fn tell(mut owner: Owner, message: Message) -> (Owner, Result<(), PidDead>) {
    owner.push(message);
    (owner, Ok(()))
}

/// An owner that is gone: the message is noted as the last one that was tried.
fn tell_dead(mut owner: Owner, message: Message) -> (Owner, Result<(), PidDead>) {
    owner.push(message);
    (owner, Err(PidDead))
}

fn frame(nanos: u64) -> Frame {
    Frame { timestamp: Timestamp::from_nanos(nanos).unwrap(), payload: vec![7], keyframe: false }
}

fn granted(mut asked: Asked) -> (Asked, Option<Result<Reader, String>>) {
    let next = if asked.is_empty() { None } else { asked.remove(0) };
    (asked, next)
}

fn open(reader: Reader, _: WireContainer, _: u64) -> Reader {
    reader
}

fn read(mut reader: Reader) -> (Reader, Option<Result<Option<Frame>, String>>) {
    let next = if reader.is_empty() { None } else { reader.remove(0) };
    let next = match next {
        None => None,
        Some(Err(e)) => Some(Err(e)),
        Some(Ok(None)) => Some(Ok(None)),
        Some(Ok(Some(nanos))) => Some(Ok(Some(frame(nanos)))),
    };
    (reader, next)
}

fn queue() -> Queue {
    SubscriptionQueue::new(vec![], 5)
}

fn subscribe(queue: Queue, token: i64, asked: Result<Asked, String>) -> (Queue, Result<(), TrackError>) {
    queue.insert(
        token,
        format!("t{token}"),
        WireContainer::Legacy,
        1,
        |mut log: Vec<String>, name: String, priority: u8| {
            log.push(format!("{name} {priority}"));
            (log, asked)
        },
    )
}

fn tokens(queue: &Queue) -> Vec<i64> {
    queue.entries.iter().map(|entry| entry.token).collect()
}

/// The next event, as text.
fn poll(queue: &mut Queue) -> String {
    match queue.poll_event(&granted, &open, &read) {
        None => "pending".to_string(),
        Some((token, TrackResult::Frame(frame))) => format!("{token}: {}", frame.timestamp.as_nanos()),
        Some((token, TrackResult::Finished)) => format!("{token}: end"),
        Some((token, TrackResult::Failed(e))) => format!("{token}: {}", e.message()),
    }
}

#[test]
fn a_granted_subscription_is_read_at_once() {
    let state = Subscription::Pending(vec![Some(Ok(vec![Some(Ok(Some(3)))]))], WireContainer::Loc);
    match step(state, 0, &granted, &open, &read) {
        Step::Yield(frame, Subscription::Streaming(reader)) => {
            assert_eq!(frame.timestamp.as_nanos(), 3);
            assert!(reader.is_empty());
        }
        _ => panic!("no frame"),
    }
}

#[test]
fn a_pending_subscription_waits() {
    let state: Subscription<Asked, Reader> = Subscription::Pending(vec![None], WireContainer::Loc);
    assert!(matches!(
        step(state, 0, &granted, &open, &read),
        Step::Wait(Subscription::Pending(asked, WireContainer::Loc)) if asked.is_empty()
    ));
}

#[test]
fn a_refused_subscription_fails() {
    let state: Subscription<Asked, Reader> =
        Subscription::Pending(vec![Some(Err("not found".to_string()))], WireContainer::Loc);
    match step(state, 0, &granted, &open, &read) {
        Step::Failed(e) => assert_eq!(e.message(), "subscribe failed: not found"),
        _ => panic!("no failure"),
    }
}

#[test]
fn tracks_are_served_in_turn() {
    let endless: Reader = vec![Some(Ok(Some(1))), Some(Ok(Some(2))), Some(Ok(Some(3)))];
    let (queue, _) = subscribe(queue(), 1, Ok(vec![Some(Ok(endless.clone()))]));
    let (queue, _) = subscribe(queue, 2, Ok(vec![Some(Ok(endless.clone()))]));
    let (mut queue, _) = subscribe(queue, 3, Ok(vec![]));
    let events: Vec<String> = (0..7).map(|_| poll(&mut queue)).collect();
    assert_eq!(events, ["1: 1", "2: 1", "1: 2", "2: 2", "1: 3", "2: 3", "pending"]);
    assert_eq!(queue.broadcast, ["t1 1", "t2 1", "t3 1"]);
    assert_eq!(queue.entries.len(), 3);
}

#[test]
fn ready_tracks_are_served_once_in_a_round() {
    let ready = || Ok(vec![Some(Ok(vec![Some(Ok(Some(1))), Some(Ok(Some(2)))]))]);
    let mut queue = queue();
    for token in [4, 2, 9] {
        queue = subscribe(queue, token, ready()).0;
    }
    let round: Vec<String> = (0..3).map(|_| poll(&mut queue)).collect();
    assert_eq!(round, ["4: 1", "2: 1", "9: 1"]);
    assert_eq!(tokens(&queue), [4, 2, 9]);
    assert_eq!(poll(&mut queue), "4: 2");
    assert_eq!(tokens(&queue), [2, 9, 4]);
}

#[test]
fn a_track_that_gave_a_frame_goes_last() {
    let (queue, _) = subscribe(queue(), 1, Ok(vec![]));
    let (queue, _) = subscribe(queue, 2, Ok(vec![Some(Ok(vec![Some(Ok(Some(9)))]))]));
    let (mut queue, _) = subscribe(queue, 3, Ok(vec![]));
    assert_eq!(poll(&mut queue), "2: 9");
    assert_eq!(tokens(&queue), [3, 1, 2]);
    assert_eq!(poll(&mut queue), "pending");
    assert_eq!(tokens(&queue), [3, 1, 2]);
}

#[test]
fn a_track_that_ended_is_dropped() {
    let (queue, _) = subscribe(queue(), 1, Ok(vec![Some(Ok(vec![Some(Ok(None))]))]));
    let (queue, _) = subscribe(queue, 2, Ok(vec![Some(Ok(vec![Some(Err("cut".to_string()))]))]));
    let (mut queue, _) = subscribe(queue, 3, Ok(vec![]));
    assert_eq!(poll(&mut queue), "1: end");
    assert_eq!(tokens(&queue), [2, 3]);
    assert_eq!(poll(&mut queue), "2: track(t2): track read failed: cut");
    assert_eq!(tokens(&queue), [3]);
}

#[test]
fn a_dropped_subscription_gives_nothing() {
    let frames: Reader = vec![Some(Ok(Some(1))), Some(Ok(Some(2)))];
    let (queue, _) = subscribe(queue(), 1, Ok(vec![Some(Ok(frames.clone()))]));
    let (mut queue, _) = subscribe(queue, 2, Ok(vec![Some(Ok(frames))]));
    queue.remove(1);
    let events: Vec<String> = (0..3).map(|_| poll(&mut queue)).collect();
    assert_eq!(events, ["2: 1", "2: 2", "pending"]);
}

#[test]
fn a_token_stands_for_one_subscription() {
    let (queue, _) = subscribe(queue(), 1, Ok(vec![]));
    let (queue, _) = subscribe(queue, 2, Ok(vec![]));
    let (queue, result) = subscribe(queue, 1, Ok(vec![]));
    assert!(result.is_ok());
    assert_eq!(tokens(&queue), [2, 1]);
    // A subscription that fails has replaced the earlier one all the same.
    let (mut queue, result) = subscribe(queue, 2, Err("gone".to_string()));
    assert_eq!(result.unwrap_err().message(), "track(t2): subscribe failed: gone");
    assert_eq!(tokens(&queue), [1]);
    queue.remove(5);
    assert_eq!(tokens(&queue), [1]);
    queue.remove(1);
    assert!(queue.entries.is_empty());
}

fn video(container: CatalogContainer) -> VideoConfig {
    VideoConfig {
        codec: CatalogVideoCodec::Other,
        description: None,
        coded_width: None,
        coded_height: None,
        framerate: None,
        optimize_for_latency: None,
        container,
    }
}

fn audio(container: CatalogContainer) -> AudioConfig {
    AudioConfig {
        codec: CatalogAudioCodec::Opus,
        sample_rate: 48_000,
        channel_count: 2,
        description: None,
        container,
    }
}

fn catalog() -> Catalog {
    Catalog {
        videos: vec![
            ("cam".to_string(), video(CatalogContainer::Loc)),
            ("odd".to_string(), video(CatalogContainer::Unknown(Some("ogg".to_string())))),
        ],
        audios: vec![("mic".to_string(), audio(CatalogContainer::Legacy))],
    }
}

#[test]
fn the_later_rendition_of_a_name_counts() {
    let mut catalog = catalog();
    catalog.audios.push(("cam".to_string(), audio(CatalogContainer::Legacy)));
    let containers = advertised_containers(&catalog);
    assert_eq!(containers.len(), 3);
    assert!(matches!(containers.get(&"cam".to_string()), Some(CatalogContainer::Legacy)));
    assert!(containers.get(&"none".to_string()).is_none());
}

type TestDriver = Driver<Vec<String>, Asked, Reader>;

fn driver() -> TestDriver {
    let (owner, driver) =
        TestDriver::run_broadcast("room".to_string(), vec![], Ok(()), 5, vec![], tell);
    assert!(matches!(&owner[..], [Message::BroadcastReady { path }] if path == "room"));
    match driver {
        Ok(driver) => driver,
        Err(_) => panic!("not started"),
    }
}

fn with_catalog() -> TestDriver {
    let mut driver = driver();
    let (owner, flow) = driver.handle_catalog(Ok(Some(catalog())), vec![], tell);
    assert!(matches!(&owner[..], [Message::Catalog { path, .. }] if path == "room"));
    assert!(matches!(flow, ControlFlow::Continue(())));
    driver
}

fn handle(
    driver: TestDriver,
    event: Event,
    asked: Result<Asked, String>,
    alive: bool,
) -> (TestDriver, ControlFlow<Option<CloseReason>>, Vec<Message>) {
    let (driver, owner, flow) = driver.handle_event(
        event,
        vec![],
        |mut log: Vec<String>, name: String, priority: u8| {
            log.push(format!("{name} {priority}"));
            (log, asked)
        },
        if alive { tell } else { tell_dead },
    );
    (driver, flow, owner)
}

fn subscribe_to(track: &str, token: i64) -> Event {
    Event::Command(Ok(Command::Subscribe { track: track.to_string(), token, priority: 9 }))
}

#[test]
fn an_unread_catalog_is_reported() {
    let (owner, started) = TestDriver::run_broadcast(
        "room".to_string(),
        vec![],
        Err("bad json".to_string()),
        0,
        vec![],
        tell,
    );
    assert!(owner.is_empty());
    assert!(matches!(started.err(), Some(Some(CloseReason::CatalogError(e))) if e == "bad json"));
    let (_, started) =
        TestDriver::run_broadcast("room".to_string(), vec![], Ok(()), 0, vec![], tell_dead);
    assert!(matches!(started.err(), Some(None)));
}

#[test]
fn only_advertised_tracks_are_subscribed_to() {
    let (driver, flow, sent) = handle(driver(), subscribe_to("cam", 4), Ok(vec![]), true);
    assert!(matches!(flow, ControlFlow::Continue(())));
    assert!(matches!(
        &sent[..],
        [Message::TrackError { token: 4, reason }]
            if reason == "track(cam): not advertised in the catalog"
    ));
    assert!(driver.subs.broadcast.is_empty());

    let (driver, flow, sent) = handle(with_catalog(), subscribe_to("cam", 4), Ok(vec![]), true);
    assert!(matches!(flow, ControlFlow::Continue(())));
    assert!(sent.is_empty());
    assert_eq!(driver.subs.broadcast, ["cam 9"]);
    assert!(matches!(
        &driver.subs.entries[0].state,
        Subscription::Pending(_, WireContainer::Loc)
    ));

    let (_, flow, sent) = handle(driver, subscribe_to("odd", 5), Ok(vec![]), true);
    assert!(matches!(flow, ControlFlow::Continue(())));
    assert!(matches!(
        &sent[..],
        [Message::TrackError { token: 5, reason }]
            if reason == "track(odd): unsupported container: ogg"
    ));
}

#[test]
fn a_failed_subscription_is_reported_under_its_token() {
    let (driver, flow, sent) =
        handle(with_catalog(), subscribe_to("mic", 6), Err("closed".to_string()), true);
    assert!(matches!(flow, ControlFlow::Continue(())));
    assert!(matches!(
        &sent[..],
        [Message::TrackError { token: 6, reason }]
            if reason == "track(mic): subscribe failed: closed"
    ));
    assert!(driver.subs.entries.is_empty());
    let (_, flow, _) = handle(driver, subscribe_to("none", 6), Ok(vec![]), false);
    assert!(matches!(flow, ControlFlow::Break(None)));
}

#[test]
fn a_withdrawn_track_is_refused() {
    let empty = Event::Catalog(Ok(Some(Catalog { videos: vec![], audios: vec![] })));
    let (driver, _, sent) = handle(with_catalog(), empty, Ok(vec![]), true);
    assert!(matches!(&sent[..], [Message::Catalog { renditions, .. }] if renditions.is_empty()));
    let result = driver.get_container(&"cam".to_string());
    assert!(matches!(result, Err(TrackErrorKind::NotAdvertised)));
}

#[test]
fn the_end_of_commands_ends_the_consumer_silently() {
    let (_, flow, sent) = handle(driver(), Event::Command(Err(Closed)), Ok(vec![]), true);
    assert!(matches!(flow, ControlFlow::Break(None)));
    assert!(sent.is_empty());
}

#[test]
fn the_end_of_the_catalog_ends_the_consumer() {
    let (driver_after, flow, sent) =
        handle(with_catalog(), Event::Catalog(Ok(None)), Ok(vec![]), true);
    assert!(matches!(flow, ControlFlow::Break(Some(CloseReason::Ended))));
    assert!(sent.is_empty());
    assert_eq!(driver_after.containers.len(), 3);
    let broken = Event::Catalog(Err("bad".to_string()));
    let (driver_after, flow, sent) = handle(with_catalog(), broken, Ok(vec![]), true);
    assert!(sent.is_empty());
    assert_eq!(driver_after.containers.len(), 3);
    assert!(matches!(flow, ControlFlow::Break(Some(CloseReason::CatalogError(e))) if e == "bad"));
    let fine = Event::Catalog(Ok(Some(catalog())));
    let (_, flow, _) = handle(driver(), fine, Ok(vec![]), false);
    assert!(matches!(flow, ControlFlow::Break(None)));
}

#[test]
fn news_of_a_track_is_passed_on() {
    let event = Event::Track(3, TrackResult::Frame(frame(11)));
    let (driver, flow, sent) = handle(driver(), event, Ok(vec![]), true);
    assert!(matches!(flow, ControlFlow::Continue(())));
    assert!(matches!(&sent[..], [Message::Frame { token: 3, timestamp_ns: 11, .. }]));
    let event = Event::Track(3, TrackResult::Finished);
    let (driver, _, sent) = handle(driver, event, Ok(vec![]), true);
    assert!(matches!(&sent[..], [Message::TrackFinished { token: 3 }]));
    let error = TrackError {
        track: "cam".to_string(),
        source: TrackErrorKind::ReadFailed("cut".to_string()),
    };
    let event = Event::Track(3, TrackResult::Failed(error));
    let (driver, _, sent) = handle(driver, event, Ok(vec![]), true);
    assert!(matches!(
        &sent[..],
        [Message::TrackError { token: 3, reason }] if reason == "track(cam): track read failed: cut"
    ));
    let event = Event::Track(3, TrackResult::Finished);
    let (_, flow, _) = handle(driver, event, Ok(vec![]), false);
    assert!(matches!(flow, ControlFlow::Break(None)));
}

#[test]
fn unsubscribing_drops_the_entry() {
    let (driver, _, _) = handle(with_catalog(), subscribe_to("cam", 4), Ok(vec![]), true);
    let event = Event::Command(Ok(Command::Unsubscribe { token: 4 }));
    let (driver, flow, sent) = handle(driver, event, Ok(vec![]), true);
    assert!(matches!(flow, ControlFlow::Continue(())));
    assert!(driver.subs.entries.is_empty());
    assert!(sent.is_empty());
}

#[test]
fn commands_come_before_catalogs_before_tracks() {
    let ready: Asked = vec![Some(Ok(vec![Some(Ok(Some(1)))]))];
    let (mut driver, _, _) = handle(with_catalog(), subscribe_to("cam", 4), Ok(ready), true);
    let pop = |mut queue: Vec<i64>| {
        let popped = queue.pop();
        (queue, popped.map(|token| Ok(Command::Unsubscribe { token })))
    };
    let next = |mut reader: Vec<Option<Catalog>>| {
        let read = reader.pop();
        (reader, read.map(Ok))
    };
    let (queue, reader, event) =
        driver.next_event(vec![1], vec![None], pop, next, &granted, &open, &read);
    assert!(matches!(event, Some(Event::Command(Ok(Command::Unsubscribe { token: 1 })))));
    assert!(queue.is_empty());
    // The catalog was not asked for, and is still there to be read.
    assert_eq!(reader.len(), 1);
    let (queue, reader, event) =
        driver.next_event(queue, reader, pop, next, &granted, &open, &read);
    assert!(matches!(event, Some(Event::Catalog(Ok(None)))));
    assert!(reader.is_empty());
    let (queue, reader, event) =
        driver.next_event(queue, reader, pop, next, &granted, &open, &read);
    assert!(matches!(event, Some(Event::Track(4, TrackResult::Frame(_)))));
    let (_, _, event) = driver.next_event(queue, reader, pop, next, &granted, &open, &read);
    assert!(event.is_none());
}

/// Tells the owner of a consumer whose queue has to be closed by then.
fn tell_closed(
    (closed, owner): (bool, Owner),
    message: Message,
) -> ((bool, Owner), Result<(), PidDead>) {
    assert!(closed);
    let (owner, sent) = tell(owner, message);
    ((closed, owner), sent)
}

#[test]
fn the_guard_reports_a_crash_by_default() {
    let (closed, owner) =
        CloseGuard::new("room".to_string()).close(false, vec![], |_| true, tell_closed);
    assert!(closed);
    assert!(matches!(
        &owner[..],
        [Message::BroadcastClosed { path, why: CloseReason::Crashed }] if path == "room"
    ));
}

#[test]
fn the_guard_is_silent_without_a_reason() {
    let guard = CloseGuard { path: "room".to_string(), reason: None };
    let (closed, owner) = guard.close(false, vec![], |_| true, tell_closed);
    assert!(closed);
    assert!(owner.is_empty());
}

#[test]
fn a_handle_pushes_commands() {
    let handle = Handle { commands: RefCell::new(vec![]) };
    let push = |queue: &RefCell<Vec<Command>>, command: Command| {
        queue.borrow_mut().push(command);
        Ok(())
    };
    let answer = native::subscribe_track(&handle, "cam".to_string(), 2, 3, push);
    assert_eq!(answer.unwrap(), Atom::Done);
    assert_eq!(native::unsubscribe_track(&handle, 2, push), Atom::Done);
    assert!(matches!(
        &handle.commands.borrow()[..],
        [
            Command::Subscribe { track, token: 2, priority: 3 },
            Command::Unsubscribe { token: 2 }
        ] if track == "cam"
    ));
    let refuse = |_: &RefCell<Vec<Command>>, _: Command| Err(Closed);
    let answer = native::subscribe_track(&handle, "cam".to_string(), 2, 3, refuse);
    assert!(matches!(answer, Err(NifError::Atom(Atom::ConsumerClosed))));
    assert_eq!(Atom::ConsumerClosed.name(), "consumer_closed");
    assert_eq!(native::unsubscribe_track(&handle, 2, refuse), Atom::Done);
    let answer = native::close_broadcast_consumer(&handle, |queue: &RefCell<Vec<Command>>| {
        queue.borrow_mut().clear()
    });
    assert_eq!(answer, Atom::Done);
    assert!(handle.commands.borrow().is_empty());
}

/// The tasks are the list of what was done with them.
type Tasks = Vec<String>;

fn abort(mut tasks: Tasks, task: u32) -> Tasks {
    tasks.push(format!("abort {task}"));
    tasks
}

fn task_subscribe(
    subs: Subscriptions<u8, Tasks, u32>,
    token: i64,
    found: Result<u8, String>,
    task: u32,
) -> (Subscriptions<u8, Tasks, u32>, Result<(), TaskError>) {
    subs.subscribe(
        token,
        "cam".to_string(),
        WireContainer::Legacy,
        1,
        |n: u8, _: String| (n, found),
        |mut tasks: Tasks, token: i64, _: u8, _: WireContainer, priority: u8, latency: u64| {
            tasks.push(format!("spawn {task} for {token} {priority} {latency}"));
            (tasks, task)
        },
        abort,
    )
}

#[test]
fn a_task_replaces_the_one_with_its_token() {
    let subs = Subscriptions::new(0, 5, vec![]);
    let (subs, result) = task_subscribe(subs, 1, Ok(0), 100);
    assert!(result.is_ok());
    let (subs, result) = task_subscribe(subs, 1, Ok(0), 101);
    assert!(result.is_ok());
    // The new task starts before the old one is aborted.
    assert_eq!(subs.tasks, ["spawn 100 for 1 1 5", "spawn 101 for 1 1 5", "abort 100"]);
    let (subs, result) = task_subscribe(subs, 1, Err("none".to_string()), 102);
    assert!(matches!(result, Err(TaskError::SubscribeFailed(e)) if e == "none"));
    assert_eq!(subs.tasks.len(), 3);
    assert_eq!(subs.aborts.get(&1), Some(&101));
    let subs = subs.unsubscribe(1, abort).unsubscribe(1, abort);
    assert_eq!(subs.tasks[3..], ["abort 101"]);
    assert!(subs.aborts.is_empty());
}

#[test]
fn ended_tasks_are_matched_to_their_token() {
    let (subs, _) = task_subscribe(Subscriptions::new(0, 0, vec![]), 1, Ok(0), 100);
    let (subs, _) = task_subscribe(subs, 2, Ok(0), 200);
    let (mut subs, _) = task_subscribe(subs, 3, Ok(0), 300);
    assert!(subs.finished(TaskEnd::Cancelled, |_: &u32| false).is_none());
    let ended = subs.finished(TaskEnd::Returned(1, Ok(())), |_: &u32| false);
    assert!(matches!(ended, Some((1, Ok(())))));
    let ended = subs.finished(TaskEnd::Panicked("boom".to_string()), |task: &u32| *task == 300);
    assert!(matches!(ended, Some((3, Err(TaskError::Panicked(e)))) if e == "boom"));
    assert!(subs.finished(TaskEnd::Panicked("boom".to_string()), |_: &u32| false).is_none());
    assert_eq!(subs.aborts.len(), 1);
    assert_eq!(subs.aborts.get(&2), Some(&200));
}

#[test]
fn a_task_ends_with_its_track_or_its_owner() {
    let (owner, end) = run_subscription(1, Ok(Some(frame(1))), vec![], tell);
    assert!(matches!(&owner[..], [Message::Frame { token: 1, timestamp_ns: 1, .. }]));
    assert!(end.is_none());
    let (_, end) = run_subscription(1, Ok(Some(frame(1))), vec![], tell_dead);
    assert!(matches!(end, Some(Ok(()))));
    let (owner, end) = run_subscription(1, Ok(None), vec![], tell);
    assert!(owner.is_empty());
    assert!(matches!(end, Some(Ok(()))));
    let (owner, end) = run_subscription(1, Err("cut".to_string()), vec![], tell);
    assert!(owner.is_empty());
    assert!(matches!(end, Some(Err(TaskError::ReadFailed(e))) if e == "cut"));
}

#[test]
fn a_pump_names_what_failed() {
    let pump = Pump::new(0, "cam".to_string(), WireContainer::Loc, 8, 1, 250);
    assert_eq!(pump.found(Ok(5)), Ok(5));
    assert_eq!(pump.found::<u8>(Err("x".to_string())).unwrap_err(), "track(cam) failed: x");
    assert_eq!(pump.subscribed(Ok(6)), Ok(6));
    assert_eq!(pump.subscribed::<u8>(Err("y".to_string())).unwrap_err(), "subscribe(cam) failed: y");
    let (owner, progress) = pump.run(Ok(Some(frame(4))), vec![], tell);
    assert!(matches!(&owner[..], [Message::Frame { token: 8, timestamp_ns: 4, .. }]));
    assert!(matches!(progress, Progress::Reading));
    let (_, progress) = pump.run(Ok(Some(frame(4))), vec![], tell_dead);
    assert!(matches!(progress, Progress::Failed(e) if e == "consumer pid is dead"));
    let (owner, progress) = pump.run(Ok(None), vec![], tell);
    assert!(owner.is_empty());
    assert!(matches!(progress, Progress::Finished));
    let (owner, progress) = pump.run(Err("cut".to_string()), vec![], tell);
    assert!(owner.is_empty());
    assert!(matches!(progress, Progress::Failed(e) if e == "cut"));
}

#[test]
fn a_pump_subscribes_and_reads_as_it_was_asked_to() {
    let pump = Pump::new(0, "cam".to_string(), WireContainer::Cmaf(vec![1, 2]), 8, 7, 250);
    assert_eq!(pump.subscription(), (&"cam".to_string(), 7));
    let (subscriber, latency) = pump.open("granted", |subscriber, wire, latency| {
        assert!(matches!(wire, WireContainer::Cmaf(init) if init == [1, 2]));
        (subscriber, latency)
    });
    assert_eq!((subscriber, latency), ("granted", 250));
}

#[test]
fn a_session_reports_its_course() {
    let (owner, up) = run_session(Ok(5), vec![], tell);
    assert_eq!(up, Ok(Some(5)));
    let (owner, told) = session_closed(owner, "bye".to_string(), tell);
    assert!(told.is_ok());
    let (owner, up) = run_session::<_, u8, _>(Err("no route".to_string()), owner, tell);
    assert_eq!(up, Ok(None));
    let tags: Vec<&str> = owner.iter().map(|message| message.tag()).collect();
    assert_eq!(tags, ["moq_connected", "moq_disconnected", "moq_setup_failed"]);
    let (_, up) = run_session(Ok(5), vec![], tell_dead);
    assert_eq!(up, Err(PidDead));
    let (owner, up) = run_session::<_, u8, _>(Err("no route".to_string()), vec![], tell_dead);
    assert!(matches!(&owner[..], [Message::SetupFailed { reason }] if reason == "no route"));
    assert_eq!(up, Err(PidDead));
}
