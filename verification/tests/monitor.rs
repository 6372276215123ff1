use ex_moq::frame::Timestamp;
use ex_moq::messages::Catalog;
use ex_moq::monitor::{
    announced_line, announcement, arguments, first_track, streaming_line, subscribing_line,
    waiting_line, Announcement, Monitor,
};
use ex_moq::table::Table;
use ex_moq::track_format::{
    AudioConfig, CatalogAudioCodec, CatalogContainer, CatalogVideoCodec, VideoConfig,
};

#[test]
fn arguments_have_defaults() {
    assert_eq!(
        arguments(None, None),
        ("https://localhost:4443".to_string(), "anon/bbb".to_string())
    );
    assert_eq!(
        arguments(Some("u".to_string()), Some("n".to_string())),
        ("u".to_string(), "n".to_string())
    );
}

#[test]
fn announcements_are_told_apart() {
    let name = "anon/bbb".to_string();
    assert_eq!(announcement(&name, &name, true), Announcement::Found);
    assert_eq!(announcement(&name, &name, false), Announcement::Withdrawn);
    assert_eq!(announcement(&name, &"anon".to_string(), true), Announcement::Other);
    assert_eq!(announced_line(&name, true), "announced: anon/bbb (active=true)");
    assert_eq!(announced_line(&name, false), "announced: anon/bbb (active=false)");
    assert_eq!(waiting_line(&name), "connected, waiting for broadcast \"anon/bbb\"...");
    assert_eq!(subscribing_line(&name), "subscribing to track \"anon/bbb\"...");
    assert_eq!(streaming_line(&"a\nb".to_string()), "streaming frames from \"a\\nb\":");
}

fn catalog(videos: &[&str], audios: &[&str]) -> Catalog {
    let video = || VideoConfig {
        codec: CatalogVideoCodec::Other,
        description: None,
        coded_width: None,
        coded_height: None,
        framerate: None,
        optimize_for_latency: None,
        container: CatalogContainer::Legacy,
    };
    let audio = || AudioConfig {
        codec: CatalogAudioCodec::Other,
        sample_rate: 1,
        channel_count: 1,
        description: None,
        container: CatalogContainer::Legacy,
    };
    Catalog {
        videos: videos.iter().map(|name| (name.to_string(), video())).collect(),
        audios: audios.iter().map(|name| (name.to_string(), audio())).collect(),
    }
}

#[test]
fn video_comes_first() {
    assert_eq!(first_track(&catalog(&["a", "b"], &["c"])), Ok("a".to_string()));
    assert_eq!(first_track(&catalog(&[], &["c"])), Ok("c".to_string()));
    assert_eq!(
        first_track(&catalog(&[], &[])).unwrap_err(),
        "catalog has no video or audio renditions"
    );
}

#[test]
fn frame_lines_are_aligned() {
    let mut monitor = Monitor::new();
    let timestamp = Timestamp::from_micros(1_234_999).unwrap();
    assert_eq!(
        monitor.frame(&timestamp, 512, 3, true),
        "  frame     0  pts=    1234ms  size=   512 bytes  group=3 [keyframe]"
    );
    assert_eq!(
        monitor.frame(&timestamp, 1_234_567, 12, false),
        "  frame     1  pts=    1234ms  size=1234567 bytes  group=12"
    );
    assert_eq!(monitor.ended_line(), "track ended after 2 frames");
}

#[test]
fn tables_keep_one_entry_for_a_name() {
    let name = |name: &str| name.to_string();
    let mut table: Table<u8> = Table::new();
    assert_eq!(table.insert(name("a"), 1), None);
    assert_eq!(table.insert(name("b"), 2), None);
    assert_eq!(table.insert(name("a"), 3), Some(1));
    assert_eq!(table.len(), 2);
    assert_eq!(table.at(0), (&name("b"), &2));
    assert_eq!(table.position(&name("a")), Some(1));
    assert_eq!(table.position(&name("c")), None);
    assert!(table.contains(&name("a")));
    assert_eq!(table.get(&name("b")), Some(&2));
    assert_eq!(table.pop(), Some((name("a"), 3)));
    assert_eq!(table.remove(&name("b")), Some(2));
    assert_eq!(table.remove(&name("b")), None);
    assert_eq!(table.pop(), None);
}
