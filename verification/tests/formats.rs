use ex_moq::cmaf::{is_readable, DESCRIPTOR_LIMIT, ENTRY_LIMIT, NESTING_LIMIT};
use ex_moq::broadcast_consumer::find_broadcast;
use ex_moq::frame::{Frame, Timestamp};
use ex_moq::messages::{send_catalog, Catalog, Message, RenditionFormat};
use ex_moq::stack::CatalogFormat;
use ex_moq::text::{decimal, joined, pad_left};
use ex_moq::track_format::{
    audio_config, audio_config_with, video_config, wire_container_with, AudioCodec, AudioConfig,
    AudioTrackFormat, CatalogAudioCodec, CatalogContainer, CatalogVideoCodec, Container,
    ResolvedConfig, TrackFormat, TrackKind, VideoCodec, VideoConfig, VideoTrackFormat,
    WireContainer,
};
use ex_moq::web_codecs::{
    same_bytes, AacCodec, AudioTrackParams, FlagsError, Framerate, H264Codec, H265Codec,
    H265CodecWire, OpusCodec, VideoTrackParams,
};

fn rate(value: f64) -> Framerate {
    Framerate { bits: value.to_bits() }
}

fn h264() -> H264Codec {
    H264Codec { in_band: false, profile: 100, constraints: 0, level: 31 }
}

fn video_format(description: Vec<u8>) -> VideoTrackFormat {
    VideoTrackFormat {
        params: VideoTrackParams {
            width: Some(1280),
            height: Some(720),
            framerate: Some(rate(30.0)),
        },
        description,
        codec: VideoCodec::H264(h264()),
    }
}

fn aac_format(sample_rate: u32) -> AudioTrackFormat {
    AudioTrackFormat {
        params: AudioTrackParams { sample_rate, channels: 2 },
        codec: AudioCodec::Aac(AacCodec { profile: 2 }),
    }
}

fn opus_format() -> AudioTrackFormat {
    AudioTrackFormat {
        params: AudioTrackParams { sample_rate: 48_000, channels: 2 },
        codec: AudioCodec::Opus(OpusCodec),
    }
}

fn h265_wire(compatibility: usize, constraint: usize) -> H265CodecWire {
    H265CodecWire {
        in_band: true,
        profile_space: 0,
        profile_idc: 1,
        profile_compatibility_flags: vec![0x60; compatibility],
        tier_flag: false,
        level_idc: 93,
        constraint_flags: vec![0x90; constraint],
    }
}

#[test]
fn video_entry_carries_the_format() {
    let config = video_config(video_format(vec![1, 2, 3]), CatalogContainer::from(Container::Loc));
    assert!(matches!(
        config.codec,
        CatalogVideoCodec::H264(H264Codec { in_band: false, profile: 100, constraints: 0, level: 31 })
    ));
    assert_eq!(config.description, Some(vec![1, 2, 3]));
    assert_eq!(config.coded_width, Some(1280));
    assert_eq!(config.coded_height, Some(720));
    assert_eq!(config.framerate.unwrap().bits, 30.0f64.to_bits());
    assert_eq!(config.optimize_for_latency, Some(true));
    assert!(matches!(config.container, CatalogContainer::Loc));
}

#[test]
fn empty_description_is_left_out() {
    let config = video_config(video_format(vec![]), CatalogContainer::from(Container::Legacy));
    assert_eq!(config.description, None);
    let format = VideoTrackFormat::from_config(&config).unwrap();
    assert!(format.description.is_empty());
    assert_eq!(format.params.width, Some(1280));
}

#[test]
fn video_format_round_trip() {
    let config = video_config(video_format(vec![9]), CatalogContainer::from(Container::Legacy));
    let format = VideoTrackFormat::from_config(&config).unwrap();
    assert_eq!(format.description, vec![9]);
    assert!(matches!(format.codec, VideoCodec::H264(codec) if codec == h264()));
    assert_eq!(format.params.framerate.unwrap().bits, 30.0f64.to_bits());
}

#[test]
fn other_codecs_are_unrecognized() {
    let mut config = video_config(video_format(vec![]), CatalogContainer::Legacy);
    config.codec = CatalogVideoCodec::Other;
    assert!(VideoTrackFormat::from_config(&config).is_err());
    let mut config = audio_config(opus_format(), CatalogContainer::Legacy);
    config.codec = CatalogAudioCodec::Other;
    assert!(AudioTrackFormat::from_config(&config).is_err());
}

#[test]
fn aac_entry_describes_itself() {
    let config = audio_config(aac_format(44_100), CatalogContainer::from(Container::Legacy));
    // AAC-LC (2), 44.1 kHz (index 4), stereo: 00010 0100 0010 000.
    assert_eq!(config.description, Some(vec![0x12, 0x10]));
    let stack = moq_mux::codec::aac::Config { profile: 2, sample_rate: 44_100, channel_count: 2 };
    assert_eq!(config.description, Some(stack.encode().to_vec()));
    assert_eq!(AudioTrackFormat::from_config(&config), Ok(aac_format(44_100)));
}

#[test]
fn aac_entry_of_an_odd_rate_is_longer() {
    let config = audio_config(aac_format(44_101), CatalogContainer::from(Container::Legacy));
    assert_eq!(config.description.unwrap().len(), 5);
}

#[test]
fn opus_entry_has_no_description() {
    let config = audio_config(opus_format(), CatalogContainer::from(Container::Loc));
    assert_eq!(config.description, None);
    assert_eq!(config.codec, CatalogAudioCodec::Opus);
    assert_eq!(config.sample_rate, 48_000);
    assert_eq!(config.channel_count, 2);
    assert_eq!(AudioTrackFormat::from_config(&config), Ok(opus_format()));
}

#[test]
fn given_audio_specific_config_is_used_for_aac_only() {
    let config = audio_config_with(aac_format(8_000), CatalogContainer::Legacy, Some(vec![7]));
    assert_eq!(config.description, Some(vec![7]));
    let config = audio_config_with(opus_format(), CatalogContainer::Legacy, Some(vec![7]));
    assert_eq!(config.description, None);
}

#[test]
fn resolved_config_has_the_kind_of_its_format() {
    let video = ResolvedConfig::new(TrackFormat::Video(video_format(vec![])), CatalogContainer::Loc);
    let audio = ResolvedConfig::new(TrackFormat::Audio(opus_format()), CatalogContainer::Loc);
    assert_eq!(video.kind(), TrackKind::Video);
    assert_eq!(audio.kind(), TrackKind::Audio);
}

#[test]
fn published_containers_are_readable() {
    for container in [Container::Legacy, Container::Loc] {
        let read = WireContainer::from_catalog(&CatalogContainer::from(container)).unwrap();
        assert_eq!(
            matches!(read, WireContainer::Legacy),
            matches!(WireContainer::from(container), WireContainer::Legacy)
        );
    }
}

#[test]
fn unknown_containers_are_refused() {
    let named = CatalogContainer::Unknown(Some("webm".to_string()));
    assert_eq!(
        WireContainer::from_catalog(&named).unwrap_err(),
        "unsupported container: webm"
    );
    let nameless = CatalogContainer::Unknown(None);
    assert_eq!(
        WireContainer::from_catalog(&nameless).unwrap_err(),
        "unsupported container: <missing>"
    );
}

#[test]
fn broken_cmaf_init_is_refused_with_the_parsers_words() {
    for init in [vec![], vec![0, 0, 0, 9], vec![0xff; 64]] {
        let stack = hang::catalog::Container::Cmaf { init: bytes::Bytes::from(init.clone()) };
        let expected = moq_mux::catalog::hang::Container::try_from(&stack).err().unwrap().to_string();
        let error = WireContainer::from_catalog(&CatalogContainer::Cmaf(init)).unwrap_err();
        assert_eq!(error, expected);
    }
}

#[test]
fn cmaf_goes_by_the_parsers_verdict() {
    let container = CatalogContainer::Cmaf(vec![1, 2]);
    assert!(matches!(
        wire_container_with(&container, None),
        Ok(WireContainer::Cmaf(init)) if init == vec![1, 2]
    ));
    assert_eq!(wire_container_with(&container, Some("bad".to_string())).unwrap_err(), "bad");
    assert!(matches!(
        wire_container_with(&CatalogContainer::Loc, Some("bad".to_string())),
        Ok(WireContainer::Loc)
    ));
}

#[test]
fn h265_flags_have_exact_lengths() {
    let codec = H265Codec::decode(h265_wire(4, 6)).unwrap();
    assert_eq!(codec.profile_compatibility_flags, [0x60; 4]);
    assert_eq!(codec.constraint_flags, [0x90; 6]);
    let wire = codec.encode();
    assert!(wire.same(&h265_wire(4, 6)));
    assert!(!wire.same(&h265_wire(4, 5)));

    let error = H265Codec::decode(h265_wire(3, 6)).unwrap_err();
    assert_eq!(error, FlagsError::ProfileCompatibility);
    assert_eq!(error.message(), "profile_compatibility_flags must be exactly 4 bytes");
    let error = H265Codec::decode(h265_wire(4, 7)).unwrap_err();
    assert_eq!(error, FlagsError::Constraint);
    assert_eq!(error.message(), "constraint_flags must be exactly 6 bytes");
    // Both wrong: the compatibility flags are looked at first.
    assert_eq!(H265Codec::decode(h265_wire(0, 0)).unwrap_err(), FlagsError::ProfileCompatibility);
}

#[test]
fn only_opus_stands_for_opus() {
    assert_eq!(OpusCodec.encode(), "opus");
    assert!(OpusCodec::decode(&"opus".to_string()).is_ok());
    assert!(OpusCodec::decode(&"aac".to_string()).is_err());
}

#[test]
fn rates_compare_as_numbers() {
    let values = [0.0, -0.0, 30.0, -30.0, 29.97, f64::INFINITY, f64::NEG_INFINITY, f64::NAN, -f64::NAN];
    for a in values {
        for b in values {
            assert_eq!(rate(a).same_rate(rate(b)), a == b, "{a} {b}");
        }
    }
    assert_eq!(Framerate::zero().bits, 0.0f64.to_bits());
}

#[test]
fn bytes_compare_by_length_and_content() {
    assert!(same_bytes(&[], &[]));
    assert!(same_bytes(&[1, 2], &[1, 2]));
    assert!(!same_bytes(&[1, 2], &[1, 3]));
    assert!(!same_bytes(&[1, 2], &[1]));
}

#[test]
fn nanoseconds_round_trip() {
    let limit: u64 = 1 << 62;
    for nanos in [0, 1, 999_999_999, 1_000_000_000, limit - 1] {
        assert_eq!(Timestamp::from_nanos(nanos).unwrap().as_nanos(), nanos);
        assert_eq!(moq_net::Timestamp::from_nanos(nanos).unwrap().as_nanos(), nanos as u128);
    }
    assert_eq!(Timestamp::from_nanos(limit).unwrap_err(), "time overflow");
    assert!(moq_net::Timestamp::from_nanos(limit).is_err());
}

#[test]
fn microseconds_round_trip() {
    let limit: u64 = 1 << 62;
    for micros in [0, 1, 1_000_000, limit - 1] {
        let timestamp = Timestamp::from_micros(micros).unwrap();
        assert_eq!(timestamp.as_signed_micros(), micros as i64);
        assert_eq!(timestamp.as_micros(), micros as u128);
    }
    assert_eq!(Timestamp::from_micros(u64::MAX).unwrap_err(), "time overflow");
}

#[test]
fn times_are_rounded_down() {
    let timestamp = Timestamp::from_scale(1, 3).unwrap();
    assert_eq!(timestamp.as_nanos(), 333_333_333);
    assert_eq!(timestamp.as_micros(), 333_333);
    let timestamp = Timestamp::from_scale(90_000, 48_000).unwrap();
    assert_eq!(timestamp.as_nanos(), 1_875_000_000);
}

#[test]
fn times_beyond_64_bits_are_cut() {
    let ticks: u64 = (1 << 62) - 1;
    let timestamp = Timestamp::from_scale(ticks, 1).unwrap();
    let nanos = ticks as u128 * 1_000_000_000;
    assert_eq!(timestamp.as_nanos(), nanos as u64);
    let micros = ticks as u128 * 1_000_000;
    assert_eq!(timestamp.as_signed_micros(), micros as i64);
}

#[test]
fn scales_have_a_range() {
    assert!(Timestamp::from_scale(0, 0).is_none());
    assert!(Timestamp::from_scale(1 << 62, 1).is_none());
    assert!(Timestamp::from_scale(0, 1 << 62).is_none());
    let timestamp = Timestamp::from_scale(5, 7).unwrap();
    assert_eq!((timestamp.ticks(), timestamp.scale()), (5, 7));
}

#[test]
fn numbers_and_columns() {
    assert_eq!(decimal(0), "0");
    assert_eq!(decimal(10), "10");
    assert_eq!(decimal(u128::MAX), u128::MAX.to_string());
    assert_eq!(pad_left("42", 5), "   42");
    assert_eq!(pad_left("123456", 5), "123456");
    assert_eq!(joined("a", "b", "c"), "abc");
}

#[test]
fn catalog_report_lists_videos_then_audios() {
    let mut other = video_config(video_format(vec![]), CatalogContainer::Legacy);
    other.codec = CatalogVideoCodec::Other;
    let catalog = Catalog {
        videos: vec![
            ("hd".to_string(), video_config(video_format(vec![4]), CatalogContainer::Loc)),
            ("vp9".to_string(), other),
        ],
        audios: vec![("opus".to_string(), audio_config(opus_format(), CatalogContainer::Legacy))],
    };
    let (sent, result) = send_catalog(None, &"room".to_string(), &catalog, |_, message| {
        (Some(message), Ok(()))
    });
    assert!(result.is_ok());
    let message = sent.unwrap();
    assert_eq!(message.tag(), "moq_catalog");
    let (path, renditions) = match message {
        Message::Catalog { path, renditions } => (path, renditions),
        other => panic!("{other:?}"),
    };
    assert_eq!(path, "room");
    let names: Vec<&str> = renditions.iter().map(|(name, _)| name.as_str()).collect();
    assert_eq!(names, ["hd", "vp9", "opus"]);
    assert!(matches!(&renditions[0].1, RenditionFormat::Video(format) if format.description == [4]));
    assert!(matches!(renditions[1].1, RenditionFormat::Unrecognized));
    assert!(matches!(renditions[2].1, RenditionFormat::Audio(format) if format == opus_format()));
}

#[test]
fn frames_are_passed_on_in_nanoseconds() {
    let frame = Frame {
        timestamp: Timestamp::from_scale(3, 2).unwrap(),
        payload: vec![1, 2],
        keyframe: true,
    };
    let (sent, result) = ex_moq::messages::send_frame(None, 7, frame, |_, message| {
        (Some(message), Err(ex_moq::messages::PidDead))
    });
    assert!(result.is_err());
    assert!(matches!(
        sent,
        Some(Message::Frame { token: 7, payload, timestamp_ns: 1_500_000_000, keyframe: true })
            if payload == vec![1, 2]
    ));
}

#[test]
fn catalog_formats_go_by_suffix() {
    let found = |path: &str| find_broadcast(&path.to_string(), Some(1)).unwrap();
    assert_eq!(found("a.hang"), (1, CatalogFormat::Hang));
    assert_eq!(found("a.msf"), (1, CatalogFormat::Msf));
    assert_eq!(found("a.hang/b"), (1, CatalogFormat::Hang));
    assert_eq!(found(""), (1, CatalogFormat::Hang));
    assert!(find_broadcast::<u8>(&"a.hang".to_string(), None).is_err());
}

#[test]
fn entries_survive_being_built_by_hand() {
    let config = VideoConfig {
        codec: CatalogVideoCodec::H265(H265Codec::decode(h265_wire(4, 6)).unwrap()),
        description: None,
        coded_width: None,
        coded_height: None,
        framerate: None,
        optimize_for_latency: None,
        container: CatalogContainer::Legacy,
    };
    let format = VideoTrackFormat::from_config(&config).unwrap();
    assert_eq!(format.params.width, None);
    assert!(matches!(format.codec, VideoCodec::H265(codec) if codec.level_idc == 93));
    let config = AudioConfig {
        codec: CatalogAudioCodec::Aac(AacCodec { profile: 5 }),
        sample_rate: 24_000,
        channel_count: 1,
        description: None,
        container: CatalogContainer::Loc,
    };
    let format = AudioTrackFormat::from_config(&config).unwrap();
    assert_eq!(format.codec, AudioCodec::Aac(AacCodec { profile: 5 }));
}

#[test]
fn a_cmaf_init_with_one_track_is_accepted() {
    let init = opus_init();
    let container = CatalogContainer::Cmaf(init.clone());
    assert!(matches!(
        WireContainer::from_catalog(&container),
        Ok(WireContainer::Cmaf(read)) if read == init
    ));
    let cut = CatalogContainer::Cmaf(init[..init.len() / 2].to_vec());
    assert!(WireContainer::from_catalog(&cut).is_err());
}

const UNREADABLE: &str = "cmaf: init segment is too deep or too large to parse";

fn mp4_box(kind: &[u8], body: &[u8]) -> Vec<u8> {
    let mut bytes = (body.len() as u32 + 8).to_be_bytes().to_vec();
    bytes.extend_from_slice(kind);
    bytes.extend_from_slice(body);
    bytes
}

fn concat(parts: &[&[u8]]) -> Vec<u8> {
    parts.concat()
}

fn opus_init() -> Vec<u8> {
    let config = hang::catalog::AudioConfig::new(hang::catalog::AudioCodec::Opus, 48_000, 2);
    let muxer = moq_mux::container::fmp4::Muxer::audio(&config).ok().unwrap();
    muxer.init().ok().unwrap().unwrap().to_vec()
}

fn verdict(init: Vec<u8>) -> Option<String> {
    WireContainer::from_catalog(&CatalogContainer::Cmaf(init)).err()
}

fn parser_verdict(init: Vec<u8>) -> Option<String> {
    let stack = hang::catalog::Container::Cmaf { init: bytes::Bytes::from(init) };
    moq_mux::catalog::hang::Container::try_from(&stack).err().map(|e| e.to_string())
}

/// An item reference box whose only reference says that it has `len` bytes; it has 14.
fn references(len: u8) -> Vec<u8> {
    let reference = [0, 0, 0, len, b'c', b'd', b's', b'c', 0, 1, 0, 1, 0, 2];
    mp4_box(b"iref", &concat(&[&[0; 4], &reference]))
}

fn metadata(inner: &[u8]) -> Vec<u8> {
    let handler = mp4_box(b"hdlr", &[0; 25]);
    mp4_box(b"meta", &concat(&[&[0; 4], &handler, inner]))
}

#[test]
fn item_references_stay_within_their_box() {
    let fitting = references(14);
    assert_eq!(verdict(fitting.clone()), parser_verdict(fitting));
    let early = references(4);
    assert_eq!(verdict(early.clone()), parser_verdict(early));
    assert_eq!(verdict(references(15)).unwrap(), UNREADABLE);
    assert_eq!(verdict(mp4_box(b"moov", &references(15))).unwrap(), UNREADABLE);
    assert_eq!(verdict(metadata(&references(15))).unwrap(), UNREADABLE);
    assert_eq!(
        verdict(mp4_box(b"moov", &mp4_box(b"udta", &metadata(&references(15))))).unwrap(),
        UNREADABLE
    );
    // A box of 64 bits of size, and one that reaches to the end.
    let mut long = concat(&[&[0, 0, 0, 1], b"iref", &[0, 0, 0, 0, 0, 0, 0, 34]]);
    long.extend_from_slice(&references(15)[8..]);
    assert_eq!(verdict(long).unwrap(), UNREADABLE);
    let mut open = references(15);
    open[3] = 0;
    assert_eq!(verdict(open).unwrap(), UNREADABLE);
}

#[test]
fn what_the_parser_does_not_read_is_not_looked_at() {
    let bad = references(15);
    let init = opus_init();
    // Inside a box that is skipped, inside user data, and behind the first movie.
    for before in [mp4_box(b"free", &bad), mp4_box(b"xyzw", &bad), mp4_box(b"wave", &bad)] {
        assert_eq!(verdict(concat(&[&before, &init])), None);
    }
    assert_eq!(verdict(concat(&[&mp4_box(b"free", b"trun iloc sgpd esds"), &init])), None);
    assert_eq!(verdict(concat(&[&init, &bad])), None);
    let fragment = mp4_box(b"moof", &mp4_box(b"traf", &mp4_box(b"trun", &[0; 8])));
    assert_eq!(verdict(concat(&[&init, &fragment])), None);
    let user_data = mp4_box(b"moov", &mp4_box(b"udta", &bad));
    assert_eq!(verdict(user_data.clone()), parser_verdict(user_data));
}

#[test]
fn an_init_nests_boxes_up_to_a_limit() {
    let nested = |kind: &[u8], fields: &[u8], depth: u32| {
        (0..depth).fold(vec![], |inner: Vec<u8>, _| mp4_box(kind, &concat(&[fields, &inner])))
    };
    let version_1: Vec<u8> = (0..44).map(|i| (i == 9) as u8).collect();
    let version_2: Vec<u8> = (0..64).map(|i| 2 * (i == 9) as u8).collect();
    let rows: [(&[u8], &[u8]); 9] = [
        (b"moov", &[]),
        (b"trak", &[]),
        (b"stsd", &[0, 0, 0, 0, 0, 0, 0, 1]),
        (b"avc1", &[0; 78]),
        (b"mp4a", &[0; 28]),
        (b"mp4a", &version_1),
        (b"Opus", &version_2),
        (b"tx3g", &[0; 38]),
        (b"samr", &[0; 28]),
    ];
    for (kind, fields) in rows {
        let deepest = nested(kind, fields, NESTING_LIMIT);
        assert_eq!(verdict(deepest.clone()), parser_verdict(deepest));
        assert_eq!(verdict(nested(kind, fields, NESTING_LIMIT + 1)).unwrap(), UNREADABLE);
    }
    assert_eq!(verdict(nested(b"moov", &[], 100_000)).unwrap(), UNREADABLE);
    // Boxes side by side do not nest.
    let side_by_side = mp4_box(b"moov", &mp4_box(b"trak", &[]).repeat(100));
    assert_eq!(verdict(side_by_side.clone()), parser_verdict(side_by_side));
}

#[test]
fn descriptors_nest_up_to_a_limit() {
    let descriptors = |tag: u8, fields: usize, depth: u32| {
        let nested = (0..depth).fold(vec![], |inner: Vec<u8>, _| {
            let size = inner.len() + fields;
            let digit = |shift: usize| ((size >> shift) & 0x7f) as u8;
            let head = [tag, digit(14) | 0x80, digit(7) | 0x80, digit(0)];
            concat(&[&head, &vec![0; fields], &inner])
        });
        mp4_box(b"esds", &concat(&[&[0; 4], &nested]))
    };
    for (tag, fields) in [(3, 3), (4, 13)] {
        let deepest = descriptors(tag, fields, DESCRIPTOR_LIMIT);
        assert_eq!(verdict(deepest.clone()), parser_verdict(deepest));
        let deeper = descriptors(tag, fields, DESCRIPTOR_LIMIT + 1);
        assert_eq!(verdict(deeper.clone()).unwrap(), UNREADABLE);
        let wave = mp4_box(b"wave", &deeper);
        let entry = mp4_box(b"mp4a", &concat(&[&[0; 28], &wave]));
        assert_eq!(verdict(entry).unwrap(), UNREADABLE);
        let elsewhere = mp4_box(b"Opus", &concat(&[&[0; 28], &wave]));
        assert_eq!(verdict(elsewhere.clone()), parser_verdict(elsewhere));
    }
}

#[test]
fn announced_entries_without_bytes_have_a_limit() {
    let limit = (ENTRY_LIMIT as u32).to_be_bytes();
    let over = (ENTRY_LIMIT as u32 + 1).to_be_bytes();
    for (version, defaults) in [(0, 0), (1, 4), (2, 8), (3, 8)] {
        let groups = |kind: &[u8], default: u8, entries: &[u8]| {
            let body = concat(&[&[version, 0, 0, 0], kind, &vec![default; defaults], entries]);
            mp4_box(b"sgpd", &body)
        };
        assert!(is_readable(&groups(b"roll", 1, &limit)));
        assert!(!is_readable(&groups(b"roll", 1, &over)));
        // Each entry has bytes of its own.
        assert!(is_readable(&groups(b"refs", 1, &over)));
        assert_eq!(is_readable(&groups(b"roll", 0, &over)), version > 0);
        let two = concat(&[&groups(b"roll", 1, &limit), &groups(b"roll", 1, &[0, 0, 0, 1])]);
        assert!(!is_readable(&two));
    }
    let many = mp4_box(b"sgpd", &concat(&[&[0; 4], b"roll", &[0, 1, 0, 0]]));
    assert_eq!(verdict(many.clone()), parser_verdict(many));
    // Sixteen items of 65535 extents are within the limit, seventeen are not.
    for (version, item) in [(0, 6), (1, 8), (2, 10)] {
        let locations = |items: u8| {
            let entry = concat(&[&vec![0; item - 2], &[0xff, 0xff]]);
            let count: &[u8] = if version == 2 { &[0, 0, 0, items] } else { &[0, items] };
            let head = [version, 0, 0, 0, 0, 0];
            mp4_box(b"iloc", &concat(&[&head, count, &entry.repeat(items as usize)]))
        };
        assert!(is_readable(&locations(16)));
        assert!(!is_readable(&locations(17)));
        let mut with_offsets = locations(17);
        with_offsets[12] = 0x40;
        assert!(is_readable(&with_offsets));
    }
    let run = |flags: u8, samples: u16| {
        let count = (samples as u32).to_be_bytes();
        mp4_box(b"trun", &concat(&[&[0, 0, flags, 0], &count]))
    };
    assert!(is_readable(&run(0, 4096).repeat(256)));
    assert!(!is_readable(&run(0, 4096).repeat(257)));
    assert!(is_readable(&run(1, 4096).repeat(257)));
    assert!(is_readable(&run(0, 4097).repeat(257)));
}
