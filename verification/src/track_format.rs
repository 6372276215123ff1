//! Track formats, and the catalog entries that advertise them.

use vstd::prelude::*;

use crate::cmaf::{init_fault, is_readable};
use crate::stack::{audio_specific_config, check_cmaf_init, encode_aac_config, standard_rate};
use crate::web_codecs::{
    copied, AacCodec, AudioTrackParams, Framerate, H264Codec, H265Codec, H265View, OpusCodec,
    VideoTrackParams,
};

verus! {

/// The containers a track can be published in.
#[derive(Clone, Copy, Debug, PartialEq, Eq, Structural)]
pub enum Container {
    Legacy,
    Loc,
}

/// The container that a catalog entry names.
#[derive(Debug)]
pub enum CatalogContainer {
    Legacy,
    /// Fragmented MP4, with its init segment.
    Cmaf(Vec<u8>),
    Loc,
    /// A container of another kind; the kind is missing where the entry names none.
    Unknown(Option<String>),
}

/// The container that frames are written to and read from.
#[derive(Debug)]
pub enum WireContainer {
    Legacy,
    /// Fragmented MP4, with an init segment that describes one track.
    Cmaf(Vec<u8>),
    Loc,
}

/// What a catalog container says.
pub enum ContainerView {
    Legacy,
    Cmaf(Seq<u8>),
    Loc,
    Unknown(Option<Seq<char>>),
}

impl View for CatalogContainer {
    type V = ContainerView;

    open spec fn view(&self) -> ContainerView {
        match self {
            CatalogContainer::Legacy => ContainerView::Legacy,
            CatalogContainer::Cmaf(init) => ContainerView::Cmaf(init@),
            CatalogContainer::Loc => ContainerView::Loc,
            CatalogContainer::Unknown(None) => ContainerView::Unknown(None),
            CatalogContainer::Unknown(Some(kind)) => ContainerView::Unknown(Some(kind@)),
        }
    }
}

impl View for WireContainer {
    type V = ContainerView;

    open spec fn view(&self) -> ContainerView {
        match self {
            WireContainer::Legacy => ContainerView::Legacy,
            WireContainer::Cmaf(init) => ContainerView::Cmaf(init@),
            WireContainer::Loc => ContainerView::Loc,
        }
    }
}

impl Container {
    /// The catalog container of the same name.
    pub open spec fn as_catalog(self) -> ContainerView {
        match self {
            Container::Legacy => ContainerView::Legacy,
            Container::Loc => ContainerView::Loc,
        }
    }

    /// The wire container of the same name.
    pub open spec fn on_wire(self) -> WireContainer {
        match self {
            Container::Legacy => WireContainer::Legacy,
            Container::Loc => WireContainer::Loc,
        }
    }
}

impl From<Container> for CatalogContainer {
    /// Names the container in a catalog entry.
    fn from(container: Container) -> (r: Self) {
        match container {
            Container::Legacy => CatalogContainer::Legacy,
            Container::Loc => CatalogContainer::Loc,
        }
    }
}

impl vstd::std_specs::convert::FromSpecImpl<Container> for CatalogContainer {
    open spec fn obeys_from_spec() -> bool {
        true
    }

    open spec fn from_spec(container: Container) -> Self {
        match container {
            Container::Legacy => CatalogContainer::Legacy,
            Container::Loc => CatalogContainer::Loc,
        }
    }
}

impl From<Container> for WireContainer {
    /// Takes the container for the wire.
    fn from(container: Container) -> (r: Self) {
        match container {
            Container::Legacy => WireContainer::Legacy,
            Container::Loc => WireContainer::Loc,
        }
    }
}

impl vstd::std_specs::convert::FromSpecImpl<Container> for WireContainer {
    open spec fn obeys_from_spec() -> bool {
        true
    }

    open spec fn from_spec(container: Container) -> Self {
        container.on_wire()
    }
}

/// Why frames in a catalog container cannot be read, or `None` if they can.
pub open spec fn container_fault(c: ContainerView) -> Option<Seq<char>> {
    match c {
        ContainerView::Legacy | ContainerView::Loc => None,
        ContainerView::Cmaf(init) => init_fault(init),
        ContainerView::Unknown(Some(kind)) => Some("unsupported container: "@ + kind),
        ContainerView::Unknown(None) => Some("unsupported container: "@ + "<missing>"@),
    }
}

/// The container to read frames with, given what the init segment's parser answered.
///
/// `fault` counts for a CMAF container only.
pub fn wire_container_with(container: &CatalogContainer, fault: Option<String>) -> (r: Result<
    WireContainer,
    String,
>)
    ensures
        match container@ {
            ContainerView::Cmaf(_) => match fault {
                None => r matches Ok(wire) && wire@ == container@,
                Some(e) => r == Err::<WireContainer, String>(e),
            },
            _ => match container_fault(container@) {
                None => r matches Ok(wire) && wire@ == container@,
                Some(reason) => r matches Err(e) && e@ == reason,
            },
        },
{
    match container {
        CatalogContainer::Legacy => Ok(WireContainer::Legacy),
        CatalogContainer::Cmaf(init) => match fault {
            None => Ok(WireContainer::Cmaf(copied(init.as_slice()))),
            Some(e) => Err(e),
        },
        CatalogContainer::Loc => Ok(WireContainer::Loc),
        CatalogContainer::Unknown(kind) => {
            let mut e = "unsupported container: ".to_owned();
            match kind {
                Some(kind) => e.append(kind.as_str()),
                None => e.append("<missing>"),
            }
            Err(e)
        },
    }
}

impl WireContainer {
    /// The container to read frames with. A CMAF init segment has to describe one track;
    /// a container of unknown kind is refused.
    pub fn from_catalog(container: &CatalogContainer) -> (r: Result<Self, String>)
        ensures
            match container_fault(container@) {
                None => r matches Ok(wire) && wire@ == container@,
                Some(reason) => r matches Err(e) && e@ == reason,
            },
    {
        let fault = match container {
            CatalogContainer::Cmaf(init) => if is_readable(init) {
                check_cmaf_init(init)
            } else {
                Some("cmaf: init segment is too deep or too large to parse".to_owned())
            },
            _ => None,
        };
        wire_container_with(container, fault)
    }
    /// A copy of this container.
    pub fn duplicate(&self) -> (r: Self)
        ensures
            r@ == self@,
    {
        match self {
            WireContainer::Legacy => WireContainer::Legacy,
            WireContainer::Cmaf(init) => WireContainer::Cmaf(copied(init.as_slice())),
            WireContainer::Loc => WireContainer::Loc,
        }
    }
}

impl CatalogContainer {
    /// A copy of this container.
    pub fn duplicate(&self) -> (r: Self)
        ensures
            r@ == self@,
    {
        match self {
            CatalogContainer::Legacy => CatalogContainer::Legacy,
            CatalogContainer::Cmaf(init) => CatalogContainer::Cmaf(copied(init.as_slice())),
            CatalogContainer::Loc => CatalogContainer::Loc,
            CatalogContainer::Unknown(None) => CatalogContainer::Unknown(None),
            CatalogContainer::Unknown(Some(kind)) => CatalogContainer::Unknown(Some(kind.clone())),
        }
    }
}

/// The video codecs that tracks are published in.
#[derive(Clone, Copy, Debug)]
pub enum VideoCodec {
    H264(H264Codec),
    H265(H265Codec),
}

/// The video codec of a catalog entry.
#[derive(Clone, Copy, Debug)]
pub enum CatalogVideoCodec {
    H264(H264Codec),
    H265(H265Codec),
    /// Any codec that tracks are not published in.
    Other,
}

/// What a video codec says.
pub enum VideoCodecView {
    H264(H264Codec),
    H265(H265View),
    Other,
}

impl View for VideoCodec {
    type V = VideoCodecView;

    open spec fn view(&self) -> VideoCodecView {
        match self {
            VideoCodec::H264(codec) => VideoCodecView::H264(*codec),
            VideoCodec::H265(codec) => VideoCodecView::H265(codec@),
        }
    }
}

impl View for CatalogVideoCodec {
    type V = VideoCodecView;

    open spec fn view(&self) -> VideoCodecView {
        match self {
            CatalogVideoCodec::H264(codec) => VideoCodecView::H264(*codec),
            CatalogVideoCodec::H265(codec) => VideoCodecView::H265(codec@),
            CatalogVideoCodec::Other => VideoCodecView::Other,
        }
    }
}

/// The audio codecs that tracks are published in.
#[derive(Clone, Copy, Debug, PartialEq, Eq, Structural)]
pub enum AudioCodec {
    Aac(AacCodec),
    Opus(OpusCodec),
}

/// The audio codec of a catalog entry.
#[derive(Clone, Copy, Debug, PartialEq, Eq, Structural)]
pub enum CatalogAudioCodec {
    Aac(AacCodec),
    Opus,
    /// Any codec that tracks are not published in.
    Other,
}

/// A video entry of the catalog.
#[derive(Debug)]
pub struct VideoConfig {
    pub codec: CatalogVideoCodec,
    /// The decoder configuration record; missing where it travels in the stream.
    pub description: Option<Vec<u8>>,
    pub coded_width: Option<u32>,
    pub coded_height: Option<u32>,
    pub framerate: Option<Framerate>,
    pub optimize_for_latency: Option<bool>,
    pub container: CatalogContainer,
}

/// What a video entry says.
pub struct VideoConfigView {
    pub codec: VideoCodecView,
    pub description: Option<Seq<u8>>,
    pub coded_width: Option<u32>,
    pub coded_height: Option<u32>,
    pub framerate: Option<Framerate>,
    pub optimize_for_latency: Option<bool>,
    pub container: ContainerView,
}

/// The bytes of an optional description.
pub open spec fn bytes_of(description: Option<Vec<u8>>) -> Option<Seq<u8>> {
    match description {
        Some(bytes) => Some(bytes@),
        None => None,
    }
}

impl View for VideoConfig {
    type V = VideoConfigView;

    open spec fn view(&self) -> VideoConfigView {
        VideoConfigView {
            codec: self.codec@,
            description: bytes_of(self.description),
            coded_width: self.coded_width,
            coded_height: self.coded_height,
            framerate: self.framerate,
            optimize_for_latency: self.optimize_for_latency,
            container: self.container@,
        }
    }
}

/// An audio entry of the catalog.
#[derive(Debug)]
pub struct AudioConfig {
    pub codec: CatalogAudioCodec,
    pub sample_rate: u32,
    pub channel_count: u32,
    /// Out-of-band data that the decoder is set up with.
    pub description: Option<Vec<u8>>,
    pub container: CatalogContainer,
}

/// What an audio entry says.
pub struct AudioConfigView {
    pub codec: CatalogAudioCodec,
    pub sample_rate: u32,
    pub channel_count: u32,
    pub description: Option<Seq<u8>>,
    pub container: ContainerView,
}

impl View for AudioConfig {
    type V = AudioConfigView;

    open spec fn view(&self) -> AudioConfigView {
        AudioConfigView {
            codec: self.codec,
            sample_rate: self.sample_rate,
            channel_count: self.channel_count,
            description: bytes_of(self.description),
            container: self.container@,
        }
    }
}

/// A catalog entry in a codec that tracks are not published in.
#[derive(Clone, Copy, Debug, PartialEq, Eq, Structural)]
pub struct UnrecognizedFormat;

/// The format of a video track. The description is empty where parameter sets travel in
/// the stream.
#[derive(Debug)]
pub struct VideoTrackFormat {
    pub params: VideoTrackParams,
    pub description: Vec<u8>,
    pub codec: VideoCodec,
}

/// What a video format says.
pub struct VideoFormatView {
    pub params: VideoTrackParams,
    pub description: Seq<u8>,
    pub codec: VideoCodecView,
}

impl View for VideoTrackFormat {
    type V = VideoFormatView;

    open spec fn view(&self) -> VideoFormatView {
        VideoFormatView {
            params: self.params,
            description: self.description@,
            codec: self.codec@,
        }
    }
}

/// The format of an audio track.
#[derive(Clone, Copy, Debug, PartialEq, Eq, Structural)]
pub struct AudioTrackFormat {
    pub params: AudioTrackParams,
    pub codec: AudioCodec,
}

/// The video format that a catalog entry advertises, if its codec is one of those published.
pub open spec fn video_format(config: VideoConfigView) -> Option<VideoFormatView> {
    if config.codec is Other {
        None
    } else {
        Some(
            VideoFormatView {
                params: VideoTrackParams {
                    width: config.coded_width,
                    height: config.coded_height,
                    framerate: config.framerate,
                },
                description: match config.description {
                    Some(bytes) => bytes,
                    None => Seq::empty(),
                },
                codec: config.codec,
            },
        )
    }
}

/// The catalog entry of a video track: latency comes first, and an empty description is left out.
pub open spec fn video_entry(format: VideoFormatView, container: ContainerView) -> VideoConfigView {
    VideoConfigView {
        codec: format.codec,
        description: if format.description.len() == 0 {
            None
        } else {
            Some(format.description)
        },
        coded_width: format.params.width,
        coded_height: format.params.height,
        framerate: format.params.framerate,
        optimize_for_latency: Some(true),
        container,
    }
}

/// The audio format that a catalog entry advertises, if its codec is one of those published.
pub open spec fn audio_format(config: AudioConfigView) -> Option<AudioTrackFormat> {
    let params = AudioTrackParams {
        sample_rate: config.sample_rate,
        channels: config.channel_count,
    };
    match config.codec {
        CatalogAudioCodec::Aac(codec) => Some(
            AudioTrackFormat { params, codec: AudioCodec::Aac(codec) },
        ),
        CatalogAudioCodec::Opus => Some(
            AudioTrackFormat { params, codec: AudioCodec::Opus(OpusCodec) },
        ),
        CatalogAudioCodec::Other => None,
    }
}

/// The catalog entry of an audio track. Frames carry raw AAC, so an AAC entry always
/// describes itself by its AudioSpecificConfig; an Opus entry has no description.
pub open spec fn audio_entry(
    format: AudioTrackFormat,
    container: ContainerView,
) -> AudioConfigView {
    AudioConfigView {
        codec: match format.codec {
            AudioCodec::Aac(codec) => CatalogAudioCodec::Aac(codec),
            AudioCodec::Opus(_) => CatalogAudioCodec::Opus,
        },
        sample_rate: format.params.sample_rate,
        channel_count: format.params.channels,
        description: match format.codec {
            AudioCodec::Aac(codec) => Some(
                audio_specific_config(
                    codec.profile,
                    format.params.sample_rate,
                    format.params.channels,
                ),
            ),
            AudioCodec::Opus(_) => None,
        },
        container,
    }
}

impl VideoTrackFormat {
    /// Reads the format that a catalog entry advertises.
    pub fn from_config(config: &VideoConfig) -> (r: Result<Self, UnrecognizedFormat>)
        ensures
            match r {
                Ok(format) => video_format(config@) == Some(format@),
                Err(_) => video_format(config@) is None,
            },
    {
        let codec = match config.codec {
            CatalogVideoCodec::H264(codec) => VideoCodec::H264(codec),
            CatalogVideoCodec::H265(codec) => VideoCodec::H265(codec),
            CatalogVideoCodec::Other => return Err(UnrecognizedFormat),
        };
        let description = match &config.description {
            Some(bytes) => copied(bytes.as_slice()),
            None => Vec::new(),
        };
        let format = VideoTrackFormat {
            params: VideoTrackParams {
                width: config.coded_width,
                height: config.coded_height,
                framerate: config.framerate,
            },
            description,
            codec,
        };
        assert(format.description@ =~= video_format(config@)->0.description);
        Ok(format)
    }
}

/// Writes the catalog entry of a video track.
pub fn video_config(format: VideoTrackFormat, container: CatalogContainer) -> (r: VideoConfig)
    ensures
        r@ == video_entry(format@, container@),
{
    let codec = match format.codec {
        VideoCodec::H264(codec) => CatalogVideoCodec::H264(codec),
        VideoCodec::H265(codec) => CatalogVideoCodec::H265(codec),
    };
    let description = if format.description.len() == 0 {
        None
    } else {
        Some(format.description)
    };
    VideoConfig {
        codec,
        description,
        coded_width: format.params.width,
        coded_height: format.params.height,
        framerate: format.params.framerate,
        optimize_for_latency: Some(true),
        container,
    }
}

impl AudioTrackFormat {
    /// Reads the format that a catalog entry advertises.
    pub fn from_config(config: &AudioConfig) -> (r: Result<Self, UnrecognizedFormat>)
        ensures
            match r {
                Ok(format) => audio_format(config@) == Some(format),
                Err(_) => audio_format(config@) is None,
            },
    {
        let codec = match config.codec {
            CatalogAudioCodec::Aac(codec) => AudioCodec::Aac(codec),
            CatalogAudioCodec::Opus => AudioCodec::Opus(OpusCodec),
            CatalogAudioCodec::Other => return Err(UnrecognizedFormat),
        };
        Ok(
            AudioTrackFormat {
                params: AudioTrackParams {
                    sample_rate: config.sample_rate,
                    channels: config.channel_count,
                },
                codec,
            },
        )
    }
}

/// Writes the catalog entry of an audio track, given the AudioSpecificConfig of an AAC track.
///
/// `asc` counts for AAC only.
pub fn audio_config_with(
    format: AudioTrackFormat,
    container: CatalogContainer,
    asc: Option<Vec<u8>>,
) -> (r: AudioConfig)
    ensures
        r@ == (AudioConfigView {
            description: match format.codec {
                AudioCodec::Aac(_) => bytes_of(asc),
                AudioCodec::Opus(_) => None,
            },
            ..audio_entry(format, container@)
        }),
{
    match format.codec {
        AudioCodec::Aac(codec) => AudioConfig {
            codec: CatalogAudioCodec::Aac(codec),
            sample_rate: format.params.sample_rate,
            channel_count: format.params.channels,
            description: asc,
            container,
        },
        AudioCodec::Opus(_) => AudioConfig {
            codec: CatalogAudioCodec::Opus,
            sample_rate: format.params.sample_rate,
            channel_count: format.params.channels,
            description: None,
            container,
        },
    }
}

/// Writes the catalog entry of an audio track.
pub fn audio_config(format: AudioTrackFormat, container: CatalogContainer) -> (r: AudioConfig)
    ensures
        r@ == audio_entry(format, container@),
        format.codec is Aac ==> (r@.description matches Some(asc) && asc.len() == (
        if standard_rate(format.params.sample_rate) {
            2nat
        } else {
            5nat
        })),
{
    let asc = match format.codec {
        AudioCodec::Aac(codec) => Some(
            encode_aac_config(codec.profile, format.params.sample_rate, format.params.channels),
        ),
        AudioCodec::Opus(_) => None,
    };
    audio_config_with(format, container, asc)
}

/// The format of a track.
#[derive(Debug)]
pub enum TrackFormat {
    Video(VideoTrackFormat),
    Audio(AudioTrackFormat),
}

/// The catalog entry of a track.
#[derive(Debug)]
pub enum ResolvedConfig {
    Video(VideoConfig),
    Audio(AudioConfig),
}

/// Whether a track carries pictures or sound.
#[derive(Clone, Copy, Debug, PartialEq, Eq, Structural)]
pub enum TrackKind {
    Video,
    Audio,
}

/// What a catalog entry says.
pub enum EntryView {
    Video(VideoConfigView),
    Audio(AudioConfigView),
}

impl View for ResolvedConfig {
    type V = EntryView;

    open spec fn view(&self) -> EntryView {
        match self {
            ResolvedConfig::Video(config) => EntryView::Video(config@),
            ResolvedConfig::Audio(config) => EntryView::Audio(config@),
        }
    }
}

impl TrackFormat {
    /// The kind of the track.
    pub open spec fn kind(self) -> TrackKind {
        match self {
            TrackFormat::Video(_) => TrackKind::Video,
            TrackFormat::Audio(_) => TrackKind::Audio,
        }
    }

    /// The catalog entry of the track.
    pub open spec fn entry(self, container: ContainerView) -> EntryView {
        match self {
            TrackFormat::Video(format) => EntryView::Video(video_entry(format@, container)),
            TrackFormat::Audio(format) => EntryView::Audio(audio_entry(format, container)),
        }
    }
}

impl ResolvedConfig {
    /// The kind of the track.
    pub open spec fn of_kind(self) -> TrackKind {
        match self {
            ResolvedConfig::Video(_) => TrackKind::Video,
            ResolvedConfig::Audio(_) => TrackKind::Audio,
        }
    }

    /// Writes the catalog entry of a track.
    pub fn new(format: TrackFormat, container: CatalogContainer) -> (r: Self)
        ensures
            r@ == format.entry(container@),
    {
        match format {
            TrackFormat::Video(format) => ResolvedConfig::Video(video_config(format, container)),
            TrackFormat::Audio(format) => ResolvedConfig::Audio(audio_config(format, container)),
        }
    }

    /// The kind of the track.
    pub fn kind(&self) -> (r: TrackKind)
        ensures
            r == self.of_kind(),
    {
        match self {
            ResolvedConfig::Video(_) => TrackKind::Video,
            ResolvedConfig::Audio(_) => TrackKind::Audio,
        }
    }
}

/// What a subscriber reads from the entry of a published video track is the format it was
/// published with.
pub proof fn law_video_round_trip(format: VideoTrackFormat, container: ContainerView)
    ensures
        video_format(video_entry(format@, container)) == Some(format@),
{
    if format.description@.len() == 0 {
        assert(format.description@ =~= Seq::<u8>::empty());
    }
}

/// What a subscriber reads from the entry of a published audio track is the format it was
/// published with.
pub proof fn law_audio_round_trip(format: AudioTrackFormat, container: ContainerView)
    ensures
        audio_format(audio_entry(format, container)) == Some(format),
{
}

/// Frames of a track that was published in `container` can be read, and in that container.
pub proof fn law_published_container_is_readable(container: Container)
    ensures
        container_fault(container.as_catalog()) is None,
        container.on_wire()@ == container.as_catalog(),
{
}

} // verus!
