//! Track formats of the sink and the source.
//!
//! A format names the codec, and carries concrete values where the catalog leaves them
//! optional: a picture size or a frame rate of zero stands for an unknown one.

use vstd::prelude::*;

use crate::track_format::{
    bytes_of, AudioConfig, AudioConfigView, CatalogAudioCodec, CatalogContainer, CatalogVideoCodec,
    ContainerView, EntryView, ResolvedConfig, VideoCodecView, VideoConfig, VideoConfigView,
};
use crate::web_codecs::{
    copied, flags_verdict, same_bytes, AacCodec, AudioTrackParams, Framerate, H264Codec, H265Codec,
    H265CodecWire,
};

verus! {

/// Picture size and frame rate; zero where unknown.
#[derive(Clone, Copy, Debug)]
pub struct VideoTrackParams {
    pub width: u32,
    pub height: u32,
    pub framerate: Framerate,
}

/// The format of a track, as a process exchanges it.
#[derive(Debug)]
pub enum TrackFormat {
    H264 { params: VideoTrackParams, description: Vec<u8>, codec: H264Codec },
    H265 { params: VideoTrackParams, description: Vec<u8>, codec: H265CodecWire },
    Aac { params: AudioTrackParams, codec: AacCodec },
    Opus { params: AudioTrackParams },
    Unrecognized,
}

/// The parameters of a video codec.
#[derive(Debug)]
pub enum VideoCodecParams {
    H264(H264Codec),
    H265(H265CodecWire),
}

/// The parameters of an audio codec.
#[derive(Clone, Copy, Debug, PartialEq, Eq, Structural)]
pub enum AudioCodecParams {
    Aac(AacCodec),
    Opus,
}

/// The parameters of an advertised track.
#[derive(Debug)]
pub enum TrackParams {
    Video {
        params: VideoTrackParams,
        /// The decoder configuration record; empty where it travels in the stream.
        description: Vec<u8>,
        codec: VideoCodecParams,
    },
    Audio { params: AudioTrackParams, codec: AudioCodecParams },
    /// A track in a codec that no Membrane format stands for.
    Unrecognized,
}

/// What a format, or the parameters of a track, say.
pub enum ParamsView {
    Video { params: VideoTrackParams, description: Seq<u8>, codec: VideoCodecView },
    Audio { audio: AudioTrackParams, audio_codec: AudioCodecParams },
    Unrecognized,
}

impl View for TrackFormat {
    type V = ParamsView;

    open spec fn view(&self) -> ParamsView {
        match self {
            TrackFormat::H264 { params, description, codec } => ParamsView::Video {
                params: *params,
                description: description@,
                codec: VideoCodecView::H264(*codec),
            },
            TrackFormat::H265 { params, description, codec } => ParamsView::Video {
                params: *params,
                description: description@,
                codec: VideoCodecView::H265(codec@),
            },
            TrackFormat::Aac { params, codec } => ParamsView::Audio {
                audio: *params,
                audio_codec: AudioCodecParams::Aac(*codec),
            },
            TrackFormat::Opus { params } => ParamsView::Audio {
                audio: *params,
                audio_codec: AudioCodecParams::Opus,
            },
            TrackFormat::Unrecognized => ParamsView::Unrecognized,
        }
    }
}

impl View for VideoCodecParams {
    type V = VideoCodecView;

    open spec fn view(&self) -> VideoCodecView {
        match self {
            VideoCodecParams::H264(codec) => VideoCodecView::H264(*codec),
            VideoCodecParams::H265(codec) => VideoCodecView::H265(codec@),
        }
    }
}

impl View for TrackParams {
    type V = ParamsView;

    open spec fn view(&self) -> ParamsView {
        match self {
            TrackParams::Video { params, description, codec } => ParamsView::Video {
                params: *params,
                description: description@,
                codec: codec@,
            },
            TrackParams::Audio { params, codec } => ParamsView::Audio {
                audio: *params,
                audio_codec: *codec,
            },
            TrackParams::Unrecognized => ParamsView::Unrecognized,
        }
    }
}

/// The catalog entry of a video track: in the legacy container, latency first, an empty
/// description left out.
pub open spec fn video_entry_of(
    params: VideoTrackParams,
    description: Seq<u8>,
    codec: VideoCodecView,
) -> VideoConfigView {
    VideoConfigView {
        codec,
        description: if description.len() == 0 {
            None
        } else {
            Some(description)
        },
        coded_width: Some(params.width),
        coded_height: Some(params.height),
        framerate: Some(params.framerate),
        optimize_for_latency: Some(true),
        container: ContainerView::Legacy,
    }
}

/// The catalog entry of an audio track: in the legacy container, without a description.
pub open spec fn audio_entry_of(
    params: AudioTrackParams,
    codec: AudioCodecParams,
) -> AudioConfigView {
    AudioConfigView {
        codec: match codec {
            AudioCodecParams::Aac(codec) => CatalogAudioCodec::Aac(codec),
            AudioCodecParams::Opus => CatalogAudioCodec::Opus,
        },
        sample_rate: params.sample_rate,
        channel_count: params.channels,
        description: None,
        container: ContainerView::Legacy,
    }
}

/// The catalog entry of a track with the given format, or why it cannot be published.
pub open spec fn resolved(format: ParamsView) -> Result<EntryView, Seq<char>> {
    match format {
        ParamsView::Video { params, description, codec } => match codec {
            VideoCodecView::H265(h265) if flags_verdict(h265) is Some => Err(
                flags_verdict(h265)->0.reason(),
            ),
            _ => Ok(EntryView::Video(video_entry_of(params, description, codec))),
        },
        ParamsView::Audio { audio, audio_codec } => Ok(
            EntryView::Audio(audio_entry_of(audio, audio_codec)),
        ),
        ParamsView::Unrecognized => Err("cannot publish an unrecognized track format"@),
    }
}

/// A value, or zero where there is none.
pub open spec fn or_zero(value: Option<u32>) -> u32 {
    match value {
        Some(value) => value,
        None => 0,
    }
}

/// The parameters that a video entry of the catalog advertises.
pub open spec fn video_params_of(config: VideoConfigView) -> ParamsView {
    if config.codec is Other {
        ParamsView::Unrecognized
    } else {
        ParamsView::Video {
            params: VideoTrackParams {
                width: or_zero(config.coded_width),
                height: or_zero(config.coded_height),
                framerate: match config.framerate {
                    Some(framerate) => framerate,
                    None => Framerate::spec_zero(),
                },
            },
            description: match config.description {
                Some(description) => description,
                None => Seq::empty(),
            },
            codec: config.codec,
        }
    }
}

/// The parameters that an audio entry of the catalog advertises.
pub open spec fn audio_params_of(config: AudioConfigView) -> ParamsView {
    let audio = AudioTrackParams {
        sample_rate: config.sample_rate,
        channels: config.channel_count,
    };
    match config.codec {
        CatalogAudioCodec::Aac(codec) => ParamsView::Audio {
            audio,
            audio_codec: AudioCodecParams::Aac(codec),
        },
        CatalogAudioCodec::Opus => ParamsView::Audio {
            audio,
            audio_codec: AudioCodecParams::Opus,
        },
        CatalogAudioCodec::Other => ParamsView::Unrecognized,
    }
}

/// Whether two sets of parameters are equal; frame rates compare as numbers.
pub open spec fn params_equal(a: ParamsView, b: ParamsView) -> bool {
    match (a, b) {
        (
            ParamsView::Video { params: p, description: d, codec: c },
            ParamsView::Video { params: q, description: e, codec: f },
        ) => {
            &&& p.width == q.width
            &&& p.height == q.height
            &&& p.framerate.equals(q.framerate)
            &&& d == e
            &&& c == f
        },
        (
            ParamsView::Audio { audio: p, audio_codec: c },
            ParamsView::Audio { audio: q, audio_codec: d },
        ) => p == q && c == d,
        (ParamsView::Unrecognized, ParamsView::Unrecognized) => true,
        _ => false,
    }
}

fn create_video_config(
    codec: CatalogVideoCodec,
    params: VideoTrackParams,
    description: Option<Vec<u8>>,
) -> (r: VideoConfig)
    ensures
        r@ == (VideoConfigView {
            codec: codec@,
            description: bytes_of(description),
            coded_width: Some(params.width),
            coded_height: Some(params.height),
            framerate: Some(params.framerate),
            optimize_for_latency: Some(true),
            container: ContainerView::Legacy,
        }),
{
    VideoConfig {
        codec,
        description,
        coded_width: Some(params.width),
        coded_height: Some(params.height),
        framerate: Some(params.framerate),
        optimize_for_latency: Some(true),
        container: CatalogContainer::Legacy,
    }
}

fn create_audio_config(codec: CatalogAudioCodec, sample_rate: u32, channel_count: u32) -> (r:
    AudioConfig)
    ensures
        r@ == (AudioConfigView {
            codec,
            sample_rate,
            channel_count,
            description: None,
            container: ContainerView::Legacy,
        }),
{
    AudioConfig {
        codec,
        sample_rate,
        channel_count,
        description: None,
        container: CatalogContainer::Legacy,
    }
}

/// Writes the catalog entry of an H.264 track.
pub fn h264_video_config(params: VideoTrackParams, dcr: Vec<u8>, codec: H264Codec) -> (r:
    VideoConfig)
    ensures
        r@ == video_entry_of(params, dcr@, VideoCodecView::H264(codec)),
{
    let description = if dcr.len() == 0 {
        None
    } else {
        Some(dcr)
    };
    create_video_config(CatalogVideoCodec::H264(codec), params, description)
}

/// Writes the catalog entry of an H.265 track. Flags of the wrong length are refused.
pub fn h265_video_config(params: VideoTrackParams, dcr: Vec<u8>, codec: H265CodecWire) -> (r:
    Result<VideoConfig, String>)
    ensures
        match flags_verdict(codec@) {
            None => r matches Ok(config) && config@ == video_entry_of(
                params,
                dcr@,
                VideoCodecView::H265(codec@),
            ),
            Some(fault) => r matches Err(e) && e@ == fault.reason(),
        },
{
    let codec = match H265Codec::decode(codec) {
        Ok(codec) => codec,
        Err(fault) => return Err(fault.message()),
    };
    let description = if dcr.len() == 0 {
        None
    } else {
        Some(dcr)
    };
    Ok(create_video_config(CatalogVideoCodec::H265(codec), params, description))
}

/// Writes the catalog entry of an AAC track.
pub fn aac_audio_config(profile: u8, sample_rate: u32, channels: u32) -> (r: AudioConfig)
    ensures
        r@ == audio_entry_of(
            AudioTrackParams { sample_rate, channels },
            AudioCodecParams::Aac(AacCodec { profile }),
        ),
{
    create_audio_config(CatalogAudioCodec::Aac(AacCodec { profile }), sample_rate, channels)
}

/// Writes the catalog entry of an Opus track.
pub fn opus_audio_config(sample_rate: u32, channels: u32) -> (r: AudioConfig)
    ensures
        r@ == audio_entry_of(AudioTrackParams { sample_rate, channels }, AudioCodecParams::Opus),
{
    create_audio_config(CatalogAudioCodec::Opus, sample_rate, channels)
}

impl TrackFormat {
    /// Writes the catalog entry of a track with this format.
    pub fn resolve(self) -> (r: Result<ResolvedConfig, String>)
        ensures
            match resolved(self@) {
                Ok(entry) => r matches Ok(config) && config@ == entry,
                Err(reason) => r matches Err(e) && e@ == reason,
            },
    {
        let config = match self {
            TrackFormat::H264 { params, description, codec } => ResolvedConfig::Video(
                h264_video_config(params, description, codec),
            ),
            TrackFormat::H265 { params, description, codec } => match h265_video_config(
                params,
                description,
                codec,
            ) {
                Ok(config) => ResolvedConfig::Video(config),
                Err(e) => return Err(e),
            },
            TrackFormat::Aac { params, codec } => ResolvedConfig::Audio(
                aac_audio_config(codec.profile, params.sample_rate, params.channels),
            ),
            TrackFormat::Opus { params } => ResolvedConfig::Audio(
                opus_audio_config(params.sample_rate, params.channels),
            ),
            TrackFormat::Unrecognized => {
                return Err("cannot publish an unrecognized track format".to_owned());
            },
        };
        Ok(config)
    }
}

/// Reads the parameters that a video entry of the catalog advertises.
pub fn video_params(config: &VideoConfig) -> (r: TrackParams)
    ensures
        r@ == video_params_of(config@),
{
    let codec = match &config.codec {
        CatalogVideoCodec::H264(codec) => VideoCodecParams::H264(*codec),
        CatalogVideoCodec::H265(codec) => VideoCodecParams::H265(codec.encode()),
        CatalogVideoCodec::Other => return TrackParams::Unrecognized,
    };
    let width: u32 = match config.coded_width {
        Some(width) => width,
        None => 0,
    };
    let height: u32 = match config.coded_height {
        Some(height) => height,
        None => 0,
    };
    let framerate = match config.framerate {
        Some(framerate) => framerate,
        None => Framerate::zero(),
    };
    let description = match &config.description {
        Some(description) => copied(description.as_slice()),
        None => Vec::new(),
    };
    let r = TrackParams::Video {
        params: VideoTrackParams { width, height, framerate },
        description,
        codec,
    };
    assert(r@->description =~= video_params_of(config@)->description);
    r
}

/// Reads the parameters that an audio entry of the catalog advertises.
pub fn audio_params(config: &AudioConfig) -> (r: TrackParams)
    ensures
        r@ == audio_params_of(config@),
{
    let codec = match config.codec {
        CatalogAudioCodec::Aac(codec) => AudioCodecParams::Aac(codec),
        CatalogAudioCodec::Opus => AudioCodecParams::Opus,
        CatalogAudioCodec::Other => return TrackParams::Unrecognized,
    };
    TrackParams::Audio {
        params: AudioTrackParams {
            sample_rate: config.sample_rate,
            channels: config.channel_count,
        },
        codec,
    }
}

/// Writes the parameters of a track as a format, the shape in which the sink reads them.
pub fn encode_format(params: &TrackParams) -> (r: TrackFormat)
    ensures
        r@ == params@,
{
    match params {
        TrackParams::Video { params, description, codec } => {
            let description = copied(description.as_slice());
            match codec {
                VideoCodecParams::H264(codec) => TrackFormat::H264 {
                    params: *params,
                    description,
                    codec: *codec,
                },
                VideoCodecParams::H265(codec) => TrackFormat::H265 {
                    params: *params,
                    description,
                    codec: codec.duplicate(),
                },
            }
        },
        TrackParams::Audio { params, codec } => match codec {
            AudioCodecParams::Aac(codec) => TrackFormat::Aac { params: *params, codec: *codec },
            AudioCodecParams::Opus => TrackFormat::Opus { params: *params },
        },
        TrackParams::Unrecognized => TrackFormat::Unrecognized,
    }
}

impl TrackParams {
    /// Whether two sets of parameters are equal.
    pub fn same(&self, other: &TrackParams) -> (r: bool)
        ensures
            r == params_equal(self@, other@),
    {
        match (self, other) {
            (
                TrackParams::Video { params: p, description: d, codec: c },
                TrackParams::Video { params: q, description: e, codec: f },
            ) => {
                let codecs = match (c, f) {
                    (VideoCodecParams::H264(c), VideoCodecParams::H264(f)) => *c == *f,
                    (VideoCodecParams::H265(c), VideoCodecParams::H265(f)) => c.same(f),
                    _ => false,
                };
                p.width == q.width && p.height == q.height && p.framerate.same_rate(q.framerate)
                    && same_bytes(d.as_slice(), e.as_slice()) && codecs
            },
            (
                TrackParams::Audio { params: p, codec: c },
                TrackParams::Audio { params: q, codec: d },
            ) => *p == *q && *c == *d,
            (TrackParams::Unrecognized, TrackParams::Unrecognized) => true,
            _ => false,
        }
    }
}

/// Reading the parameters undoes writing the catalog entry: the source sees the format that the
/// sink published.
pub proof fn law_params_invert_resolve(format: TrackFormat)
    ensures
        match resolved(format@) {
            Ok(EntryView::Video(config)) => video_params_of(config) == format@,
            Ok(EntryView::Audio(config)) => audio_params_of(config) == format@,
            Err(_) => true,
        },
{
    match format@ {
        ParamsView::Video { params, description, codec } => {
            if description.len() == 0 {
                assert(description =~= Seq::<u8>::empty());
            }
        },
        _ => {},
    }
}

/// What the source reads from a catalog can be published again, unless its codec is unknown.
pub proof fn law_received_format_can_be_published(video: VideoConfig, audio: AudioConfig)
    ensures
        resolved(video_params_of(video@)) is Err <==> video.codec is Other,
        resolved(audio_params_of(audio@)) is Err <==> audio.codec is Other,
{
    if let CatalogVideoCodec::H265(codec) = video.codec {
        assert(codec@.profile_compatibility_flags.len() == 4);
        assert(codec@.constraint_flags.len() == 6);
    }
}

/// Parameters are equal to themselves, unless their frame rate is no number.
pub proof fn law_params_equal_reflexive(params: ParamsView)
    requires
        params matches ParamsView::Video { params: p, .. } ==> !p.framerate.is_nan(),
    ensures
        params_equal(params, params),
{
}

} // verus!
