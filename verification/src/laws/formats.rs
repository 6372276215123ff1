//! Formats, catalog entries and containers.

use vstd::prelude::*;

use crate::cmaf::is_readable;
use crate::membrane::track_format as membrane;
use crate::stack::{audio_specific_config, cmaf_init_fault};
use crate::track_format::{
    audio_config, audio_config_with, video_config, wire_container_with, AudioCodec, AudioConfig,
    AudioTrackFormat, CatalogAudioCodec, CatalogContainer, CatalogVideoCodec, Container,
    ResolvedConfig, TrackFormat, TrackKind, UnrecognizedFormat, VideoCodec, VideoConfig,
    VideoTrackFormat, WireContainer,
};
use crate::web_codecs::{
    copied, same_bytes, BadArg, FlagsError, Framerate, H265Codec, H265CodecWire, OpusCodec,
};

verus! {

/// Whether two catalog entries name the same container, a CMAF one with the same init segment.
pub open spec fn same_container(a: CatalogContainer, b: CatalogContainer) -> bool {
    match (a, b) {
        (CatalogContainer::Legacy, CatalogContainer::Legacy) => true,
        (CatalogContainer::Loc, CatalogContainer::Loc) => true,
        (CatalogContainer::Cmaf(a), CatalogContainer::Cmaf(b)) => a@ == b@,
        (CatalogContainer::Unknown(None), CatalogContainer::Unknown(None)) => true,
        (CatalogContainer::Unknown(Some(a)), CatalogContainer::Unknown(Some(b))) => a@ == b@,
        _ => false,
    }
}

/// Whether frames are read or written in the container that a catalog entry names.
pub open spec fn is_wire_of(wire: WireContainer, named: CatalogContainer) -> bool {
    match (wire, named) {
        (WireContainer::Legacy, CatalogContainer::Legacy) => true,
        (WireContainer::Loc, CatalogContainer::Loc) => true,
        (WireContainer::Cmaf(a), CatalogContainer::Cmaf(b)) => a@ == b@,
        _ => false,
    }
}

/// Whether a catalog entry names the container that a track is published in.
pub open spec fn names_container(named: CatalogContainer, container: Container) -> bool {
    match container {
        Container::Legacy => named is Legacy,
        Container::Loc => named is Loc,
    }
}

/// Whether two sets of H.265 parameters are the same.
pub open spec fn same_h265(a: H265Codec, b: H265Codec) -> bool {
    &&& a.in_band == b.in_band
    &&& a.profile_space == b.profile_space
    &&& a.profile_idc == b.profile_idc
    &&& a.profile_compatibility_flags@ == b.profile_compatibility_flags@
    &&& a.tier_flag == b.tier_flag
    &&& a.level_idc == b.level_idc
    &&& a.constraint_flags@ == b.constraint_flags@
}

/// Whether exchanged H.265 parameters are those of a codec.
pub open spec fn exchanges_h265(a: H265CodecWire, b: H265Codec) -> bool {
    &&& a.in_band == b.in_band
    &&& a.profile_space == b.profile_space
    &&& a.profile_idc == b.profile_idc
    &&& a.profile_compatibility_flags@ == b.profile_compatibility_flags@
    &&& a.tier_flag == b.tier_flag
    &&& a.level_idc == b.level_idc
    &&& a.constraint_flags@ == b.constraint_flags@
}

/// Whether two sets of exchanged H.265 parameters are the same.
pub open spec fn same_exchange(a: H265CodecWire, b: H265CodecWire) -> bool {
    &&& a.in_band == b.in_band
    &&& a.profile_space == b.profile_space
    &&& a.profile_idc == b.profile_idc
    &&& a.profile_compatibility_flags@ == b.profile_compatibility_flags@
    &&& a.tier_flag == b.tier_flag
    &&& a.level_idc == b.level_idc
    &&& a.constraint_flags@ == b.constraint_flags@
}

/// Whether an optional description holds the bytes, and is left out where there are none.
pub open spec fn describes(description: Option<Vec<u8>>, bytes: Seq<u8>) -> bool {
    match description {
        None => bytes.len() == 0,
        Some(description) => description@ == bytes && bytes.len() > 0,
    }
}

/// Whether a video entry says of a track what its format says, but for the container.
pub open spec fn advertises_video(entry: VideoConfig, format: VideoTrackFormat) -> bool {
    &&& match (entry.codec, format.codec) {
        (CatalogVideoCodec::H264(a), VideoCodec::H264(b)) => a == b,
        (CatalogVideoCodec::H265(a), VideoCodec::H265(b)) => same_h265(a, b),
        _ => false,
    }
    &&& describes(entry.description, format.description@)
    &&& entry.coded_width == format.params.width
    &&& entry.coded_height == format.params.height
    &&& entry.framerate == format.params.framerate
    &&& entry.optimize_for_latency == Some(true)
}

/// Whether an audio entry says of a track what its format says, but for the container: an AAC
/// entry is described by the AudioSpecificConfig of the profile, the rate and the channels that
/// it advertises itself.
pub open spec fn advertises_audio(entry: AudioConfig, format: AudioTrackFormat) -> bool {
    &&& entry.sample_rate == format.params.sample_rate
    &&& entry.channel_count == format.params.channels
    &&& match (entry.codec, format.codec) {
        (CatalogAudioCodec::Aac(a), AudioCodec::Aac(b)) => {
            &&& a.profile == b.profile
            &&& entry.description matches Some(asc)
            &&& asc@ == audio_specific_config(a.profile, entry.sample_rate, entry.channel_count)
        },
        (CatalogAudioCodec::Opus, AudioCodec::Opus(_)) => entry.description is None,
        _ => false,
    }
}

/// Whether a video format is what a catalog entry says.
pub open spec fn read_from_video(format: VideoTrackFormat, entry: VideoConfig) -> bool {
    &&& match (entry.codec, format.codec) {
        (CatalogVideoCodec::H264(a), VideoCodec::H264(b)) => a == b,
        (CatalogVideoCodec::H265(a), VideoCodec::H265(b)) => same_h265(a, b),
        _ => false,
    }
    &&& match entry.description {
        Some(description) => format.description@ == description@,
        None => format.description@.len() == 0,
    }
    &&& format.params.width == entry.coded_width
    &&& format.params.height == entry.coded_height
    &&& format.params.framerate == entry.framerate
}

/// Whether an audio format is what a catalog entry says.
pub open spec fn read_from_audio(format: AudioTrackFormat, entry: AudioConfig) -> bool {
    &&& format.params.sample_rate == entry.sample_rate
    &&& format.params.channels == entry.channel_count
    &&& match (entry.codec, format.codec) {
        (CatalogAudioCodec::Aac(a), AudioCodec::Aac(b)) => a.profile == b.profile,
        (CatalogAudioCodec::Opus, AudioCodec::Opus(_)) => true,
        _ => false,
    }
}

/// The entry that is written of a video track says what its format says, in its container.
pub proof fn law_video_entry_says_the_format(
    format: VideoTrackFormat,
    container: CatalogContainer,
    entry: VideoConfig,
)
    requires
        call_ensures(video_config, (format, container), entry),
    ensures
        advertises_video(entry, format),
        same_container(entry.container, container),
{
}

/// The entry that is written of an audio track says what its format says, in its container.
pub proof fn law_audio_entry_says_the_format(
    format: AudioTrackFormat,
    container: CatalogContainer,
    entry: AudioConfig,
)
    requires
        call_ensures(audio_config, (format, container), entry),
    ensures
        advertises_audio(entry, format),
        same_container(entry.container, container),
{
}

/// With an AudioSpecificConfig given, an AAC entry is described by it, and all else is the same.
pub proof fn law_given_description_describes_aac(
    format: AudioTrackFormat,
    container: CatalogContainer,
    asc: Option<Vec<u8>>,
    entry: AudioConfig,
)
    requires
        call_ensures(audio_config_with, (format, container, asc), entry),
    ensures
        read_from_audio(format, entry),
        same_container(entry.container, container),
        format.codec is Opus ==> entry.description is None,
        format.codec is Aac ==> match (asc, entry.description) {
            (Some(a), Some(b)) => a@ == b@,
            (None, None) => true,
            _ => false,
        },
{
}

/// The entry of a track is one of its kind, and says what its format says.
pub proof fn law_entry_says_the_format(
    format: TrackFormat,
    container: CatalogContainer,
    entry: ResolvedConfig,
)
    requires
        call_ensures(ResolvedConfig::new, (format, container), entry),
    ensures
        match (format, entry) {
            (TrackFormat::Video(format), ResolvedConfig::Video(entry)) => {
                &&& advertises_video(entry, format)
                &&& same_container(entry.container, container)
            },
            (TrackFormat::Audio(format), ResolvedConfig::Audio(entry)) => {
                &&& advertises_audio(entry, format)
                &&& same_container(entry.container, container)
            },
            _ => false,
        },
{
}

/// An entry is of the kind that it holds.
pub proof fn law_entry_kind(entry: ResolvedConfig, kind: TrackKind)
    requires
        call_ensures(ResolvedConfig::kind, (&entry,), kind),
    ensures
        kind is Video <==> entry is Video,
        kind is Audio <==> entry is Audio,
{
}

/// A video entry is read as what it says, unless its codec is not one that is published.
pub proof fn law_video_format_is_what_the_entry_says(
    entry: VideoConfig,
    r: Result<VideoTrackFormat, UnrecognizedFormat>,
)
    requires
        call_ensures(VideoTrackFormat::from_config, (&entry,), r),
    ensures
        match r {
            Ok(format) => read_from_video(format, entry),
            Err(_) => entry.codec is Other,
        },
{
}

/// An audio entry is read as what it says, unless its codec is not one that is published.
pub proof fn law_audio_format_is_what_the_entry_says(
    entry: AudioConfig,
    r: Result<AudioTrackFormat, UnrecognizedFormat>,
)
    requires
        call_ensures(AudioTrackFormat::from_config, (&entry,), r),
    ensures
        match r {
            Ok(format) => read_from_audio(format, entry),
            Err(_) => entry.codec is Other,
        },
{
}

/// Reading the entry that was written of a track gives its format back.
pub proof fn law_written_entry_is_read_back(
    video: VideoTrackFormat,
    audio: AudioTrackFormat,
    container: CatalogContainer,
    video_entry: VideoConfig,
    audio_entry: AudioConfig,
    read_video: Result<VideoTrackFormat, UnrecognizedFormat>,
    read_audio: Result<AudioTrackFormat, UnrecognizedFormat>,
)
    requires
        call_ensures(video_config, (video, container), video_entry),
        call_ensures(audio_config, (audio, container), audio_entry),
        call_ensures(VideoTrackFormat::from_config, (&video_entry,), read_video),
        call_ensures(AudioTrackFormat::from_config, (&audio_entry,), read_audio),
    ensures
        read_video matches Ok(format) && format.params == video.params && format.description@
            == video.description@ && match (format.codec, video.codec) {
            (VideoCodec::H264(a), VideoCodec::H264(b)) => a == b,
            (VideoCodec::H265(a), VideoCodec::H265(b)) => same_h265(a, b),
            _ => false,
        },
        read_audio == Ok::<AudioTrackFormat, UnrecognizedFormat>(audio),
{
    if video.description@.len() == 0 {
        assert(video.description@ =~= Seq::<u8>::empty());
    }
}

/// A copy of a container is the container.
pub proof fn law_copied_container_is_the_same(
    container: CatalogContainer,
    copy: CatalogContainer,
    wire: WireContainer,
    wire_copy: WireContainer,
)
    requires
        call_ensures(CatalogContainer::duplicate, (&container,), copy),
        call_ensures(WireContainer::duplicate, (&wire,), wire_copy),
    ensures
        same_container(copy, container),
        match (wire, wire_copy) {
            (WireContainer::Legacy, WireContainer::Legacy) => true,
            (WireContainer::Loc, WireContainer::Loc) => true,
            (WireContainer::Cmaf(a), WireContainer::Cmaf(b)) => a@ == b@,
            _ => false,
        },
{
}

/// Frames are read in the container that the catalog names; one of an unknown kind is refused by
/// name, and a CMAF one for the fault that its parser found.
pub proof fn law_frames_are_read_in_the_named_container(
    container: CatalogContainer,
    fault: Option<String>,
    r: Result<WireContainer, String>,
)
    requires
        call_ensures(wire_container_with, (&container, fault), r),
    ensures
        r matches Ok(wire) ==> is_wire_of(wire, container),
        r is Ok <==> (container is Legacy || container is Loc || (container is Cmaf
            && fault is None)),
        r matches Err(e) ==> match container {
            CatalogContainer::Cmaf(_) => fault == Some(e),
            CatalogContainer::Unknown(Some(kind)) => e@ == "unsupported container: "@ + kind@,
            CatalogContainer::Unknown(None) => e@ == "unsupported container: "@ + "<missing>"@,
            _ => false,
        },
{
}

/// Frames are read in the container that the catalog names. Of a CMAF init segment that the
/// parser gets through, the parser's verdict decides.
pub proof fn law_catalog_container_is_read(
    container: CatalogContainer,
    r: Result<WireContainer, String>,
)
    requires
        call_ensures(WireContainer::from_catalog, (&container,), r),
    ensures
        r matches Ok(wire) ==> is_wire_of(wire, container),
        container is Legacy || container is Loc ==> r is Ok,
        container matches CatalogContainer::Unknown(kind) ==> (r matches Err(e) && e@
            == "unsupported container: "@ + (match kind {
            Some(kind) => kind@,
            None => "<missing>"@,
        })),
        container matches CatalogContainer::Cmaf(init) ==> {
            &&& call_ensures(is_readable, (&init,), true) ==> match r {
                Ok(_) => cmaf_init_fault(init@) is None,
                Err(e) => cmaf_init_fault(init@) == Some(e@),
            }
            &&& call_ensures(is_readable, (&init,), false) ==> (r matches Err(e) && e@
                == "cmaf: init segment is too deep or too large to parse"@)
        },
{
}

/// A track is published and advertised in the container that was asked for.
pub proof fn law_published_container_keeps_its_name(container: Container)
    ensures
        names_container(
            <CatalogContainer as vstd::std_specs::convert::FromSpec<Container>>::from_spec(
                container,
            ),
            container,
        ),
        match container {
            Container::Legacy => <WireContainer as vstd::std_specs::convert::FromSpec<
                Container,
            >>::from_spec(container) is Legacy,
            Container::Loc => <WireContainer as vstd::std_specs::convert::FromSpec<
                Container,
            >>::from_spec(container) is Loc,
        },
{
}

/// Exchanged H.265 parameters are read as they are; only flags of another length than four and
/// six bytes are refused, for the compatibility flags first.
pub proof fn law_exchanged_h265_is_read(wire: H265CodecWire, r: Result<H265Codec, FlagsError>)
    requires
        call_ensures(H265Codec::decode, (wire,), r),
    ensures
        match r {
            Ok(codec) => exchanges_h265(wire, codec),
            Err(FlagsError::ProfileCompatibility) => wire.profile_compatibility_flags@.len() != 4,
            Err(FlagsError::Constraint) => wire.profile_compatibility_flags@.len() == 4
                && wire.constraint_flags@.len() != 6,
        },
{
}

/// H.265 parameters are exchanged as they are.
pub proof fn law_h265_is_exchanged(codec: H265Codec, wire: H265CodecWire, copy: H265CodecWire)
    requires
        call_ensures(H265Codec::encode, (&codec,), wire),
        call_ensures(H265CodecWire::duplicate, (&wire,), copy),
    ensures
        exchanges_h265(wire, codec),
        same_exchange(copy, wire),
{
}

/// Two sets of exchanged H.265 parameters are told apart by any field.
pub proof fn law_exchanged_h265_is_compared(a: H265CodecWire, b: H265CodecWire, r: bool)
    requires
        call_ensures(H265CodecWire::same, (&a, &b), r),
    ensures
        r <==> same_exchange(a, b),
{
}

/// The refusal of flags in words.
pub proof fn law_flags_refusal(fault: FlagsError, r: String)
    requires
        call_ensures(FlagsError::message, (fault,), r),
    ensures
        fault is ProfileCompatibility ==> r@
            == "profile_compatibility_flags must be exactly 4 bytes"@,
        fault is Constraint ==> r@ == "constraint_flags must be exactly 6 bytes"@,
{
}

/// Opus goes by its name, and no other name is read as Opus.
pub proof fn law_opus_goes_by_its_name(
    codec: OpusCodec,
    name: String,
    atom: String,
    r: Result<OpusCodec, BadArg>,
)
    requires
        call_ensures(OpusCodec::encode, (&codec,), name),
        call_ensures(OpusCodec::decode, (&atom,), r),
    ensures
        name@ == "opus"@,
        r is Ok <==> atom@ == name@,
{
}

/// Frame rates are the same if they are the same number: none that is not a number is, both zeros
/// are, and of all others the bits decide.
pub proof fn law_frame_rates_compare_as_numbers(
    a: Framerate,
    b: Framerate,
    r: bool,
    zero: Framerate,
)
    requires
        call_ensures(Framerate::same_rate, (a, b), r),
        call_ensures(Framerate::zero, (), zero),
    ensures
        zero.bits == 0,
        r <==> same_rates(a, b),
{
}

/// Copies hold the same bytes, and bytes are compared one by one.
pub proof fn law_bytes_are_copied_and_compared(a: &[u8], b: &[u8], copy: Vec<u8>, same: bool)
    requires
        call_ensures(copied, (a,), copy),
        call_ensures(same_bytes, (a, b), same),
    ensures
        copy@ == a@,
        same <==> a@ == b@,
{
}

/// Whether a catalog entry advertises a track of a sink: in the legacy container, with the size
/// and the rate that its format gives.
pub open spec fn advertises_sink_video(
    entry: VideoConfig,
    params: membrane::VideoTrackParams,
    description: Seq<u8>,
) -> bool {
    &&& entry.coded_width == Some(params.width)
    &&& entry.coded_height == Some(params.height)
    &&& entry.framerate == Some(params.framerate)
    &&& entry.optimize_for_latency == Some(true)
    &&& entry.container is Legacy
    &&& describes(entry.description, description)
}

/// Whether an entry is the one that a sink publishes a track of the given format with.
pub open spec fn resolves_to(format: membrane::TrackFormat, entry: ResolvedConfig) -> bool {
    match (format, entry) {
        (
            membrane::TrackFormat::H264 { params, description, codec },
            ResolvedConfig::Video(entry),
        ) => {
            &&& advertises_sink_video(entry, params, description@)
            &&& entry.codec == CatalogVideoCodec::H264(codec)
        },
        (
            membrane::TrackFormat::H265 { params, description, codec },
            ResolvedConfig::Video(entry),
        ) => {
            &&& advertises_sink_video(entry, params, description@)
            &&& entry.codec matches CatalogVideoCodec::H265(published)
            &&& exchanges_h265(codec, published)
        },
        (membrane::TrackFormat::Aac { params, codec }, ResolvedConfig::Audio(entry)) => {
            &&& entry.sample_rate == params.sample_rate
            &&& entry.channel_count == params.channels
            &&& entry.codec == CatalogAudioCodec::Aac(codec)
            &&& entry.description is None
            &&& entry.container is Legacy
        },
        (membrane::TrackFormat::Opus { params }, ResolvedConfig::Audio(entry)) => {
            &&& entry.sample_rate == params.sample_rate
            &&& entry.channel_count == params.channels
            &&& entry.codec == CatalogAudioCodec::Opus
            &&& entry.description is None
            &&& entry.container is Legacy
        },
        _ => false,
    }
}

/// Why a sink cannot publish a format, or `None` if it can.
pub open spec fn sink_refusal(format: membrane::TrackFormat) -> Option<Seq<char>> {
    match format {
        membrane::TrackFormat::Unrecognized => Some(
            "cannot publish an unrecognized track format"@,
        ),
        membrane::TrackFormat::H265 { codec, .. } => {
            if codec.profile_compatibility_flags@.len() != 4 {
                Some("profile_compatibility_flags must be exactly 4 bytes"@)
            } else if codec.constraint_flags@.len() != 6 {
                Some("constraint_flags must be exactly 6 bytes"@)
            } else {
                None
            }
        },
        _ => None,
    }
}

/// A sink publishes every format that it recognizes, with an entry that says what the format says.
pub proof fn law_sink_entry_says_the_format(
    format: membrane::TrackFormat,
    r: Result<ResolvedConfig, String>,
)
    requires
        call_ensures(membrane::TrackFormat::resolve, (format,), r),
    ensures
        match r {
            Ok(entry) => sink_refusal(format) is None && resolves_to(format, entry),
            Err(e) => sink_refusal(format) == Some(e@),
        },
{
}

/// The entries of the four codecs of a sink, each on its own.
pub proof fn law_sink_entries_by_codec(
    params: membrane::VideoTrackParams,
    dcr: Vec<u8>,
    h264: crate::web_codecs::H264Codec,
    h265: H265CodecWire,
    profile: u8,
    sample_rate: u32,
    channels: u32,
    h264_entry: VideoConfig,
    h265_entry: Result<VideoConfig, String>,
    aac_entry: AudioConfig,
    opus_entry: AudioConfig,
)
    requires
        call_ensures(membrane::h264_video_config, (params, dcr, h264), h264_entry),
        call_ensures(membrane::h265_video_config, (params, dcr, h265), h265_entry),
        call_ensures(membrane::aac_audio_config, (profile, sample_rate, channels), aac_entry),
        call_ensures(membrane::opus_audio_config, (sample_rate, channels), opus_entry),
    ensures
        advertises_sink_video(h264_entry, params, dcr@),
        h264_entry.codec == CatalogVideoCodec::H264(h264),
        match h265_entry {
            Ok(entry) => {
                &&& advertises_sink_video(entry, params, dcr@)
                &&& entry.codec matches CatalogVideoCodec::H265(codec)
                &&& exchanges_h265(h265, codec)
            },
            Err(e) => sink_refusal(
                membrane::TrackFormat::H265 { params, description: dcr, codec: h265 },
            ) == Some(e@),
        },
        aac_entry.codec matches CatalogAudioCodec::Aac(codec) && codec.profile == profile,
        aac_entry.sample_rate == sample_rate,
        aac_entry.channel_count == channels,
        aac_entry.description is None,
        aac_entry.container is Legacy,
        opus_entry.codec is Opus,
        opus_entry.sample_rate == sample_rate,
        opus_entry.channel_count == channels,
        opus_entry.description is None,
        opus_entry.container is Legacy,
{
}

/// Whether the parameters of a source's track are what a video entry of the catalog says; zero
/// stands for what it leaves open.
pub open spec fn params_of_video(params: membrane::TrackParams, entry: VideoConfig) -> bool {
    match params {
        membrane::TrackParams::Unrecognized => entry.codec is Other,
        membrane::TrackParams::Video { params, description, codec } => {
            &&& params.width == (match entry.coded_width {
                Some(width) => width,
                None => 0,
            })
            &&& params.height == (match entry.coded_height {
                Some(height) => height,
                None => 0,
            })
            &&& match entry.framerate {
                Some(rate) => params.framerate == rate,
                None => params.framerate.bits == 0,
            }
            &&& match entry.description {
                Some(bytes) => description@ == bytes@,
                None => description@.len() == 0,
            }
            &&& match (codec, entry.codec) {
                (membrane::VideoCodecParams::H264(a), CatalogVideoCodec::H264(b)) => a == b,
                (
                    membrane::VideoCodecParams::H265(a),
                    CatalogVideoCodec::H265(b),
                ) => exchanges_h265(a, b),
                _ => false,
            }
        },
        membrane::TrackParams::Audio { .. } => false,
    }
}

/// Whether the parameters of a source's track are what an audio entry of the catalog says.
pub open spec fn params_of_audio(params: membrane::TrackParams, entry: AudioConfig) -> bool {
    match params {
        membrane::TrackParams::Unrecognized => entry.codec is Other,
        membrane::TrackParams::Audio { params, codec } => {
            &&& params.sample_rate == entry.sample_rate
            &&& params.channels == entry.channel_count
            &&& match (codec, entry.codec) {
                (membrane::AudioCodecParams::Aac(a), CatalogAudioCodec::Aac(b)) => a.profile
                    == b.profile,
                (membrane::AudioCodecParams::Opus, CatalogAudioCodec::Opus) => true,
                _ => false,
            }
        },
        membrane::TrackParams::Video { .. } => false,
    }
}

/// Whether a format tells the parameters of a track.
pub open spec fn format_tells(
    format: membrane::TrackFormat,
    params: membrane::TrackParams,
) -> bool {
    match (format, params) {
        (
            membrane::TrackFormat::H264 { params: p, description: d, codec: c },
            membrane::TrackParams::Video {
                params: q,
                description: e,
                codec: membrane::VideoCodecParams::H264(f),
            },
        ) => p == q && d@ == e@ && c == f,
        (
            membrane::TrackFormat::H265 { params: p, description: d, codec: c },
            membrane::TrackParams::Video {
                params: q,
                description: e,
                codec: membrane::VideoCodecParams::H265(f),
            },
        ) => p == q && d@ == e@ && same_exchange(c, f),
        (
            membrane::TrackFormat::Aac { params: p, codec: c },
            membrane::TrackParams::Audio {
                params: q,
                codec: membrane::AudioCodecParams::Aac(d),
            },
        ) => p == q && c == d,
        (
            membrane::TrackFormat::Opus { params: p },
            membrane::TrackParams::Audio { params: q, codec: membrane::AudioCodecParams::Opus },
        ) => p == q,
        (membrane::TrackFormat::Unrecognized, membrane::TrackParams::Unrecognized) => true,
        _ => false,
    }
}

/// A source reads what the catalog says, and tells what it read.
pub proof fn law_source_tells_what_the_catalog_says(
    video: VideoConfig,
    audio: AudioConfig,
    video_read: membrane::TrackParams,
    audio_read: membrane::TrackParams,
    params: membrane::TrackParams,
    format: membrane::TrackFormat,
)
    requires
        call_ensures(membrane::video_params, (&video,), video_read),
        call_ensures(membrane::audio_params, (&audio,), audio_read),
        call_ensures(membrane::encode_format, (&params,), format),
    ensures
        params_of_video(video_read, video),
        params_of_audio(audio_read, audio),
        format_tells(format, params),
{
}

/// A source tells the format that a sink published a track with.
pub proof fn law_source_tells_what_the_sink_published(
    format: membrane::TrackFormat,
    entry: ResolvedConfig,
    read: membrane::TrackParams,
    told: membrane::TrackFormat,
)
    requires
        call_ensures(membrane::TrackFormat::resolve, (format,), Ok(entry)),
        match entry {
            ResolvedConfig::Video(config) => call_ensures(
                membrane::video_params,
                (&config,),
                read,
            ),
            ResolvedConfig::Audio(config) => call_ensures(
                membrane::audio_params,
                (&config,),
                read,
            ),
        },
        call_ensures(membrane::encode_format, (&read,), told),
    ensures
        match (format, told) {
            (
                membrane::TrackFormat::H264 { params: p, description: d, codec: c },
                membrane::TrackFormat::H264 { params: q, description: e, codec: f },
            ) => p == q && d@ == e@ && c == f,
            (
                membrane::TrackFormat::H265 { params: p, description: d, codec: c },
                membrane::TrackFormat::H265 { params: q, description: e, codec: f },
            ) => p == q && d@ == e@ && same_exchange(c, f),
            (
                membrane::TrackFormat::Aac { params: p, codec: c },
                membrane::TrackFormat::Aac { params: q, codec: d },
            ) => p == q && c == d,
            (
                membrane::TrackFormat::Opus { params: p },
                membrane::TrackFormat::Opus { params: q },
            ) => p == q,
            _ => false,
        },
{
    match format {
        membrane::TrackFormat::H264 { params, description, codec } => {
            if description@.len() == 0 {
                assert(description@ =~= Seq::<u8>::empty());
            }
        },
        membrane::TrackFormat::H265 { params, description, codec } => {
            if description@.len() == 0 {
                assert(description@ =~= Seq::<u8>::empty());
            }
        },
        _ => {},
    }
}

/// Whether two frame rates are the same number.
pub open spec fn same_rates(a: Framerate, b: Framerate) -> bool {
    let m = a.bits as int % 0x8000_0000_0000_0000;
    let n = b.bits as int % 0x8000_0000_0000_0000;
    &&& m <= 0x7ff0_0000_0000_0000
    &&& n <= 0x7ff0_0000_0000_0000
    &&& a.bits == b.bits || (m == 0 && n == 0)
}

/// Whether two sets of parameters are the same, part by part.
pub open spec fn same_params(a: membrane::TrackParams, b: membrane::TrackParams) -> bool {
    match (a, b) {
        (
            membrane::TrackParams::Video { params: p, description: d, codec: c },
            membrane::TrackParams::Video { params: q, description: e, codec: f },
        ) => {
            &&& p.width == q.width
            &&& p.height == q.height
            &&& same_rates(p.framerate, q.framerate)
            &&& d@ == e@
            &&& match (c, f) {
                (
                    membrane::VideoCodecParams::H264(c),
                    membrane::VideoCodecParams::H264(f),
                ) => c == f,
                (
                    membrane::VideoCodecParams::H265(c),
                    membrane::VideoCodecParams::H265(f),
                ) => same_exchange(c, f),
                _ => false,
            }
        },
        (
            membrane::TrackParams::Audio { params: p, codec: c },
            membrane::TrackParams::Audio { params: q, codec: d },
        ) => p == q && c == d,
        (membrane::TrackParams::Unrecognized, membrane::TrackParams::Unrecognized) => true,
        _ => false,
    }
}

/// Two sets of parameters are compared part by part, frame rates as numbers.
pub proof fn law_params_are_compared_by_every_part(
    a: membrane::TrackParams,
    b: membrane::TrackParams,
    r: bool,
)
    requires
        call_ensures(membrane::TrackParams::same, (&a, &b), r),
    ensures
        r <==> same_params(a, b),
{
}

} // verus!
