//! Calls into the MoQ stack and its neighbours that only compute.
//!
//! Each function below hands plain values to one function of another crate and
//! plain values back. What its contract says of that function is taken on trust.

use vstd::prelude::*;

use crate::cmaf::readable;

verus! {

/// The AudioSpecificConfig of an AAC stream, as `moq_mux` encodes it.
pub uninterp spec fn audio_specific_config(
    profile: u8,
    sample_rate: u32,
    channels: u32,
) -> Seq<u8>;

/// What the parser finds wrong with a CMAF init segment, or `None` if it describes one track.
pub uninterp spec fn cmaf_init_fault(init: Seq<u8>) -> Option<Seq<char>>;

/// What the URL parser makes of a text: the normalised URL, or the reason of its refusal.
pub uninterp spec fn url_verdict(text: Seq<char>) -> Result<Seq<char>, Seq<char>>;

/// How many ticks a timestamp can count: one more than the largest QUIC variable-length integer.
pub const TICK_LIMIT: u64 = 0x4000_0000_0000_0000;

/// Which catalog a broadcast publishes.
#[derive(Clone, Copy, Debug, PartialEq, Eq, Structural)]
pub enum CatalogFormat {
    /// The hang catalog.
    Hang,
    /// The hang catalog, compressed.
    HangZ,
    /// The MSF catalog.
    Msf,
}

/// Whether `text` ends with `suffix`.
pub open spec fn ends_with(text: Seq<char>, suffix: Seq<char>) -> bool {
    suffix.len() <= text.len() && text.skip(text.len() - suffix.len()) == suffix
}

/// The catalog format that a broadcast name asks for by its suffix.
pub open spec fn advertised_format(name: Seq<char>) -> Option<CatalogFormat> {
    if ends_with(name, ".hang"@) {
        Some(CatalogFormat::Hang)
    } else if ends_with(name, ".msf"@) {
        Some(CatalogFormat::Msf)
    } else {
        None
    }
}

/// Whether AAC has an index for the sample rate.
pub open spec fn standard_rate(sample_rate: u32) -> bool {
    ||| sample_rate == 96_000 || sample_rate == 88_200 || sample_rate == 64_000
    ||| sample_rate == 48_000 || sample_rate == 44_100 || sample_rate == 32_000
    ||| sample_rate == 24_000 || sample_rate == 22_050 || sample_rate == 16_000
    ||| sample_rate == 12_000 || sample_rate == 11_025 || sample_rate == 8_000
    ||| sample_rate == 7_350
}

/// Wraps `moq_mux::codec::aac::Config::encode`.
///
/// Claimed: the bytes depend on the three fields alone, and there are two of them
/// for a standard sample rate and five for any other.
#[verifier::external_body]
pub(crate) fn encode_aac_config(profile: u8, sample_rate: u32, channels: u32) -> (r: Vec<u8>)
    ensures
        r@ == audio_specific_config(profile, sample_rate, channels),
        r@.len() == (if standard_rate(sample_rate) {
            2nat
        } else {
            5nat
        }),
{
    let config = moq_mux::codec::aac::Config { profile, sample_rate, channel_count: channels };
    config.encode().to_vec()
}

/// Wraps `moq_mux::catalog::CatalogFormat::detect`.
///
/// Claimed: the suffix `.hang` gives the hang format, `.msf` the MSF format, and no
/// other name gives a format.
#[verifier::external_body]
pub(crate) fn detect_catalog_format(name: &str) -> (r: Option<CatalogFormat>)
    ensures
        r == advertised_format(name@),
{
    match moq_mux::catalog::CatalogFormat::detect(name) {
        Some(moq_mux::catalog::CatalogFormat::Hang) => Some(CatalogFormat::Hang),
        Some(moq_mux::catalog::CatalogFormat::Msf) => Some(CatalogFormat::Msf),
        Some(_) => Some(CatalogFormat::HangZ),
        None => None,
    }
}

/// Wraps the conversion of a `hang::catalog::Container::Cmaf` entry into a
/// `moq_mux::catalog::hang::Container`, which parses the init segment.
///
/// Claimed: on a segment that it gets through, whether it fails, and with which message,
/// depends on the bytes alone. Left out are segments that would make it panic, or run out
/// of stack or memory.
#[verifier::external_body]
pub(crate) fn check_cmaf_init(init: &Vec<u8>) -> (r: Option<String>)
    requires
        readable(init@),
    ensures
        match r {
            Some(fault) => cmaf_init_fault(init@) == Some(fault@),
            None => cmaf_init_fault(init@) is None,
        },
{
    let container = hang::catalog::Container::Cmaf { init: bytes::Bytes::copy_from_slice(init) };
    match moq_mux::catalog::hang::Container::try_from(&container) {
        Ok(_) => None,
        Err(e) => Some(e.to_string()),
    }
}

/// Wraps `url::Url::parse`.
///
/// Claimed: the outcome, the URL written out or the message of the error, depends on
/// the text alone.
#[verifier::external_body]
pub(crate) fn parse_url(text: &str) -> (r: Result<String, String>)
    ensures
        match r {
            Ok(url) => url_verdict(text@) == Ok::<Seq<char>, Seq<char>>(url@),
            Err(e) => url_verdict(text@) == Err::<Seq<char>, Seq<char>>(e@),
        },
{
    match url::Url::parse(text) {
        Ok(url) => Ok(String::from(url)),
        Err(e) => Err(e.to_string()),
    }
}

/// Wraps `moq_net::Timestamp::from_nanos`, and `value`, which reads the ticks back.
///
/// Claimed: every count below the tick limit is kept as it is, and any other is refused
/// with the message "time overflow".
#[verifier::external_body]
pub(crate) fn nanos_timestamp(nanos: u64) -> (r: Result<u64, String>)
    ensures
        match r {
            Ok(ticks) => nanos < TICK_LIMIT && ticks == nanos,
            Err(e) => nanos >= TICK_LIMIT && e@ == "time overflow"@,
        },
{
    match moq_net::Timestamp::from_nanos(nanos) {
        Ok(timestamp) => Ok(timestamp.value()),
        Err(e) => Err(e.to_string()),
    }
}

/// Wraps `moq_net::Timestamp::from_micros`, and `value`, which reads the ticks back.
///
/// Claimed: every count below the tick limit is kept as it is, and any other is refused
/// with the message "time overflow".
#[verifier::external_body]
pub(crate) fn micros_timestamp(micros: u64) -> (r: Result<u64, String>)
    ensures
        match r {
            Ok(ticks) => micros < TICK_LIMIT && ticks == micros,
            Err(e) => micros >= TICK_LIMIT && e@ == "time overflow"@,
        },
{
    match moq_net::Timestamp::from_micros(micros) {
        Ok(timestamp) => Ok(timestamp.value()),
        Err(e) => Err(e.to_string()),
    }
}

/// Wraps `moq_net::Timestamp::as_nanos` of a timestamp of `ticks` at `scale` ticks per second.
///
/// Claimed: the time in nanoseconds, rounded down.
#[verifier::external_body]
pub(crate) fn timestamp_nanos(ticks: u64, scale: u64) -> (r: u128)
    requires
        ticks < TICK_LIMIT,
        0 < scale < TICK_LIMIT,
    ensures
        r == (ticks * 1_000_000_000) / scale as int,
{
    moq_net::Timestamp::from_scale(ticks, scale).unwrap().as_nanos()
}

/// Wraps `moq_net::Timestamp::as_micros` of a timestamp of `ticks` at `scale` ticks per second.
///
/// Claimed: the time in microseconds, rounded down.
#[verifier::external_body]
pub(crate) fn timestamp_micros(ticks: u64, scale: u64) -> (r: u128)
    requires
        ticks < TICK_LIMIT,
        0 < scale < TICK_LIMIT,
    ensures
        r == (ticks * 1_000_000) / scale as int,
{
    moq_net::Timestamp::from_scale(ticks, scale).unwrap().as_micros()
}

} // verus!
