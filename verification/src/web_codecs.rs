//! Codec parameters in the shape WebCodecs gives them.

use vstd::prelude::*;

verus! {

/// A frame rate: the bit pattern of an IEEE 754 binary64 number.
///
/// Nothing here computes with a rate. It is carried, and two rates are compared.
#[derive(Clone, Copy, Debug)]
pub struct Framerate {
    pub bits: u64,
}

/// Where the sign bit of a binary64 pattern stands.
pub const SIGN: u64 = 0x8000_0000_0000_0000;

/// The pattern of positive infinity: what lies above it, sign aside, is not a number.
pub const INFINITY: u64 = 0x7ff0_0000_0000_0000;

impl Framerate {
    /// The pattern without its sign bit.
    pub open spec fn magnitude(self) -> int {
        self.bits as int % SIGN as int
    }

    /// Whether the pattern is one of those that stand for no number.
    pub open spec fn is_nan(self) -> bool {
        self.magnitude() > INFINITY
    }

    /// Equality of the numbers: no NaN equals anything, both zeros are equal, and
    /// otherwise the patterns decide.
    pub open spec fn equals(self, other: Self) -> bool {
        &&& !self.is_nan()
        &&& !other.is_nan()
        &&& self.bits == other.bits || (self.magnitude() == 0 && other.magnitude() == 0)
    }

    /// The rate zero.
    pub open spec fn spec_zero() -> Self {
        Framerate { bits: 0 }
    }

    /// The rate zero, which stands for an unknown rate.
    pub fn zero() -> (r: Self)
        ensures
            r == Self::spec_zero(),
    {
        Framerate { bits: 0 }
    }

    /// Whether two rates are the same number.
    pub fn same_rate(self, other: Self) -> (r: bool)
        ensures
            r == self.equals(other),
    {
        let a: u64 = self.bits % SIGN;
        let b: u64 = other.bits % SIGN;
        a <= INFINITY && b <= INFINITY && (self.bits == other.bits || (a == 0 && b == 0))
    }
}

/// Picture size and frame rate, as far as they are known.
#[derive(Clone, Copy, Debug)]
pub struct VideoTrackParams {
    pub width: Option<u32>,
    pub height: Option<u32>,
    pub framerate: Option<Framerate>,
}

/// Sample rate and channel count.
#[derive(Clone, Copy, Debug, PartialEq, Eq, Structural)]
pub struct AudioTrackParams {
    pub sample_rate: u32,
    pub channels: u32,
}

/// H.264 parameters. With `in_band`, parameter sets travel in the stream.
#[derive(Clone, Copy, Debug, PartialEq, Eq, Structural)]
pub struct H264Codec {
    pub in_band: bool,
    pub profile: u8,
    pub constraints: u8,
    pub level: u8,
}

/// H.265 parameters. With `in_band`, parameter sets travel in the stream.
#[derive(Clone, Copy, Debug)]
pub struct H265Codec {
    pub in_band: bool,
    pub profile_space: u8,
    pub profile_idc: u8,
    pub profile_compatibility_flags: [u8; 4],
    pub tier_flag: bool,
    pub level_idc: u8,
    pub constraint_flags: [u8; 6],
}

/// H.265 parameters as a process exchanges them: the flags are lists of any length.
#[derive(Debug)]
pub struct H265CodecWire {
    pub in_band: bool,
    pub profile_space: u8,
    pub profile_idc: u8,
    pub profile_compatibility_flags: Vec<u8>,
    pub tier_flag: bool,
    pub level_idc: u8,
    pub constraint_flags: Vec<u8>,
}

/// What both shapes of H.265 parameters say.
#[verifier::ext_equal]
pub struct H265View {
    pub in_band: bool,
    pub profile_space: u8,
    pub profile_idc: u8,
    pub profile_compatibility_flags: Seq<u8>,
    pub tier_flag: bool,
    pub level_idc: u8,
    pub constraint_flags: Seq<u8>,
}

impl View for H265Codec {
    type V = H265View;

    open spec fn view(&self) -> H265View {
        H265View {
            in_band: self.in_band,
            profile_space: self.profile_space,
            profile_idc: self.profile_idc,
            profile_compatibility_flags: self.profile_compatibility_flags@,
            tier_flag: self.tier_flag,
            level_idc: self.level_idc,
            constraint_flags: self.constraint_flags@,
        }
    }
}

impl View for H265CodecWire {
    type V = H265View;

    open spec fn view(&self) -> H265View {
        H265View {
            in_band: self.in_band,
            profile_space: self.profile_space,
            profile_idc: self.profile_idc,
            profile_compatibility_flags: self.profile_compatibility_flags@,
            tier_flag: self.tier_flag,
            level_idc: self.level_idc,
            constraint_flags: self.constraint_flags@,
        }
    }
}

/// Why H.265 parameters are refused.
#[derive(Clone, Copy, Debug, PartialEq, Eq, Structural)]
pub enum FlagsError {
    ProfileCompatibility,
    Constraint,
}

/// The verdict on the lengths of both flag lists; the compatibility flags are looked at first.
pub open spec fn flags_verdict(v: H265View) -> Option<FlagsError> {
    if v.profile_compatibility_flags.len() != 4 {
        Some(FlagsError::ProfileCompatibility)
    } else if v.constraint_flags.len() != 6 {
        Some(FlagsError::Constraint)
    } else {
        None
    }
}

impl FlagsError {
    /// The reason in words.
    pub open spec fn reason(self) -> Seq<char> {
        match self {
            FlagsError::ProfileCompatibility =>
                "profile_compatibility_flags must be exactly 4 bytes"@,
            FlagsError::Constraint => "constraint_flags must be exactly 6 bytes"@,
        }
    }

    /// Writes the reason in words.
    pub fn message(self) -> (r: String)
        ensures
            r@ == self.reason(),
    {
        match self {
            FlagsError::ProfileCompatibility =>
                "profile_compatibility_flags must be exactly 4 bytes".to_owned(),
            FlagsError::Constraint => "constraint_flags must be exactly 6 bytes".to_owned(),
        }
    }
}

/// The bytes of `bytes`, copied.
pub fn copied(bytes: &[u8]) -> (r: Vec<u8>)
    ensures
        r@ == bytes@,
{
    let mut out: Vec<u8> = Vec::new();
    let mut i: usize = 0;
    while i < bytes.len()
        invariant
            i <= bytes@.len(),
            out@ == bytes@.take(i as int),
        decreases bytes@.len() - i,
    {
        out.push(bytes[i]);
        i = i + 1;
        assert(bytes@.take(i as int) =~= bytes@.take(i - 1).push(bytes@[i - 1]));
    }
    assert(bytes@.take(i as int) =~= bytes@);
    out
}

/// Whether both byte strings are equal.
pub fn same_bytes(a: &[u8], b: &[u8]) -> (r: bool)
    ensures
        r == (a@ == b@),
{
    if a.len() != b.len() {
        return false;
    }
    let mut i: usize = 0;
    while i < a.len()
        invariant
            i <= a@.len() == b@.len(),
            a@.take(i as int) == b@.take(i as int),
        decreases a@.len() - i,
    {
        if a[i] != b[i] {
            assert(a@[i as int] != b@[i as int]);
            return false;
        }
        i = i + 1;
        assert(a@.take(i as int) =~= a@.take(i - 1).push(a@[i - 1]));
        assert(b@.take(i as int) =~= b@.take(i - 1).push(b@[i - 1]));
    }
    assert(a@.take(i as int) =~= a@);
    assert(b@.take(i as int) =~= b@);
    true
}

impl H265CodecWire {
    /// A copy of the parameters.
    pub fn duplicate(&self) -> (r: Self)
        ensures
            r@ == self@,
    {
        H265CodecWire {
            in_band: self.in_band,
            profile_space: self.profile_space,
            profile_idc: self.profile_idc,
            profile_compatibility_flags: copied(self.profile_compatibility_flags.as_slice()),
            tier_flag: self.tier_flag,
            level_idc: self.level_idc,
            constraint_flags: copied(self.constraint_flags.as_slice()),
        }
    }

    /// Whether both sets of parameters are equal.
    pub fn same(&self, other: &Self) -> (r: bool)
        ensures
            r == (self@ == other@),
    {
        self.in_band == other.in_band && self.profile_space == other.profile_space
            && self.profile_idc == other.profile_idc && same_bytes(
            self.profile_compatibility_flags.as_slice(),
            other.profile_compatibility_flags.as_slice(),
        ) && self.tier_flag == other.tier_flag && self.level_idc == other.level_idc && same_bytes(
            self.constraint_flags.as_slice(),
            other.constraint_flags.as_slice(),
        )
    }
}

impl H265Codec {
    /// Reads the exchanged shape. Refused unless there are exactly four bytes of
    /// compatibility flags and six of constraint flags.
    pub fn decode(wire: H265CodecWire) -> (r: Result<Self, FlagsError>)
        ensures
            match r {
                Ok(codec) => flags_verdict(wire@) is None && codec@ == wire@,
                Err(e) => flags_verdict(wire@) == Some(e),
            },
    {
        let p = &wire.profile_compatibility_flags;
        if p.len() != 4 {
            return Err(FlagsError::ProfileCompatibility);
        }
        let c = &wire.constraint_flags;
        if c.len() != 6 {
            return Err(FlagsError::Constraint);
        }
        let codec = H265Codec {
            in_band: wire.in_band,
            profile_space: wire.profile_space,
            profile_idc: wire.profile_idc,
            profile_compatibility_flags: [p[0], p[1], p[2], p[3]],
            tier_flag: wire.tier_flag,
            level_idc: wire.level_idc,
            constraint_flags: [c[0], c[1], c[2], c[3], c[4], c[5]],
        };
        assert(codec@ =~= wire@);
        Ok(codec)
    }

    /// Writes the exchanged shape.
    pub fn encode(&self) -> (r: H265CodecWire)
        ensures
            r@ == self@,
            flags_verdict(r@) is None,
    {
        H265CodecWire {
            in_band: self.in_band,
            profile_space: self.profile_space,
            profile_idc: self.profile_idc,
            profile_compatibility_flags: copied(self.profile_compatibility_flags.as_slice()),
            tier_flag: self.tier_flag,
            level_idc: self.level_idc,
            constraint_flags: copied(self.constraint_flags.as_slice()),
        }
    }
}

/// AAC parameters.
#[derive(Clone, Copy, Debug, PartialEq, Eq, Structural)]
pub struct AacCodec {
    pub profile: u8,
}

/// Opus has no parameters.
#[derive(Clone, Copy, Debug, PartialEq, Eq, Structural)]
pub struct OpusCodec;

/// An argument of the wrong shape.
#[derive(Clone, Copy, Debug, PartialEq, Eq, Structural)]
pub struct BadArg;

impl OpusCodec {
    /// Writes the name that stands for Opus.
    pub fn encode(&self) -> (r: String)
        ensures
            r@ == "opus"@,
    {
        "opus".to_owned()
    }

    /// Reads the name that stands for Opus; no other name is accepted.
    pub fn decode(atom: &String) -> (r: Result<Self, BadArg>)
        ensures
            r == (if atom@ == "opus"@ {
                Ok::<Self, BadArg>(OpusCodec)
            } else {
                Err::<Self, BadArg>(BadArg)
            }),
    {
        if *atom == "opus".to_owned() {
            Ok(OpusCodec)
        } else {
            Err(BadArg)
        }
    }
}

} // verus!
