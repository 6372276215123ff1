//! Which CMAF init segments are handed to the parser.
//!
//! An init segment is a row of boxes: four bytes of size, four bytes of type, and a body, which in
//! some types is a row of boxes again. The parser goes through the rows until it has read the
//! first `moov` box. It reads a row inside a box by calling itself, makes room for as many entries
//! of some types as the body announces, whether or not bytes stand for them, and takes the lengths
//! of item references from the body without a check.
//!
//! So a segment is looked through along the same boxes first: how deep they nest, how many entries
//! they announce that no bytes stand for, and whether their item references stay within their box.
//! Within limits that no description of a track comes near, the parser has the word; beyond them
//! its stack or its memory would give out, and the segment is refused.

use vstd::prelude::*;

use crate::stack::cmaf_init_fault;

verus! {

/// How deep boxes may nest. The parser takes up to some 45 KB of stack for a level, and a thread
/// has 2 MB.
pub const NESTING_LIMIT: u32 = 32;

/// How deep elementary stream descriptors may nest, in boxes that may nest as deep as they can.
pub const DESCRIPTOR_LIMIT: u32 = 64;

/// How many entries a segment may announce that no bytes stand for.
pub const ENTRY_LIMIT: u64 = 0x10_0000;

/// What a segment costs that the parser does not get through.
pub const TOO_MUCH: u64 = 0x10_0001;

/// Where a segment itself stands in place of a box.
pub const TOP: u32 = 0;

/// `moov`.
pub const MOOV: u32 = 0x6d6f_6f76;

/// `trak`.
pub const TRAK: u32 = 0x7472_616b;

/// `edts`.
pub const EDTS: u32 = 0x6564_7473;

/// `mdia`.
pub const MDIA: u32 = 0x6d64_6961;

/// `minf`.
pub const MINF: u32 = 0x6d69_6e66;

/// `dinf`.
pub const DINF: u32 = 0x6469_6e66;

/// `stbl`.
pub const STBL: u32 = 0x7374_626c;

/// `mvex`.
pub const MVEX: u32 = 0x6d76_6578;

/// `moof`.
pub const MOOF: u32 = 0x6d6f_6f66;

/// `traf`.
pub const TRAF: u32 = 0x7472_6166;

/// `mfra`.
pub const MFRA: u32 = 0x6d66_7261;

/// `iprp`.
pub const IPRP: u32 = 0x6970_7270;

/// `ipco`.
pub const IPCO: u32 = 0x6970_636f;

/// `udta`.
pub const UDTA: u32 = 0x7564_7461;

/// `wave`.
pub const WAVE: u32 = 0x7761_7665;

/// `avc1`.
pub const AVC1: u32 = 0x6176_6331;

/// `hev1`.
pub const HEV1: u32 = 0x6865_7631;

/// `hvc1`.
pub const HVC1: u32 = 0x6876_6331;

/// `vp08`.
pub const VP08: u32 = 0x7670_3038;

/// `vp09`.
pub const VP09: u32 = 0x7670_3039;

/// `av01`.
pub const AV01: u32 = 0x6176_3031;

/// `uncv`.
pub const UNCV: u32 = 0x756e_6376;

/// `mp4a`.
pub const MP4A: u32 = 0x6d70_3461;

/// `Opus`.
pub const OPUS: u32 = 0x4f70_7573;

/// `fLaC`.
pub const FLAC: u32 = 0x664c_6143;

/// `ac-3`.
pub const AC3: u32 = 0x6163_2d33;

/// `ec-3`.
pub const EC3: u32 = 0x6563_2d33;

/// `sowt`.
pub const SOWT: u32 = 0x736f_7774;

/// `twos`.
pub const TWOS: u32 = 0x7477_6f73;

/// `lpcm`.
pub const LPCM: u32 = 0x6c70_636d;

/// `ipcm`.
pub const IPCM: u32 = 0x6970_636d;

/// `fpcm`.
pub const FPCM: u32 = 0x6670_636d;

/// `in24`.
pub const IN24: u32 = 0x696e_3234;

/// `in32`.
pub const IN32: u32 = 0x696e_3332;

/// `fl32`.
pub const FL32: u32 = 0x666c_3332;

/// `fl64`.
pub const FL64: u32 = 0x666c_3634;

/// `s16l`.
pub const S16L: u32 = 0x7331_366c;

/// `meta`.
pub const META: u32 = 0x6d65_7461;

/// `hdlr`.
pub const HDLR: u32 = 0x6864_6c72;

/// `stsd`.
pub const STSD: u32 = 0x7374_7364;

/// `tx3g`.
pub const TX3G: u32 = 0x7478_3367;

/// `wvtt`.
pub const WVTT: u32 = 0x7776_7474;

/// `samr`.
pub const SAMR: u32 = 0x7361_6d72;

/// `esds`.
pub const ESDS: u32 = 0x6573_6473;

/// `iref`.
pub const IREF: u32 = 0x6972_6566;

/// `iloc`.
pub const ILOC: u32 = 0x696c_6f63;

/// `sgpd`.
pub const SGPD: u32 = 0x7367_7064;

/// `trun`.
pub const TRUN: u32 = 0x7472_756e;

/// `refs`.
pub const REFS: u32 = 0x7265_6673;

/// The box types whose body is a row of boxes from its start.
pub open spec fn is_row(kind: int) -> bool {
    ||| kind == MOOV || kind == TRAK || kind == EDTS || kind == MDIA
    ||| kind == MINF || kind == DINF || kind == STBL || kind == MVEX
    ||| kind == MOOF || kind == TRAF || kind == MFRA || kind == IPRP
    ||| kind == IPCO || kind == UDTA || kind == WAVE
}

/// The sample entries of video codecs.
pub open spec fn is_visual(kind: int) -> bool {
    ||| kind == AVC1 || kind == HEV1 || kind == HVC1 || kind == VP08
    ||| kind == VP09 || kind == AV01 || kind == UNCV
}

/// The sample entries of audio codecs.
pub open spec fn is_audio(kind: int) -> bool {
    ||| kind == MP4A || kind == OPUS || kind == FLAC || kind == AC3
    ||| kind == EC3 || kind == SOWT || kind == TWOS || kind == LPCM
    ||| kind == IPCM || kind == FPCM || kind == IN24 || kind == IN32
    ||| kind == FL32 || kind == FL64 || kind == S16L
}

/// The two bytes at an offset as one number, the first byte the higher.
pub open spec fn half_at(bytes: Seq<u8>, at: int) -> int {
    bytes[at] * 0x100 + bytes[at + 1]
}

/// The four bytes at an offset as one number, the first byte the highest.
pub open spec fn word_at(bytes: Seq<u8>, at: int) -> int {
    bytes[at] * 0x100_0000 + bytes[at + 1] * 0x1_0000 + bytes[at + 2] * 0x100 + bytes[at + 3]
}

/// The box at an offset of a row that ends at `end`: its type, and where its body starts and ends.
/// A size of 0 reaches to the end of the row, one of 1 stands behind the type in eight bytes.
pub open spec fn box_at(bytes: Seq<u8>, at: int, end: int) -> Option<(int, int, int)> {
    if at + 8 > end {
        None
    } else {
        let size = word_at(bytes, at);
        let kind = word_at(bytes, at + 4);
        if size == 0 {
            Some((kind, at + 8, end))
        } else if size == 1 {
            if at + 16 > end {
                None
            } else {
                let long = word_at(bytes, at + 8) * 0x1_0000_0000 + word_at(bytes, at + 12);
                if 16 <= long && at + long <= end {
                    Some((kind, at + 16, at + long))
                } else {
                    None
                }
            }
        } else if 8 <= size && at + size <= end {
            Some((kind, at + 8, at + size))
        } else {
            None
        }
    }
}

/// What is left of a body behind its first `n` bytes.
pub open spec fn behind(from: int, n: int, to: int) -> Option<int> {
    if from + n <= to {
        Some(from + n)
    } else {
        None
    }
}

/// How many bytes of an audio sample entry stand before its boxes, by the version in it.
pub open spec fn audio_fields(version: int) -> Option<int> {
    if version == 0 {
        Some(28)
    } else if version == 1 {
        Some(44)
    } else if version == 2 {
        Some(64)
    } else {
        None
    }
}

/// Where the row of boxes in a body starts, if it holds one. The row of metadata starts behind its
/// handler, before which some writers leave the version out.
pub open spec fn inner_row(bytes: Seq<u8>, kind: int, from: int, to: int) -> Option<int> {
    if is_row(kind) {
        Some(from)
    } else if kind == META {
        if from + 8 > to {
            None
        } else {
            let handler = if word_at(bytes, from + 4) == HDLR {
                from
            } else {
                from + 4
            };
            match box_at(bytes, handler, to) {
                Some((_, _, next)) => Some(next),
                None => None,
            }
        }
    } else if kind == STSD || kind == WVTT {
        behind(from, 8, to)
    } else if is_visual(kind) {
        behind(from, 78, to)
    } else if is_audio(kind) {
        if from + 10 > to {
            None
        } else {
            match audio_fields(half_at(bytes, from + 8)) {
                Some(fields) => behind(from, fields, to),
                None => None,
            }
        }
    } else if kind == SAMR {
        behind(from, 28, to)
    } else if kind == TX3G {
        behind(from, 38, to)
    } else {
        None
    }
}

/// Whether a box is read where it stands: of user data only the metadata is, of the `wave` box of
/// an AAC entry only the descriptor, and a `wave` box nowhere else.
pub open spec fn is_read(parent: int, kind: int) -> bool {
    if parent == UDTA {
        kind == META
    } else if parent == WAVE {
        kind == ESDS
    } else {
        kind == WAVE ==> parent == MP4A
    }
}

/// Whether the item references from `at` on stay within the `left` bytes of their box. Where the
/// body ends early they are not read on.
pub open spec fn references_fit(bytes: Seq<u8>, at: int, to: int, left: int, id: int) -> bool
    decreases to - at,
{
    if left == 0 || at + 4 > to {
        true
    } else if word_at(bytes, at) > left {
        false
    } else {
        let list = at + 10 + id;
        if id < 2 || list > to {
            true
        } else {
            let next = list + half_at(bytes, list - 2) * id;
            next > to || references_fit(bytes, next, to, left - word_at(bytes, at), id)
        }
    }
}

/// How many extents the next `items` item locations announce, each of `len` bytes with the number
/// of its extents last.
pub open spec fn free_extents(bytes: Seq<u8>, at: int, to: int, len: int, items: nat) -> nat
    decreases items,
{
    if items == 0 || len < 2 || at + len > to {
        0
    } else {
        half_at(bytes, at + len - 2) as nat + free_extents(
            bytes,
            at + len,
            to,
            len,
            (items - 1) as nat,
        )
    }
}

/// What the item locations of a body announce. Where an extent has bytes of its own, these bound
/// them.
pub open spec fn location_cost(bytes: Seq<u8>, from: int, to: int) -> nat {
    if from + 8 > to {
        0
    } else {
        let version = bytes[from] as int;
        let base = bytes[from + 5] as int / 16;
        let index = if version == 0 {
            0
        } else {
            bytes[from + 5] as int % 16
        };
        if version > 2 || bytes[from + 4] != 0 || index != 0 || !(base == 0 || base == 4 || base
            == 8) {
            0
        } else if version == 2 {
            if from + 10 > to {
                0
            } else {
                free_extents(bytes, from + 10, to, 10 + base, word_at(bytes, from + 6) as nat)
            }
        } else if version == 1 {
            free_extents(bytes, from + 8, to, 8 + base, half_at(bytes, from + 6) as nat)
        } else {
            free_extents(bytes, from + 8, to, 6 + base, half_at(bytes, from + 6) as nat)
        }
    }
}

/// What the sample groups of a body announce. Where they give their lengths one by one, or are
/// lists of references, their bytes bound them.
pub open spec fn group_cost(bytes: Seq<u8>, from: int, to: int) -> nat {
    if from + 12 > to {
        0
    } else {
        let version = bytes[from] as int;
        let count = from + 8 + (if version == 0 {
            0int
        } else if version == 1 {
            4int
        } else {
            8int
        });
        if version > 3 || count + 4 > to || word_at(bytes, from + 4) == REFS || (version > 0
            && word_at(bytes, from + 8) == 0) {
            0
        } else {
            word_at(bytes, count) as nat
        }
    }
}

/// What a track run of a body announces: up to 4096 samples without a field of their own.
pub open spec fn run_cost(bytes: Seq<u8>, from: int, to: int) -> nat {
    if from + 8 > to || bytes[from + 2] % 16 != 0 || word_at(bytes, from + 4) > 4096 {
        0
    } else {
        word_at(bytes, from + 4) as nat
    }
}

/// The length of a descriptor, seven bits to a byte in at most `digits` more bytes, and where its
/// body starts.
pub open spec fn length_at(bytes: Seq<u8>, at: int, to: int, digits: nat, size: int) -> Option<
    (int, int),
>
    decreases digits,
{
    if digits == 0 {
        Some((size, at))
    } else if at >= to {
        None
    } else {
        let longer = size * 128 + bytes[at] as int % 128;
        if bytes[at] < 128 {
            Some((longer, at + 1))
        } else {
            length_at(bytes, at + 1, to, (digits - 1) as nat, longer)
        }
    }
}

/// How many bytes of a descriptor stand before the descriptors in it, if it holds any: an
/// elementary stream, or the configuration of its decoder.
pub open spec fn descriptor_fields(tag: u8) -> Option<int> {
    if tag == 3 {
        Some(3)
    } else if tag == 4 {
        Some(13)
    } else {
        None
    }
}

/// Whether descriptors nest no deeper than `depth`.
pub open spec fn descriptors_fit(bytes: Seq<u8>, at: int, to: int, depth: nat) -> bool
    decreases depth, to - at,
{
    if at >= to {
        true
    } else {
        match length_at(bytes, at + 1, to, 4, 0) {
            None => true,
            Some((size, body)) => if body <= at || body + size > to || size < 0 {
                true
            } else {
                &&& match descriptor_fields(bytes[at]) {
                    None => true,
                    Some(fields) => depth > 0 && descriptors_fit(
                        bytes,
                        body + fields,
                        body + size,
                        (depth - 1) as nat,
                    ),
                }
                &&& descriptors_fit(bytes, body + size, to, depth)
            },
        }
    }
}

/// What the body of a box costs that holds no row of boxes.
pub open spec fn leaf_cost(bytes: Seq<u8>, kind: int, from: int, to: int) -> nat {
    if kind == IREF {
        if from + 4 > to || bytes[from] > 1 || references_fit(
            bytes,
            from + 4,
            to,
            to - from - 4,
            if bytes[from] == 0 {
                2
            } else {
                4
            },
        ) {
            0
        } else {
            TOO_MUCH as nat
        }
    } else if kind == ILOC {
        location_cost(bytes, from, to)
    } else if kind == SGPD {
        group_cost(bytes, from, to)
    } else if kind == TRUN {
        run_cost(bytes, from, to)
    } else if kind == ESDS {
        if from + 4 > to || descriptors_fit(bytes, from + 4, to, DESCRIPTOR_LIMIT as nat) {
            0
        } else {
            TOO_MUCH as nat
        }
    } else {
        0
    }
}

/// What a row of boxes costs, in a box of the type `parent`, where `depth` more rows may stand one
/// in the other. The row of a segment is read up to its first `moov` box.
pub open spec fn row_cost(bytes: Seq<u8>, at: int, end: int, parent: int, depth: nat) -> nat
    decreases depth, end - at,
{
    match box_at(bytes, at, end) {
        None => 0,
        Some((kind, from, to)) => {
            let own = if !is_read(parent, kind) {
                0
            } else {
                match inner_row(bytes, kind, from, to) {
                    None => leaf_cost(bytes, kind, from, to),
                    Some(inner) => if depth == 0 {
                        TOO_MUCH as nat
                    } else {
                        row_cost(bytes, inner, to, kind, (depth - 1) as nat)
                    },
                }
            };
            if to <= at || (parent == TOP && kind == MOOV) {
                own
            } else {
                own + row_cost(bytes, to, end, parent, depth)
            }
        },
    }
}

/// The init segments that the parser gets through.
pub open spec fn readable(init: Seq<u8>) -> bool {
    row_cost(init, 0, init.len() as int, TOP as int, NESTING_LIMIT as nat) <= ENTRY_LIMIT
}

/// What is wrong with a CMAF init segment, or `None` if it describes one track: the parser's
/// verdict, where the parser gets through.
pub open spec fn init_fault(init: Seq<u8>) -> Option<Seq<char>> {
    if readable(init) {
        cmaf_init_fault(init)
    } else {
        Some("cmaf: init segment is too deep or too large to parse"@)
    }
}

fn read_half(bytes: &Vec<u8>, at: usize) -> (r: u32)
    requires
        at + 2 <= bytes@.len(),
    ensures
        r == half_at(bytes@, at as int),
{
    let size: usize = bytes.len();
    assert(at + 2 <= size);
    bytes[at] as u32 * 0x100 + bytes[at + 1] as u32
}

fn read_word(bytes: &Vec<u8>, at: usize) -> (r: u32)
    requires
        at + 4 <= bytes@.len(),
    ensures
        r == word_at(bytes@, at as int),
{
    let size: usize = bytes.len();
    assert(at + 4 <= size);
    bytes[at] as u32 * 0x100_0000 + bytes[at + 1] as u32 * 0x1_0000 + bytes[at + 2] as u32 * 0x100
        + bytes[at + 3] as u32
}

fn row_kind(kind: u32) -> (r: bool)
    ensures
        r == is_row(kind as int),
{
    kind == MOOV || kind == TRAK || kind == EDTS || kind == MDIA
        || kind == MINF || kind == DINF || kind == STBL || kind == MVEX
        || kind == MOOF || kind == TRAF || kind == MFRA || kind == IPRP
        || kind == IPCO || kind == UDTA || kind == WAVE
}

fn visual_kind(kind: u32) -> (r: bool)
    ensures
        r == is_visual(kind as int),
{
    kind == AVC1 || kind == HEV1 || kind == HVC1 || kind == VP08
        || kind == VP09 || kind == AV01 || kind == UNCV
}

fn audio_kind(kind: u32) -> (r: bool)
    ensures
        r == is_audio(kind as int),
{
    kind == MP4A || kind == OPUS || kind == FLAC || kind == AC3
        || kind == EC3 || kind == SOWT || kind == TWOS || kind == LPCM
        || kind == IPCM || kind == FPCM || kind == IN24 || kind == IN32
        || kind == FL32 || kind == FL64 || kind == S16L
}

fn read_box(bytes: &Vec<u8>, at: usize, end: usize) -> (r: Option<(u32, usize, usize)>)
    requires
        at <= end <= bytes@.len(),
    ensures
        match r {
            Some((kind, from, to)) => {
                &&& box_at(bytes@, at as int, end as int) == Some(
                    (kind as int, from as int, to as int),
                )
                &&& at + 8 <= from <= to <= end
            },
            None => box_at(bytes@, at as int, end as int) is None,
        },
{
    if end - at < 8 {
        return None;
    }
    let size: u32 = read_word(bytes, at);
    let kind: u32 = read_word(bytes, at + 4);
    if size == 0 {
        Some((kind, at + 8, end))
    } else if size == 1 {
        if end - at < 16 {
            return None;
        }
        let high: u64 = read_word(bytes, at + 8) as u64;
        let low: u64 = read_word(bytes, at + 12) as u64;
        let long: u64 = high * 0x1_0000_0000 + low;
        if 16 <= long && long <= (end - at) as u64 {
            Some((kind, at + 16, at + long as usize))
        } else {
            None
        }
    } else if 8 <= size && size as u64 <= (end - at) as u64 {
        Some((kind, at + 8, at + size as usize))
    } else {
        None
    }
}

fn skip(from: usize, n: usize, to: usize) -> (r: Option<usize>)
    requires
        from <= to,
    ensures
        match r {
            Some(at) => behind(from as int, n as int, to as int) == Some(at as int) && from <= at
                <= to,
            None => behind(from as int, n as int, to as int) is None,
        },
{
    if n <= to - from {
        Some(from + n)
    } else {
        None
    }
}

fn find_row(bytes: &Vec<u8>, kind: u32, from: usize, to: usize) -> (r: Option<usize>)
    requires
        from <= to <= bytes@.len(),
    ensures
        match r {
            Some(at) => inner_row(bytes@, kind as int, from as int, to as int) == Some(at as int)
                && from <= at <= to,
            None => inner_row(bytes@, kind as int, from as int, to as int) is None,
        },
{
    if row_kind(kind) {
        Some(from)
    } else if kind == META {
        if to - from < 8 {
            return None;
        }
        let handler: usize = if read_word(bytes, from + 4) == HDLR {
            from
        } else {
            from + 4
        };
        match read_box(bytes, handler, to) {
            Some((_, _, next)) => Some(next),
            None => None,
        }
    } else if kind == STSD || kind == WVTT {
        skip(from, 8, to)
    } else if visual_kind(kind) {
        skip(from, 78, to)
    } else if audio_kind(kind) {
        if to - from < 10 {
            return None;
        }
        let version: u32 = read_half(bytes, from + 8);
        if version == 0 {
            skip(from, 28, to)
        } else if version == 1 {
            skip(from, 44, to)
        } else if version == 2 {
            skip(from, 64, to)
        } else {
            None
        }
    } else if kind == SAMR {
        skip(from, 28, to)
    } else if kind == TX3G {
        skip(from, 38, to)
    } else {
        None
    }
}

fn reads(parent: u32, kind: u32) -> (r: bool)
    ensures
        r == is_read(parent as int, kind as int),
{
    if parent == UDTA {
        kind == META
    } else if parent == WAVE {
        kind == ESDS
    } else {
        kind != WAVE || parent == MP4A
    }
}

fn check_references(bytes: &Vec<u8>, from: usize, to: usize, id: usize) -> (r: bool)
    requires
        from <= to <= bytes@.len(),
        id == 2 || id == 4,
    ensures
        r == references_fit(bytes@, from as int, to as int, to - from, id as int),
{
    let mut at: usize = from;
    let mut left: usize = to - from;
    while left > 0 && to - at >= 4
        invariant
            from <= at <= to <= bytes@.len(),
            id == 2 || id == 4,
            references_fit(bytes@, from as int, to as int, to - from, id as int) == references_fit(
                bytes@,
                at as int,
                to as int,
                left as int,
                id as int,
            ),
        decreases to - at,
    {
        let len: u32 = read_word(bytes, at);
        if len as u64 > left as u64 {
            return false;
        }
        if to - at < 10 + id {
            return true;
        }
        let list: usize = at + 10 + id;
        let ids: usize = read_half(bytes, list - 2) as usize * id;
        if ids > to - list {
            return true;
        }
        left = left - len as usize;
        at = list + ids;
    }
    true
}

/// The number itself, or what is too much.
pub open spec fn capped(n: nat) -> u64 {
    if n <= ENTRY_LIMIT {
        n as u64
    } else {
        TOO_MUCH
    }
}

fn count_extents(bytes: &Vec<u8>, from: usize, to: usize, len: usize, items: u32) -> (r: u64)
    requires
        from <= to <= bytes@.len(),
        2 <= len <= 18,
    ensures
        r == capped(free_extents(bytes@, from as int, to as int, len as int, items as nat)),
{
    let mut at: usize = from;
    let mut left: u32 = items;
    let mut total: u64 = 0;
    while left > 0 && to - at >= len
        invariant
            from <= at <= to <= bytes@.len(),
            2 <= len <= 18,
            total <= ENTRY_LIMIT,
            free_extents(bytes@, from as int, to as int, len as int, items as nat) == total
                + free_extents(bytes@, at as int, to as int, len as int, left as nat),
        decreases left,
    {
        let extents: u32 = read_half(bytes, at + len - 2);
        if total + extents as u64 > ENTRY_LIMIT {
            return TOO_MUCH;
        }
        total = total + extents as u64;
        at = at + len;
        left = left - 1;
    }
    total
}

fn count_locations(bytes: &Vec<u8>, from: usize, to: usize) -> (r: u64)
    requires
        from <= to <= bytes@.len(),
    ensures
        r == capped(location_cost(bytes@, from as int, to as int)),
{
    if to - from < 8 {
        return 0;
    }
    let version: u8 = bytes[from];
    let base: usize = (bytes[from + 5] / 16) as usize;
    let index: u8 = if version == 0 {
        0
    } else {
        bytes[from + 5] % 16
    };
    if version > 2 || bytes[from + 4] != 0 || index != 0 || !(base == 0 || base == 4 || base == 8) {
        0
    } else if version == 2 {
        if to - from < 10 {
            return 0;
        }
        count_extents(bytes, from + 10, to, 10 + base, read_word(bytes, from + 6))
    } else if version == 1 {
        count_extents(bytes, from + 8, to, 8 + base, read_half(bytes, from + 6))
    } else {
        count_extents(bytes, from + 8, to, 6 + base, read_half(bytes, from + 6))
    }
}

fn cap(n: u32) -> (r: u64)
    ensures
        r == capped(n as nat),
{
    if n as u64 <= ENTRY_LIMIT {
        n as u64
    } else {
        TOO_MUCH
    }
}

fn count_groups(bytes: &Vec<u8>, from: usize, to: usize) -> (r: u64)
    requires
        from <= to <= bytes@.len(),
    ensures
        r == capped(group_cost(bytes@, from as int, to as int)),
{
    if to - from < 12 {
        return 0;
    }
    let version: u8 = bytes[from];
    let fields: usize = if version == 0 {
        8
    } else if version == 1 {
        12
    } else {
        16
    };
    if version > 3 || to - from < fields + 4 || read_word(bytes, from + 4) == REFS || (version > 0
        && read_word(bytes, from + 8) == 0) {
        0
    } else {
        cap(read_word(bytes, from + fields))
    }
}

fn count_runs(bytes: &Vec<u8>, from: usize, to: usize) -> (r: u64)
    requires
        from <= to <= bytes@.len(),
    ensures
        r == capped(run_cost(bytes@, from as int, to as int)),
{
    if to - from < 8 || bytes[from + 2] % 16 != 0 || read_word(bytes, from + 4) > 4096 {
        0
    } else {
        cap(read_word(bytes, from + 4))
    }
}

fn read_length(bytes: &Vec<u8>, from: usize, to: usize) -> (r: Option<(usize, usize)>)
    requires
        from <= to <= bytes@.len(),
    ensures
        match r {
            Some((size, body)) => {
                &&& length_at(bytes@, from as int, to as int, 4, 0) == Some(
                    (size as int, body as int),
                )
                &&& from < body <= to
                &&& size < 0x1000_0000
            },
            None => length_at(bytes@, from as int, to as int, 4, 0) is None,
        },
{
    let mut at: usize = from;
    let mut size: usize = 0;
    let mut digits: u32 = 4;
    while digits > 0
        invariant
            from <= at <= to <= bytes@.len(),
            digits <= 4,
            digits < 4 ==> from < at,
            digits == 4 ==> size == 0,
            digits == 3 ==> size < 0x80,
            digits == 2 ==> size < 0x4000,
            digits == 1 ==> size < 0x20_0000,
            digits == 0 ==> size < 0x1000_0000,
            length_at(bytes@, from as int, to as int, 4, 0) == length_at(
                bytes@,
                at as int,
                to as int,
                digits as nat,
                size as int,
            ),
        decreases digits,
    {
        if at >= to {
            return None;
        }
        let digit: u8 = bytes[at];
        size = size * 128 + (digit % 128) as usize;
        at = at + 1;
        if digit < 128 {
            return Some((size, at));
        }
        digits = digits - 1;
    }
    Some((size, at))
}

fn check_descriptors(bytes: &Vec<u8>, from: usize, to: usize, depth: u32) -> (r: bool)
    requires
        to <= bytes@.len(),
    ensures
        r == descriptors_fit(bytes@, from as int, to as int, depth as nat),
    decreases depth,
{
    let mut at: usize = from;
    while at < to
        invariant
            to <= bytes@.len(),
            descriptors_fit(bytes@, from as int, to as int, depth as nat) == descriptors_fit(
                bytes@,
                at as int,
                to as int,
                depth as nat,
            ),
        decreases to - at,
    {
        let tag: u8 = bytes[at];
        let (size, body) = match read_length(bytes, at + 1, to) {
            Some(length) => length,
            None => return true,
        };
        if size > to - body {
            return true;
        }
        if tag == 3 || tag == 4 {
            if depth == 0 {
                return false;
            }
            let fields: usize = if tag == 3 {
                3
            } else {
                13
            };
            assert(fields >= size ==> descriptors_fit(
                bytes@,
                body + fields,
                body + size,
                (depth - 1) as nat,
            ));
            if fields < size && !check_descriptors(bytes, body + fields, body + size, depth - 1) {
                return false;
            }
        }
        at = body + size;
    }
    true
}

fn count_leaf(bytes: &Vec<u8>, kind: u32, from: usize, to: usize) -> (r: u64)
    requires
        from <= to <= bytes@.len(),
    ensures
        r == capped(leaf_cost(bytes@, kind as int, from as int, to as int)),
{
    if kind == IREF {
        if to - from < 4 || bytes[from] > 1 {
            return 0;
        }
        let id: usize = if bytes[from] == 0 {
            2
        } else {
            4
        };
        if check_references(bytes, from + 4, to, id) {
            0
        } else {
            TOO_MUCH
        }
    } else if kind == ILOC {
        count_locations(bytes, from, to)
    } else if kind == SGPD {
        count_groups(bytes, from, to)
    } else if kind == TRUN {
        count_runs(bytes, from, to)
    } else if kind == ESDS {
        if to - from < 4 || check_descriptors(bytes, from + 4, to, DESCRIPTOR_LIMIT) {
            0
        } else {
            TOO_MUCH
        }
    } else {
        0
    }
}

fn count_row(bytes: &Vec<u8>, from: usize, end: usize, parent: u32, depth: u32) -> (r: u64)
    requires
        from <= end <= bytes@.len(),
    ensures
        r == capped(row_cost(bytes@, from as int, end as int, parent as int, depth as nat)),
    decreases depth,
{
    let mut at: usize = from;
    let mut total: u64 = 0;
    loop
        invariant
            from <= at <= end <= bytes@.len(),
            total <= ENTRY_LIMIT,
            row_cost(bytes@, from as int, end as int, parent as int, depth as nat) == total
                + row_cost(bytes@, at as int, end as int, parent as int, depth as nat),
        decreases end - at,
    {
        let (kind, body, to) = match read_box(bytes, at, end) {
            Some(found) => found,
            None => return total,
        };
        if reads(parent, kind) {
            let own: u64 = match find_row(bytes, kind, body, to) {
                Some(inner) => if depth == 0 {
                    TOO_MUCH
                } else {
                    count_row(bytes, inner, to, kind, depth - 1)
                },
                None => count_leaf(bytes, kind, body, to),
            };
            if total + own > ENTRY_LIMIT {
                return TOO_MUCH;
            }
            total = total + own;
        }
        if parent == TOP && kind == MOOV {
            return total;
        }
        at = to;
    }
}

/// Whether the parser gets through an init segment.
pub fn is_readable(init: &Vec<u8>) -> (r: bool)
    ensures
        r == readable(init@),
{
    count_row(init, 0, init.len(), TOP, NESTING_LIMIT) <= ENTRY_LIMIT
}

} // verus!
