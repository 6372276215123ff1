//! The boxes of CMAF init segments.
//!
//! A parser reads the boxes that are named here, row in row, and makes room for what some of them
//! announce without holding it. A segment is readable if its rows stand no deeper than 32 in one
//! another, its descriptors no deeper than 64, and no more than 2^20 entries are announced that
//! way.

use vstd::prelude::*;

use crate::cmaf::{
    box_at, descriptors_fit, free_extents, group_cost, half_at, inner_row, is_audio,
    is_readable, is_row, is_visual, leaf_cost, length_at, location_cost, references_fit,
    row_cost, run_cost, word_at,
};

verus! {

/// The number that `n` bytes stand for, the first byte the highest.
pub open spec fn number(bytes: Seq<u8>, at: int, n: nat) -> int
    decreases n,
{
    if n == 0 {
        0
    } else {
        number(bytes, at, (n - 1) as nat) * 256 + bytes[at + n - 1]
    }
}

/// The number that a type of four letters is written as.
pub open spec fn code(a: char, b: char, c: char, d: char) -> int {
    ((a as int * 256 + b as int) * 256 + c as int) * 256 + d as int
}

proof fn lemma_numbers(bytes: Seq<u8>)
    ensures
        forall|at: int| #[trigger] number(bytes, at, 2) == half_at(bytes, at),
        forall|at: int| #[trigger] number(bytes, at, 4) == word_at(bytes, at),
        forall|at: int| #[trigger]
            number(bytes, at, 8) == word_at(bytes, at) * 0x1_0000_0000 + word_at(bytes, at + 4),
{
    reveal_with_fuel(number, 9);
}

/// Whether a body is a row of boxes from its start.
pub open spec fn holds_boxes(kind: int) -> bool {
    ||| kind == code('m', 'o', 'o', 'v')
    ||| kind == code('t', 'r', 'a', 'k')
    ||| kind == code('e', 'd', 't', 's')
    ||| kind == code('m', 'd', 'i', 'a')
    ||| kind == code('m', 'i', 'n', 'f')
    ||| kind == code('d', 'i', 'n', 'f')
    ||| kind == code('s', 't', 'b', 'l')
    ||| kind == code('m', 'v', 'e', 'x')
    ||| kind == code('m', 'o', 'o', 'f')
    ||| kind == code('t', 'r', 'a', 'f')
    ||| kind == code('m', 'f', 'r', 'a')
    ||| kind == code('i', 'p', 'r', 'p')
    ||| kind == code('i', 'p', 'c', 'o')
    ||| kind == code('u', 'd', 't', 'a')
    ||| kind == code('w', 'a', 'v', 'e')
}

/// Whether a box is the sample entry of a video codec.
pub open spec fn is_video_entry(kind: int) -> bool {
    ||| kind == code('a', 'v', 'c', '1')
    ||| kind == code('h', 'e', 'v', '1')
    ||| kind == code('h', 'v', 'c', '1')
    ||| kind == code('v', 'p', '0', '8')
    ||| kind == code('v', 'p', '0', '9')
    ||| kind == code('a', 'v', '0', '1')
    ||| kind == code('u', 'n', 'c', 'v')
}

/// Whether a box is the sample entry of an audio codec.
pub open spec fn is_audio_entry(kind: int) -> bool {
    ||| kind == code('m', 'p', '4', 'a')
    ||| kind == code('O', 'p', 'u', 's')
    ||| kind == code('f', 'L', 'a', 'C')
    ||| kind == code('a', 'c', '-', '3')
    ||| kind == code('e', 'c', '-', '3')
    ||| kind == code('s', 'o', 'w', 't')
    ||| kind == code('t', 'w', 'o', 's')
    ||| kind == code('l', 'p', 'c', 'm')
    ||| kind == code('i', 'p', 'c', 'm')
    ||| kind == code('f', 'p', 'c', 'm')
    ||| kind == code('i', 'n', '2', '4')
    ||| kind == code('i', 'n', '3', '2')
    ||| kind == code('f', 'l', '3', '2')
    ||| kind == code('f', 'l', '6', '4')
    ||| kind == code('s', '1', '6', 'l')
}

/// Whether a box stands in a row, of the given type and body: its size is the number in its first
/// four bytes, all of the row where that is 0, and the number behind the type where that is 1; it
/// is no smaller than what comes before its body, and no larger than the row.
pub open spec fn stands(
    bytes: Seq<u8>,
    at: int,
    end: int,
    kind: int,
    from: int,
    to: int,
) -> bool {
    let size = number(bytes, at, 4);
    &&& at + 8 <= end
    &&& kind == number(bytes, at + 4, 4)
    &&& from <= to <= end
    &&& size == 0 ==> from == at + 8 && to == end
    &&& size == 1 ==> at + 16 <= end && from == at + 16 && to == at + number(bytes, at + 8, 8)
    &&& size > 1 ==> from == at + 8 && to == at + size
}

proof fn lemma_stands(bytes: Seq<u8>, at: int, end: int)
    ensures
        box_at(bytes, at, end) matches Some((kind, from, to)) ==> stands(
            bytes,
            at,
            end,
            kind,
            from,
            to,
        ),
        forall|kind: int, from: int, to: int| #[trigger]
            stands(bytes, at, end, kind, from, to) ==> box_at(bytes, at, end) == Some(
                (kind, from, to),
            ),
{
    lemma_numbers(bytes);
    assert(number(bytes, at, 4) == word_at(bytes, at));
    assert(number(bytes, at + 4, 4) == word_at(bytes, at + 4));
    assert(number(bytes, at + 8, 8) == word_at(bytes, at + 8) * 0x1_0000_0000 + word_at(
        bytes,
        at + 12,
    ));
    assert(word_at(bytes, at) >= 0);
}

/// Whether a body of a type holds a row of boxes, and the row starts at `row`: behind the fields of
/// a sample description or entry, or behind the handler of metadata.
pub open spec fn row_starts(bytes: Seq<u8>, kind: int, from: int, to: int, row: int) -> bool {
    if holds_boxes(kind) {
        row == from
    } else if kind == code('m', 'e', 't', 'a') {
        &&& from + 8 <= to
        &&& exists|at: int, handler: int, body: int| #[trigger]
            stands(bytes, at, to, handler, body, row) && at == (if number(bytes, from + 4, 4)
                == code('h', 'd', 'l', 'r') {
                from
            } else {
                from + 4
            })
    } else if kind == code('s', 't', 's', 'd') || kind == code('w', 'v', 't', 't') {
        row == from + 8 && row <= to
    } else if is_video_entry(kind) {
        row == from + 78 && row <= to
    } else if is_audio_entry(kind) {
        let version = number(bytes, from + 8, 2);
        &&& from + 10 <= to
        &&& row <= to
        &&& 0 <= version <= 2
        &&& version == 0 ==> row == from + 28
        &&& version == 1 ==> row == from + 28 + 16
        &&& version == 2 ==> row == from + 28 + 36
    } else if kind == code('s', 'a', 'm', 'r') {
        row == from + 28 && row <= to
    } else if kind == code('t', 'x', '3', 'g') {
        row == from + 38 && row <= to
    } else {
        false
    }
}

proof fn lemma_row_starts(bytes: Seq<u8>, kind: int, from: int, to: int)
    ensures
        inner_row(bytes, kind, from, to) matches Some(row) ==> row_starts(
            bytes,
            kind,
            from,
            to,
            row,
        ),
        forall|row: int| #[trigger]
            row_starts(bytes, kind, from, to, row) ==> inner_row(bytes, kind, from, to) == Some(
                row,
            ),
{
    lemma_numbers(bytes);
    assert(holds_boxes(kind) == is_row(kind));
    assert(is_video_entry(kind) == is_visual(kind));
    assert(is_audio_entry(kind) == is_audio(kind));
    if !holds_boxes(kind) && kind == code('m', 'e', 't', 'a') {
        assert(number(bytes, from + 4, 4) == word_at(bytes, from + 4));
        let at = if number(bytes, from + 4, 4) == code('h', 'd', 'l', 'r') {
            from
        } else {
            from + 4
        };
        lemma_stands(bytes, at, to);
        if from + 8 <= to {
            if let Some((handler, body, next)) = box_at(bytes, at, to) {
                assert(stands(bytes, at, to, handler, body, next));
            }
        }
    } else if is_audio_entry(kind) {
        assert(number(bytes, from + 8, 2) == half_at(bytes, from + 8));
    }
}

/// Whether a box is read where it stands: of user data only `meta`, of a `wave` box only `esds`,
/// and a `wave` box in an `mp4a` entry only.
pub open spec fn counts_in(parent: int, kind: int) -> bool {
    &&& parent == code('u', 'd', 't', 'a') ==> kind == code('m', 'e', 't', 'a')
    &&& parent == code('w', 'a', 'v', 'e') ==> kind == code('e', 's', 'd', 's')
    &&& kind == code('w', 'a', 'v', 'e') ==> parent == code('m', 'p', '4', 'a')
}

/// Whether the references of an `iref` box stay within it, each with the items it counts, which are
/// numbers of `id` bytes.
pub open spec fn holds_references(
    bytes: Seq<u8>,
    at: int,
    to: int,
    left: int,
    id: int,
) -> bool
    decreases to - at,
{
    left != 0 && at + 4 <= to ==> {
        let size = number(bytes, at, 4);
        let items = at + 8 + id + 2;
        let next = items + number(bytes, items - 2, 2) * id;
        &&& size <= left
        &&& id >= 2 && items <= to && at < next <= to ==> holds_references(
            bytes,
            next,
            to,
            left - size,
            id,
        )
    }
}

proof fn lemma_references(bytes: Seq<u8>, at: int, to: int, left: int, id: int)
    requires
        id == 2 || id == 4,
    ensures
        holds_references(bytes, at, to, left, id) == references_fit(bytes, at, to, left, id),
    decreases to - at,
{
    lemma_numbers(bytes);
    if left != 0 && at + 4 <= to {
        let size = number(bytes, at, 4);
        let items = at + 8 + id + 2;
        let next = items + number(bytes, items - 2, 2) * id;
        assert(number(bytes, items - 2, 2) == half_at(bytes, items - 2));
        assert(half_at(bytes, items - 2) >= 0);
        assert(half_at(bytes, items - 2) * id >= 0) by (nonlinear_arith)
            requires
                half_at(bytes, items - 2) >= 0,
                id == 2 || id == 4,
        ;
        if size <= left && items <= to && next <= to {
            lemma_references(bytes, next, to, left - size, id);
        }
    }
}

/// How many extents a row of item locations counts, where each location has `len` bytes and counts
/// its extents in the last two.
pub open spec fn counted_extents(bytes: Seq<u8>, at: int, to: int, len: int, items: nat) -> nat
    decreases items,
{
    if items > 0 && len >= 2 && at + len <= to {
        (number(bytes, at + len - 2, 2) + counted_extents(
            bytes,
            at + len,
            to,
            len,
            (items - 1) as nat,
        )) as nat
    } else {
        0
    }
}

proof fn lemma_extents(bytes: Seq<u8>, at: int, to: int, len: int, items: nat)
    ensures
        counted_extents(bytes, at, to, len, items) == free_extents(bytes, at, to, len, items),
    decreases items,
{
    lemma_numbers(bytes);
    if items > 0 && len >= 2 && at + len <= to {
        lemma_extents(bytes, at + len, to, len, (items - 1) as nat);
        assert(number(bytes, at + len - 2, 2) == half_at(bytes, at + len - 2));
    }
}

/// What an `iloc` box announces: extents that have no bytes of their own, which is so where
/// offsets, lengths and indices take none.
pub open spec fn announced_locations(bytes: Seq<u8>, from: int, to: int) -> nat {
    let version = bytes[from] as int;
    let base = bytes[from + 5] as int / 16;
    let index = bytes[from + 5] as int % 16;
    if from + 8 <= to && version <= 2 && bytes[from + 4] == 0 && (version > 0 ==> index == 0) && (
    base == 0 || base == 4 || base == 8) {
        if version == 0 {
            counted_extents(bytes, from + 8, to, base + 6, number(bytes, from + 6, 2) as nat)
        } else if version == 1 {
            counted_extents(bytes, from + 8, to, base + 8, number(bytes, from + 6, 2) as nat)
        } else if from + 10 <= to {
            counted_extents(bytes, from + 10, to, base + 10, number(bytes, from + 6, 4) as nat)
        } else {
            0
        }
    } else {
        0
    }
}

proof fn lemma_locations(bytes: Seq<u8>, from: int, to: int)
    ensures
        announced_locations(bytes, from, to) == location_cost(bytes, from, to),
{
    lemma_numbers(bytes);
    let base = bytes[from + 5] as int / 16;
    assert(number(bytes, from + 6, 2) == half_at(bytes, from + 6));
    assert(number(bytes, from + 6, 4) == word_at(bytes, from + 6));
    lemma_extents(bytes, from + 8, to, base + 6, number(bytes, from + 6, 2) as nat);
    lemma_extents(bytes, from + 8, to, base + 8, number(bytes, from + 6, 2) as nat);
    lemma_extents(bytes, from + 10, to, base + 10, number(bytes, from + 6, 4) as nat);
}

/// What an `sgpd` box announces: as many groups as it counts, unless their lengths are given one by
/// one or they are lists of references.
pub open spec fn announced_groups(bytes: Seq<u8>, from: int, to: int) -> nat {
    let version = bytes[from] as int;
    let count = if version == 0 {
        from + 8
    } else if version == 1 {
        from + 12
    } else {
        from + 16
    };
    if from + 12 <= to && version <= 3 && count + 4 <= to && number(bytes, from + 4, 4) != code(
        'r',
        'e',
        'f',
        's',
    ) && (version > 0 ==> number(bytes, from + 8, 4) != 0) {
        number(bytes, count, 4) as nat
    } else {
        0
    }
}

proof fn lemma_groups(bytes: Seq<u8>, from: int, to: int)
    ensures
        announced_groups(bytes, from, to) == group_cost(bytes, from, to),
{
    lemma_numbers(bytes);
    assert(number(bytes, from + 4, 4) == word_at(bytes, from + 4));
    assert(number(bytes, from + 8, 4) == word_at(bytes, from + 8));
    assert(number(bytes, from + 12, 4) == word_at(bytes, from + 12));
    assert(number(bytes, from + 16, 4) == word_at(bytes, from + 16));
}

/// What a `trun` box announces: up to 4096 samples without fields of their own.
pub open spec fn announced_samples(bytes: Seq<u8>, from: int, to: int) -> nat {
    if from + 8 <= to && bytes[from + 2] as int % 16 == 0 && number(bytes, from + 4, 4) <= 4096 {
        number(bytes, from + 4, 4) as nat
    } else {
        0
    }
}

proof fn lemma_samples(bytes: Seq<u8>, from: int, to: int)
    ensures
        announced_samples(bytes, from, to) == run_cost(bytes, from, to),
{
    lemma_numbers(bytes);
    assert(number(bytes, from + 4, 4) == word_at(bytes, from + 4));
}

/// Whether a length is written from `at` on: seven bits to a byte, the highest first, with the
/// eighth set in all but the last, in at most `digits` bytes. `high` is what came before.
pub open spec fn is_length(
    bytes: Seq<u8>,
    at: int,
    to: int,
    digits: nat,
    high: int,
    size: int,
    body: int,
) -> bool
    decreases digits,
{
    if digits == 0 {
        size == high && body == at
    } else {
        &&& at < to
        &&& if bytes[at] < 128 {
            size == high * 128 + bytes[at] && body == at + 1
        } else {
            is_length(
                bytes,
                at + 1,
                to,
                (digits - 1) as nat,
                high * 128 + bytes[at] - 128,
                size,
                body,
            )
        }
    }
}

proof fn lemma_length(bytes: Seq<u8>, at: int, to: int, digits: nat, high: int)
    ensures
        length_at(bytes, at, to, digits, high) matches Some((size, body)) ==> is_length(
            bytes,
            at,
            to,
            digits,
            high,
            size,
            body,
        ),
        forall|size: int, body: int| #[trigger]
            is_length(bytes, at, to, digits, high, size, body) ==> length_at(
                bytes,
                at,
                to,
                digits,
                high,
            ) == Some((size, body)),
    decreases digits,
{
    if digits > 0 && at < to && bytes[at] >= 128 {
        let higher = high * 128 + bytes[at] - 128;
        lemma_length(bytes, at + 1, to, (digits - 1) as nat, higher);
        assert(bytes[at] as int % 128 == bytes[at] - 128);
        assert forall|size: int, body: int| #[trigger]
            is_length(bytes, at, to, digits, high, size, body) implies length_at(
            bytes,
            at,
            to,
            digits,
            high,
        ) == Some((size, body)) by {
            assert(is_length(bytes, at + 1, to, (digits - 1) as nat, higher, size, body));
        }
    }
}

/// Whether descriptors stand no deeper than `depth` in one another: those of an elementary stream
/// (3) stand behind three bytes, those of a decoder's configuration (4) behind thirteen.
pub open spec fn holds_descriptors(bytes: Seq<u8>, at: int, to: int, depth: nat) -> bool
    decreases depth, to - at,
{
    at < to ==> forall|size: int, body: int| #[trigger]
        is_length(bytes, at + 1, to, 4, 0, size, body) && at < body && 0 <= size && body + size
            <= to ==> {
            &&& bytes[at] == 3 ==> depth > 0 && holds_descriptors(
                bytes,
                body + 3,
                body + size,
                (depth - 1) as nat,
            )
            &&& bytes[at] == 4 ==> depth > 0 && holds_descriptors(
                bytes,
                body + 13,
                body + size,
                (depth - 1) as nat,
            )
            &&& at < body + size ==> holds_descriptors(bytes, body + size, to, depth)
        }
}

proof fn lemma_descriptors(bytes: Seq<u8>, at: int, to: int, depth: nat)
    ensures
        holds_descriptors(bytes, at, to, depth) == descriptors_fit(bytes, at, to, depth),
    decreases depth, to - at,
{
    if at < to {
        lemma_length(bytes, at + 1, to, 4, 0);
        match length_at(bytes, at + 1, to, 4, 0) {
            None => {},
            Some((size, body)) => {
                assert(is_length(bytes, at + 1, to, 4, 0, size, body));
                if at < body && 0 <= size && body + size <= to {
                    if depth > 0 {
                        lemma_descriptors(bytes, body + 3, body + size, (depth - 1) as nat);
                        lemma_descriptors(bytes, body + 13, body + size, (depth - 1) as nat);
                    }
                    lemma_descriptors(bytes, body + size, to, depth);
                }
            },
        }
    }
}

/// What a box announces that holds no row of boxes; one that cannot be read is beyond all bounds.
pub open spec fn announced_by_leaf(bytes: Seq<u8>, kind: int, from: int, to: int) -> nat {
    if kind == code('i', 'l', 'o', 'c') {
        announced_locations(bytes, from, to)
    } else if kind == code('s', 'g', 'p', 'd') {
        announced_groups(bytes, from, to)
    } else if kind == code('t', 'r', 'u', 'n') {
        announced_samples(bytes, from, to)
    } else if kind == code('i', 'r', 'e', 'f') && from + 4 <= to && bytes[from] <= 1
        && !holds_references(
        bytes,
        from + 4,
        to,
        to - from - 4,
        if bytes[from] == 0 {
            2
        } else {
            4
        },
    ) {
        0x10_0001
    } else if kind == code('e', 's', 'd', 's') && from + 4 <= to && !holds_descriptors(
        bytes,
        from + 4,
        to,
        64,
    ) {
        0x10_0001
    } else {
        0
    }
}

proof fn lemma_leaf(bytes: Seq<u8>, kind: int, from: int, to: int)
    ensures
        announced_by_leaf(bytes, kind, from, to) == leaf_cost(bytes, kind, from, to),
{
    lemma_locations(bytes, from, to);
    lemma_groups(bytes, from, to);
    lemma_samples(bytes, from, to);
    lemma_references(bytes, from + 4, to, to - from - 4, 2);
    lemma_references(bytes, from + 4, to, to - from - 4, 4);
    lemma_descriptors(bytes, from + 4, to, 64);
}

/// What a row of boxes announces that stands in a box of the type `parent`, or in the segment
/// itself where that is 0: what its boxes announce together, up to the first `moov` box of a
/// segment. A row that stands deeper than `depth` more rows is beyond all bounds.
pub open spec fn announced(bytes: Seq<u8>, at: int, end: int, parent: int, depth: nat) -> nat
    decreases depth, end - at,
{
    if exists|kind: int, from: int, to: int| stands(bytes, at, end, kind, from, to) {
        let (kind, from, to) = choose|kind: int, from: int, to: int|
            stands(bytes, at, end, kind, from, to);
        let own = if !counts_in(parent, kind) {
            0
        } else if exists|row: int| row_starts(bytes, kind, from, to, row) {
            if depth == 0 {
                0x10_0001
            } else {
                announced(
                    bytes,
                    choose|row: int| row_starts(bytes, kind, from, to, row),
                    to,
                    kind,
                    (depth - 1) as nat,
                )
            }
        } else {
            announced_by_leaf(bytes, kind, from, to)
        };
        if to <= at || (parent == 0 && kind == code('m', 'o', 'o', 'v')) {
            own
        } else {
            own + announced(bytes, to, end, parent, depth)
        }
    } else {
        0
    }
}

proof fn lemma_announced(bytes: Seq<u8>, at: int, end: int, parent: int, depth: nat)
    ensures
        announced(bytes, at, end, parent, depth) == row_cost(bytes, at, end, parent, depth),
    decreases depth, end - at,
{
    lemma_stands(bytes, at, end);
    if let Some((kind, from, to)) = box_at(bytes, at, end) {
        assert(stands(bytes, at, end, kind, from, to));
        lemma_row_starts(bytes, kind, from, to);
        lemma_leaf(bytes, kind, from, to);
        if let Some(row) = inner_row(bytes, kind, from, to) {
            assert(row_starts(bytes, kind, from, to, row));
            if depth > 0 {
                lemma_announced(bytes, row, to, kind, (depth - 1) as nat);
            }
        }
        if to > at {
            lemma_announced(bytes, to, end, parent, depth);
        }
    }
}

/// A segment is readable if and only if its rows and descriptors do not stand too deep in one
/// another and it does not announce too much.
pub proof fn law_readable_segments_are_bounded(init: Vec<u8>, r: bool)
    requires
        call_ensures(is_readable, (&init,), r),
    ensures
        r <==> announced(init@, 0, init@.len() as int, 0, 32) <= 0x10_0000,
{
    lemma_announced(init@, 0, init@.len() as int, 0, 32);
}

/// A segment of less than eight bytes holds no box, and is readable.
pub proof fn law_empty_segment_is_readable(init: Vec<u8>, r: bool)
    requires
        call_ensures(is_readable, (&init,), r),
        init@.len() < 8,
    ensures
        r,
{
}

proof fn lemma_deep_row(bytes: Seq<u8>, k: int)
    requires
        0 <= k <= 32,
        bytes.len() >= 264,
        forall|i: int|
            0 <= i <= 32 ==> number(bytes, #[trigger] (8 * i), 4) == 0 && number(
                bytes,
                8 * i + 4,
                4,
            ) == code('t', 'r', 'a', 'k'),
    ensures
        row_cost(
            bytes,
            8 * k,
            bytes.len() as int,
            if k == 0 {
                0
            } else {
                code('t', 'r', 'a', 'k')
            },
            (32 - k) as nat,
        ) > 0x10_0000,
    decreases 32 - k,
{
    lemma_numbers(bytes);
    let at = 8 * k;
    assert(number(bytes, at, 4) == word_at(bytes, at));
    assert(number(bytes, at + 4, 4) == word_at(bytes, at + 4));
    if k < 32 {
        lemma_deep_row(bytes, k + 1);
    }
}

/// A segment whose rows stand more than 32 deep in one another, each a track that reaches to the
/// end, is not whatever else it holds.
pub proof fn law_deep_segment_is_not_readable(init: Vec<u8>, r: bool)
    requires
        call_ensures(is_readable, (&init,), r),
        init@.len() >= 264,
        forall|i: int|
            0 <= i <= 32 ==> number(init@, #[trigger] (8 * i), 4) == 0 && number(
                init@,
                8 * i + 4,
                4,
            ) == code('t', 'r', 'a', 'k'),
    ensures
        !r,
{
    lemma_deep_row(init@, 0);
}

/// A segment that is one description of sample groups without lengths of their own is readable if
/// and only if it announces no more than 2^20 of them.
pub proof fn law_announced_groups_are_bounded(init: Vec<u8>, r: bool)
    requires
        call_ensures(is_readable, (&init,), r),
        init@.len() >= 20,
        number(init@, 0, 4) == 0,
        number(init@, 4, 4) == code('s', 'g', 'p', 'd'),
        init@[8] == 0,
        number(init@, 12, 4) != code('r', 'e', 'f', 's'),
    ensures
        r <==> number(init@, 16, 4) <= 0x10_0000,
{
    let end = init@.len() as int;
    lemma_numbers(init@);
    assert(number(init@, 0, 4) == word_at(init@, 0));
    assert(number(init@, 4, 4) == word_at(init@, 4));
    assert(number(init@, 12, 4) == word_at(init@, 12));
    assert(number(init@, 16, 4) == word_at(init@, 16));
    assert(box_at(init@, end, end) is None);
    assert(row_cost(init@, end, end, 0, 32) == 0);
}

} // verus!
