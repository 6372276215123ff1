//! Numbers and columns in text, tables, and the lines of a monitor.

use vstd::prelude::*;

use crate::frame::Timestamp;
use crate::messages::Catalog;
use crate::monitor::{
    announced_line, announcement, arguments, first_track, streaming_line, subscribing_line,
    waiting_line, Announcement, Monitor,
};
use crate::table::Table;
use crate::text::{debug_text, decimal, decimal_text, joined, pad_left, right_aligned};

verus! {

/// The number that a row of decimal digits stands for.
pub open spec fn value(text: Seq<char>) -> int
    decreases text.len(),
{
    if text.len() == 0 {
        0
    } else {
        value(text.drop_last()) * 10 + (text.last() as int - 48)
    }
}

/// Whether a text is a number in decimal, without leading zeros.
pub open spec fn is_number(text: Seq<char>, n: int) -> bool {
    &&& text.len() > 0
    &&& forall|i: int| 0 <= i < text.len() ==> 48 <= #[trigger] text[i] as int <= 57
    &&& text.len() > 1 ==> text[0] as int != 48
    &&& value(text) == n
}

/// The decimal notation of a number is that number.
pub proof fn lemma_decimal(n: nat)
    ensures
        is_number(decimal_text(n), n as int),
        n > 0 ==> decimal_text(n)[0] as int != 48,
    decreases n,
{
    if n < 10 {
        let text = decimal_text(n);
        assert(text.drop_last() =~= Seq::empty());
        assert(value(text.drop_last()) == 0);
        assert(text.last() as int == 48 + n);
    } else {
        lemma_decimal(n / 10);
        let head = decimal_text(n / 10);
        let text = decimal_text(n);
        assert(text == head.push(crate::text::digit(n % 10)));
        assert(text.drop_last() =~= head);
        assert(text.last() as int == 48 + n % 10);
        assert(text[0] == head[0]);
    }
}

/// Whether a text is aligned to the right in a column: it stands at the end, behind spaces only,
/// and the column is no wider than it has to be.
pub open spec fn is_column(column: Seq<char>, text: Seq<char>, width: int) -> bool {
    let gap = column.len() - text.len();
    &&& column.len() == (if text.len() < width {
        width
    } else {
        text.len() as int
    })
    &&& column.subrange(gap, column.len() as int) =~= text
    &&& forall|i: int| 0 <= i < gap ==> #[trigger] column[i] == ' '
}

proof fn lemma_column(text: Seq<char>, width: nat)
    ensures
        is_column(right_aligned(text, width), text, width as int),
{
}

/// Numbers are written in decimal, texts are aligned to the right, and pieces are put together in
/// order.
pub proof fn law_text_is_written(
    n: u128,
    number: String,
    text: &str,
    width: usize,
    column: String,
    a: &str,
    b: &str,
    c: &str,
    whole: String,
)
    requires
        call_ensures(decimal, (n,), number),
        call_ensures(pad_left, (text, width), column),
        call_ensures(joined, (a, b, c), whole),
    ensures
        is_number(number@, n as int),
        is_column(column@, text@, width as int),
        whole@ == a@ + b@ + c@,
{
    lemma_decimal(n as nat);
    lemma_column(text@, width as nat);
}

/// Whether a text is a number in a column.
pub open spec fn is_number_column(column: Seq<char>, n: int, width: int) -> bool {
    exists|text: Seq<char>| #[trigger] is_number(text, n) && is_column(column, text, width)
}

/// The line of a frame gives its number in order, its time in milliseconds, its size, its group and
/// whether it is a keyframe; each frame is counted once.
pub proof fn law_frames_are_counted_and_listed(
    fresh: Monitor,
    timestamp: Timestamp,
    size: usize,
    group: u64,
    keyframe: bool,
    micros: u128,
    r: String,
)
    requires
        call_ensures(Monitor::new, (), fresh),
        call_ensures(Timestamp::as_micros, (&timestamp,), micros),
    ensures
        fresh.frame_count == 0,
        forall|m: &mut Monitor| #[trigger]
            call_ensures(Monitor::frame, (m, &timestamp, size, group, keyframe), r) ==> {
                &&& final(m).frame_count == m.frame_count + 1
                &&& exists|
                    number: Seq<char>,
                    pts: Seq<char>,
                    bytes: Seq<char>,
                    of_group: Seq<char>,
                |
                    {
                        &&& #[trigger] is_number_column(number, m.frame_count as int, 5)
                        &&& #[trigger] is_number_column(pts, micros as int / 1000, 8)
                        &&& #[trigger] is_number_column(bytes, size as int, 6)
                        &&& #[trigger] is_number(of_group, group as int)
                        &&& r@ == "  frame "@ + number + "  pts="@ + pts + "ms  size="@ + bytes
                            + " bytes  group="@ + of_group + (if keyframe {
                            " [keyframe]"@
                        } else {
                            Seq::empty()
                        })
                    }
            },
{
    reveal_strlit("");
    assert forall|m: &mut Monitor| #[trigger]
        call_ensures(Monitor::frame, (m, &timestamp, size, group, keyframe), r) implies {
        &&& final(m).frame_count == m.frame_count + 1
        &&& exists|number: Seq<char>, pts: Seq<char>, bytes: Seq<char>, of_group: Seq<char>|
            {
                &&& #[trigger] is_number_column(number, m.frame_count as int, 5)
                &&& #[trigger] is_number_column(pts, micros as int / 1000, 8)
                &&& #[trigger] is_number_column(bytes, size as int, 6)
                &&& #[trigger] is_number(of_group, group as int)
                &&& r@ == "  frame "@ + number + "  pts="@ + pts + "ms  size="@ + bytes
                    + " bytes  group="@ + of_group + (if keyframe {
                    " [keyframe]"@
                } else {
                    Seq::empty()
                })
            }
    } by {
        let count = m.frame_count as nat;
        let ms = (micros as int / 1000) as nat;
        let number = right_aligned(decimal_text(count), 5);
        let pts = right_aligned(decimal_text(ms), 8);
        let bytes = right_aligned(decimal_text(size as nat), 6);
        let of_group = decimal_text(group as nat);
        lemma_decimal(count);
        lemma_decimal(ms);
        lemma_decimal(size as nat);
        lemma_decimal(group as nat);
        lemma_column(decimal_text(count), 5);
        lemma_column(decimal_text(ms), 8);
        lemma_column(decimal_text(size as nat), 6);
        assert(is_number_column(number, count as int, 5));
        assert(is_number_column(pts, micros as int / 1000, 8));
        assert(is_number_column(bytes, size as int, 6));
        assert(is_number(of_group, group as int));
        assert(""@ =~= Seq::<char>::empty());
    }
}

/// The lines of a monitor, and what it follows: the first video, else the first audio.
pub proof fn law_monitor_lines(
    path: String,
    active: bool,
    announced: String,
    waiting: String,
    subscribing: String,
    streaming: String,
    monitor: Monitor,
    ended: String,
    catalog: Catalog,
    first: Result<String, String>,
)
    requires
        call_ensures(announced_line, (&path, active), announced),
        call_ensures(waiting_line, (&path,), waiting),
        call_ensures(subscribing_line, (&path,), subscribing),
        call_ensures(streaming_line, (&path,), streaming),
        call_ensures(Monitor::ended_line, (&monitor,), ended),
        call_ensures(first_track, (&catalog,), first),
    ensures
        active ==> announced@ == "announced: "@ + path@ + " (active="@ + "true"@ + ")"@,
        !active ==> announced@ == "announced: "@ + path@ + " (active="@ + "false"@ + ")"@,
        waiting@ == "connected, waiting for broadcast "@ + debug_text(path@) + "..."@,
        subscribing@ == "subscribing to track "@ + debug_text(path@) + "..."@,
        streaming@ == "streaming frames from "@ + debug_text(path@) + ":"@,
        exists|number: Seq<char>| #[trigger]
            is_number(number, monitor.frame_count as int) && ended@ == "track ended after "@
                + number + " frames"@,
        catalog.videos@.len() > 0 ==> first == Ok::<String, String>(catalog.videos@[0].0),
        catalog.videos@.len() == 0 && catalog.audios@.len() > 0 ==> first == Ok::<String, String>(
            catalog.audios@[0].0,
        ),
        catalog.videos@.len() == 0 && catalog.audios@.len() == 0 ==> (first matches Err(e) && e@
            == "catalog has no video or audio renditions"@),
{
    lemma_decimal(monitor.frame_count as nat);
    assert(is_number(decimal_text(monitor.frame_count as nat), monitor.frame_count as int));
    assert("announced: "@ + path@ + (" (active="@ + "true"@ + ")"@) =~= "announced: "@ + path@
        + " (active="@ + "true"@ + ")"@);
    assert("announced: "@ + path@ + (" (active="@ + "false"@ + ")"@) =~= "announced: "@ + path@
        + " (active="@ + "false"@ + ")"@);
}

/// A monitor takes its arguments as they are, or its defaults, and an announcement counts only
/// under the name of its broadcast.
pub proof fn law_monitor_follows_its_broadcast(
    url: Option<String>,
    name: Option<String>,
    args: (String, String),
    wanted: String,
    path: String,
    active: bool,
    r: Announcement,
)
    requires
        call_ensures(arguments, (url, name), args),
        call_ensures(announcement, (&wanted, &path, active), r),
    ensures
        url matches Some(u) ==> args.0@ == u@,
        url is None ==> args.0@ == "https://localhost:4443"@,
        name matches Some(n) ==> args.1@ == n@,
        name is None ==> args.1@ == "anon/bbb"@,
        r is Other <==> path@ != wanted@,
        r is Found <==> path@ == wanted@ && active,
        r is Withdrawn <==> path@ == wanted@ && !active,
{
}

/// What a table was told last under a key is what it gives for the key, and other keys are not
/// touched.
pub proof fn law_table_gives_what_was_put<V>(
    fresh: Table<V>,
    key: String,
    value: V,
    other: String,
)
    requires
        call_ensures(Table::<V>::new, (), fresh),
    ensures
        forall|found: bool| #[trigger]
            call_ensures(Table::<V>::contains, (&fresh, &key), found) ==> !found,
        forall|t: &mut Table<V>, r: Option<V>, got: Option<&V>|
            #![trigger call_ensures(Table::<V>::insert, (t, key, value), r),
                call_ensures(Table::<V>::get, (final(t), &key), got)]
            call_ensures(Table::<V>::insert, (t, key, value), r) && call_ensures(
                Table::<V>::get,
                (final(t), &key),
                got,
            ) ==> got == Some(&value),
        forall|t: &mut Table<V>, r: Option<V>, was: Option<&V>, got: Option<&V>|
            #![trigger call_ensures(Table::<V>::insert, (t, key, value), r),
                call_ensures(Table::<V>::get, (t, &other), was),
                call_ensures(Table::<V>::get, (final(t), &other), got)]
            other@ != key@ && call_ensures(Table::<V>::insert, (t, key, value), r)
                && call_ensures(Table::<V>::get, (t, &other), was) && call_ensures(
                Table::<V>::get,
                (final(t), &other),
                got,
            ) ==> got == was,
        forall|t: &mut Table<V>, r: Option<V>, was: Option<&V>|
            #![trigger call_ensures(Table::<V>::remove, (t, &key), r),
                call_ensures(Table::<V>::get, (t, &key), was)]
            call_ensures(Table::<V>::remove, (t, &key), r) && call_ensures(
                Table::<V>::get,
                (t, &key),
                was,
            ) ==> match (r, was) {
                (Some(a), Some(b)) => a == *b,
                (None, None) => true,
                _ => false,
            },
        forall|t: &mut Table<V>, r: Option<V>, found: bool|
            #![trigger call_ensures(Table::<V>::remove, (t, &key), r),
                call_ensures(Table::<V>::contains, (final(t), &key), found)]
            call_ensures(Table::<V>::remove, (t, &key), r) && call_ensures(
                Table::<V>::contains,
                (final(t), &key),
                found,
            ) ==> !found,
        forall|t: &mut Table<V>, r: Option<V>, was: Option<&V>, got: Option<&V>|
            #![trigger call_ensures(Table::<V>::remove, (t, &key), r),
                call_ensures(Table::<V>::get, (t, &other), was),
                call_ensures(Table::<V>::get, (final(t), &other), got)]
            other@ != key@ && call_ensures(Table::<V>::remove, (t, &key), r) && call_ensures(
                Table::<V>::get,
                (t, &other),
                was,
            ) && call_ensures(Table::<V>::get, (final(t), &other), got) ==> got == was,
{
}

/// A table lists each of its entries at the place that it gives for the key, tells what a key stood
/// for before it is put anew, and what it hands out last is no longer in it.
pub proof fn law_table_lists_its_entries<V>(key: String, value: V)
    ensures
        forall|t: Table<V>, at: Option<usize>, found: bool|
            #![trigger call_ensures(Table::<V>::position, (&t, &key), at),
                call_ensures(Table::<V>::contains, (&t, &key), found)]
            call_ensures(Table::<V>::position, (&t, &key), at) && call_ensures(
                Table::<V>::contains,
                (&t, &key),
                found,
            ) ==> (found <==> at is Some),
        forall|t: Table<V>, at: usize, entry: (&String, &V), got: Option<&V>|
            #![trigger call_ensures(Table::<V>::position, (&t, &key), Some(at)),
                call_ensures(Table::<V>::at, (&t, at), entry),
                call_ensures(Table::<V>::get, (&t, &key), got)]
            call_ensures(Table::<V>::position, (&t, &key), Some(at)) && call_ensures(
                Table::<V>::at,
                (&t, at),
                entry,
            ) && call_ensures(Table::<V>::get, (&t, &key), got) ==> entry.0@ == key@ && got == Some(
                entry.1,
            ),
        forall|t: &mut Table<V>, r: Option<V>, was: Option<&V>|
            #![trigger call_ensures(Table::<V>::insert, (t, key, value), r),
                call_ensures(Table::<V>::get, (t, &key), was)]
            call_ensures(Table::<V>::insert, (t, key, value), r) && call_ensures(
                Table::<V>::get,
                (t, &key),
                was,
            ) ==> match (r, was) {
                (Some(a), Some(b)) => a == *b,
                (None, None) => true,
                _ => false,
            },
        forall|t: &mut Table<V>, name: String, last: V, was: Option<&V>|
            #![trigger call_ensures(Table::<V>::pop, (t,), Some((name, last))),
                call_ensures(Table::<V>::get, (t, &name), was)]
            call_ensures(Table::<V>::pop, (t,), Some((name, last))) && call_ensures(
                Table::<V>::get,
                (t, &name),
                was,
            ) ==> was == Some(&last),
        forall|t: &mut Table<V>, name: String, last: V, found: bool|
            #![trigger call_ensures(Table::<V>::pop, (t,), Some((name, last))),
                call_ensures(Table::<V>::contains, (final(t), &name), found)]
            call_ensures(Table::<V>::pop, (t,), Some((name, last))) && call_ensures(
                Table::<V>::contains,
                (final(t), &name),
                found,
            ) ==> !found,
{
}

} // verus!
