//! The source: it follows a broadcast's catalog, and pumps the subscribed tracks.

use std::collections::HashMap;

use vstd::prelude::*;

use crate::broadcast_consumer::Closed;
use crate::frame::Frame;
use crate::membrane::messages::{frame_message, send_frame, Message};
use crate::membrane::track::TRACK_PRIORITY;
use crate::membrane::track_format::{
    audio_params, audio_params_of, encode_format, params_equal, video_params, video_params_of,
    ParamsView, TrackFormat, TrackParams,
};
use crate::messages::{Catalog, CatalogView, PidDead, Token};
use crate::native::session_url;
use crate::reply::{Atom, FaultView, NifError};
use crate::stack::{parse_url, url_verdict};
use crate::table::{
    by_name, distinct, lemma_by_name_bounded, lemma_by_name_contains, mapped, Table,
};
use crate::text::{debug_text, joined, quoted};
use crate::tokens::tokens_of;

verus! {

broadcast use vstd::std_specs::hash::group_hash_axioms;

/// What the parameters of a table say.
pub open spec fn params_views(params: Map<Seq<char>, TrackParams>) -> Map<Seq<char>, ParamsView> {
    params.map_values(|params: TrackParams| params@)
}

/// The parameters of a catalog's renditions by name, first the videos, then the audios.
pub open spec fn params_list(catalog: CatalogView) -> Seq<(Seq<char>, ParamsView)> {
    Seq::new(
        catalog.videos.len(),
        |i: int| (catalog.videos[i].0, video_params_of(catalog.videos[i].1)),
    ) + Seq::new(
        catalog.audios.len(),
        |i: int| (catalog.audios[i].0, audio_params_of(catalog.audios[i].1)),
    )
}

/// The parameters of each track that a catalog advertises.
pub fn catalog_params(catalog: &Catalog) -> (r: Table<TrackParams>)
    ensures
        r.wf(),
        params_views(r@) == by_name(params_list(catalog@)),
{
    let ghost all = params_list(catalog@);
    let mut r: Table<TrackParams> = Table::new();
    assert(all.take(0) =~= Seq::empty());
    assert(params_views(r@) =~= by_name(all.take(0)));
    let mut i: usize = 0;
    while i < catalog.videos.len()
        invariant
            i <= catalog.videos@.len(),
            all == params_list(catalog@),
            r.wf(),
            params_views(r@) == by_name(all.take(i as int)),
        decreases catalog.videos@.len() - i,
    {
        let (name, config) = &catalog.videos[i];
        let params = video_params(config);
        proof {
            assert(all.take(i + 1).drop_last() =~= all.take(i as int));
            assert(all[i as int] == (name@, params@));
            assert(params_views(r@.insert(name@, params)) =~= params_views(r@).insert(
                name@,
                params@,
            ));
        }
        r.insert(name.clone(), params);
        i = i + 1;
    }
    let mut j: usize = 0;
    while j < catalog.audios.len()
        invariant
            j <= catalog.audios@.len(),
            all == params_list(catalog@),
            r.wf(),
            params_views(r@) == by_name(all.take(catalog.videos@.len() + j)),
        decreases catalog.audios@.len() - j,
    {
        let (name, config) = &catalog.audios[j];
        let params = audio_params(config);
        proof {
            let n = catalog.videos@.len() + j;
            assert(all.take(n + 1).drop_last() =~= all.take(n));
            assert(all[n] == (name@, params@));
            assert(params_views(r@.insert(name@, params)) =~= params_views(r@).insert(
                name@,
                params@,
            ));
        }
        r.insert(name.clone(), params);
        j = j + 1;
    }
    assert(all.take(all.len() as int) =~= all);
    r
}

/// One difference between two catalogs.
#[derive(Debug)]
pub enum Change {
    Removed(String),
    Added(String, TrackFormat),
}

/// What a difference says.
pub enum ChangeView {
    Removed(Seq<char>),
    Added(Seq<char>, ParamsView),
}

impl View for Change {
    type V = ChangeView;

    open spec fn view(&self) -> ChangeView {
        match self {
            Change::Removed(name) => ChangeView::Removed(name@),
            Change::Added(name, format) => ChangeView::Added(name@, format@),
        }
    }
}

/// Whether `catalog` has the track `name` with the parameters `params`.
pub open spec fn has_same(
    catalog: Map<Seq<char>, ParamsView>,
    name: Seq<char>,
    params: ParamsView,
) -> bool {
    catalog.contains_key(name) && params_equal(catalog[name], params)
}

/// The entries of a table, as they read.
pub open spec fn pairs(entries: Seq<(String, TrackParams)>) -> Seq<(Seq<char>, ParamsView)> {
    Seq::new(entries.len(), |i: int| (entries[i].0@, entries[i].1@))
}

/// Whether no two tracks have the same name.
pub open spec fn distinct_names(tracks: Seq<(Seq<char>, ParamsView)>) -> bool {
    forall|i: int, j: int|
        0 <= i < j < tracks.len() ==> (#[trigger] tracks[i]).0 != (#[trigger] tracks[j]).0
}

/// The tracks of `tracks` that `other` does not have with the same parameters, in order.
pub open spec fn differing(
    tracks: Seq<(Seq<char>, ParamsView)>,
    other: Map<Seq<char>, ParamsView>,
) -> Seq<(Seq<char>, ParamsView)>
    decreases tracks.len(),
{
    if tracks.len() == 0 {
        Seq::empty()
    } else {
        let rest = differing(tracks.drop_last(), other);
        let last = tracks.last();
        if has_same(other, last.0, last.1) {
            rest
        } else {
            rest.push(last)
        }
    }
}

/// The differences of two catalogs: first what is gone, then what is new. A track whose
/// parameters changed is both.
pub open spec fn change_list(
    old_tracks: Seq<(Seq<char>, ParamsView)>,
    new_tracks: Seq<(Seq<char>, ParamsView)>,
    old_catalog: Map<Seq<char>, ParamsView>,
    new_catalog: Map<Seq<char>, ParamsView>,
) -> Seq<ChangeView> {
    let gone = differing(old_tracks, new_catalog);
    let come = differing(new_tracks, old_catalog);
    Seq::new(gone.len(), |i: int| ChangeView::Removed(gone[i].0)) + Seq::new(
        come.len(),
        |i: int| ChangeView::Added(come[i].0, come[i].1),
    )
}

/// What the differences say.
pub open spec fn changes_view(changes: Seq<Change>) -> Seq<ChangeView> {
    Seq::new(changes.len(), |i: int| changes[i]@)
}

/// The differences of two catalogs.
pub fn catalog_changes(
    old_catalog: &Table<TrackParams>,
    new_catalog: &Table<TrackParams>,
) -> (r: Vec<Change>)
    requires
        old_catalog.wf(),
        new_catalog.wf(),
    ensures
        changes_view(r@) == change_list(
            pairs(old_catalog.entries()),
            pairs(new_catalog.entries()),
            params_views(old_catalog@),
            params_views(new_catalog@),
        ),
{
    let ghost old_tracks = pairs(old_catalog.entries());
    let ghost new_tracks = pairs(new_catalog.entries());
    let ghost old_views = params_views(old_catalog@);
    let ghost new_views = params_views(new_catalog@);
    let mut r: Vec<Change> = Vec::new();
    let mut i: usize = 0;
    let ghost nothing: Seq<(Seq<char>, ParamsView)> = Seq::empty();
    assert(old_tracks.take(0) =~= nothing);
    assert(changes_view(r@) =~= change_list(old_tracks.take(0), nothing, old_views, new_views));
    while i < old_catalog.len()
        invariant
            new_catalog.wf(),
            old_tracks == pairs(old_catalog.entries()),
            new_views == params_views(new_catalog@),
            nothing.len() == 0,
            i <= old_catalog.entries().len(),
            changes_view(r@) == change_list(
                old_tracks.take(i as int),
                nothing,
                old_views,
                new_views,
            ),
        decreases old_catalog.entries().len() - i,
    {
        let (name, params) = old_catalog.at(i);
        let same = match new_catalog.get(name) {
            Some(other) => other.same(params),
            None => false,
        };
        proof {
            assert(old_tracks[i as int] == (name@, params@));
            assert(same == has_same(new_views, name@, params@));
            assert(old_tracks.take(i + 1).drop_last() =~= old_tracks.take(i as int));
        }
        let ghost before = r@;
        if !same {
            r.push(Change::Removed(name.clone()));
            assert(changes_view(r@) =~= changes_view(before).push(ChangeView::Removed(name@)));
        }
        i = i + 1;
        assert(changes_view(r@) =~= change_list(
            old_tracks.take(i as int),
            nothing,
            old_views,
            new_views,
        ));
    }
    assert(old_tracks.take(i as int) =~= old_tracks);
    assert(new_tracks.take(0) =~= nothing);
    let mut j: usize = 0;
    while j < new_catalog.len()
        invariant
            old_catalog.wf(),
            new_tracks == pairs(new_catalog.entries()),
            old_views == params_views(old_catalog@),
            j <= new_catalog.entries().len(),
            changes_view(r@) == change_list(
                old_tracks,
                new_tracks.take(j as int),
                old_views,
                new_views,
            ),
        decreases new_catalog.entries().len() - j,
    {
        let (name, params) = new_catalog.at(j);
        let same = match old_catalog.get(name) {
            Some(other) => other.same(params),
            None => false,
        };
        proof {
            assert(new_tracks[j as int] == (name@, params@));
            assert(same == has_same(old_views, name@, params@));
            assert(new_tracks.take(j + 1).drop_last() =~= new_tracks.take(j as int));
        }
        let ghost before = r@;
        if !same {
            let format = encode_format(params);
            r.push(Change::Added(name.clone(), format));
            assert(changes_view(r@) =~= changes_view(before).push(
                ChangeView::Added(name@, params@),
            ));
        }
        j = j + 1;
        assert(changes_view(r@) =~= change_list(
            old_tracks,
            new_tracks.take(j as int),
            old_views,
            new_views,
        ));
    }
    assert(new_tracks.take(j as int) =~= new_tracks);
    r
}

/// The message that tells a difference.
pub open spec fn change_message(change: Change) -> Message {
    match change {
        Change::Removed(name) => Message::TrackRemoved { name },
        Change::Added(name, format) => Message::TrackAdded { name, format },
    }
}

/// Whether the first `k` differences were told one after the other: `course` is the owner before
/// the first, and after each.
pub open spec fn told_along<O, S>(
    course: Seq<O>,
    changes: Seq<Change>,
    k: int,
    send: S,
) -> bool where S: Fn(O, Message) -> (O, Result<(), PidDead>) {
    &&& 0 <= k <= changes.len()
    &&& course.len() == k + 1
    &&& forall|i: int|
        0 <= i < k ==> call_ensures(
            send,
            (course[i], change_message(#[trigger] changes[i])),
            (course[i + 1], Ok::<(), PidDead>(())),
        )
}

/// Whether the first `k` differences, in order, are all that the owner was told until it became
/// `after`.
pub open spec fn told_in_order<O, S>(
    owner: O,
    changes: Seq<Change>,
    k: int,
    send: S,
    after: O,
) -> bool where S: Fn(O, Message) -> (O, Result<(), PidDead>) {
    exists|course: Seq<O>|
        {
            &&& #[trigger] told_along(course, changes, k, send)
            &&& course[0] == owner
            &&& course[k] == after
        }
}

/// What telling the differences in order comes to: all are told, or the process was gone at one
/// of them, the last that was tried.
pub open spec fn delivered<O, S>(
    owner: O,
    changes: Seq<Change>,
    send: S,
    after: O,
    result: Result<(), PidDead>,
) -> bool where S: Fn(O, Message) -> (O, Result<(), PidDead>) {
    match result {
        Ok(()) => told_in_order(owner, changes, changes.len() as int, send, after),
        Err(dead) => exists|k: int, mid: O|
            {
                &&& k < changes.len()
                &&& #[trigger] told_in_order(owner, changes, k, send, mid)
                &&& call_ensures(
                    send,
                    (mid, change_message(changes[k])),
                    (after, Err::<(), PidDead>(dead)),
                )
            },
    }
}

/// Tells the differences, in order, each once.
pub fn send_changes<O, S>(changes: Vec<Change>, owner: O, send: &S) -> (r: (
    O,
    Result<(), PidDead>,
)) where S: Fn(O, Message) -> (O, Result<(), PidDead>)
    requires
        forall|o: O, m: Message| call_requires(send, (o, m)),
    ensures
        delivered(owner, changes@, *send, r.0, r.1),
{
    let ghost all = changes@;
    let ghost mut course: Seq<O> = seq![owner];
    let ghost mut k: int = 0;
    let mut rest = changes;
    let mut told = owner;
    assert(rest@ =~= all.skip(0));
    while rest.len() > 0
        invariant
            all == changes@,
            forall|o: O, m: Message| call_requires(send, (o, m)),
            rest@ == all.skip(k),
            told_along(course, all, k, *send),
            course[0] == owner,
            course[k] == told,
        decreases rest@.len(),
    {
        let change = rest.remove(0);
        assert(change == all[k]);
        assert(all.skip(k).remove(0) =~= all.skip(k + 1));
        let message = match change {
            Change::Removed(name) => Message::TrackRemoved { name },
            Change::Added(name, format) => Message::TrackAdded { name, format },
        };
        let ghost mid = told;
        let (next, sent) = send(told, message);
        told = next;
        assert(call_ensures(*send, (mid, change_message(all[k])), (told, sent)));
        match sent {
            Ok(unit) => {
                assert(unit == ());
            },
            Err(dead) => {
                assert(told_in_order(owner, all, k, *send, mid));
                return (told, Err(dead));
            },
        }
        proof {
            course = course.push(told);
            k = k + 1;
        }
    }
    assert(told_in_order(owner, all, k, *send, told));
    (told, Ok(()))
}

/// Takes over a new catalog: tells how it differs from the last one, and gives the parameters of
/// its tracks. An error is the reason to disconnect for. Without a catalog nothing is told.
pub fn update_catalog<O, S>(
    snapshot: Result<Option<Catalog>, String>,
    old_catalog: &Table<TrackParams>,
    owner: O,
    send: &S,
) -> (r: (O, Result<Table<TrackParams>, String>)) where
    S: Fn(O, Message) -> (O, Result<(), PidDead>),

    requires
        old_catalog.wf(),
        forall|o: O, m: Message| call_requires(send, (o, m)),
    ensures
        match snapshot {
            Err(reason) => r.0 == owner && (r.1 matches Err(e) && e@ == "catalog error: "@
                + reason@),
            Ok(None) => r.0 == owner && (r.1 matches Err(e) && e@ == "broadcast ended"@),
            Ok(Some(catalog)) => catalog_updated(
                catalog@,
                *old_catalog,
                owner,
                *send,
                r.0,
                r.1,
            ),
        },
{
    let catalog = match snapshot {
        Ok(Some(catalog)) => catalog,
        Ok(None) => return (owner, Err("broadcast ended".to_owned())),
        Err(e) => return (owner, Err("catalog error: ".to_owned().concat(e.as_str()))),
    };
    let new_catalog = catalog_params(&catalog);
    let changes = catalog_changes(old_catalog, &new_catalog);
    let ghost listed = changes@;
    let ghost first = owner;
    let (owner, sent) = send_changes(changes, owner, send);
    assert(delivered(first, listed, *send, owner, sent));
    proof {
        let f = |params: TrackParams| params@;
        new_catalog.lemma_entries_by_name(f);
        assert(mapped(new_catalog.entries(), f) =~= pairs(new_catalog.entries()));
        new_catalog.lemma_distinct();
        lemma_pairs_distinct(new_catalog.entries());
    }
    match sent {
        Ok(()) => (owner, Ok(new_catalog)),
        Err(_) => (owner, Err("subscriber pid is dead".to_owned())),
    }
}

/// Entries with distinct keys read as tracks with distinct names.
pub proof fn lemma_pairs_distinct(entries: Seq<(String, TrackParams)>)
    requires
        distinct(entries),
    ensures
        distinct_names(pairs(entries)),
{
    let all = pairs(entries);
    assert forall|i: int, j: int| 0 <= i < j < all.len() implies (#[trigger] all[i]).0 != (
    #[trigger] all[j]).0 by {
        assert(entries[i].0@ != entries[j].0@);
    }
}

/// What taking over a readable catalog comes to. The differences, first what is gone, then what is
/// new, are told in an order of the tracks that the two catalogs decide.
pub open spec fn catalog_updated<O, S>(
    catalog: CatalogView,
    old_catalog: Table<TrackParams>,
    owner: O,
    send: S,
    after: O,
    result: Result<Table<TrackParams>, String>,
) -> bool where S: Fn(O, Message) -> (O, Result<(), PidDead>) {
    exists|
        new_tracks: Seq<(Seq<char>, ParamsView)>,
        changes: Seq<Change>,
        sent: Result<(), PidDead>,
    |
        {
            &&& distinct_names(new_tracks)
            &&& by_name(new_tracks) == by_name(params_list(catalog))
            &&& changes_view(changes) == #[trigger] change_list(
                pairs(old_catalog.entries()),
                new_tracks,
                params_views(old_catalog@),
                by_name(params_list(catalog)),
            )
            &&& #[trigger] delivered(owner, changes, send, after, sent)
            &&& match sent {
                Ok(()) => result matches Ok(params) && params.wf() && params_views(params@)
                    == by_name(params_list(catalog)),
                Err(_) => result matches Err(e) && e@ == "subscriber pid is dead"@,
            }
        }
}

/// What the owner of a source asks for.
#[derive(Debug)]
pub enum Command {
    Subscribe { track: String, token: Token },
    Unsubscribe { token: Token },
}

/// The state of a source. `X` cancels a pump, `Y` hears that it is cancelled.
pub struct LoopState<X, Y> {
    /// The parameters of each track, from the last catalog.
    pub params: Table<TrackParams>,
    pub cancels: HashMap<Token, X>,
    /// The subscriptions to tracks that no catalog has advertised yet.
    pub pending: HashMap<Token, (String, Y)>,
}

/// A pump to start: the format is told first, then the track is pumped.
pub struct Start<Y> {
    pub track: String,
    pub token: Token,
    pub format: TrackFormat,
    pub cancel: Y,
}

impl<X, Y> LoopState<X, Y> {
    /// The parameters of the advertised tracks.
    pub open spec fn advertised(self) -> Map<Seq<char>, ParamsView> {
        params_views(self.params@)
    }

    /// Each name occurs once; a pending subscription can be cancelled, and its track is not
    /// advertised.
    pub open spec fn wf(self) -> bool {
        &&& self.params.wf()
        &&& forall|token: Token| #[trigger]
            self.pending@.contains_key(token) ==> {
                &&& self.cancels@.contains_key(token)
                &&& !self.advertised().contains_key(self.pending@[token].0@)
            }
    }

    /// A source that has seen no catalog.
    pub fn new() -> (r: Self)
        ensures
            r.wf(),
            r.advertised() == Map::<Seq<char>, ParamsView>::empty(),
            r.cancels@ == Map::<Token, X>::empty(),
            r.pending@ == Map::<Token, (String, Y)>::empty(),
    {
        let r = LoopState {
            params: Table::new(),
            cancels: HashMap::new(),
            pending: HashMap::new(),
        };
        assert(r.advertised() =~= Map::<Seq<char>, ParamsView>::empty());
        r
    }
}

/// What carrying out a command comes to: the state after it, a pump to start, a pump to cancel.
pub open spec fn command_handled<X, Y, Channel>(
    command: Command,
    before: LoopState<X, Y>,
    channel: Channel,
    after: LoopState<X, Y>,
    start: Option<Start<Y>>,
    cancel: Option<X>,
) -> bool where Channel: FnOnce() -> (X, Y) {
    &&& after.params == before.params
    &&& match command {
        Command::Subscribe { track, token } => exists|cancel_tx: X, cancel_rx: Y|
            {
                &&& #[trigger] call_ensures(channel, (), (cancel_tx, cancel_rx))
                &&& after.cancels@ == before.cancels@.insert(token, cancel_tx)
                &&& cancel is None
                &&& if before.advertised().contains_key(track@) {
                    &&& after.pending@ == before.pending@
                    &&& start matches Some(start)
                    &&& start.track == track
                    &&& start.token == token
                    &&& start.format@ == before.advertised()[track@]
                    &&& start.cancel == cancel_rx
                } else {
                    &&& after.pending@ == before.pending@.insert(token, (track, cancel_rx))
                    &&& start is None
                }
            },
        Command::Unsubscribe { token } => {
            &&& after.cancels@ == before.cancels@.remove(token)
            &&& after.pending@ == before.pending@.remove(token)
            &&& start is None
            &&& cancel == (if before.cancels@.contains_key(token) {
                Some(before.cancels@[token])
            } else {
                None
            })
        },
    }
}

/// Carries out a command.
///
/// A subscription starts once the catalog advertises its track: publishers create tracks when
/// they learn their format, and a subscription before that would be refused. One that comes
/// earlier is pending until then. `channel` makes the two ends that a pump is cancelled through.
pub fn handle_command<X, Y, Channel>(
    command: Command,
    state: LoopState<X, Y>,
    channel: Channel,
) -> (r: (LoopState<X, Y>, Option<Start<Y>>, Option<X>)) where Channel: FnOnce() -> (X, Y)
    requires
        state.wf(),
        call_requires(channel, ()),
    ensures
        r.0.wf(),
        command_handled(command, state, channel, r.0, r.1, r.2),
{
    let LoopState { params, mut cancels, mut pending } = state;
    match command {
        Command::Subscribe { track, token } => {
            let (cancel_tx, cancel_rx) = channel();
            cancels.insert(token, cancel_tx);
            match params.get(&track) {
                Some(track_params) => {
                    let format = encode_format(track_params);
                    let start = Start { track, token, format, cancel: cancel_rx };
                    (LoopState { params, cancels, pending }, Some(start), None)
                },
                None => {
                    pending.insert(token, (track, cancel_rx));
                    (LoopState { params, cancels, pending }, None, None)
                },
            }
        },
        Command::Unsubscribe { token } => {
            let cancel = cancels.remove(&token);
            pending.remove(&token);
            (LoopState { params, cancels, pending }, None, cancel)
        },
    }
}

/// Whether `starts` are the subscriptions of `pending` whose track `catalog` advertises, each
/// once, and `left` are the others.
pub open spec fn resolved_by<Y>(
    pending: Map<Token, (String, Y)>,
    catalog: Map<Seq<char>, ParamsView>,
    left: Map<Token, (String, Y)>,
    starts: Seq<Start<Y>>,
) -> bool {
    &&& forall|token: Token| #[trigger]
        left.contains_key(token) <==> pending.contains_key(token) && !catalog.contains_key(
            pending[token].0@,
        )
    &&& forall|token: Token| #[trigger]
        left.contains_key(token) ==> left[token] == pending[token]
    &&& forall|i: int|
        0 <= i < starts.len() ==> started_from(pending, catalog, #[trigger] starts[i])
    &&& forall|i: int, j: int|
        0 <= i < j < starts.len() ==> (#[trigger] starts[i]).token != (#[trigger] starts[j]).token
    &&& forall|token: Token| #[trigger]
        pending.contains_key(token) && catalog.contains_key(pending[token].0@) ==> has_start(
            starts,
            token,
        )
}

/// Whether a pump with the token is among those to start.
pub open spec fn has_start<Y>(starts: Seq<Start<Y>>, token: Token) -> bool {
    exists|i: int| 0 <= i < starts.len() && (#[trigger] starts[i]).token == token
}

/// Whether a pump to start is that of a pending subscription, with the format that the catalog
/// advertises.
pub open spec fn started_from<Y>(
    pending: Map<Token, (String, Y)>,
    catalog: Map<Seq<char>, ParamsView>,
    start: Start<Y>,
) -> bool {
    &&& pending.contains_key(start.token)
    &&& pending[start.token] == (start.track, start.cancel)
    &&& catalog.contains_key(start.track@)
    &&& start.format@ == catalog[start.track@]
}

/// Whether a pending subscription is one whose track `catalog` advertises.
pub open spec fn is_ready<Y>(
    pending: Map<Token, (String, Y)>,
    catalog: Map<Seq<char>, ParamsView>,
    token: Token,
) -> bool {
    pending.contains_key(token) && catalog.contains_key(pending[token].0@)
}

/// The tokens of the pending subscriptions whose track is advertised, each once.
fn ready_tokens<Y>(
    pending: &HashMap<Token, (String, Y)>,
    params: &Table<TrackParams>,
) -> (r: Vec<Token>)
    requires
        params.wf(),
    ensures
        r@.no_duplicates(),
        forall|token: Token| #[trigger]
            r@.contains(token) <==> is_ready(pending@, params_views(params@), token),
{
    let tokens = tokens_of(pending);
    let ghost catalog = params_views(params@);
    let mut ready: Vec<Token> = Vec::new();
    let mut i: usize = 0;
    while i < tokens.len()
        invariant
            i <= tokens@.len(),
            params.wf(),
            catalog == params_views(params@),
            tokens@.no_duplicates(),
            forall|t: Token| #[trigger] tokens@.contains(t) <==> pending@.contains_key(t),
            ready@.no_duplicates(),
            forall|t: Token| #[trigger]
                ready@.contains(t) <==> is_ready(pending@, catalog, t) && tokens@.take(
                    i as int,
                ).contains(t),
        decreases tokens@.len() - i,
    {
        let token: Token = tokens[i];
        assert(tokens@.contains(token));
        let ghost before = ready@;
        proof {
            let seen = tokens@.take(i as int);
            let more = tokens@.take(i + 1);
            assert(more =~= seen.push(token));
            assert forall|t: Token| more.contains(t) <==> seen.contains(t) || t == token by {
                if seen.contains(t) {
                    assert(more[seen.index_of(t)] == t);
                }
                if t == token {
                    assert(more[i as int] == t);
                }
            }
            if seen.contains(token) {
                let j = seen.index_of(token);
                assert(tokens@[j] == tokens@[i as int]);
            }
        }
        if let Some((track, _)) = pending.get(&token) {
            if params.contains(track) {
                ready.push(token);
                proof {
                    assert(!before.contains(token));
                    assert forall|t: Token| #[trigger]
                        ready@.contains(t) <==> before.contains(t) || t == token by {
                        if before.contains(t) {
                            assert(ready@[before.index_of(t)] == t);
                        }
                        if t == token {
                            assert(ready@[before.len() as int] == t);
                        }
                    }
                }
            }
        }
        i = i + 1;
    }
    assert(tokens@.take(tokens@.len() as int) =~= tokens@);
    ready
}

/// Takes the pending subscriptions whose track is advertised out, as pumps to start.
fn resolve_pending<Y>(
    pending: HashMap<Token, (String, Y)>,
    params: &Table<TrackParams>,
) -> (r: (HashMap<Token, (String, Y)>, Vec<Start<Y>>))
    requires
        params.wf(),
    ensures
        resolved_by(pending@, params_views(params@), r.0@, r.1@),
{
    let ghost all = pending@;
    let ghost catalog = params_views(params@);
    let ready = ready_tokens(&pending, params);
    let mut left = pending;
    let mut starts: Vec<Start<Y>> = Vec::new();
    let mut i: usize = 0;
    while i < ready.len()
        invariant
            i <= ready@.len(),
            params.wf(),
            catalog == params_views(params@),
            ready@.no_duplicates(),
            forall|t: Token| #[trigger] ready@.contains(t) <==> is_ready(all, catalog, t),
            starts@.len() == i,
            forall|j: int|
                0 <= j < i ==> (#[trigger] starts@[j]).token == ready@[j] && started_from(
                    all,
                    catalog,
                    starts@[j],
                ),
            forall|t: Token| #[trigger]
                left@.contains_key(t) <==> all.contains_key(t) && !ready@.take(
                    i as int,
                ).contains(t),
            forall|t: Token| #[trigger] left@.contains_key(t) ==> left@[t] == all[t],
        decreases ready@.len() - i,
    {
        let token: Token = ready[i];
        let ghost before = left@;
        proof {
            assert(ready@.contains(token));
            let seen = ready@.take(i as int);
            let more = ready@.take(i + 1);
            assert(more =~= seen.push(token));
            assert forall|t: Token| more.contains(t) <==> seen.contains(t) || t == token by {
                if seen.contains(t) {
                    assert(more[seen.index_of(t)] == t);
                }
                if t == token {
                    assert(more[i as int] == t);
                }
            }
            if seen.contains(token) {
                let j = seen.index_of(token);
                assert(ready@[j] == ready@[i as int]);
            }
            assert(before.contains_key(token));
        }
        match left.remove(&token) {
            Some((track, cancel)) => {
                assert(left@ =~= before.remove(token));
                match params.get(&track) {
                    Some(track_params) => {
                        let format = encode_format(track_params);
                        starts.push(Start { track, token, format, cancel });
                    },
                    None => {
                        assert(false);
                    },
                }
            },
            None => {
                assert(false);
            },
        }
        i = i + 1;
    }
    proof {
        assert(ready@.take(ready@.len() as int) =~= ready@);
        assert forall|t: Token| #[trigger]
            left@.contains_key(t) <==> all.contains_key(t) && !catalog.contains_key(
                all[t].0@,
            ) by {
            assert(ready@.contains(t) <==> is_ready(all, catalog, t));
        }
        assert forall|m: int, n: int| 0 <= m < n < starts@.len() implies (
        #[trigger] starts@[m]).token != (#[trigger] starts@[n]).token by {
            assert(ready@[m] != ready@[n]);
        }
        assert forall|t: Token| #[trigger]
            all.contains_key(t) && catalog.contains_key(all[t].0@) implies has_start(
            starts@,
            t,
        ) by {
            assert(is_ready(all, catalog, t));
            assert(ready@.contains(t));
            let j = ready@.index_of(t);
            assert(starts@[j].token == t);
        }
    }
    (left, starts)
}

/// What a catalog, its end or its failure comes to. An error is the reason to disconnect for.
pub open spec fn catalog_handled<X, Y, O, S>(
    snapshot: Result<Option<Catalog>, String>,
    before: LoopState<X, Y>,
    owner: O,
    send: S,
    told: O,
    result: Result<(LoopState<X, Y>, Vec<Start<Y>>), String>,
) -> bool where S: Fn(O, Message) -> (O, Result<(), PidDead>) {
    match snapshot {
        Err(reason) => told == owner && (result matches Err(e) && e@ == "catalog error: "@
            + reason@),
        Ok(None) => told == owner && (result matches Err(e) && e@ == "broadcast ended"@),
        Ok(Some(catalog)) => exists|params: Result<Table<TrackParams>, String>|
            {
                &&& #[trigger] catalog_updated(catalog@, before.params, owner, send, told, params)
                &&& match params {
                    Err(e) => result == Err::<(LoopState<X, Y>, Vec<Start<Y>>), String>(e),
                    Ok(params) => {
                        &&& result matches Ok((after, starts))
                        &&& after.params == params
                        &&& after.cancels == before.cancels
                        &&& resolved_by(
                            before.pending@,
                            after.advertised(),
                            after.pending@,
                            starts@,
                        )
                    },
                }
            },
    }
}

/// Takes over a new catalog, and starts the pending subscriptions whose track it advertises.
pub fn handle_new_catalog<X, Y, O, S>(
    snapshot: Result<Option<Catalog>, String>,
    state: LoopState<X, Y>,
    owner: O,
    send: &S,
) -> (r: (O, Result<(LoopState<X, Y>, Vec<Start<Y>>), String>)) where
    S: Fn(O, Message) -> (O, Result<(), PidDead>),

    requires
        state.wf(),
        forall|o: O, m: Message| call_requires(send, (o, m)),
    ensures
        catalog_handled(snapshot, state, owner, *send, r.0, r.1),
        r.1 matches Ok((after, _)) ==> after.wf(),
{
    let (owner, params) = match update_catalog(snapshot, &state.params, owner, send) {
        (owner, Ok(params)) => (owner, params),
        (owner, Err(e)) => return (owner, Err(e)),
    };
    let LoopState { params: _, cancels, pending } = state;
    let (pending, starts) = resolve_pending(pending, &params);
    (owner, Ok((LoopState { params, cancels, pending }, starts)))
}

/// What happens to a source.
#[derive(Debug)]
pub enum SessionEvent {
    /// A command, or the end of all commands.
    Command(Option<Command>),
    Shutdown,
    /// A pump came to its end.
    PumpDone,
    Catalog(Result<Option<Catalog>, String>),
    /// The session is over, gracefully or not.
    Closed(Result<(), String>),
}

/// How a source goes on.
pub enum SessionStep<X, Y> {
    /// With a new state: pumps to start, and one to cancel.
    Continue { state: LoopState<X, Y>, starts: Vec<Start<Y>>, cancel: Option<X> },
    /// It stops without a word.
    Stop,
    /// It tells the reason and stops.
    Disconnect { reason: String },
}

/// What one event of a source comes to. Only a catalog is told, by its differences: on every other
/// event the owner comes back as it was.
pub open spec fn event_handled<X, Y, O, Channel, S>(
    state: LoopState<X, Y>,
    event: SessionEvent,
    owner: O,
    channel: Channel,
    send: S,
    told: O,
    step: SessionStep<X, Y>,
) -> bool where
    Channel: FnOnce() -> (X, Y),
    S: Fn(O, Message) -> (O, Result<(), PidDead>),
 {
    match event {
        SessionEvent::Command(None) | SessionEvent::Shutdown => told == owner && step is Stop,
        SessionEvent::Command(Some(command)) => {
            &&& told == owner
            &&& step matches SessionStep::Continue { state: after, starts, cancel }
            &&& starts@.len() <= 1
            &&& command_handled(
                command,
                state,
                channel,
                after,
                if starts@.len() == 1 {
                    Some(starts@[0])
                } else {
                    None
                },
                cancel,
            )
        },
        SessionEvent::PumpDone => {
            &&& told == owner
            &&& step matches SessionStep::Continue { state: after, starts, cancel }
            &&& after == state
            &&& starts@ == Seq::<Start<Y>>::empty()
            &&& cancel is None
        },
        SessionEvent::Catalog(snapshot) => match step {
            SessionStep::Continue { state: after, starts, cancel } => {
                &&& cancel is None
                &&& catalog_handled(snapshot, state, owner, send, told, Ok((after, starts)))
            },
            SessionStep::Disconnect { reason } => catalog_handled(
                snapshot,
                state,
                owner,
                send,
                told,
                Err(reason),
            ),
            SessionStep::Stop => false,
        },
        SessionEvent::Closed(Ok(())) => {
            &&& told == owner
            &&& step matches SessionStep::Disconnect { reason }
            &&& reason@ == "session closed gracefully"@
        },
        SessionEvent::Closed(Err(e)) => {
            &&& told == owner
            &&& step matches SessionStep::Disconnect { reason }
            &&& reason@ == "session error: "@ + e@
        },
    }
}

/// Deals with one event of a source.
///
/// The owner stops it by a shutdown or by letting go of it, which is answered by silence. The
/// end of the catalog or of the session is a reason to disconnect, to be told last.
pub fn run_session<X, Y, O, Channel, S>(
    state: LoopState<X, Y>,
    event: SessionEvent,
    owner: O,
    channel: Channel,
    send: &S,
) -> (r: (O, SessionStep<X, Y>)) where
    Channel: FnOnce() -> (X, Y),
    S: Fn(O, Message) -> (O, Result<(), PidDead>),

    requires
        state.wf(),
        call_requires(channel, ()),
        forall|o: O, m: Message| call_requires(send, (o, m)),
    ensures
        r.1 matches SessionStep::Continue { state: after, .. } ==> after.wf(),
        event_handled(state, event, owner, channel, *send, r.0, r.1),
{
    match event {
        SessionEvent::Command(None) => (owner, SessionStep::Stop),
        SessionEvent::Shutdown => (owner, SessionStep::Stop),
        SessionEvent::Command(Some(command)) => {
            let (state, start, cancel) = handle_command(command, state, channel);
            let mut starts: Vec<Start<Y>> = Vec::new();
            if let Some(start) = start {
                starts.push(start);
            }
            (owner, SessionStep::Continue { state, starts, cancel })
        },
        SessionEvent::PumpDone => (
            owner,
            SessionStep::Continue { state, starts: Vec::new(), cancel: None },
        ),
        SessionEvent::Catalog(snapshot) => match handle_new_catalog(snapshot, state, owner, send) {
            (owner, Ok((state, starts))) => (
                owner,
                SessionStep::Continue { state, starts, cancel: None },
            ),
            (owner, Err(reason)) => (owner, SessionStep::Disconnect { reason }),
        },
        SessionEvent::Closed(Ok(())) => (
            owner,
            SessionStep::Disconnect { reason: "session closed gracefully".to_owned() },
        ),
        SessionEvent::Closed(Err(e)) => (
            owner,
            SessionStep::Disconnect { reason: "session error: ".to_owned().concat(e.as_str()) },
        ),
    }
}

/// Where the search for a broadcast stands.
pub enum Awaited<B> {
    Found(B),
    Waiting,
    /// Nothing more will be announced.
    Closed,
}

/// What an announcement means for the broadcast `name`.
pub open spec fn awaited<B>(
    name: Seq<char>,
    announced: Option<(String, Option<B>)>,
) -> Awaited<B> {
    match announced {
        None => Awaited::Closed,
        Some((path, Some(broadcast))) => if path@ == name {
            Awaited::Found(broadcast)
        } else {
            Awaited::Waiting
        },
        Some((_, None)) => Awaited::Waiting,
    }
}

/// What an announcement means for the broadcast `name`: only one under that name counts, and
/// only if it brings the broadcast, for a name can be withdrawn too.
pub fn await_broadcast<B>(name: &String, announced: Option<(String, Option<B>)>) -> (r: Awaited<B>)
    ensures
        r == awaited(name@, announced),
{
    match announced {
        None => Awaited::Closed,
        Some((path, broadcast)) => {
            if path == *name {
                match broadcast {
                    Some(broadcast) => return Awaited::Found(broadcast),
                    None => {},
                }
            }
            Awaited::Waiting
        },
    }
}

/// The broadcast that was searched for, if it was announced in time.
pub fn announced_broadcast<B>(name: &String, found: Option<B>) -> (r: Result<B, String>)
    ensures
        match found {
            Some(broadcast) => r == Ok::<B, String>(broadcast),
            None => r matches Err(e) && e@ == "broadcast "@ + debug_text(name@)
                + " was not announced before origin closed"@,
        },
{
    match found {
        Some(broadcast) => Ok(broadcast),
        None => Err(
            joined(
                "broadcast ",
                quoted(name.as_str()).as_str(),
                " was not announced before origin closed",
            ),
        ),
    }
}

/// What the subscription to the catalog comes to.
pub fn subscribe_catalog<T>(subscribed: Result<T, String>) -> (r: Result<T, String>)
    ensures
        match subscribed {
            Ok(track) => r == Ok::<T, String>(track),
            Err(reason) => r matches Err(e) && e@ == "subscribe_track(catalog) failed: "@ + reason@,
        },
{
    match subscribed {
        Ok(track) => Ok(track),
        Err(e) => Err("subscribe_track(catalog) failed: ".to_owned().concat(e.as_str())),
    }
}

/// Whether a pump was started: the owner was told the format of its track, then the pump was
/// handed to the tasks, and nothing else was done.
pub open spec fn pump_started<Y, O, P, S, Spawn>(
    start: Start<Y>,
    before: (O, P),
    send: S,
    spawn: Spawn,
    after: (O, P),
) -> bool where
    S: Fn(O, Message) -> (O, Result<(), PidDead>),
    Spawn: Fn(O, P, String, Token, Y) -> (O, P),
 {
    exists|mid: O, sent: Result<(), PidDead>|
        {
            &&& #[trigger] call_ensures(
                send,
                (before.0, Message::TrackFormat { token: start.token, format: start.format }),
                (mid, sent),
            )
            &&& call_ensures(
                spawn,
                (mid, before.1, start.track, start.token, start.cancel),
                after,
            )
        }
}

/// Whether the pumps were started in order: `course` is the owner and the tasks before the first,
/// and after each.
pub open spec fn pumps_started_along<Y, O, P, S, Spawn>(
    course: Seq<(O, P)>,
    starts: Seq<Start<Y>>,
    send: S,
    spawn: Spawn,
) -> bool where
    S: Fn(O, Message) -> (O, Result<(), PidDead>),
    Spawn: Fn(O, P, String, Token, Y) -> (O, P),
 {
    &&& course.len() == starts.len() + 1
    &&& forall|i: int|
        0 <= i < starts.len() ==> pump_started(
            #[trigger] starts[i],
            course[i],
            send,
            spawn,
            course[i + 1],
        )
}

/// Starts pumps, in order. The format of a track is told before its pump can pass a frame on.
///
/// `spawn` is given the owner, the tasks, and the track, the token and the cancellation of a pump.
pub fn start_pumps<Y, O, P, S, Spawn>(
    starts: Vec<Start<Y>>,
    owner: O,
    pumps: P,
    send: &S,
    spawn: &Spawn,
) -> (r: (O, P)) where
    S: Fn(O, Message) -> (O, Result<(), PidDead>),
    Spawn: Fn(O, P, String, Token, Y) -> (O, P),

    requires
        forall|o: O, m: Message| call_requires(send, (o, m)),
        forall|o: O, p: P, track: String, token: Token, cancel: Y|
            call_requires(spawn, (o, p, track, token, cancel)),
    ensures
        exists|course: Seq<(O, P)>|
            {
                &&& #[trigger] pumps_started_along(course, starts@, *send, *spawn)
                &&& course[0] == (owner, pumps)
                &&& course[starts@.len() as int] == r
            },
{
    let ghost all = starts@;
    let ghost mut course: Seq<(O, P)> = seq![(owner, pumps)];
    let mut rest = starts;
    let mut told = owner;
    let mut running = pumps;
    assert(rest@ =~= all.skip(0));
    while rest.len() > 0
        invariant
            all == starts@,
            forall|o: O, m: Message| call_requires(send, (o, m)),
            forall|o: O, p: P, track: String, token: Token, cancel: Y|
                call_requires(spawn, (o, p, track, token, cancel)),
            0 < course.len() <= all.len() + 1,
            rest@ == all.skip(course.len() - 1),
            pumps_started_along(course, all.take(course.len() - 1), *send, *spawn),
            course[0] == (owner, pumps),
            course[course.len() - 1] == (told, running),
        decreases rest@.len(),
    {
        let ghost k = course.len() - 1;
        let start = rest.remove(0);
        assert(start == all[k]);
        assert(all.skip(k).remove(0) =~= all.skip(k + 1));
        let ghost before = (told, running);
        let Start { track, token, format, cancel } = start;
        let (mid, sent) = send(told, Message::TrackFormat { token, format });
        let ghost heard = mid;
        let (next, tasks) = spawn(mid, running, track, token, cancel);
        told = next;
        running = tasks;
        proof {
            assert(call_ensures(
                *send,
                (before.0, Message::TrackFormat { token, format }),
                (heard, sent),
            ));
            assert(pump_started(all[k], before, *send, *spawn, (told, running)));
            let passed = course;
            course = passed.push((told, running));
            assert forall|i: int| 0 <= i < k + 1 implies pump_started(
                #[trigger] all.take(k + 1)[i],
                course[i],
                *send,
                *spawn,
                course[i + 1],
            ) by {
                if i < k {
                    assert(all.take(k)[i] == all.take(k + 1)[i]);
                }
            }
        }
    }
    assert(all.take(all.len() as int) =~= all);
    (told, running)
}

/// What a pump subscribes to: the track, and the priority to subscribe with.
pub fn track_request(track_name: &String) -> (r: (String, u8))
    ensures
        r == (*track_name, TRACK_PRIORITY),
{
    (track_name.clone(), TRACK_PRIORITY)
}

/// What the subscription to a track comes to.
pub fn pump_track<T>(track_name: &String, subscribed: Result<T, String>) -> (r: Result<T, String>)
    ensures
        match subscribed {
            Ok(track) => r == Ok::<T, String>(track),
            Err(reason) => r matches Err(e) && e@ == "subscribe_track("@ + track_name@
                + (") failed: "@ + reason@ + ""@),
        },
{
    match subscribed {
        Ok(track) => Ok(track),
        Err(e) => Err(
            joined(
                "subscribe_track(",
                track_name.as_str(),
                joined(") failed: ", e.as_str(), "").as_str(),
            ),
        ),
    }
}

/// What the answer of a read comes to: the frame is passed on, `None` says that the pump goes on.
/// Without a frame nothing is told.
pub fn pump_frames<O, S>(
    token: Token,
    read: Result<Option<Frame>, String>,
    owner: O,
    send: S,
) -> (r: (O, Option<Result<(), String>>)) where
    S: FnOnce(O, Message) -> (O, Result<(), PidDead>),

    requires
        forall|m: Message| call_requires(send, (owner, m)),
    ensures
        match read {
            Err(e) => r.0 == owner && r.1 == Some(Err::<(), String>(e)),
            Ok(None) => r.0 == owner && r.1 == Some(Ok::<(), String>(())),
            Ok(Some(frame)) => exists|told: O, sent: Result<(), PidDead>|
                {
                    &&& #[trigger] call_ensures(
                        send,
                        (owner, frame_message(token, frame)),
                        (told, sent),
                    )
                    &&& r.0 == told
                    &&& match sent {
                        Ok(()) => r.1 is None,
                        Err(_) => r.1 matches Some(Err(e)) && e@ == "subscriber pid is dead"@,
                    }
                },
        },
{
    match read {
        Err(e) => (owner, Some(Err(e))),
        Ok(None) => (owner, Some(Ok(()))),
        Ok(Some(frame)) => match send_frame(owner, token, frame, send) {
            (owner, Ok(())) => (owner, None),
            (owner, Err(_)) => (owner, Some(Err("subscriber pid is dead".to_owned()))),
        },
    }
}

/// What a pump tells at its end: nothing if it was cancelled, else why the track ended.
pub fn run_pump(token: Token, result: Option<Result<(), String>>) -> (r: Option<Message>)
    ensures
        match result {
            None => r is None,
            Some(Ok(())) => r matches Some(Message::TrackEnded { token: t, reason }) && t == token
                && reason@ == "track ended"@,
            Some(Err(e)) => r matches Some(Message::TrackEnded { token: t, reason }) && t == token
                && reason@ == "track error: "@ + e@,
        },
{
    match result {
        None => None,
        Some(Ok(())) => Some(Message::TrackEnded { token, reason: "track ended".to_owned() }),
        Some(Err(e)) => Some(
            Message::TrackEnded { token, reason: "track error: ".to_owned().concat(e.as_str()) },
        ),
    }
}

/// The owner's end of a source. `Q` takes its commands, `H` its shutdown.
pub struct SubscriberResource<Q, H> {
    pub commands: Q,
    pub shutdown: H,
}

/// Starts a source for the server at `url`. A text that is no URL is refused, and starts nothing:
/// the runtime comes back as it was.
pub fn start_subscriber<T, R, Spawn>(runtime: T, url: &str, latency_ns: u64, spawn: Spawn) -> (r: (
    T,
    Result<R, NifError>,
)) where Spawn: FnOnce(T, String, u64) -> (T, R)
    requires
        forall|url: String| call_requires(spawn, (runtime, url, latency_ns)),
    ensures
        match url_verdict(url@) {
            Ok(parsed) => exists|text: String, after: T, resource: R|
                {
                    &&& text@ == parsed
                    &&& #[trigger] call_ensures(
                        spawn,
                        (runtime, text, latency_ns),
                        (after, resource),
                    )
                    &&& r.0 == after
                    &&& r.1 == Ok::<R, NifError>(resource)
                },
            Err(e) => r.0 == runtime && (r.1 matches Err(fault) && fault@ == FaultView::Text(
                "invalid url: "@ + e,
            )),
        },
{
    match session_url(parse_url(url)) {
        Ok(url) => {
            let (runtime, resource) = spawn(runtime, url, latency_ns);
            (runtime, Ok(resource))
        },
        Err(fault) => (runtime, Err(fault)),
    }
}

/// What a source tells once its session has ended: a failure on the way there, or nothing.
pub fn session_ended(result: Result<(), String>) -> (r: Option<Message>)
    ensures
        r == (match result {
            Ok(()) => None,
            Err(reason) => Some(Message::SetupFailed { reason }),
        }),
{
    match result {
        Ok(()) => None,
        Err(reason) => Some(Message::SetupFailed { reason }),
    }
}

impl<Q, H> SubscriberResource<Q, H> {
    /// Asks for a track. The answer is `ok` in any case.
    pub fn subscribe_track<Push>(&self, track: String, token: Token, push: Push) -> (r: Atom) where
        Push: FnOnce(&Q, Command) -> Result<(), Closed>,

        requires
            forall|c: Command| call_requires(push, (&self.commands, c)),
        ensures
            r == Atom::Done,
            exists|pushed: Result<(), Closed>| #[trigger]
                call_ensures(
                    push,
                    (&self.commands, Command::Subscribe { track, token }),
                    pushed,
                ),
    {
        let _ = push(&self.commands, Command::Subscribe { track, token });
        Atom::Done
    }

    /// Gives a track up. The answer is `ok` in any case.
    pub fn unsubscribe_track<Push>(&self, token: Token, push: Push) -> (r: Atom) where
        Push: FnOnce(&Q, Command) -> Result<(), Closed>,

        requires
            forall|c: Command| call_requires(push, (&self.commands, c)),
        ensures
            r == Atom::Done,
            exists|pushed: Result<(), Closed>| #[trigger]
                call_ensures(push, (&self.commands, Command::Unsubscribe { token }), pushed),
    {
        let _ = push(&self.commands, Command::Unsubscribe { token });
        Atom::Done
    }

    /// Stops the source. The answer is `ok` in any case.
    pub fn stop_subscriber<Push>(&self, push: Push) -> (r: Atom) where
        Push: FnOnce(&H) -> Result<(), Closed>,

        requires
            call_requires(push, (&self.shutdown,)),
        ensures
            r == Atom::Done,
            exists|pushed: Result<(), Closed>| #[trigger]
                call_ensures(push, (&self.shutdown,), pushed),
    {
        let _ = push(&self.shutdown);
        Atom::Done
    }
}

/// A track is listed as differing if and only if it is listed and the other catalog does not have it
/// with the same parameters.
pub proof fn lemma_differing(
    tracks: Seq<(Seq<char>, ParamsView)>,
    other: Map<Seq<char>, ParamsView>,
    track: (Seq<char>, ParamsView),
)
    ensures
        differing(tracks, other).contains(track) <==> tracks.contains(track) && !has_same(
            other,
            track.0,
            track.1,
        ),
    decreases tracks.len(),
{
    if tracks.len() > 0 {
        let head = tracks.drop_last();
        let last = tracks.last();
        lemma_differing(head, other, track);
        assert(tracks =~= head.push(last));
        assert(tracks.contains(track) <==> head.contains(track) || track == last) by {
            if head.contains(track) {
                let i = head.index_of(track);
                assert(tracks[i] == track);
            }
            if track == last {
                assert(tracks[tracks.len() - 1] == track);
            }
        }
        let rest = differing(head, other);
        assert(rest.push(last).contains(track) <==> rest.contains(track) || track == last) by {
            if rest.contains(track) {
                let i = rest.index_of(track);
                assert(rest.push(last)[i] == track);
            }
            if track == last {
                assert(rest.push(last)[rest.len() as int] == track);
            }
        }
    }
}

/// Whoever keeps the set of advertised tracks by the messages has the set of the new catalog
/// after them: a track is told as gone, or as come, exactly if it was there, or is there, and the
/// other catalog does not have it with equal parameters.
pub proof fn law_changes_lead_to_the_new_catalog(
    old_tracks: Seq<(Seq<char>, ParamsView)>,
    new_tracks: Seq<(Seq<char>, ParamsView)>,
    name: Seq<char>,
)
    requires
        distinct_names(old_tracks),
        distinct_names(new_tracks),
    ensures
        ({
            let gone = differing(old_tracks, by_name(new_tracks));
            let come = differing(new_tracks, by_name(old_tracks));
            let was = by_name(old_tracks).contains_key(name);
            let removed = exists|p: ParamsView| #[trigger] gone.contains((name, p));
            let added = exists|p: ParamsView| #[trigger] come.contains((name, p));
            by_name(new_tracks).contains_key(name) <==> (was && !removed) || added
        }),
{
    let old_catalog = by_name(old_tracks);
    let new_catalog = by_name(new_tracks);
    let gone = differing(old_tracks, new_catalog);
    let come = differing(new_tracks, old_catalog);
    if new_catalog.contains_key(name) {
        lemma_by_name_bounded(new_tracks, name);
        let i = choose|i: int|
            0 <= i < new_tracks.len() && (#[trigger] new_tracks[i]).0 == name && new_tracks[i].1
                == new_catalog[name];
        let p = new_tracks[i].1;
        assert(new_tracks.contains((name, p))) by {
            assert(new_tracks[i] == (name, p));
        }
        lemma_differing(new_tracks, old_catalog, (name, p));
        if !come.contains((name, p)) {
            // The old catalog has it with equal parameters, so it is not told as gone.
            assert(has_same(old_catalog, name, p));
            lemma_by_name_bounded(old_tracks, name);
            assert forall|q: ParamsView| !#[trigger] gone.contains((name, q)) by {
                lemma_differing(old_tracks, new_catalog, (name, q));
                if gone.contains((name, q)) {
                    let j = old_tracks.index_of((name, q));
                    let k = choose|k: int|
                        0 <= k < old_tracks.len() && (#[trigger] old_tracks[k]).0 == name
                            && old_tracks[k].1 == old_catalog[name];
                    assert(j == k);
                    assert(params_equal(q, p));
                    assert(params_equal(p, q));
                }
            }
        }
    } else {
        assert forall|q: ParamsView| !#[trigger] come.contains((name, q)) by {
            lemma_differing(new_tracks, old_catalog, (name, q));
            if come.contains((name, q)) {
                let j = new_tracks.index_of((name, q));
                lemma_by_name_contains(new_tracks, j);
            }
        }
        if old_catalog.contains_key(name) {
            lemma_by_name_bounded(old_tracks, name);
            let i = choose|i: int|
                0 <= i < old_tracks.len() && (#[trigger] old_tracks[i]).0 == name
                    && old_tracks[i].1 == old_catalog[name];
            let p = old_tracks[i].1;
            assert(old_tracks.contains((name, p))) by {
                assert(old_tracks[i] == (name, p));
            }
            lemma_differing(old_tracks, new_catalog, (name, p));
            assert(gone.contains((name, p)));
        }
    }
}

/// A catalog that says the same as the last one, with no frame rate that is not a number, tells
/// nothing.
pub proof fn law_same_catalog_tells_nothing(tracks: Seq<(Seq<char>, ParamsView)>)
    requires
        distinct_names(tracks),
        forall|i: int|
            0 <= i < tracks.len() ==> ((#[trigger] tracks[i]).1 matches ParamsView::Video {
                params,
                ..
            } ==> !params.framerate.is_nan()),
    ensures
        differing(tracks, by_name(tracks)).len() == 0,
{
    let all = by_name(tracks);
    if differing(tracks, all).len() > 0 {
        let track = differing(tracks, all)[0];
        assert(differing(tracks, all).contains(track));
        lemma_differing(tracks, all, track);
        let i = tracks.index_of(track);
        lemma_by_name_contains(tracks, i);
        lemma_by_name_bounded(tracks, track.0);
        let k = choose|k: int|
            0 <= k < tracks.len() && (#[trigger] tracks[k]).0 == track.0 && tracks[k].1
                == all[track.0];
        assert(i == k);
        assert(params_equal(tracks[i].1, tracks[i].1));
    }
}

proof fn lemma_same_tells_nothing(
    tracks: Seq<(Seq<char>, ParamsView)>,
    catalog: Map<Seq<char>, ParamsView>,
)
    requires
        distinct_names(tracks),
        by_name(tracks) == catalog,
        no_nan(catalog),
    ensures
        differing(tracks, catalog).len() == 0,
{
    assert forall|i: int| 0 <= i < tracks.len() implies (
    (#[trigger] tracks[i]).1 matches ParamsView::Video { params, .. }
        ==> !params.framerate.is_nan()) by {
        lemma_by_name_contains(tracks, i);
        lemma_by_name_bounded(tracks, tracks[i].0);
        let k = choose|k: int|
            0 <= k < tracks.len() && (#[trigger] tracks[k]).0 == tracks[i].0 && tracks[k].1
                == catalog[tracks[i].0];
        assert(i == k);
    }
    law_same_catalog_tells_nothing(tracks);
}

/// Whether no frame rate of the catalog is not a number.
pub open spec fn no_nan(catalog: Map<Seq<char>, ParamsView>) -> bool {
    forall|name: Seq<char>| #[trigger]
        catalog.contains_key(name) ==> (catalog[name] matches ParamsView::Video { params, .. }
            ==> !params.framerate.is_nan())
}

/// Taking over a catalog that says the same as the last one, with no frame rate that is not a
/// number, succeeds in silence.
pub proof fn law_unchanged_catalog_is_taken_over_in_silence<O, S>(
    catalog: CatalogView,
    old_catalog: Table<TrackParams>,
    owner: O,
    send: S,
    after: O,
    result: Result<Table<TrackParams>, String>,
) where S: Fn(O, Message) -> (O, Result<(), PidDead>)
    requires
        old_catalog.wf(),
        params_views(old_catalog@) == by_name(params_list(catalog)),
        no_nan(params_views(old_catalog@)),
        catalog_updated(catalog, old_catalog, owner, send, after, result),
    ensures
        after == owner,
        result is Ok,
{
    let old_views = params_views(old_catalog@);
    let (new_tracks, changes, sent) = choose|
        new_tracks: Seq<(Seq<char>, ParamsView)>,
        changes: Seq<Change>,
        sent: Result<(), PidDead>,
    |
        {
            &&& distinct_names(new_tracks)
            &&& by_name(new_tracks) == by_name(params_list(catalog))
            &&& changes_view(changes) == #[trigger] change_list(
                pairs(old_catalog.entries()),
                new_tracks,
                params_views(old_catalog@),
                by_name(params_list(catalog)),
            )
            &&& #[trigger] delivered(owner, changes, send, after, sent)
            &&& match sent {
                Ok(()) => result matches Ok(params) && params.wf() && params_views(params@)
                    == by_name(params_list(catalog)),
                Err(_) => result matches Err(e) && e@ == "subscriber pid is dead"@,
            }
        };
    let f = |params: TrackParams| params@;
    old_catalog.lemma_entries_by_name(f);
    assert(mapped(old_catalog.entries(), f) =~= pairs(old_catalog.entries()));
    old_catalog.lemma_distinct();
    lemma_pairs_distinct(old_catalog.entries());
    lemma_same_tells_nothing(pairs(old_catalog.entries()), old_views);
    lemma_same_tells_nothing(new_tracks, old_views);
    assert(changes_view(changes).len() == 0);
    assert(changes.len() == 0);
}

/// A pump starts only for a track that the latest catalog advertises, and with the format that
/// it advertises: at once if the catalog had it, else with the catalog that brings it.
pub proof fn law_pump_starts_when_advertised<X, Y, O, Channel, S>(
    command: Command,
    snapshot: Result<Option<Catalog>, String>,
    before: LoopState<X, Y>,
    channel: Channel,
    owner: O,
    send: S,
    told: O,
    after: LoopState<X, Y>,
    start: Option<Start<Y>>,
    cancel: Option<X>,
    starts: Vec<Start<Y>>,
) where Channel: FnOnce() -> (X, Y), S: Fn(O, Message) -> (O, Result<(), PidDead>)
    ensures
        command_handled(command, before, channel, after, start, cancel) ==> (start matches Some(
            s,
        ) ==> after.advertised().contains_key(s.track@) && s.format@
            == after.advertised()[s.track@]),
        catalog_handled(snapshot, before, owner, send, told, Ok((after, starts))) ==> forall|i: int|
            0 <= i < starts@.len() ==> after.advertised().contains_key(
                (#[trigger] starts@[i]).track@,
            ) && starts@[i].format@ == after.advertised()[starts@[i].track@],
{
}

/// A subscription that is given up does not start any more.
pub proof fn law_unsubscribed_does_not_start<X, Y, Channel>(
    token: Token,
    before: LoopState<X, Y>,
    channel: Channel,
    after: LoopState<X, Y>,
    start: Option<Start<Y>>,
    cancel: Option<X>,
    catalog: Map<Seq<char>, ParamsView>,
    left: Map<Token, (String, Y)>,
    starts: Seq<Start<Y>>,
) where Channel: FnOnce() -> (X, Y)
    requires
        command_handled(
            Command::Unsubscribe { token },
            before,
            channel,
            after,
            start,
            cancel,
        ),
        resolved_by(after.pending@, catalog, left, starts),
    ensures
        start is None,
        !has_start(starts, token),
        before.cancels@.contains_key(token) ==> cancel == Some(before.cancels@[token]),
{
    if has_start(starts, token) {
        let i = choose|i: int| 0 <= i < starts.len() && (#[trigger] starts[i]).token == token;
        assert(started_from(after.pending@, catalog, starts[i]));
    }
}

} // verus!
