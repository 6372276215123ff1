//! What a catalog advertises, and how two catalogs differ.

use vstd::prelude::*;

use crate::broadcast_consumer::{advertised_containers, container_list, container_views};
use crate::laws::formats::{
    format_tells, params_of_audio, params_of_video, same_container, same_params,
};
use crate::membrane::messages::Message;
use crate::membrane::subscriber::{
    catalog_changes, catalog_params, catalog_updated, change_list, changes_view, delivered,
    differing, distinct_names, has_same, lemma_differing, lemma_pairs_distinct, pairs, params_list,
    params_views, send_changes, told_along, told_in_order, update_catalog, Change, ChangeView,
};
use crate::membrane::track_format::{
    audio_params_of, params_equal, video_params_of, ParamsView, TrackParams,
};
use crate::messages::{Catalog, PidDead};
use crate::table::{by_name, lemma_by_name_bounded, mapped, Table};
use crate::track_format::{CatalogContainer, ContainerView};

verus! {

/// The last of the pairs with a name is the one that counts.
pub proof fn lemma_last_pair_counts<V>(pairs: Seq<(Seq<char>, V)>, i: int)
    requires
        0 <= i < pairs.len(),
        forall|j: int| i < j < pairs.len() ==> (#[trigger] pairs[j]).0 != pairs[i].0,
    ensures
        by_name(pairs).contains_key(pairs[i].0),
        by_name(pairs)[pairs[i].0] == pairs[i].1,
    decreases pairs.len(),
{
    if i < pairs.len() - 1 {
        let head = pairs.drop_last();
        assert forall|j: int| i < j < head.len() implies (#[trigger] head[j]).0 != head[i].0 by {
            assert(head[j] == pairs[j]);
        }
        lemma_last_pair_counts(head, i);
        assert(pairs.last().0 != pairs[i].0);
    }
}

/// Whether a video is the last rendition of its name.
pub open spec fn last_video(catalog: Catalog, i: int) -> bool {
    let name = catalog.videos@[i].0@;
    &&& 0 <= i < catalog.videos@.len()
    &&& forall|j: int|
        i < j < catalog.videos@.len() ==> (#[trigger] catalog.videos@[j]).0@ != name
    &&& forall|j: int|
        0 <= j < catalog.audios@.len() ==> (#[trigger] catalog.audios@[j]).0@ != name
}

/// Whether an audio is the last rendition of its name.
pub open spec fn last_audio(catalog: Catalog, i: int) -> bool {
    let name = catalog.audios@[i].0@;
    &&& 0 <= i < catalog.audios@.len()
    &&& forall|j: int|
        i < j < catalog.audios@.len() ==> (#[trigger] catalog.audios@[j]).0@ != name
}

/// Whether a catalog has a rendition of the name.
pub open spec fn has_rendition(catalog: Catalog, name: Seq<char>) -> bool {
    ||| exists|i: int|
        0 <= i < catalog.videos@.len() && (#[trigger] catalog.videos@[i]).0@ == name
    ||| exists|i: int|
        0 <= i < catalog.audios@.len() && (#[trigger] catalog.audios@[i]).0@ == name
}

/// Whether the containers are those of a catalog: each rendition stands under its name with its
/// own container, the last one where several have the name, and nothing else does.
pub open spec fn advertises(
    containers: Map<Seq<char>, CatalogContainer>,
    catalog: Catalog,
) -> bool {
    &&& forall|i: int| #[trigger]
        last_video(catalog, i) ==> containers.contains_key(catalog.videos@[i].0@)
            && same_container(
            containers[catalog.videos@[i].0@],
            catalog.videos@[i].1.container,
        )
    &&& forall|i: int| #[trigger]
        last_audio(catalog, i) ==> containers.contains_key(catalog.audios@[i].0@)
            && same_container(
            containers[catalog.audios@[i].0@],
            catalog.audios@[i].1.container,
        )
    &&& forall|name: Seq<char>| #[trigger]
        containers.contains_key(name) ==> has_rendition(catalog, name)
}

/// Whether a list holds the containers of a catalog's renditions, first the videos, then the
/// audios.
pub open spec fn lists(all: Seq<(Seq<char>, ContainerView)>, catalog: Catalog) -> bool {
    &&& all.len() == catalog.videos@.len() + catalog.audios@.len()
    &&& forall|i: int|
        #![trigger catalog.videos@[i]]
        0 <= i < catalog.videos@.len() ==> {
            &&& all[i].0 == catalog.videos@[i].0@
            &&& all[i].1 == catalog.videos@[i].1.container@
        }
    &&& forall|i: int|
        #![trigger catalog.audios@[i]]
        0 <= i < catalog.audios@.len() ==> {
            &&& all[catalog.videos@.len() + i].0 == catalog.audios@[i].0@
            &&& all[catalog.videos@.len() + i].1 == catalog.audios@[i].1.container@
        }
}

proof fn lemma_lists(catalog: Catalog)
    ensures
        lists(container_list(catalog@), catalog),
{
}

proof fn lemma_advertises_video(
    containers: Map<Seq<char>, CatalogContainer>,
    all: Seq<(Seq<char>, ContainerView)>,
    catalog: Catalog,
    i: int,
)
    requires
        container_views(containers) == by_name(all),
        lists(all, catalog),
        last_video(catalog, i),
    ensures
        containers.contains_key(catalog.videos@[i].0@),
        same_container(containers[catalog.videos@[i].0@], catalog.videos@[i].1.container),
{
    let videos = catalog.videos@.len() as int;
    let name = catalog.videos@[i].0@;
    assert forall|j: int| i < j < all.len() implies (#[trigger] all[j]).0 != name by {
        if j < videos {
            assert(catalog.videos@[j].0@ != name);
        } else {
            assert(catalog.audios@[j - videos].0@ != name);
        }
    }
    lemma_last_pair_counts(all, i);
    assert(container_views(containers).contains_key(name));
    assert(container_views(containers)[name] == containers[name]@);
}

proof fn lemma_advertises_audio(
    containers: Map<Seq<char>, CatalogContainer>,
    all: Seq<(Seq<char>, ContainerView)>,
    catalog: Catalog,
    i: int,
)
    requires
        container_views(containers) == by_name(all),
        lists(all, catalog),
        last_audio(catalog, i),
    ensures
        containers.contains_key(catalog.audios@[i].0@),
        same_container(containers[catalog.audios@[i].0@], catalog.audios@[i].1.container),
{
    let videos = catalog.videos@.len() as int;
    let name = catalog.audios@[i].0@;
    assert forall|j: int| videos + i < j < all.len() implies (#[trigger] all[j]).0 != name by {
        assert(catalog.audios@[j - videos].0@ != name);
    }
    lemma_last_pair_counts(all, videos + i);
    assert(container_views(containers).contains_key(name));
    assert(container_views(containers)[name] == containers[name]@);
}

proof fn lemma_advertises_no_other(
    containers: Map<Seq<char>, CatalogContainer>,
    all: Seq<(Seq<char>, ContainerView)>,
    catalog: Catalog,
    name: Seq<char>,
)
    requires
        container_views(containers) == by_name(all),
        lists(all, catalog),
        containers.contains_key(name),
    ensures
        has_rendition(catalog, name),
{
    let videos = catalog.videos@.len() as int;
    assert(container_views(containers).contains_key(name));
    lemma_by_name_bounded(all, name);
    let i = choose|i: int| 0 <= i < all.len() && (#[trigger] all[i]).0 == name && all[i].1
        == by_name(all)[name];
    if i < videos {
        assert(catalog.videos@[i].0@ == name);
    } else {
        assert(catalog.audios@[i - videos].0@ == name);
    }
}

/// Containers that read as those of a catalog are those of the catalog.
pub proof fn lemma_advertises(containers: Map<Seq<char>, CatalogContainer>, catalog: Catalog)
    requires
        container_views(containers) == by_name(container_list(catalog@)),
    ensures
        advertises(containers, catalog),
{
    let all = container_list(catalog@);
    lemma_lists(catalog);
    assert forall|i: int| #[trigger] last_video(catalog, i) implies containers.contains_key(
        catalog.videos@[i].0@,
    ) && same_container(containers[catalog.videos@[i].0@], catalog.videos@[i].1.container) by {
        lemma_advertises_video(containers, all, catalog, i);
    }
    assert forall|i: int| #[trigger] last_audio(catalog, i) implies containers.contains_key(
        catalog.audios@[i].0@,
    ) && same_container(containers[catalog.audios@[i].0@], catalog.audios@[i].1.container) by {
        lemma_advertises_audio(containers, all, catalog, i);
    }
    assert forall|name: Seq<char>| #[trigger] containers.contains_key(name) implies has_rendition(
        catalog,
        name,
    ) by {
        lemma_advertises_no_other(containers, all, catalog, name);
    }
}

/// Each rendition that a catalog names, video or audio, is advertised with its own container.
pub proof fn law_renditions_keep_their_containers(catalog: Catalog, r: Table<CatalogContainer>)
    requires
        call_ensures(advertised_containers, (&catalog,), r),
    ensures
        advertises(r@, catalog),
{
    lemma_advertises(r@, catalog);
}

/// Whether a list holds the parameters of a catalog's renditions, first the videos, then the
/// audios.
pub open spec fn lists_params(all: Seq<(Seq<char>, ParamsView)>, catalog: Catalog) -> bool {
    &&& all.len() == catalog.videos@.len() + catalog.audios@.len()
    &&& forall|i: int|
        #![trigger catalog.videos@[i]]
        0 <= i < catalog.videos@.len() ==> {
            &&& all[i].0 == catalog.videos@[i].0@
            &&& all[i].1 == video_params_of(catalog.videos@[i].1@)
        }
    &&& forall|i: int|
        #![trigger catalog.audios@[i]]
        0 <= i < catalog.audios@.len() ==> {
            &&& all[catalog.videos@.len() + i].0 == catalog.audios@[i].0@
            &&& all[catalog.videos@.len() + i].1 == audio_params_of(catalog.audios@[i].1@)
        }
}

proof fn lemma_lists_params(catalog: Catalog)
    ensures
        lists_params(params_list(catalog@), catalog),
{
}

/// Whether parameters are what the last rendition of a name says.
pub open spec fn says(catalog: Catalog, name: Seq<char>, params: TrackParams) -> bool {
    ||| exists|i: int| #[trigger]
        last_video(catalog, i) && catalog.videos@[i].0@ == name && params_of_video(
            params,
            catalog.videos@[i].1,
        )
    ||| exists|i: int| #[trigger]
        last_audio(catalog, i) && catalog.audios@[i].0@ == name && params_of_audio(
            params,
            catalog.audios@[i].1,
        )
}

proof fn lemma_video_view(params: TrackParams, entry: crate::track_format::VideoConfig)
    ensures
        params_of_video(params, entry) <==> params@ == video_params_of(entry@),
{
    if params_of_video(params, entry) {
        match params {
            TrackParams::Video { params: p, description, codec } => {
                if description@.len() == 0 {
                    assert(description@ =~= Seq::<u8>::empty());
                }
                assert(params@ == video_params_of(entry@));
            },
            _ => {},
        }
    }
}

proof fn lemma_audio_view(params: TrackParams, entry: crate::track_format::AudioConfig)
    ensures
        params_of_audio(params, entry) <==> params@ == audio_params_of(entry@),
{
}

proof fn lemma_says_video(
    all: Seq<(Seq<char>, ParamsView)>,
    catalog: Catalog,
    i: int,
)
    requires
        lists_params(all, catalog),
        last_video(catalog, i),
    ensures
        by_name(all).contains_key(catalog.videos@[i].0@),
        by_name(all)[catalog.videos@[i].0@] == video_params_of(catalog.videos@[i].1@),
{
    let videos = catalog.videos@.len() as int;
    let name = catalog.videos@[i].0@;
    assert forall|j: int| i < j < all.len() implies (#[trigger] all[j]).0 != name by {
        if j < videos {
            assert(catalog.videos@[j].0@ != name);
        } else {
            assert(catalog.audios@[j - videos].0@ != name);
        }
    }
    lemma_last_pair_counts(all, i);
}

proof fn lemma_says_audio(
    all: Seq<(Seq<char>, ParamsView)>,
    catalog: Catalog,
    i: int,
)
    requires
        lists_params(all, catalog),
        last_audio(catalog, i),
    ensures
        by_name(all).contains_key(catalog.audios@[i].0@),
        by_name(all)[catalog.audios@[i].0@] == audio_params_of(catalog.audios@[i].1@),
{
    let videos = catalog.videos@.len() as int;
    let name = catalog.audios@[i].0@;
    assert forall|j: int| videos + i < j < all.len() implies (#[trigger] all[j]).0 != name by {
        assert(catalog.audios@[j - videos].0@ != name);
    }
    lemma_last_pair_counts(all, videos + i);
}

proof fn lemma_says(catalog: Catalog, name: Seq<char>, params: TrackParams)
    requires
        says(catalog, name, params),
    ensures
        by_name(params_list(catalog@)).contains_key(name),
        by_name(params_list(catalog@))[name] == params@,
{
    let all = params_list(catalog@);
    lemma_lists_params(catalog);
    if exists|i: int| #[trigger]
        last_video(catalog, i) && catalog.videos@[i].0@ == name && params_of_video(
            params,
            catalog.videos@[i].1,
        ) {
        let i = choose|i: int| #[trigger]
            last_video(catalog, i) && catalog.videos@[i].0@ == name && params_of_video(
                params,
                catalog.videos@[i].1,
            );
        lemma_says_video(all, catalog, i);
        lemma_video_view(params, catalog.videos@[i].1);
    } else {
        let i = choose|i: int| #[trigger]
            last_audio(catalog, i) && catalog.audios@[i].0@ == name && params_of_audio(
                params,
                catalog.audios@[i].1,
            );
        lemma_says_audio(all, catalog, i);
        lemma_audio_view(params, catalog.audios@[i].1);
    }
}

proof fn lemma_params_have_a_rendition(catalog: Catalog, name: Seq<char>)
    requires
        by_name(params_list(catalog@)).contains_key(name),
    ensures
        has_rendition(catalog, name),
{
    let all = params_list(catalog@);
    let videos = catalog.videos@.len() as int;
    lemma_lists_params(catalog);
    lemma_by_name_bounded(all, name);
    let i = choose|i: int| 0 <= i < all.len() && (#[trigger] all[i]).0 == name && all[i].1
        == by_name(all)[name];
    if i < videos {
        assert(catalog.videos@[i].0@ == name);
    } else {
        assert(catalog.audios@[i - videos].0@ == name);
    }
}

/// Whether the parameters are those of a catalog: each rendition stands under its name with what it
/// says itself, the last one where several have the name, and nothing else does.
pub open spec fn tells_params(params: Map<Seq<char>, TrackParams>, catalog: Catalog) -> bool {
    &&& forall|i: int| #[trigger]
        last_video(catalog, i) ==> params.contains_key(catalog.videos@[i].0@) && params_of_video(
            params[catalog.videos@[i].0@],
            catalog.videos@[i].1,
        )
    &&& forall|i: int| #[trigger]
        last_audio(catalog, i) ==> params.contains_key(catalog.audios@[i].0@) && params_of_audio(
            params[catalog.audios@[i].0@],
            catalog.audios@[i].1,
        )
    &&& forall|name: Seq<char>| #[trigger]
        params.contains_key(name) ==> has_rendition(catalog, name)
}

/// Parameters that read as those of a catalog are those of the catalog.
pub proof fn lemma_tells_params(params: Map<Seq<char>, TrackParams>, catalog: Catalog)
    requires
        params_views(params) == by_name(params_list(catalog@)),
    ensures
        tells_params(params, catalog),
{
    let all = params_list(catalog@);
    lemma_lists_params(catalog);
    assert forall|i: int| #[trigger] last_video(catalog, i) implies params.contains_key(
        catalog.videos@[i].0@,
    ) && params_of_video(params[catalog.videos@[i].0@], catalog.videos@[i].1) by {
        lemma_says_video(all, catalog, i);
        let name = catalog.videos@[i].0@;
        assert(params_views(params).contains_key(name));
        assert(params_views(params)[name] == params[name]@);
        lemma_video_view(params[name], catalog.videos@[i].1);
    }
    assert forall|i: int| #[trigger] last_audio(catalog, i) implies params.contains_key(
        catalog.audios@[i].0@,
    ) && params_of_audio(params[catalog.audios@[i].0@], catalog.audios@[i].1) by {
        lemma_says_audio(all, catalog, i);
        let name = catalog.audios@[i].0@;
        assert(params_views(params).contains_key(name));
        assert(params_views(params)[name] == params[name]@);
        lemma_audio_view(params[name], catalog.audios@[i].1);
    }
    assert forall|name: Seq<char>| #[trigger] params.contains_key(name) implies has_rendition(
        catalog,
        name,
    ) by {
        assert(params_views(params).contains_key(name));
        lemma_params_have_a_rendition(catalog, name);
    }
}

/// Each rendition that a catalog names, video or audio, is read as what it says itself.
pub proof fn law_renditions_keep_their_params(catalog: Catalog, r: Table<TrackParams>)
    requires
        call_ensures(catalog_params, (&catalog,), r),
    ensures
        tells_params(r@, catalog),
{
    lemma_tells_params(r@, catalog);
}

proof fn lemma_same_params(a: TrackParams, b: TrackParams)
    ensures
        same_params(a, b) <==> params_equal(a@, b@),
        same_params(a, b) <==> same_params(b, a),
{
}

proof fn lemma_format_tells(format: crate::membrane::track_format::TrackFormat, params: TrackParams)
    ensures
        format@ == params@ ==> format_tells(format, params),
{
}

/// Whether a list of changes leads from tracks that were there to tracks that are there: it names
/// as gone, and as come, each once, exactly the tracks that the other side does not have with the
/// same parameters, first all that are gone; what has come is told with its own format. The tracks
/// that are there are given by name, and by which parameters `is` theirs.
pub open spec fn leads_to(
    changes: Seq<Change>,
    before: Map<Seq<char>, TrackParams>,
    there: spec_fn(Seq<char>) -> bool,
    is: spec_fn(Seq<char>, TrackParams) -> bool,
) -> bool {
    &&& forall|i: int, j: int|
        0 <= i < j < changes.len() ==> match (#[trigger] changes[i], #[trigger] changes[j]) {
            (Change::Removed(a), Change::Removed(b)) => a@ != b@,
            (Change::Added(a, _), Change::Added(b, _)) => a@ != b@,
            (Change::Removed(_), Change::Added(_, _)) => true,
            (Change::Added(_, _), Change::Removed(_)) => false,
        }
    &&& forall|i: int|
        0 <= i < changes.len() ==> (#[trigger] changes[i] matches Change::Added(name, format) ==> {
            &&& there(name@)
            &&& forall|params: TrackParams| #[trigger]
                is(name@, params) ==> format_tells(format, params) && !(before.contains_key(name@)
                    && same_params(before[name@], params))
        })
    &&& forall|i: int|
        0 <= i < changes.len() ==> (#[trigger] changes[i] matches Change::Removed(name) ==> {
            &&& before.contains_key(name@)
            &&& forall|params: TrackParams| #[trigger]
                is(name@, params) ==> !same_params(before[name@], params)
        })
    &&& forall|name: Seq<char>, params: TrackParams| #[trigger]
        is(name, params) && !(before.contains_key(name) && same_params(before[name], params))
            ==> exists|i: int|
            0 <= i < changes.len() && (#[trigger] changes[i] matches Change::Added(n, _) && n@
                == name)
    &&& forall|name: Seq<char>| #[trigger]
        before.contains_key(name) && !there(name) ==> exists|i: int|
            0 <= i < changes.len() && (#[trigger] changes[i] matches Change::Removed(n) && n@
                == name)
    &&& forall|name: Seq<char>, params: TrackParams|
        before.contains_key(name) && #[trigger] is(name, params) && !same_params(
            before[name],
            params,
        ) ==> exists|i: int|
            0 <= i < changes.len() && (#[trigger] changes[i] matches Change::Removed(n) && n@
                == name)
}

proof fn lemma_listed_once(
    tracks: Seq<(Seq<char>, ParamsView)>,
    other: Map<Seq<char>, ParamsView>,
    name: Seq<char>,
    p: ParamsView,
)
    requires
        distinct_names(tracks),
    ensures
        differing(tracks, other).contains((name, p)) <==> by_name(tracks).contains_key(name)
            && by_name(tracks)[name] == p && !has_same(other, name, p),
{
    lemma_differing(tracks, other, (name, p));
    if tracks.contains((name, p)) {
        let i = tracks.index_of((name, p));
        assert forall|j: int| i < j < tracks.len() implies (#[trigger] tracks[j]).0
            != tracks[i].0 by {}
        lemma_last_pair_counts(tracks, i);
    }
    if by_name(tracks).contains_key(name) {
        lemma_by_name_bounded(tracks, name);
        let i = choose|i: int| 0 <= i < tracks.len() && (#[trigger] tracks[i]).0 == name
            && tracks[i].1 == by_name(tracks)[name];
        assert(tracks[i] == (name, by_name(tracks)[name]));
    }
}

proof fn lemma_differing_distinct(
    tracks: Seq<(Seq<char>, ParamsView)>,
    other: Map<Seq<char>, ParamsView>,
)
    requires
        distinct_names(tracks),
    ensures
        distinct_names(differing(tracks, other)),
    decreases tracks.len(),
{
    if tracks.len() > 0 {
        let head = tracks.drop_last();
        let last = tracks.last();
        let rest = differing(head, other);
        assert forall|i: int, j: int| 0 <= i < j < head.len() implies (#[trigger] head[i]).0 != (
        #[trigger] head[j]).0 by {
            assert(tracks[i].0 != tracks[j].0);
        }
        lemma_differing_distinct(head, other);
        assert forall|i: int| 0 <= i < rest.len() implies (#[trigger] rest[i]).0 != last.0 by {
            assert(rest.contains(rest[i]));
            lemma_differing(head, other, rest[i]);
            let k = head.index_of(rest[i]);
            assert(tracks[k].0 != tracks[tracks.len() - 1].0);
        }
    }
}

/// How the changes read, one by one.
proof fn lemma_change_at(
    changes: Seq<Change>,
    gone: Seq<(Seq<char>, ParamsView)>,
    come: Seq<(Seq<char>, ParamsView)>,
    i: int,
)
    requires
        changes_view(changes) == Seq::new(gone.len(), |i: int| ChangeView::Removed(gone[i].0))
            + Seq::new(come.len(), |i: int| ChangeView::Added(come[i].0, come[i].1)),
        0 <= i < changes.len(),
    ensures
        changes.len() == gone.len() + come.len(),
        i < gone.len() ==> (changes[i] matches Change::Removed(name) && name@ == gone[i].0),
        i >= gone.len() ==> (changes[i] matches Change::Added(name, format) && name@ == come[i
            - gone.len()].0 && format@ == come[i - gone.len()].1),
{
    assert(changes_view(changes).len() == changes.len());
    assert(changes_view(changes)[i] == changes[i]@);
}

proof fn lemma_leads_to(
    changes: Seq<Change>,
    before: Map<Seq<char>, TrackParams>,
    old_tracks: Seq<(Seq<char>, ParamsView)>,
    new_tracks: Seq<(Seq<char>, ParamsView)>,
    there: spec_fn(Seq<char>) -> bool,
    is: spec_fn(Seq<char>, TrackParams) -> bool,
)
    requires
        distinct_names(old_tracks),
        distinct_names(new_tracks),
        by_name(old_tracks) == params_views(before),
        changes_view(changes) == change_list(
            old_tracks,
            new_tracks,
            params_views(before),
            by_name(new_tracks),
        ),
        forall|name: Seq<char>| there(name) <==> #[trigger] by_name(new_tracks).contains_key(name),
        forall|name: Seq<char>, params: TrackParams| #[trigger]
            is(name, params) ==> by_name(new_tracks).contains_key(name) && by_name(new_tracks)[name]
                == params@,
    ensures
        leads_to(changes, before, there, is),
{
    let old_views = params_views(before);
    let new_views = by_name(new_tracks);
    let gone = differing(old_tracks, new_views);
    let come = differing(new_tracks, old_views);
    lemma_differing_distinct(old_tracks, new_views);
    lemma_differing_distinct(new_tracks, old_views);
    assert forall|i: int, j: int| 0 <= i < j < changes.len() implies match (
        #[trigger] changes[i],
        #[trigger] changes[j],
    ) {
        (Change::Removed(a), Change::Removed(b)) => a@ != b@,
        (Change::Added(a, _), Change::Added(b, _)) => a@ != b@,
        (Change::Removed(_), Change::Added(_, _)) => true,
        (Change::Added(_, _), Change::Removed(_)) => false,
    } by {
        lemma_change_at(changes, gone, come, i);
        lemma_change_at(changes, gone, come, j);
        if j < gone.len() {
            assert(gone[i].0 != gone[j].0);
        } else if i >= gone.len() {
            assert(come[i - gone.len()].0 != come[j - gone.len()].0);
        }
    }
    assert forall|i: int| 0 <= i < changes.len() implies (
    #[trigger] changes[i] matches Change::Added(
        name,
        format,
    ) ==> {
        &&& there(name@)
        &&& forall|params: TrackParams| #[trigger]
            is(name@, params) ==> format_tells(format, params) && !(before.contains_key(name@)
                && same_params(before[name@], params))
    }) by {
        lemma_change_at(changes, gone, come, i);
        if let Change::Added(name, format) = changes[i] {
            let k = i - gone.len();
            assert(come.contains(come[k]));
            lemma_listed_once(new_tracks, old_views, come[k].0, come[k].1);
            assert forall|params: TrackParams| #[trigger] is(name@, params) implies format_tells(
                format,
                params,
            ) && !(before.contains_key(name@) && same_params(before[name@], params)) by {
                lemma_format_tells(format, params);
                if before.contains_key(name@) {
                    assert(old_views.contains_key(name@));
                    assert(old_views[name@] == before[name@]@);
                    lemma_same_params(before[name@], params);
                }
            }
        }
    }
    assert forall|i: int| 0 <= i < changes.len() implies (
    #[trigger] changes[i] matches Change::Removed(
        name,
    ) ==> {
        &&& before.contains_key(name@)
        &&& forall|params: TrackParams| #[trigger]
            is(name@, params) ==> !same_params(before[name@], params)
    }) by {
        lemma_change_at(changes, gone, come, i);
        if let Change::Removed(name) = changes[i] {
            assert(gone.contains(gone[i]));
            lemma_listed_once(old_tracks, new_views, gone[i].0, gone[i].1);
            assert(old_views.contains_key(name@));
            assert(old_views[name@] == before[name@]@);
            assert forall|params: TrackParams| #[trigger] is(name@, params) implies !same_params(
                before[name@],
                params,
            ) by {
                lemma_same_params(params, before[name@]);
            }
        }
    }
    assert forall|name: Seq<char>, params: TrackParams| #[trigger]
        is(name, params) && !(before.contains_key(name) && same_params(
            before[name],
            params,
        )) implies exists|i: int|
        0 <= i < changes.len() && (#[trigger] changes[i] matches Change::Added(n, _) && n@
            == name) by {
        if before.contains_key(name) {
            assert(old_views[name] == before[name]@);
            lemma_same_params(before[name], params);
        } else {
            assert(!old_views.contains_key(name));
        }
        lemma_listed_once(new_tracks, old_views, name, params@);
        let k = come.index_of((name, params@));
        assert(changes_view(changes).len() == gone.len() + come.len());
        lemma_change_at(changes, gone, come, gone.len() + k);
        assert(changes[gone.len() + k] is Added);
    }
    assert forall|name: Seq<char>| #[trigger]
        before.contains_key(name) && !there(name) implies exists|i: int|
        0 <= i < changes.len() && (#[trigger] changes[i] matches Change::Removed(n) && n@
            == name) by {
        assert(old_views.contains_key(name));
        assert(old_views[name] == before[name]@);
        assert(!new_views.contains_key(name));
        lemma_listed_once(old_tracks, new_views, name, before[name]@);
        let k = gone.index_of((name, before[name]@));
        assert(changes_view(changes).len() == gone.len() + come.len());
        lemma_change_at(changes, gone, come, k);
        assert(changes[k] is Removed);
    }
    assert forall|name: Seq<char>, params: TrackParams|
        before.contains_key(name) && #[trigger] is(name, params) && !same_params(
            before[name],
            params,
        ) implies exists|i: int|
        0 <= i < changes.len() && (#[trigger] changes[i] matches Change::Removed(n) && n@
            == name) by {
        assert(old_views.contains_key(name));
        assert(old_views[name] == before[name]@);
        lemma_same_params(params, before[name]);
        lemma_listed_once(old_tracks, new_views, name, before[name]@);
        let k = gone.index_of((name, before[name]@));
        assert(changes_view(changes).len() == gone.len() + come.len());
        lemma_change_at(changes, gone, come, k);
        assert(changes[k] is Removed);
    }
}

proof fn lemma_tracks_of_table(table: Table<TrackParams>)
    requires
        table.wf(),
    ensures
        by_name(pairs(table.entries())) == params_views(table@),
        distinct_names(pairs(table.entries())),
{
    let f = |params: TrackParams| params@;
    table.lemma_entries_by_name(f);
    assert(mapped(table.entries(), f) =~= pairs(table.entries()));
    table.lemma_distinct();
    lemma_pairs_distinct(table.entries());
}

/// The changes between two catalogs lead from the one to the other, and tell each track that has
/// come, video or audio, with its own format.
pub proof fn law_changes_tell_what_has_come(
    old_catalog: Table<TrackParams>,
    new_catalog: Table<TrackParams>,
    r: Vec<Change>,
)
    requires
        old_catalog.wf(),
        new_catalog.wf(),
        call_ensures(catalog_changes, (&old_catalog, &new_catalog), r),
    ensures
        leads_to(
            r@,
            old_catalog@,
            |name: Seq<char>| new_catalog@.contains_key(name),
            |name: Seq<char>, params: TrackParams|
                new_catalog@.contains_key(name) && new_catalog@[name] == params,
        ),
{
    lemma_tracks_of_table(old_catalog);
    lemma_tracks_of_table(new_catalog);
    let new_tracks = pairs(new_catalog.entries());
    let there = |name: Seq<char>| new_catalog@.contains_key(name);
    let is = |name: Seq<char>, params: TrackParams|
        new_catalog@.contains_key(name) && new_catalog@[name] == params;
    assert forall|name: Seq<char>| there(name) <==> #[trigger] by_name(new_tracks).contains_key(
        name,
    ) by {
        assert(params_views(new_catalog@).contains_key(name) == new_catalog@.contains_key(name));
    }
    assert forall|name: Seq<char>, params: TrackParams| #[trigger]
        is(name, params) implies by_name(new_tracks).contains_key(name) && by_name(
        new_tracks,
    )[name] == params@ by {
        assert(params_views(new_catalog@).contains_key(name));
        assert(params_views(new_catalog@)[name] == params@);
    }
    lemma_leads_to(r@, old_catalog@, pairs(old_catalog.entries()), new_tracks, there, is);
}

/// Whether a message tells a change: a track that has come with its name and its format, one that
/// is gone with its name.
pub open spec fn tells_change(m: Message, change: Change) -> bool {
    match change {
        Change::Removed(name) => m == Message::TrackRemoved { name },
        Change::Added(name, format) => m == Message::TrackAdded { name, format },
    }
}

/// Whether the first changes were told one after the other, each once and in order: `course` is the
/// owner before the first and after each, `messages` are what it was told.
pub open spec fn tells_in_order<O, S>(
    changes: Seq<Change>,
    messages: Seq<Message>,
    course: Seq<O>,
    send: S,
) -> bool where S: Fn(O, Message) -> (O, Result<(), PidDead>) {
    &&& messages.len() <= changes.len()
    &&& course.len() == messages.len() + 1
    &&& forall|i: int|
        #![trigger messages[i]]
        0 <= i < messages.len() ==> {
            &&& tells_change(messages[i], changes[i])
            &&& call_ensures(
                send,
                (course[i], messages[i]),
                (course[i + 1], Ok::<(), PidDead>(())),
            )
        }
}

/// Whether telling the changes had the given outcome: all were told, or the owner was gone at one
/// of them, behind which nothing was told.
pub open spec fn tells_changes<O, S>(
    changes: Seq<Change>,
    owner: O,
    send: S,
    told: O,
    sent: Result<(), PidDead>,
) -> bool where S: Fn(O, Message) -> (O, Result<(), PidDead>) {
    exists|messages: Seq<Message>, course: Seq<O>|
        {
            &&& #[trigger] tells_in_order(changes, messages, course, send)
            &&& course.first() == owner
            &&& sent is Ok ==> messages.len() == changes.len() && told == course.last()
            &&& sent is Err ==> messages.len() < changes.len() && exists|m: Message|
                {
                    &&& tells_change(m, changes[messages.len() as int])
                    &&& #[trigger] call_ensures(send, (course.last(), m), (told, sent))
                }
        }
}

proof fn lemma_tells_in_order<O, S>(
    changes: Seq<Change>,
    course: Seq<O>,
    k: int,
    send: S,
) -> (messages: Seq<Message>) where S: Fn(O, Message) -> (O, Result<(), PidDead>)
    requires
        told_along(course, changes, k, send),
    ensures
        messages.len() == k,
        tells_in_order(changes, messages, course, send),
{
    let messages = Seq::new(
        k as nat,
        |i: int| crate::membrane::subscriber::change_message(changes[i]),
    );
    assert forall|i: int| #![trigger messages[i]] 0 <= i < messages.len() implies {
        &&& tells_change(messages[i], changes[i])
        &&& call_ensures(send, (course[i], messages[i]), (course[i + 1], Ok::<(), PidDead>(())))
    } by {
        assert(messages[i] == crate::membrane::subscriber::change_message(changes[i]));
    }
    messages
}

proof fn lemma_tells_changes<O, S>(
    changes: Seq<Change>,
    owner: O,
    send: S,
    told: O,
    sent: Result<(), PidDead>,
) where S: Fn(O, Message) -> (O, Result<(), PidDead>)
    requires
        delivered(owner, changes, send, told, sent),
    ensures
        tells_changes(changes, owner, send, told, sent),
{
    match sent {
        Ok(_) => {
            let course = choose|course: Seq<O>|
                {
                    &&& #[trigger] told_along(course, changes, changes.len() as int, send)
                    &&& course[0] == owner
                    &&& course[changes.len() as int] == told
                };
            let messages = lemma_tells_in_order(changes, course, changes.len() as int, send);
            assert(tells_in_order(changes, messages, course, send));
        },
        Err(dead) => {
            let (k, mid) = choose|k: int, mid: O|
                {
                    &&& k < changes.len()
                    &&& #[trigger] told_in_order(owner, changes, k, send, mid)
                    &&& call_ensures(
                        send,
                        (mid, crate::membrane::subscriber::change_message(changes[k])),
                        (told, Err::<(), PidDead>(dead)),
                    )
                };
            let course = choose|course: Seq<O>|
                {
                    &&& #[trigger] told_along(course, changes, k, send)
                    &&& course[0] == owner
                    &&& course[k] == mid
                };
            let messages = lemma_tells_in_order(changes, course, k, send);
            assert(tells_in_order(changes, messages, course, send));
            let m = crate::membrane::subscriber::change_message(changes[k]);
            assert(call_ensures(send, (course.last(), m), (told, sent)));
        },
    }
}

/// Changes are told in order, each once, for as long as the owner is there.
pub proof fn law_changes_are_told_in_order<O, S>(
    changes: Vec<Change>,
    owner: O,
    send: S,
    r: (O, Result<(), PidDead>),
) where S: Fn(O, Message) -> (O, Result<(), PidDead>)
    requires
        call_ensures(send_changes::<O, S>, (changes, owner, &send), r),
    ensures
        tells_changes(changes@, owner, send, r.0, r.1),
{
    lemma_tells_changes(changes@, owner, send, r.0, r.1);
}

/// Whether a readable catalog was taken over: the owner was told the changes that lead to it, each
/// track that has come with what its own rendition says; then the parameters are those of the
/// catalog, unless the owner was gone.
pub open spec fn takes_over<O, S>(
    catalog: Catalog,
    before: Map<Seq<char>, TrackParams>,
    owner: O,
    send: S,
    told: O,
    result: Result<Table<TrackParams>, String>,
) -> bool where S: Fn(O, Message) -> (O, Result<(), PidDead>) {
    &&& result matches Ok(params) ==> tells_params(params@, catalog)
    &&& result matches Err(e) ==> e@ == "subscriber pid is dead"@
    &&& exists|changes: Seq<Change>, sent: Result<(), PidDead>|
        {
            &&& #[trigger] tells_changes(changes, owner, send, told, sent)
            &&& sent is Ok <==> result is Ok
            &&& leads_to(
                changes,
                before,
                |name: Seq<char>| has_rendition(catalog, name),
                |name: Seq<char>, params: TrackParams| says(catalog, name, params),
            )
        }
}

proof fn lemma_rendition_has_params(catalog: Catalog, name: Seq<char>)
    requires
        has_rendition(catalog, name),
    ensures
        by_name(params_list(catalog@)).contains_key(name),
{
    let all = params_list(catalog@);
    lemma_lists_params(catalog);
    if exists|i: int| 0 <= i < catalog.videos@.len() && (#[trigger] catalog.videos@[i]).0@ == name {
        let i = choose|i: int|
            0 <= i < catalog.videos@.len() && (#[trigger] catalog.videos@[i]).0@ == name;
        crate::table::lemma_by_name_contains(all, i);
        assert(all[i].0 == name);
    } else {
        let i = choose|i: int|
            0 <= i < catalog.audios@.len() && (#[trigger] catalog.audios@[i]).0@ == name;
        crate::table::lemma_by_name_contains(all, catalog.videos@.len() + i);
        assert(all[catalog.videos@.len() + i].0 == name);
    }
}

/// A catalog whose take-over reads so was taken over.
pub proof fn lemma_takes_over<O, S>(
    catalog: Catalog,
    old_catalog: Table<TrackParams>,
    owner: O,
    send: S,
    told: O,
    result: Result<Table<TrackParams>, String>,
) where S: Fn(O, Message) -> (O, Result<(), PidDead>)
    requires
        old_catalog.wf(),
        catalog_updated(catalog@, old_catalog, owner, send, told, result),
    ensures
        takes_over(catalog, old_catalog@, owner, send, told, result),
{
    let (new_tracks, changes, sent) = choose|
        new_tracks: Seq<(Seq<char>, ParamsView)>,
        changes: Seq<Change>,
        sent: Result<(), PidDead>,
    |
        {
            &&& distinct_names(new_tracks)
            &&& by_name(new_tracks) == by_name(params_list(catalog@))
            &&& changes_view(changes) == #[trigger] change_list(
                pairs(old_catalog.entries()),
                new_tracks,
                params_views(old_catalog@),
                by_name(params_list(catalog@)),
            )
            &&& #[trigger] delivered(owner, changes, send, told, sent)
            &&& match sent {
                Ok(()) => result matches Ok(params) && params.wf() && params_views(params@)
                    == by_name(params_list(catalog@)),
                Err(_) => result matches Err(e) && e@ == "subscriber pid is dead"@,
            }
        };
    lemma_tells_changes(changes, owner, send, told, sent);
    if let Ok(params) = result {
        lemma_tells_params(params@, catalog);
    }
    lemma_tracks_of_table(old_catalog);
    let there = |name: Seq<char>| has_rendition(catalog, name);
    let is = |name: Seq<char>, params: TrackParams| says(catalog, name, params);
    assert forall|name: Seq<char>| there(name) <==> #[trigger] by_name(new_tracks).contains_key(
        name,
    ) by {
        if has_rendition(catalog, name) {
            lemma_rendition_has_params(catalog, name);
        }
        if by_name(new_tracks).contains_key(name) {
            lemma_params_have_a_rendition(catalog, name);
        }
    }
    assert forall|name: Seq<char>, params: TrackParams| #[trigger]
        is(name, params) implies by_name(new_tracks).contains_key(name) && by_name(
        new_tracks,
    )[name] == params@ by {
        lemma_says(catalog, name, params);
    }
    lemma_leads_to(changes, old_catalog@, pairs(old_catalog.entries()), new_tracks, there, is);
}

/// A catalog is taken over by telling the changes that lead to it; a catalog that ended or cannot
/// be read tells nothing.
pub proof fn law_catalog_is_taken_over<O, S>(
    snapshot: Result<Option<Catalog>, String>,
    old_catalog: Table<TrackParams>,
    owner: O,
    send: S,
    r: (O, Result<Table<TrackParams>, String>),
) where S: Fn(O, Message) -> (O, Result<(), PidDead>)
    requires
        old_catalog.wf(),
        call_ensures(update_catalog::<O, S>, (snapshot, &old_catalog, owner, &send), r),
    ensures
        snapshot matches Err(reason) ==> r.0 == owner && (r.1 matches Err(e) && e@
            == "catalog error: "@ + reason@),
        snapshot matches Ok(None) ==> r.0 == owner && (r.1 matches Err(e) && e@
            == "broadcast ended"@),
        snapshot matches Ok(Some(catalog)) ==> takes_over(
            catalog,
            old_catalog@,
            owner,
            send,
            r.0,
            r.1,
        ),
{
    if let Ok(Some(catalog)) = snapshot {
        lemma_takes_over(catalog, old_catalog, owner, send, r.0, r.1);
    }
}

} // verus!
