//! A small table keyed by names that keeps its entries in the order of insertion.

use vstd::prelude::*;

verus! {

/// Whether no two entries have the same key.
pub open spec fn distinct<V>(entries: Seq<(String, V)>) -> bool {
    forall|i: int, j: int|
        0 <= i < j < entries.len() ==> (#[trigger] entries[i]).0@ != (
        #[trigger] entries[j]).0@
}

/// Whether some entry has the key `id`.
pub open spec fn keyed<V>(entries: Seq<(String, V)>, id: Seq<char>) -> bool {
    exists|i: int| 0 <= i < entries.len() && (#[trigger] entries[i]).0@ == id
}

/// The value of an entry with the key `id`.
pub open spec fn value_of<V>(entries: Seq<(String, V)>, id: Seq<char>) -> V {
    entries[choose|i: int| 0 <= i < entries.len() && (#[trigger] entries[i]).0@ == id].1
}

/// The entries as a map from key to value.
pub open spec fn map_of<V>(entries: Seq<(String, V)>) -> Map<Seq<char>, V> {
    Map::new(|id: Seq<char>| keyed(entries, id), |id: Seq<char>| value_of(entries, id))
}

/// The pairs as a map; of two with the same name the later one counts.
pub open spec fn by_name<V>(pairs: Seq<(Seq<char>, V)>) -> Map<Seq<char>, V>
    decreases pairs.len(),
{
    if pairs.len() == 0 {
        Map::empty()
    } else {
        by_name(pairs.drop_last()).insert(pairs.last().0, pairs.last().1)
    }
}

/// Every name of the pairs is in the map.
pub proof fn lemma_by_name_contains<V>(pairs: Seq<(Seq<char>, V)>, i: int)
    requires
        0 <= i < pairs.len(),
    ensures
        by_name(pairs).contains_key(pairs[i].0),
    decreases pairs.len(),
{
    if i < pairs.len() - 1 {
        lemma_by_name_contains(pairs.drop_last(), i);
    }
}

/// The map holds nothing but what the pairs give.
pub proof fn lemma_by_name_bounded<V>(pairs: Seq<(Seq<char>, V)>, name: Seq<char>)
    requires
        by_name(pairs).contains_key(name),
    ensures
        exists|i: int|
            0 <= i < pairs.len() && (#[trigger] pairs[i]).0 == name && pairs[i].1 == by_name(
                pairs,
            )[name],
    decreases pairs.len(),
{
    let last = pairs.len() - 1;
    if pairs[last].0 != name {
        lemma_by_name_bounded(pairs.drop_last(), name);
        let i = choose|i: int|
            0 <= i < pairs.drop_last().len() && (#[trigger] pairs.drop_last()[i]).0 == name
                && pairs.drop_last()[i].1 == by_name(pairs.drop_last())[name];
        assert(pairs[i].0 == name);
    } else {
        assert(pairs[last].0 == name);
    }
}

/// A table keyed by names. Each name occurs once; entries stay in the order of insertion.
pub struct Table<V> {
    entries: Vec<(String, V)>,
}

impl<V> View for Table<V> {
    type V = Map<Seq<char>, V>;

    closed spec fn view(&self) -> Map<Seq<char>, V> {
        map_of(self.entries@)
    }
}

proof fn lemma_value_at<V>(entries: Seq<(String, V)>, i: int)
    requires
        distinct(entries),
        0 <= i < entries.len(),
    ensures
        keyed(entries, entries[i].0@),
        value_of(entries, entries[i].0@) == entries[i].1,
        map_of(entries).contains_key(entries[i].0@),
        map_of(entries)[entries[i].0@] == entries[i].1,
{
    let id = entries[i].0@;
    assert(entries[i].0@ == id);
    let j = choose|j: int| 0 <= j < entries.len() && (#[trigger] entries[j]).0@ == id;
    assert(entries[j].0@ == id);
    if i < j {
        assert(entries[i].0@ != entries[j].0@);
    } else if j < i {
        assert(entries[j].0@ != entries[i].0@);
    }
}

proof fn lemma_push<V>(entries: Seq<(String, V)>, key: String, value: V)
    requires
        distinct(entries),
        !keyed(entries, key@),
    ensures
        distinct(entries.push((key, value))),
        map_of(entries.push((key, value))) == map_of(entries).insert(key@, value),
{
    let next = entries.push((key, value));
    assert forall|i: int, j: int| 0 <= i < j < next.len() implies (#[trigger] next[i]).0@ != (
    #[trigger] next[j]).0@ by {
        if j == entries.len() {
            assert(entries[i].0@ != key@);
        } else {
            assert(entries[i].0@ != entries[j].0@);
        }
    }
    assert forall|id: Seq<char>| #[trigger] map_of(next).contains_key(id) == map_of(entries).insert(
        key@,
        value,
    ).contains_key(id) by {
        if map_of(next).contains_key(id) {
            let i = choose|i: int| 0 <= i < next.len() && (#[trigger] next[i]).0@ == id;
            if i < entries.len() {
                assert(entries[i].0@ == id);
            }
        }
        if map_of(entries).contains_key(id) {
            let i = choose|i: int|
                0 <= i < entries.len() && (#[trigger] entries[i]).0@ == id;
            assert(next[i].0@ == id);
        }
        if id == key@ {
            assert(next[entries.len() as int].0@ == id);
        }
    }
    assert forall|id: Seq<char>| #[trigger] map_of(next).contains_key(id) implies map_of(next)[id]
        == map_of(entries).insert(key@, value)[id] by {
        let i = choose|i: int| 0 <= i < next.len() && (#[trigger] next[i]).0@ == id;
        lemma_value_at(next, i);
        if i < entries.len() {
            lemma_value_at(entries, i);
        }
    }
    assert(map_of(next) =~= map_of(entries).insert(key@, value));
}

proof fn lemma_remove<V>(entries: Seq<(String, V)>, at: int)
    requires
        distinct(entries),
        0 <= at < entries.len(),
    ensures
        distinct(entries.remove(at)),
        map_of(entries.remove(at)) == map_of(entries).remove(entries[at].0@),
{
    let next = entries.remove(at);
    let gone = entries[at].0@;
    assert forall|i: int, j: int| 0 <= i < j < next.len() implies (#[trigger] next[i]).0@ != (
    #[trigger] next[j]).0@ by {
        let a = if i < at { i } else { i + 1 };
        let b = if j < at { j } else { j + 1 };
        assert(next[i] == entries[a] && next[j] == entries[b]);
        assert(entries[a].0@ != entries[b].0@);
    }
    assert forall|id: Seq<char>| #[trigger] map_of(next).contains_key(id) == map_of(entries).remove(
        gone,
    ).contains_key(id) by {
        if map_of(next).contains_key(id) {
            let i = choose|i: int| 0 <= i < next.len() && (#[trigger] next[i]).0@ == id;
            let a = if i < at { i } else { i + 1 };
            assert(entries[a].0@ == id);
            if a < at {
                assert(entries[a].0@ != entries[at].0@);
            } else {
                assert(entries[at].0@ != entries[a].0@);
            }
        }
        if map_of(entries).remove(gone).contains_key(id) {
            let i = choose|i: int|
                0 <= i < entries.len() && (#[trigger] entries[i]).0@ == id;
            let a = if i < at { i } else { i - 1 };
            assert(next[a].0@ == id);
        }
    }
    assert forall|id: Seq<char>| #[trigger] map_of(next).contains_key(id) implies map_of(next)[id]
        == map_of(entries).remove(gone)[id] by {
        let i = choose|i: int| 0 <= i < next.len() && (#[trigger] next[i]).0@ == id;
        let a = if i < at { i } else { i + 1 };
        lemma_value_at(next, i);
        lemma_value_at(entries, a);
    }
    assert(map_of(next) =~= map_of(entries).remove(gone));
}

/// The entries with each value mapped.
pub open spec fn mapped<V, W>(entries: Seq<(String, V)>, f: spec_fn(V) -> W) -> Seq<
    (Seq<char>, W),
> {
    Seq::new(entries.len(), |i: int| (entries[i].0@, f(entries[i].1)))
}

proof fn lemma_mapped_by_name<V, W>(entries: Seq<(String, V)>, f: spec_fn(V) -> W)
    requires
        distinct(entries),
    ensures
        by_name(mapped(entries, f)) == map_of(entries).map_values(f),
    decreases entries.len(),
{
    if entries.len() == 0 {
        assert(by_name(mapped(entries, f)) =~= map_of(entries).map_values(f));
    } else {
        let head = entries.drop_last();
        let last = entries.last();
        assert(distinct(head)) by {
            assert forall|i: int, j: int| 0 <= i < j < head.len() implies (
            #[trigger] head[i]).0@ != (#[trigger] head[j]).0@ by {
                assert(entries[i].0@ != entries[j].0@);
            }
        }
        assert(!keyed(head, last.0@)) by {
            if keyed(head, last.0@) {
                let i = choose|i: int|
                    0 <= i < head.len() && (#[trigger] head[i]).0@ == last.0@;
                assert(entries[i].0@ != entries[entries.len() - 1].0@);
            }
        }
        lemma_mapped_by_name(head, f);
        lemma_push(head, last.0, last.1);
        assert(head.push((last.0, last.1)) =~= entries);
        assert(mapped(entries, f).drop_last() =~= mapped(head, f));
        assert(map_of(head).insert(last.0@, last.1).map_values(f) =~= map_of(head).map_values(
            f,
        ).insert(last.0@, f(last.1)));
    }
}

impl<V> Table<V> {
    /// The entries, with each value mapped, say what the table says.
    pub proof fn lemma_entries_by_name<W>(&self, f: spec_fn(V) -> W)
        requires
            self.wf(),
        ensures
            by_name(mapped(self.entries(), f)) == self@.map_values(f),
    {
        lemma_mapped_by_name(self.entries@, f);
    }
}

impl<V> Table<V> {
    /// The entries in the order of insertion.
    pub closed spec fn entries(&self) -> Seq<(String, V)> {
        self.entries@
    }

    /// No key occurs twice.
    pub closed spec fn wf(&self) -> bool {
        distinct(self.entries@)
    }

    /// No two entries have the same key.
    pub proof fn lemma_distinct(&self)
        requires
            self.wf(),
        ensures
            distinct(self.entries()),
    {
    }

    /// An empty table.
    pub fn new() -> (r: Self)
        ensures
            r.wf(),
            r@ == Map::<Seq<char>, V>::empty(),
            r.entries() == Seq::<(String, V)>::empty(),
    {
        let r = Table { entries: Vec::new() };
        assert(r@ =~= Map::<Seq<char>, V>::empty());
        r
    }

    /// How many entries the table has.
    pub fn len(&self) -> (r: usize)
        ensures
            r == self.entries().len(),
    {
        self.entries.len()
    }

    /// The entry at position `i`, in the order of insertion.
    pub fn at(&self, i: usize) -> (r: (&String, &V))
        requires
            i < self.entries().len(),
        ensures
            *r.0 == self.entries()[i as int].0,
            *r.1 == self.entries()[i as int].1,
            self.wf() ==> self@.contains_key(r.0@) && self@[r.0@] == *r.1,
    {
        proof {
            if self.wf() {
                lemma_value_at(self.entries@, i as int);
            }
        }
        let entry = &self.entries[i];
        (&entry.0, &entry.1)
    }

    /// The position of the entry keyed by `key`.
    pub fn position(&self, key: &String) -> (r: Option<usize>)
        requires
            self.wf(),
        ensures
            match r {
                Some(i) => {
                    &&& i < self.entries().len()
                    &&& self.entries()[i as int].0@ == key@
                    &&& self@.contains_key(key@)
                    &&& self@[key@] == self.entries()[i as int].1
                },
                None => !self@.contains_key(key@),
            },
    {
        let mut i: usize = 0;
        while i < self.entries.len()
            invariant
                distinct(self.entries@),
                i <= self.entries@.len(),
                forall|j: int| 0 <= j < i ==> (#[trigger] self.entries@[j]).0@ != key@,
            decreases self.entries@.len() - i,
        {
            if self.entries[i].0 == *key {
                proof {
                    lemma_value_at(self.entries@, i as int);
                }
                return Some(i);
            }
            i = i + 1;
        }
        None
    }

    /// Whether the table has an entry keyed by `key`.
    pub fn contains(&self, key: &String) -> (r: bool)
        requires
            self.wf(),
        ensures
            r == self@.contains_key(key@),
    {
        self.position(key).is_some()
    }

    /// The value keyed by `key`.
    pub fn get(&self, key: &String) -> (r: Option<&V>)
        requires
            self.wf(),
        ensures
            match r {
                Some(v) => self@.contains_key(key@) && *v == self@[key@],
                None => !self@.contains_key(key@),
            },
    {
        match self.position(key) {
            Some(i) => Some(&self.entries[i].1),
            None => None,
        }
    }

    /// Takes the entry keyed by `key` out.
    pub fn remove(&mut self, key: &String) -> (r: Option<V>)
        requires
            old(self).wf(),
        ensures
            final(self).wf(),
            final(self)@ == old(self)@.remove(key@),
            match r {
                Some(v) => old(self)@.contains_key(key@) && v == old(self)@[key@],
                None => !old(self)@.contains_key(key@) && *final(self) == *old(self),
            },
    {
        match self.position(key) {
            Some(i) => {
                proof {
                    lemma_remove(self.entries@, i as int);
                }
                let (_, value) = self.entries.remove(i);
                Some(value)
            },
            None => {
                assert(self@.remove(key@) =~= self@);
                None
            },
        }
    }

    /// Puts `value` under `key`, in place of a value that stood there; gives that value back.
    pub fn insert(&mut self, key: String, value: V) -> (r: Option<V>)
        requires
            old(self).wf(),
        ensures
            final(self).wf(),
            final(self)@ == old(self)@.insert(key@, value),
            match r {
                Some(v) => old(self)@.contains_key(key@) && v == old(self)@[key@],
                None => {
                    &&& !old(self)@.contains_key(key@)
                    &&& final(self).entries() == old(self).entries().push((key, value))
                },
            },
    {
        let previous = self.remove(&key);
        proof {
            assert(!self@.contains_key(key@));
            lemma_push(self.entries@, key, value);
            assert(old(self)@.remove(key@).insert(key@, value) =~= old(self)@.insert(
                key@,
                value,
            ));
        }
        self.entries.push((key, value));
        previous
    }

    /// Takes the entry that was put in last.
    pub fn pop(&mut self) -> (r: Option<(String, V)>)
        requires
            old(self).wf(),
        ensures
            final(self).wf(),
            match r {
                Some((key, value)) => {
                    &&& old(self).entries() == final(self).entries().push((key, value))
                    &&& old(self)@.contains_key(key@)
                    &&& old(self)@[key@] == value
                    &&& final(self)@ == old(self)@.remove(key@)
                },
                None => {
                    &&& final(self).entries() == old(self).entries()
                    &&& final(self)@ == old(self)@
                    &&& old(self).entries().len() == 0
                    &&& old(self)@ == Map::<Seq<char>, V>::empty()
                },
            },
    {
        let ghost entries = self.entries@;
        let r = self.entries.pop();
        proof {
            if entries.len() > 0 {
                let last = entries.len() - 1;
                lemma_value_at(entries, last);
                lemma_remove(entries, last);
                assert(entries.remove(last) =~= self.entries@);
                assert(entries =~= self.entries@.push(entries[last]));
            } else {
                assert(map_of(entries) =~= Map::<Seq<char>, V>::empty());
            }
        }
        r
    }
}

} // verus!
