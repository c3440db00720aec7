//! Maps keyed by textual identifiers, kept in the order of the identifiers.
use crate::text::{order_texts, same_text, text_less, text_less_irreflexive, text_less_total,
    text_less_transitive, TextOrder};
use vstd::prelude::*;

verus! {

/// A value that is identified by a text.
pub trait Identifier: Sized {
    /// The identifying text.
    spec fn text(&self) -> Seq<char>;

    fn as_text(&self) -> (s: &str)
        ensures
            s@ == self.text(),
    ;
}

/// The index of the first entry under `key`, or the length where there is none.
pub open spec fn first_index<K: Identifier, V>(entries: Seq<(K, V)>, key: Seq<char>) -> int
    decreases entries.len(),
{
    if entries.len() == 0 {
        0
    } else if entries[0].0.text() == key {
        0
    } else {
        1 + first_index(entries.drop_first(), key)
    }
}

/// The map from identifying text to value that a list of entries stands for.
#[verifier::opaque]
pub open spec fn entry_map<K: Identifier, V>(entries: Seq<(K, V)>) -> Map<Seq<char>, V> {
    Map::new(
        |key: Seq<char>| first_index(entries, key) < entries.len(),
        |key: Seq<char>| entries[first_index(entries, key)].1,
    )
}

/// Entries whose identifiers strictly ascend; no identifier occurs twice then.
pub open spec fn ascending<K: Identifier, V>(entries: Seq<(K, V)>) -> bool {
    forall|i: int, j: int|
        0 <= i < j < entries.len() ==> text_less(
            #[trigger] entries[i].0.text(),
            #[trigger] entries[j].0.text(),
        )
}

pub proof fn first_index_bounds<K: Identifier, V>(entries: Seq<(K, V)>, key: Seq<char>)
    ensures
        0 <= first_index(entries, key) <= entries.len(),
        forall|j: int|
            0 <= j < first_index(entries, key) ==> #[trigger] entries[j].0.text() != key,
        first_index(entries, key) < entries.len() ==> entries[first_index(
            entries,
            key,
        )].0.text() == key,
    decreases entries.len(),
{
    if entries.len() > 0 && entries[0].0.text() != key {
        let rest = entries.drop_first();
        first_index_bounds(rest, key);
        assert forall|j: int| 0 <= j < first_index(entries, key) implies (
        #[trigger] entries[j]).0.text() != key by {
            if j > 0 {
                assert(rest[j - 1] == entries[j]);
            }
        }
        if first_index(entries, key) < entries.len() {
            assert(rest[first_index(rest, key)] == entries[first_index(entries, key)]);
        }
    }
}

pub proof fn first_index_is<K: Identifier, V>(entries: Seq<(K, V)>, key: Seq<char>, i: int)
    requires
        0 <= i <= entries.len(),
        forall|j: int| 0 <= j < i ==> #[trigger] entries[j].0.text() != key,
        i < entries.len() ==> entries[i].0.text() == key,
    ensures
        first_index(entries, key) == i,
{
    first_index_bounds(entries, key);
    let f = first_index(entries, key);
    if f < i {
        assert(entries[f].0.text() != key);
    }
    if i < f {
        assert(entries[i].0.text() != key);
    }
}

/// What a lookup of `key` in the entries' map gives.
pub proof fn entry_map_lookup<K: Identifier, V>(entries: Seq<(K, V)>, key: Seq<char>)
    ensures
        entry_map(entries).contains_key(key) <==> first_index(entries, key) < entries.len(),
        entry_map(entries).contains_key(key) ==> entry_map(entries)[key]
            == entries[first_index(entries, key)].1,
{
    reveal(entry_map);
}

/// The identifiers that occur among the entries are the keys of their map.
pub proof fn entry_map_keys<K: Identifier, V>(entries: Seq<(K, V)>, key: Seq<char>)
    ensures
        entry_map(entries).contains_key(key) <==> exists|i: int|
            0 <= i < entries.len() && (#[trigger] entries[i]).0.text() == key,
{
    entry_map_lookup(entries, key);
    first_index_bounds(entries, key);
}

/// Where identifiers ascend, each entry is what its own identifier finds.
pub proof fn ascending_lookup<K: Identifier, V>(entries: Seq<(K, V)>, i: int)
    requires
        ascending(entries),
        0 <= i < entries.len(),
    ensures
        entry_map(entries).contains_key(entries[i].0.text()),
        entry_map(entries)[entries[i].0.text()] == entries[i].1,
{
    let key = entries[i].0.text();
    assert forall|j: int| 0 <= j < i implies (#[trigger] entries[j]).0.text() != key by {
        text_less_irreflexive(key);
    }
    first_index_is(entries, key, i);
    entry_map_lookup(entries, key);
}

/// The same identifiers at the same places.
pub open spec fn same_keys<K: Identifier, V, W>(a: Seq<(K, V)>, b: Seq<(K, W)>) -> bool {
    a.len() == b.len() && forall|i: int| 0 <= i < a.len() ==> (#[trigger] a[i]).0 == b[i].0
}

/// Entries with the same identifiers at the same places are found alike.
pub proof fn same_keys_lookup<K: Identifier, V, W>(
    a: Seq<(K, V)>,
    b: Seq<(K, W)>,
    key: Seq<char>,
)
    requires
        same_keys(a, b),
    ensures
        first_index(a, key) == first_index(b, key),
        0 <= first_index(a, key) <= a.len(),
        entry_map(a).contains_key(key) <==> entry_map(b).contains_key(key),
        entry_map(a).contains_key(key) ==> {
            &&& first_index(a, key) < a.len()
            &&& entry_map(a)[key] == a[first_index(a, key)].1
            &&& entry_map(b)[key] == b[first_index(a, key)].1
        },
{
    first_index_bounds(a, key);
    let f = first_index(a, key);
    assert forall|j: int| 0 <= j < f implies (#[trigger] b[j]).0.text() != key by {
        assert(a[j].0 == b[j].0);
    }
    if f < a.len() {
        assert(a[f].0 == b[f].0);
    }
    first_index_is(b, key, f);
    entry_map_lookup(a, key);
    entry_map_lookup(b, key);
}

/// Entries with the same identifiers at the same places ascend alike.
pub proof fn same_keys_ascending<K: Identifier, V, W>(a: Seq<(K, V)>, b: Seq<(K, W)>)
    requires
        same_keys(a, b),
        ascending(a),
    ensures
        ascending(b),
{
    assert forall|i: int, j: int| 0 <= i < j < b.len() implies text_less(
        #[trigger] b[i].0.text(),
        #[trigger] b[j].0.text(),
    ) by {
        assert(a[i].0 == b[i].0);
        assert(a[j].0 == b[j].0);
    }
}

/// A map from identifiers to values.
pub struct IdMap<K, V> {
    entries: Vec<(K, V)>,
}

impl<K: Identifier, V> IdMap<K, V> {
    /// The entries, in the order in which they are walked.
    pub closed spec fn order(&self) -> Seq<(K, V)> {
        self.entries@
    }

    /// The map that the entries stand for.
    pub open spec fn view(&self) -> Map<Seq<char>, V> {
        entry_map(self.order())
    }

    /// The entries are walked in ascending order of their identifiers.
    pub open spec fn wf(&self) -> bool {
        ascending(self.order())
    }

    /// The map without entries.
    pub fn new() -> (r: Self)
        ensures
            r.wf(),
            r.order() == Seq::<(K, V)>::empty(),
            r@ == Map::<Seq<char>, V>::empty(),
    {
        let r: IdMap<K, V> = IdMap { entries: Vec::new() };
        proof {
            assert(r.order() =~= Seq::<(K, V)>::empty());
            reveal(entry_map);
            assert(r@ =~= Map::<Seq<char>, V>::empty());
        }
        r
    }

    /// The number of entries.
    pub fn len(&self) -> (r: usize)
        ensures
            r == self.order().len(),
    {
        self.entries.len()
    }

    /// Whether there are no entries.
    pub fn is_empty(&self) -> (r: bool)
        ensures
            r == (self.order().len() == 0),
    {
        self.entries.len() == 0
    }

    /// The identifier of the `i`th entry.
    pub fn key_at(&self, i: usize) -> (r: &K)
        requires
            i < self.order().len(),
        ensures
            *r == self.order()[i as int].0,
    {
        &self.entries[i].0
    }

    /// The value of the `i`th entry.
    pub fn value_at(&self, i: usize) -> (r: &V)
        requires
            i < self.order().len(),
        ensures
            *r == self.order()[i as int].1,
    {
        &self.entries[i].1
    }

    /// Access to the value of the `i`th entry, to change it in place.
    pub fn value_at_mut(&mut self, i: usize) -> (r: &mut V)
        requires
            i < old(self).order().len(),
        ensures
            *r == old(self).order()[i as int].1,
            final(self).order() == old(self).order().update(
                i as int,
                (old(self).order()[i as int].0, *final(r)),
            ),
    {
        &mut self.entries[i].1
    }

    /// The index of the first entry under `key`.
    fn position(&self, key: &str) -> (r: usize)
        ensures
            r == first_index(self.order(), key@),
            r <= self.order().len(),
    {
        let mut i: usize = 0;
        while i < self.entries.len()
            invariant
                i <= self.entries@.len(),
                forall|j: int| 0 <= j < i ==> #[trigger] self.entries@[j].0.text() != key@,
            decreases self.entries@.len() - i,
        {
            if same_text(self.entries[i].0.as_text(), key) {
                proof {
                    first_index_is(self.entries@, key@, i as int);
                }
                return i;
            }
            i = i + 1;
        }
        proof {
            first_index_is(self.entries@, key@, i as int);
        }
        i
    }

    /// Whether there is an entry under `key`.
    pub fn contains_text(&self, key: &str) -> (r: bool)
        ensures
            r == self@.contains_key(key@),
    {
        proof {
            entry_map_lookup(self.order(), key@);
        }
        self.position(key) < self.entries.len()
    }

    /// Whether there is an entry under `key`.
    pub fn contains_key(&self, key: &K) -> (r: bool)
        ensures
            r == self@.contains_key(key.text()),
    {
        self.contains_text(key.as_text())
    }

    /// The value under `key`.
    pub fn get_text(&self, key: &str) -> (r: Option<&V>)
        ensures
            r is Some <==> self@.contains_key(key@),
            r is Some ==> *r->0 == self@[key@],
    {
        proof {
            entry_map_lookup(self.order(), key@);
        }
        let i = self.position(key);
        if i < self.entries.len() {
            Some(&self.entries[i].1)
        } else {
            None
        }
    }

    /// The value under `key`.
    pub fn get(&self, key: &K) -> (r: Option<&V>)
        ensures
            r is Some <==> self@.contains_key(key.text()),
            r is Some ==> *r->0 == self@[key.text()],
    {
        self.get_text(key.as_text())
    }

    /// Access to the value under `key`, to change it in place.
    pub fn get_mut(&mut self, key: &K) -> (r: Option<&mut V>)
        ensures
            r is Some <==> old(self)@.contains_key(key.text()),
            r is None ==> *final(self) == *old(self),
            r is Some ==> {
                &&& *r->0 == old(self)@[key.text()]
                &&& final(self)@ == old(self)@.insert(key.text(), *final(r->0))
            },
            old(self).wf() ==> final(self).wf(),
    {
        let ghost before = self.entries@;
        let ghost text = key.text();
        proof {
            entry_map_lookup(before, text);
            first_index_bounds(before, text);
        }
        let i = self.position(key.as_text());
        if i < self.entries.len() {
            proof {
                assert forall|v: V| #[trigger]
                    entry_map(before.update(i as int, (before[i as int].0, v))) == entry_map(
                        before,
                    ).insert(text, v) by {
                    let after = before.update(i as int, (before[i as int].0, v));
                    update_entry(before, after, i as int);
                }
                assert forall|v: V| ascending(before) implies ascending(
                    #[trigger] before.update(i as int, (before[i as int].0, v)),
                ) by {
                    let after = before.update(i as int, (before[i as int].0, v));
                    assert forall|a: int, b: int| 0 <= a < b < after.len() implies text_less(
                        #[trigger] after[a].0.text(),
                        #[trigger] after[b].0.text(),
                    ) by {
                        assert(after[a].0 == before[a].0);
                        assert(after[b].0 == before[b].0);
                    }
                }
            }
            Some(&mut self.entries[i].1)
        } else {
            None
        }
    }

    /// Puts `value` under `key`, in place of what was there.
    pub fn insert(&mut self, key: K, value: V)
        ensures
            final(self)@ == old(self)@.insert(key.text(), value),
            old(self).wf() ==> final(self).wf(),
    {
        let ghost before = self.entries@;
        let ghost text = key.text();
        proof {
            entry_map_lookup(before, text);
            first_index_bounds(before, text);
        }
        let i = self.position(key.as_text());
        if i < self.entries.len() {
            self.entries.set(i, (key, value));
            proof {
                update_entry(before, self.entries@, i as int);
                assert forall|a: int, b: int|
                    ascending(before) && 0 <= a < b < self.entries@.len() implies text_less(
                    #[trigger] self.entries@[a].0.text(),
                    #[trigger] self.entries@[b].0.text(),
                ) by {
                    assert(before[a].0.text() == self.entries@[a].0.text());
                    assert(before[b].0.text() == self.entries@[b].0.text());
                }
            }
        } else {
            let mut p: usize = 0;
            while p < self.entries.len() && order_texts(self.entries[p].0.as_text(), key.as_text())
                == TextOrder::Less
                invariant
                    p <= self.entries@.len(),
                    self.entries@ == before,
                    text == key.text(),
                    forall|j: int| 0 <= j < p ==> text_less(#[trigger] before[j].0.text(), text),
                decreases self.entries@.len() - p,
            {
                p = p + 1;
            }
            self.entries.insert(p, (key, value));
            proof {
                insert_entry(before, self.entries@, p as int, text, value);
                if ascending(before) {
                    insert_keeps_order(before, self.entries@, p as int, text);
                }
            }
        }
    }

    /// Takes out what is under `key`.
    pub fn remove(&mut self, key: &K) -> (r: Option<V>)
        ensures
            r is Some <==> old(self)@.contains_key(key.text()),
            r is Some ==> r->0 == old(self)@[key.text()],
            final(self)@ == old(self)@.remove(key.text()),
            old(self).wf() ==> final(self).wf(),
    {
        let ghost before = self.entries@;
        let ghost text = key.text();
        let mut found: Option<V> = None;
        proof {
            entry_map_lookup(before, text);
            first_index_bounds(before, text);
        }
        let first = self.position(key.as_text());
        if first == self.entries.len() {
            proof {
                assert(entry_map(before).remove(text) =~= entry_map(before));
            }
            return None;
        }
        let (_, value) = self.entries.remove(first);
        found = Some(value);
        proof {
            remove_entry(before, self.entries@, first as int);
            if ascending(before) {
                assert(ascending(self.entries@)) by {
                    assert forall|a: int, b: int| 0 <= a < b < self.entries@.len() implies text_less(
                        #[trigger] self.entries@[a].0.text(),
                        #[trigger] self.entries@[b].0.text(),
                    ) by {
                        let x = if a < first { a } else { a + 1 };
                        let y = if b < first { b } else { b + 1 };
                        assert(self.entries@[a] == before[x]);
                        assert(self.entries@[b] == before[y]);
                    }
                }
            }
        }
        let ghost cut = self.entries@;
        let mut i: usize = first;
        while i < self.entries.len()
            invariant
                i <= self.entries@.len(),
                text == key.text(),
                entry_map(self.entries@).remove(text) == entry_map(cut).remove(text),
                ascending(cut) ==> ascending(self.entries@),
                forall|j: int| 0 <= j < i ==> #[trigger] self.entries@[j].0.text() != text,
            decreases self.entries@.len() - i,
        {
            if same_text(self.entries[i].0.as_text(), key.as_text()) {
                let ghost here = self.entries@;
                let _ = self.entries.remove(i);
                proof {
                    first_index_is(here, text, i as int);
                    remove_entry(here, self.entries@, i as int);
                    assert forall|a: int, b: int|
                        ascending(here) && 0 <= a < b < self.entries@.len() implies text_less(
                        #[trigger] self.entries@[a].0.text(),
                        #[trigger] self.entries@[b].0.text(),
                    ) by {
                        let x = if a < i { a } else { a + 1 };
                        let y = if b < i { b } else { b + 1 };
                        assert(self.entries@[a] == here[x]);
                        assert(self.entries@[b] == here[y]);
                    }
                    assert forall|j: int| 0 <= j < i implies (
                    #[trigger] self.entries@[j]).0.text() != text by {
                        assert(self.entries@[j] == here[j]);
                    }
                }
            } else {
                i = i + 1;
            }
        }
        proof {
            first_index_is(self.entries@, text, self.entries@.len() as int);
            entry_map_lookup(self.entries@, text);
            assert(entry_map(self.entries@).remove(text) =~= entry_map(self.entries@));
        }
        found
    }
}

proof fn update_entry<K: Identifier, V>(before: Seq<(K, V)>, after: Seq<(K, V)>, i: int)
    requires
        0 <= i < before.len() == after.len(),
        forall|j: int| 0 <= j < before.len() && j != i ==> #[trigger] after[j] == before[j],
        after[i].0.text() == before[i].0.text(),
        i == first_index(before, before[i].0.text()),
    ensures
        entry_map(after) == entry_map(before).insert(before[i].0.text(), after[i].1),
{
    reveal(entry_map);
    assert forall|key: Seq<char>| first_index(before, key) == #[trigger] first_index(
        after,
        key,
    ) by {
        first_index_bounds(before, key);
        let f = first_index(before, key);
        assert forall|j: int| 0 <= j < f implies (#[trigger] after[j]).0.text() != key by {
            assert(after[j].0.text() == before[j].0.text());
        }
        if f < after.len() {
            assert(after[f].0.text() == before[f].0.text());
        }
        first_index_is(after, key, f);
    }
    let changed = entry_map(before).insert(before[i].0.text(), after[i].1);
    assert forall|key: Seq<char>| changed.contains_key(key) implies #[trigger] entry_map(after)[key]
        == changed[key] by {
        first_index_bounds(before, key);
        assert(first_index(after, key) == first_index(before, key));
        if key != before[i].0.text() {
            assert(after[first_index(before, key)] == before[first_index(before, key)]);
        }
    }
    assert(entry_map(after) =~= changed);
}

proof fn insert_entry<K: Identifier, V>(
    before: Seq<(K, V)>,
    after: Seq<(K, V)>,
    p: int,
    text: Seq<char>,
    value: V,
)
    requires
        0 <= p <= before.len(),
        after == before.insert(p, after[p]),
        after[p].0.text() == text,
        after[p].1 == value,
        first_index(before, text) == before.len(),
    ensures
        entry_map(after) == entry_map(before).insert(text, value),
{
    reveal(entry_map);
    first_index_bounds(before, text);
    assert forall|key: Seq<char>| #[trigger] first_index(after, key) == (if key == text {
        p
    } else if first_index(before, key) < p {
        first_index(before, key)
    } else {
        first_index(before, key) + 1
    }) by {
        first_index_bounds(before, key);
        let f = first_index(before, key);
        if key == text {
            assert forall|j: int| 0 <= j < p implies (#[trigger] after[j]).0.text() != key by {
                assert(after[j] == before[j]);
            }
            first_index_is(after, key, p);
        } else {
            let g = if f < p {
                f
            } else {
                f + 1
            };
            assert forall|j: int| 0 <= j < g implies (#[trigger] after[j]).0.text() != key by {
                if j < p {
                    assert(after[j] == before[j]);
                } else if j > p {
                    assert(after[j] == before[j - 1]);
                }
            }
            if g < after.len() {
                assert(after[g] == before[f]);
            }
            first_index_is(after, key, g);
        }
    }
    assert(entry_map(after) =~= entry_map(before).insert(text, value)) by {
        assert forall|key: Seq<char>| key != text && first_index(before, key)
            < before.len() implies after[first_index(after, key)] == before[first_index(
            before,
            key,
        )] by {
            first_index_bounds(before, key);
        }
        assert forall|key: Seq<char>| key != text implies (first_index(after, key) < after.len()
            <==> first_index(before, key) < before.len()) by {
            first_index_bounds(before, key);
        }
    }
}

proof fn insert_keeps_order<K: Identifier, V>(
    before: Seq<(K, V)>,
    after: Seq<(K, V)>,
    p: int,
    text: Seq<char>,
)
    requires
        ascending(before),
        0 <= p <= before.len(),
        after == before.insert(p, after[p]),
        after[p].0.text() == text,
        first_index(before, text) == before.len(),
        forall|j: int| 0 <= j < p ==> text_less(#[trigger] before[j].0.text(), text),
        p < before.len() ==> !text_less(before[p].0.text(), text),
    ensures
        ascending(after),
{
    first_index_bounds(before, text);
    assert forall|a: int, b: int| 0 <= a < b < after.len() implies text_less(
        #[trigger] after[a].0.text(),
        #[trigger] after[b].0.text(),
    ) by {
        let x = if a < p { a } else { a - 1 };
        let y = if b < p { b } else { b - 1 };
        if a != p {
            assert(after[a] == before[x]);
        }
        if b != p {
            assert(after[b] == before[y]);
        }
        if a == p {
            text_less_total(before[p].0.text(), text);
            if y > p {
                text_less_transitive(text, before[p].0.text(), before[y].0.text());
            }
        }
    }
}

proof fn remove_entry<K: Identifier, V>(before: Seq<(K, V)>, after: Seq<(K, V)>, i: int)
    requires
        0 <= i < before.len(),
        after == before.remove(i),
        i == first_index(before, before[i].0.text()),
    ensures
        entry_map(after).remove(before[i].0.text()) == entry_map(before).remove(
            before[i].0.text(),
        ),
{
    reveal(entry_map);
    let text = before[i].0.text();
    assert forall|key: Seq<char>| key != text implies #[trigger] first_index(after, key) == (
    if first_index(before, key) < i {
        first_index(before, key)
    } else {
        first_index(before, key) - 1
    }) && first_index(before, key) != i by {
        first_index_bounds(before, key);
        let f = first_index(before, key);
        let g = if f < i {
            f
        } else {
            f - 1
        };
        assert forall|j: int| 0 <= j < g implies (#[trigger] after[j]).0.text() != key by {
            if j < i {
                assert(after[j] == before[j]);
            } else {
                assert(after[j] == before[j + 1]);
            }
        }
        if g < after.len() {
            assert(after[g] == before[f]);
        }
        first_index_is(after, key, g);
    }
    assert(entry_map(after).remove(text) =~= entry_map(before).remove(text)) by {
        assert forall|key: Seq<char>| key != text && first_index(before, key)
            < before.len() implies after[first_index(after, key)] == before[first_index(
            before,
            key,
        )] by {
            first_index_bounds(before, key);
        }
        assert forall|key: Seq<char>| key != text implies (first_index(after, key) < after.len()
            <==> first_index(before, key) < before.len()) by {
            first_index_bounds(before, key);
        }
    }
}

} // verus!
