//! Tables held as lists of pairs, and a table keyed by text.
use vstd::prelude::*;
use vstd::string::*;
use crate::text::{copy_of, same_text};
use crate::text::texts;

verus! {

/// The value under each key, the last pair of a key first.
pub open spec fn pair_map<K, V>(e: Seq<(K, V)>) -> Map<K, V>
    decreases e.len(),
{
    if e.len() == 0 {
        Map::<K, V>::empty()
    } else {
        pair_map(e.drop_last()).insert(e.last().0, e.last().1)
    }
}

/// No key stands in the list twice.
pub open spec fn distinct_keys<K, V>(e: Seq<(K, V)>) -> bool {
    forall|a: int, b: int|
        0 <= a < e.len() && 0 <= b < e.len() && a != b ==> #[trigger] e[a].0 != #[trigger] e[b].0
}

proof fn lemma_distinct_front<K, V>(e: Seq<(K, V)>)
    requires
        e.len() > 0,
        distinct_keys(e),
    ensures
        distinct_keys(e.drop_last()),
{
    let f = e.drop_last();
    assert forall|a: int, b: int| 0 <= a < f.len() && 0 <= b < f.len() && a != b implies #[trigger] f[a].0
        != #[trigger] f[b].0 by {
        assert(e[a].0 != e[b].0);
    }
}

/// Putting another value in the place of a key's pair changes the map there alone.
pub proof fn lemma_pair_map_update<K, V>(e: Seq<(K, V)>, i: int, v: V)
    requires
        0 <= i < e.len(),
        distinct_keys(e),
    ensures
        pair_map(e.update(i, (e[i].0, v))) == pair_map(e).insert(e[i].0, v),
        distinct_keys(e.update(i, (e[i].0, v))),
    decreases e.len(),
{
    let u = e.update(i, (e[i].0, v));
    assert forall|a: int, b: int| 0 <= a < u.len() && 0 <= b < u.len() && a != b implies #[trigger] u[a].0
        != #[trigger] u[b].0 by {
        assert(e[a].0 != e[b].0);
    }
    if i == e.len() - 1 {
        assert(u.drop_last() =~= e.drop_last());
        assert(pair_map(u) =~= pair_map(e).insert(e[i].0, v));
    } else {
        let f = e.drop_last();
        lemma_distinct_front(e);
        assert(f[i] == e[i]);
        lemma_pair_map_update(f, i, v);
        assert(u.drop_last() =~= f.update(i, (f[i].0, v)));
        assert(e[e.len() - 1].0 != e[i].0);
        assert(pair_map(u) =~= pair_map(e).insert(e[i].0, v));
    }
}

/// A key that stands in no pair is not in the map.
pub proof fn lemma_pair_map_absent<K, V>(e: Seq<(K, V)>, k: K)
    requires
        forall|j: int| 0 <= j < e.len() ==> #[trigger] e[j].0 != k,
    ensures
        !pair_map(e).dom().contains(k),
    decreases e.len(),
{
    if e.len() > 0 {
        assert(e[e.len() - 1].0 != k);
        let f = e.drop_last();
        assert forall|j: int| 0 <= j < f.len() implies #[trigger] f[j].0 != k by {
            assert(e[j].0 != k);
        }
        lemma_pair_map_absent(f, k);
    }
}

/// The map holds each pair.
pub proof fn lemma_pair_map_at<K, V>(e: Seq<(K, V)>, i: int)
    requires
        0 <= i < e.len(),
        distinct_keys(e),
    ensures
        pair_map(e).dom().contains(e[i].0),
        pair_map(e)[e[i].0] == e[i].1,
    decreases e.len(),
{
    if i < e.len() - 1 {
        lemma_distinct_front(e);
        assert(e.drop_last()[i] == e[i]);
        lemma_pair_map_at(e.drop_last(), i);
        assert(e[e.len() - 1].0 != e[i].0);
    }
}

/// Each key of the map stands in a pair.
pub proof fn lemma_pair_map_from<K, V>(e: Seq<(K, V)>, k: K)
    requires
        pair_map(e).dom().contains(k),
    ensures
        exists|i: int| 0 <= i < e.len() && #[trigger] e[i].0 == k,
    decreases e.len(),
{
    if e.len() > 0 {
        if e.last().0 == k {
            assert(e[e.len() - 1].0 == k);
        } else {
            lemma_pair_map_from(e.drop_last(), k);
            let i = choose|i: int| 0 <= i < e.drop_last().len() && #[trigger] e.drop_last()[i].0 == k;
            assert(e[i].0 == k);
        }
    }
}

/// Taking a pair out takes its key out of the map.
pub proof fn lemma_pair_map_remove<K, V>(e: Seq<(K, V)>, i: int)
    requires
        0 <= i < e.len(),
        distinct_keys(e),
    ensures
        pair_map(e.remove(i)) == pair_map(e).remove(e[i].0),
        distinct_keys(e.remove(i)),
    decreases e.len(),
{
    let u = e.remove(i);
    assert forall|a: int, b: int| 0 <= a < u.len() && 0 <= b < u.len() && a != b implies #[trigger] u[a].0
        != #[trigger] u[b].0 by {
        let x = if a < i { a } else { a + 1 };
        let y = if b < i { b } else { b + 1 };
        assert(e[x].0 != e[y].0);
    }
    let f = e.drop_last();
    if i == e.len() - 1 {
        assert(u =~= f);
        assert forall|j: int| 0 <= j < f.len() implies #[trigger] f[j].0 != e[i].0 by {
            assert(e[j].0 != e[i].0);
        }
        lemma_pair_map_absent(f, e[i].0);
        assert(pair_map(u) =~= pair_map(e).remove(e[i].0));
    } else {
        lemma_distinct_front(e);
        assert(f[i] == e[i]);
        lemma_pair_map_remove(f, i);
        assert(u.drop_last() =~= f.remove(i));
        assert(e[e.len() - 1].0 != e[i].0);
        assert(pair_map(u) =~= pair_map(e).remove(e[i].0));
    }
}

/// With distinct keys, the map is as large as the list.
pub proof fn lemma_pair_map_len<K, V>(e: Seq<(K, V)>)
    requires
        distinct_keys(e),
    ensures
        pair_map(e).dom().finite(),
        pair_map(e).dom().len() == e.len(),
    decreases e.len(),
{
    if e.len() > 0 {
        let f = e.drop_last();
        lemma_distinct_front(e);
        lemma_pair_map_len(f);
        assert forall|j: int| 0 <= j < f.len() implies #[trigger] f[j].0 != e.last().0 by {
            assert(e[j].0 != e[e.len() - 1].0);
        }
        lemma_pair_map_absent(f, e.last().0);
        assert(pair_map(e).dom() =~= pair_map(f).dom().insert(e.last().0));
    }
}

/// A table from texts to values.
#[derive(Debug)]
pub struct Table<V> {
    entries: Vec<(String, V)>,
}

/// The pairs with their keys as texts.
pub open spec fn keyed<V>(e: Seq<(String, V)>) -> Seq<(Seq<char>, V)> {
    e.map_values(|p: (String, V)| (p.0@, p.1))
}

impl<V> View for Table<V> {
    type V = Map<Seq<char>, V>;

    closed spec fn view(&self) -> Map<Seq<char>, V> {
        pair_map(keyed(self.entries@))
    }
}

impl<V> Table<V> {
    /// No key stands in the table twice.
    pub closed spec fn wf(&self) -> bool {
        distinct_keys(keyed(self.entries@))
    }

    /// An empty table.
    pub fn new() -> (r: Table<V>)
        ensures
            r.wf(),
            r@ == Map::<Seq<char>, V>::empty(),
    {
        Table { entries: Vec::new() }
    }

    /// The position of a key, where it stands in the table.
    fn position(&self, key: &str) -> (r: Option<usize>)
        ensures
            (match r {
                Some(i) => i < self.entries@.len() && keyed(self.entries@)[i as int].0 == key@,
                None => forall|j: int|
                    0 <= j < self.entries@.len() ==> #[trigger] keyed(self.entries@)[j].0 != key@,
            }),
    {
        let mut i: usize = 0;
        while i < self.entries.len()
            invariant
                0 <= i <= self.entries.len(),
                forall|j: int| 0 <= j < i ==> #[trigger] keyed(self.entries@)[j].0 != key@,
            decreases self.entries.len() - i,
        {
            if same_text(self.entries[i].0.as_str(), key) {
                return Some(i);
            }
            i += 1;
        }
        None
    }

    /// The value under a key.
    pub fn get(&self, key: &str) -> (r: Option<&V>)
        requires
            self.wf(),
        ensures
            (match r {
                Some(v) => self@.dom().contains(key@) && self@[key@] == *v,
                None => !self@.dom().contains(key@),
            }),
    {
        match self.position(key) {
            Some(i) => {
                proof {
                    lemma_pair_map_at(keyed(self.entries@), i as int);
                }
                Some(&self.entries[i].1)
            },
            None => {
                proof {
                    lemma_pair_map_absent(keyed(self.entries@), key@);
                }
                None
            },
        }
    }

    /// The keys, each once.
    pub fn keys(&self) -> (r: Vec<String>)
        requires
            self.wf(),
        ensures
            texts(r@).to_set() == self@.dom(),
            texts(r@).no_duplicates(),
    {
        let mut r: Vec<String> = Vec::new();
        let mut i: usize = 0;
        while i < self.entries.len()
            invariant
                0 <= i <= self.entries.len(),
                r@.len() == i,
                forall|j: int| 0 <= j < i ==> #[trigger] texts(r@)[j] == keyed(self.entries@)[j].0,
            decreases self.entries.len() - i,
        {
            let ghost before = r@;
            r.push(self.entries[i].0.clone());
            proof {
                assert(texts(r@) =~= texts(before).push(self.entries@[i as int].0@));
            }
            i += 1;
        }
        proof {
            let e = keyed(self.entries@);
            assert forall|k: Seq<char>| #[trigger] texts(r@).to_set().contains(k) <==> self@.dom().contains(
                k,
            ) by {
                if texts(r@).contains(k) {
                    let j = choose|j: int| 0 <= j < texts(r@).len() && texts(r@)[j] == k;
                    lemma_pair_map_at(e, j);
                }
                if self@.dom().contains(k) {
                    lemma_pair_map_from(e, k);
                    let j = choose|j: int| 0 <= j < e.len() && #[trigger] e[j].0 == k;
                    assert(texts(r@)[j] == k);
                }
            }
            assert(texts(r@).to_set() =~= self@.dom());
            assert forall|a: int, b: int|
                0 <= a < texts(r@).len() && 0 <= b < texts(r@).len() && a != b implies #[trigger] texts(
                r@,
            )[a] != #[trigger] texts(r@)[b] by {
                assert(e[a].0 != e[b].0);
            }
        }
        r
    }

    /// Puts a value under a key, in place of the one that stands there.
    pub fn insert(&mut self, key: &str, value: V)
        requires
            old(self).wf(),
        ensures
            final(self).wf(),
            final(self)@ == old(self)@.insert(key@, value),
    {
        let ghost before = keyed(self.entries@);
        match self.position(key) {
            Some(i) => {
                proof {
                    lemma_pair_map_update(before, i as int, value);
                }
                self.entries.set(i, (copy_of(key), value));
                proof {
                    assert(keyed(self.entries@) =~= before.update(i as int, (before[i as int].0, value)));
                }
            },
            None => {
                self.entries.push((copy_of(key), value));
                proof {
                    assert(keyed(self.entries@) =~= before.push((key@, value)));
                    assert(keyed(self.entries@).drop_last() =~= before);
                    assert(forall|j: int| 0 <= j < before.len() ==> #[trigger] before[j].0 != key@);
                }
            },
        }
    }
}

/// What was put under a key is found there, in place of what stood there before, and every other
/// key keeps its value; a new table holds nothing.
pub proof fn law_tables_hold_what_was_put_in<V>(
    fresh: Table<V>,
    t: &mut Table<V>,
    key: &str,
    value: V,
    other: &str,
    own: Option<&V>,
    before: Option<&V>,
    after: Option<&V>,
    none: Option<&V>,
)
    requires
        old(t).wf(),
        call_ensures(Table::<V>::new, (), fresh),
        call_ensures(Table::<V>::get, (&fresh, other), none),
        call_ensures(Table::<V>::insert, (t, key, value), ()),
        call_ensures(Table::<V>::get, (final(t), key), own),
        call_ensures(Table::<V>::get, (old(t), other), before),
        call_ensures(Table::<V>::get, (final(t), other), after),
    ensures
        none is None,
        own is Some && *own->0 == value,
        other@ != key@ ==> (before is Some <==> after is Some) && (before is Some ==> *before->0
            == *after->0),
{
}

}
