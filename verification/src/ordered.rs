//! A map from texts, kept in the order of its keys.

use vstd::prelude::*;

use crate::text::characters;

verus! {

/// Whether one text comes before another: at the first character in which they differ it has the
/// smaller one, or it ends first.
pub open spec fn before(a: Seq<char>, b: Seq<char>) -> bool
    decreases a.len(),
{
    if b.len() == 0 {
        false
    } else if a.len() == 0 {
        true
    } else if a[0] != b[0] {
        a[0] < b[0]
    } else {
        before(a.skip(1), b.skip(1))
    }
}

/// The order is total: of two texts that differ one comes before the other.
pub proof fn before_is_total(a: Seq<char>, b: Seq<char>)
    ensures
        before(a, b) || before(b, a) || a == b,
        before(a, b) ==> !before(b, a) && a != b,
    decreases a.len(),
{
    if a.len() > 0 && b.len() > 0 && a[0] == b[0] {
        before_is_total(a.skip(1), b.skip(1));
        if a.skip(1) == b.skip(1) {
            assert(a =~= seq![a[0]] + a.skip(1));
            assert(b =~= seq![b[0]] + b.skip(1));
        }
    } else if a.len() == 0 && b.len() == 0 {
        assert(a =~= b);
    }
}

/// The order is transitive.
pub proof fn before_is_transitive(a: Seq<char>, b: Seq<char>, c: Seq<char>)
    requires
        before(a, b),
        before(b, c),
    ensures
        before(a, c),
    decreases a.len(),
{
    if a.len() > 0 && b.len() > 0 && c.len() > 0 && a[0] == b[0] && b[0] == c[0] {
        before_is_transitive(a.skip(1), b.skip(1), c.skip(1));
    }
}

/// How two texts are placed: the first before the second, in its place, or behind it.
#[derive(Debug, Clone, Copy, PartialEq, Eq, Structural)]
pub enum Place {
    Before,
    Same,
    Behind,
}

/// How `a` is placed with respect to `b`.
pub fn place(a: &str, b: &str) -> (placed: Place)
    ensures
        placed == Place::Before <==> before(a@, b@),
        placed == Place::Same <==> a@ == b@,
        placed == Place::Behind <==> before(b@, a@),
{
    let x = characters(a);
    let y = characters(b);
    let mut i: usize = 0;
    assert(a@.skip(0) == a@);
    assert(b@.skip(0) == b@);
    while i < x.len() && i < y.len() && x[i] == y[i]
        invariant
            i <= x.len(),
            i <= y.len(),
            x@ == a@,
            y@ == b@,
            a@.subrange(0, i as int) == b@.subrange(0, i as int),
            before(a@, b@) == before(a@.skip(i as int), b@.skip(i as int)),
            before(b@, a@) == before(b@.skip(i as int), a@.skip(i as int)),
        decreases x.len() - i,
    {
        assert(a@.skip(i as int).skip(1) == a@.skip(i + 1));
        assert(b@.skip(i as int).skip(1) == b@.skip(i + 1));
        assert(a@.subrange(0, i + 1) == a@.subrange(0, i as int).push(a@[i as int]));
        assert(b@.subrange(0, i + 1) == b@.subrange(0, i as int).push(b@[i as int]));
        i += 1;
    }
    proof {
        before_is_total(a@, b@);
        before_is_total(b@, a@);
    }
    if i == x.len() && i == y.len() {
        assert(a@.subrange(0, i as int) == a@);
        assert(b@.subrange(0, i as int) == b@);
        Place::Same
    } else if i == x.len() || (i < y.len() && x[i] < y[i]) {
        assert(before(a@.skip(i as int), b@.skip(i as int)));
        Place::Before
    } else {
        assert(before(b@.skip(i as int), a@.skip(i as int)));
        Place::Behind
    }
}

/// A map from texts to values, as a list of entries in the order of their keys.
pub struct TextMap<V> {
    pub entries: Vec<(String, V)>,
}

/// Whether entries stand in the strict order of their keys.
pub open spec fn in_order<V>(entries: Seq<(String, V)>) -> bool {
    forall|i: int, j: int|
        0 <= i < j < entries.len() ==> before((#[trigger] entries[i]).0@, (#[trigger] entries[j]).0@)
}

/// Whether an entry has a key.
pub open spec fn has_key<V>(entries: Seq<(String, V)>, key: Seq<char>) -> bool {
    exists|i: int| 0 <= i < entries.len() && (#[trigger] entries[i]).0@ == key
}

/// Where an entry with a key stands.
pub open spec fn place_of<V>(entries: Seq<(String, V)>, key: Seq<char>) -> int {
    choose|i: int| 0 <= i < entries.len() && (#[trigger] entries[i]).0@ == key
}

/// The map that entries stand for.
pub open spec fn as_map<V>(entries: Seq<(String, V)>) -> Map<Seq<char>, V> {
    Map::new(
        |key: Seq<char>| has_key(entries, key),
        |key: Seq<char>| entries[place_of(entries, key)].1,
    )
}

impl<V> View for TextMap<V> {
    type V = Map<Seq<char>, V>;

    open spec fn view(&self) -> Map<Seq<char>, V> {
        as_map(self.entries@)
    }
}

proof fn lemma_entry<V>(entries: Seq<(String, V)>, i: int)
    requires
        in_order(entries),
        0 <= i < entries.len(),
    ensures
        as_map(entries).contains_key(entries[i].0@),
        as_map(entries)[entries[i].0@] == entries[i].1,
{
    let key = entries[i].0@;
    let k = place_of(entries, key);
    if k < i {
        before_is_total(entries[k].0@, entries[i].0@);
    } else if i < k {
        before_is_total(entries[i].0@, entries[k].0@);
    }
}

impl<V> TextMap<V> {
    /// The entries stand in the strict order of their keys.
    pub open spec fn wf(self) -> bool {
        in_order(self.entries@)
    }

    pub fn new() -> (map: Self)
        ensures
            map.wf(),
            map@ == Map::<Seq<char>, V>::empty(),
    {
        let map = TextMap { entries: Vec::new() };
        assert(map@ =~= Map::<Seq<char>, V>::empty());
        map
    }

    /// Where a key stands, or where it would have to stand.
    pub fn find(&self, key: &str) -> (found: Result<usize, usize>)
        requires
            self.wf(),
        ensures
            match found {
                Ok(i) => {
                    &&& i < self.entries@.len()
                    &&& self.entries@[i as int].0@ == key@
                    &&& self@.contains_key(key@)
                    &&& self@[key@] == self.entries@[i as int].1
                },
                Err(i) => {
                    &&& i <= self.entries@.len()
                    &&& !self@.contains_key(key@)
                    &&& forall|j: int|
                        0 <= j < i ==> before((#[trigger] self.entries@[j]).0@, key@)
                    &&& forall|j: int|
                        i <= j < self.entries@.len() ==> before(
                            key@,
                            (#[trigger] self.entries@[j]).0@,
                        )
                },
            },
    {
        let mut i: usize = 0;
        while i < self.entries.len()
            invariant
                self.wf(),
                i <= self.entries@.len(),
                forall|j: int| 0 <= j < i ==> before((#[trigger] self.entries@[j]).0@, key@),
            decreases self.entries.len() - i,
        {
            match place(self.entries[i].0.as_str(), key) {
                Place::Before => {},
                Place::Same => {
                    proof {
                        lemma_entry(self.entries@, i as int);
                    }
                    return Ok(i);
                },
                Place::Behind => {
                    proof {
                        assert forall|j: int| i <= j < self.entries@.len() implies before(
                            key@,
                            (#[trigger] self.entries@[j]).0@,
                        ) by {
                            if i < j {
                                assert(before(self.entries@[i as int].0@, self.entries@[j].0@));
                                before_is_transitive(
                                    key@,
                                    self.entries@[i as int].0@,
                                    self.entries@[j].0@,
                                );
                            }
                        }
                        self.lemma_no_key(key@, i as int);
                    }
                    return Err(i);
                },
            }
            i += 1;
        }
        proof {
            self.lemma_no_key(key@, i as int);
        }
        Err(i)
    }

    proof fn lemma_no_key(self, key: Seq<char>, i: int)
        requires
            forall|j: int| 0 <= j < i ==> before((#[trigger] self.entries@[j]).0@, key),
            forall|j: int|
                i <= j < self.entries@.len() ==> before(key, (#[trigger] self.entries@[j]).0@),
        ensures
            !self@.contains_key(key),
    {
        if has_key(self.entries@, key) {
            let k = choose|k: int|
                0 <= k < self.entries@.len() && (#[trigger] self.entries@[k]).0@ == key;
            before_is_total(self.entries@[k].0@, key);
            before_is_total(key, self.entries@[k].0@);
        }
    }

    /// The value under a key.
    pub fn get(&self, key: &str) -> (value: Option<&V>)
        requires
            self.wf(),
        ensures
            match value {
                Some(v) => self@.contains_key(key@) && self@[key@] == *v,
                None => !self@.contains_key(key@),
            },
    {
        match self.find(key) {
            Ok(i) => Some(&self.entries[i].1),
            Err(_) => None,
        }
    }

    /// Puts a value under a key, in place of what stood there.
    pub fn insert(&mut self, key: String, value: V)
        requires
            old(self).wf(),
        ensures
            final(self).wf(),
            final(self)@ == old(self)@.insert(key@, value),
            old(self)@.contains_key(key@) ==> exists|i: int|
                {
                    &&& 0 <= i < old(self).entries@.len()
                    &&& (#[trigger] old(self).entries@[i]).0@ == key@
                    &&& old(self).entries@[i].1 == old(self)@[key@]
                    &&& final(self).entries@ == old(self).entries@.update(i, (key, value))
                },
            !old(self)@.contains_key(key@) ==> exists|i: int|
                {
                    &&& 0 <= i <= old(self).entries@.len()
                    &&& final(self).entries@ == #[trigger] old(self).entries@.insert(
                        i,
                        (key, value),
                    )
                },
    {
        let ghost before_entries = self.entries@;
        let ghost before_map = self@;
        match self.find(key.as_str()) {
            Ok(i) => {
                let ghost name = key@;
                self.entries[i] = (key, value);
                proof {
                    let now = self.entries@;
                    assert(now =~= before_entries.update(i as int, (key, value)));
                    assert forall|a: int, b: int| 0 <= a < b < now.len() implies before(
                        (#[trigger] now[a]).0@,
                        (#[trigger] now[b]).0@,
                    ) by {
                        assert(before(before_entries[a].0@, before_entries[b].0@));
                    }
                    lemma_changed(before_entries, now, name, value, i as int);
                }
            },
            Err(i) => {
                let ghost name = key@;
                self.entries.insert(i, (key, value));
                proof {
                    let now = self.entries@;
                    assert(now =~= before_entries.insert(i as int, (key, value)));
                    assert forall|a: int, b: int| 0 <= a < b < now.len() implies before(
                        (#[trigger] now[a]).0@,
                        (#[trigger] now[b]).0@,
                    ) by {
                        let oa = if a < i {
                            a
                        } else {
                            a - 1
                        };
                        let ob = if b < i {
                            b
                        } else {
                            b - 1
                        };
                        if a != i && b != i {
                            assert(now[a] == before_entries[oa] && now[b] == before_entries[ob]);
                        } else if a == i {
                            assert(now[b] == before_entries[ob]);
                        } else {
                            assert(now[a] == before_entries[oa]);
                        }
                    }
                    lemma_added(before_entries, now, name, value, i as int);
                }
            },
        }
    }
}

proof fn lemma_changed<V>(
    old_entries: Seq<(String, V)>,
    entries: Seq<(String, V)>,
    key: Seq<char>,
    value: V,
    i: int,
)
    requires
        in_order(old_entries),
        in_order(entries),
        0 <= i < old_entries.len(),
        old_entries[i].0@ == key,
        entries.len() == old_entries.len(),
        entries[i].0@ == key && entries[i].1 == value,
        forall|j: int| 0 <= j < entries.len() && j != i ==> entries[j] == old_entries[j],
    ensures
        as_map(entries) == as_map(old_entries).insert(key, value),
{
    let now = as_map(entries);
    let then_map = as_map(old_entries).insert(key, value);
    assert forall|k: Seq<char>| now.contains_key(k) <==> then_map.contains_key(k) by {
        if has_key(entries, k) {
            let j = choose|j: int| 0 <= j < entries.len() && (#[trigger] entries[j]).0@ == k;
            assert(old_entries[j].0@ == k);
        }
        if has_key(old_entries, k) {
            let j = choose|j: int|
                0 <= j < old_entries.len() && (#[trigger] old_entries[j]).0@ == k;
            assert(entries[j].0@ == k);
        }
        if k == key {
            assert(entries[i].0@ == k);
        }
    }
    assert forall|k: Seq<char>| now.contains_key(k) implies now[k] == then_map[k] by {
        let j = choose|j: int| 0 <= j < entries.len() && (#[trigger] entries[j]).0@ == k;
        lemma_entry(entries, j);
        lemma_entry(old_entries, j);
        if j != i {
            if k == key {
                before_is_total(entries[i].0@, entries[j].0@);
                before_is_total(entries[j].0@, entries[i].0@);
            }
        }
    }
    assert(now =~= then_map);
}

proof fn lemma_added<V>(
    old_entries: Seq<(String, V)>,
    entries: Seq<(String, V)>,
    key: Seq<char>,
    value: V,
    i: int,
)
    requires
        in_order(old_entries),
        in_order(entries),
        0 <= i <= old_entries.len(),
        entries.len() == old_entries.len() + 1,
        entries[i].0@ == key && entries[i].1 == value,
        forall|j: int| 0 <= j < i ==> #[trigger] entries[j] == old_entries[j],
        forall|j: int| i < j < entries.len() ==> #[trigger] entries[j] == old_entries[j - 1],
    ensures
        as_map(entries) == as_map(old_entries).insert(key, value),
{
    let now = as_map(entries);
    let then_map = as_map(old_entries).insert(key, value);
    assert forall|k: Seq<char>| now.contains_key(k) <==> then_map.contains_key(k) by {
        if has_key(entries, k) {
            let j = choose|j: int| 0 <= j < entries.len() && (#[trigger] entries[j]).0@ == k;
            if j < i {
                assert(old_entries[j].0@ == k);
            } else if j > i {
                assert(old_entries[j - 1].0@ == k);
            }
        }
        if has_key(old_entries, k) {
            let j = choose|j: int|
                0 <= j < old_entries.len() && (#[trigger] old_entries[j]).0@ == k;
            if j < i {
                assert(entries[j].0@ == k);
            } else {
                assert(entries[j + 1].0@ == k);
            }
        }
        if k == key {
            assert(entries[i].0@ == k);
        }
    }
    assert forall|k: Seq<char>| now.contains_key(k) implies now[k] == then_map[k] by {
        let j = choose|j: int| 0 <= j < entries.len() && (#[trigger] entries[j]).0@ == k;
        lemma_entry(entries, j);
        if j < i {
            lemma_entry(old_entries, j);
            before_is_total(entries[j].0@, entries[i].0@);
        } else if j > i {
            lemma_entry(old_entries, j - 1);
            before_is_total(entries[i].0@, entries[j].0@);
        }
    }
    assert(now =~= then_map);
}

/// The order of numbers is one that an ordered map can rest on.
pub(crate) proof fn numbers_are_ordered()
    ensures
        vstd::laws_cmp::obeys_cmp::<u64>(),
{
    broadcast use vstd::laws_cmp::group_laws_cmp;

}

/// Texts are ordered by the first character in which they differ, and a text comes before whatever
/// it is the beginning of.
pub proof fn the_first_difference_decides(
    common: Seq<char>,
    x: char,
    y: char,
    p: Seq<char>,
    q: Seq<char>,
)
    requires
        x < y,
    ensures
        before(common + seq![x] + p, common + seq![y] + q),
        before(common, common + seq![x] + p),
        !before(common, common),
    decreases common.len(),
{
    let a = common + seq![x] + p;
    let b = common + seq![y] + q;
    if common.len() > 0 {
        let rest = common.skip(1);
        the_first_difference_decides(rest, x, y, p, q);
        assert(a.skip(1) =~= rest + seq![x] + p);
        assert(b.skip(1) =~= rest + seq![y] + q);
    } else {
        assert(a[0] == x && b[0] == y);
    }
}

/// A map holds exactly the keys of its entries, each with its entry's value.
pub proof fn a_map_holds_its_entries<V>(map: TextMap<V>, key: Seq<char>)
    requires
        map.wf(),
    ensures
        map@.contains_key(key) <==> exists|i: int|
            0 <= i < map.entries@.len() && (#[trigger] map.entries@[i]).0@ == key,
        forall|i: int|
            0 <= i < map.entries@.len() && (#[trigger] map.entries@[i]).0@ == key ==> map@[key]
                == map.entries@[i].1,
        forall|i: int, j: int|
            0 <= i < j < map.entries@.len() ==> before(
                (#[trigger] map.entries@[i]).0@,
                (#[trigger] map.entries@[j]).0@,
            ),
{
    assert forall|i: int|
        0 <= i < map.entries@.len() && (#[trigger] map.entries@[i]).0@ == key implies map@[key]
        == map.entries@[i].1 by {
        lemma_entry(map.entries@, i);
    }
}

} // verus!
