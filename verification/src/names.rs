use vstd::prelude::*;

use crate::text;

verus! {

/// The order of texts: by the first character in which they differ, a shorter text before its
/// continuations.
pub open spec fn precedes(a: Seq<char>, b: Seq<char>) -> bool
    decreases a.len(),
{
    if b.len() == 0 {
        false
    } else if a.len() == 0 {
        true
    } else if a[0] == b[0] {
        precedes(a.drop_first(), b.drop_first())
    } else {
        a[0] < b[0]
    }
}

pub proof fn lemma_precedes_irreflexive(a: Seq<char>)
    ensures
        !precedes(a, a),
    decreases a.len(),
{
    if a.len() > 0 {
        lemma_precedes_irreflexive(a.drop_first());
    }
}

pub proof fn lemma_precedes_transitive(a: Seq<char>, b: Seq<char>, c: Seq<char>)
    requires
        precedes(a, b),
        precedes(b, c),
    ensures
        precedes(a, c),
    decreases a.len(),
{
    if a.len() > 0 && a[0] == b[0] && b[0] == c[0] {
        lemma_precedes_transitive(a.drop_first(), b.drop_first(), c.drop_first());
    }
}

pub proof fn lemma_precedes_total(a: Seq<char>, b: Seq<char>)
    ensures
        a == b || precedes(a, b) || precedes(b, a),
    decreases a.len(),
{
    if a.len() == 0 || b.len() == 0 {
        if a.len() == b.len() {
            assert(a == b);
        }
    } else if a[0] == b[0] {
        lemma_precedes_total(a.drop_first(), b.drop_first());
        if a.drop_first() == b.drop_first() {
            assert(a == seq![a[0]] + a.drop_first());
            assert(b == seq![b[0]] + b.drop_first());
        }
    }
}

/// Whether `a` comes before `b`.
pub fn text_precedes(a: &str, b: &str) -> (r: bool)
    ensures
        r == precedes(a@, b@),
{
    let x = text::chars_of(a);
    let y = text::chars_of(b);
    let mut i: usize = 0;
    assert(x@.skip(0) == x@ && y@.skip(0) == y@);
    while i < x.len() && i < y.len()
        invariant
            x@ == a@,
            y@ == b@,
            i <= x@.len(),
            i <= y@.len(),
            precedes(x@, y@) == precedes(x@.skip(i as int), y@.skip(i as int)),
        decreases x@.len() - i,
    {
        if x[i] != y[i] {
            assert(x@.skip(i as int)[0] == x@[i as int]);
            assert(y@.skip(i as int)[0] == y@[i as int]);
            return x[i] < y[i];
        }
        assert(x@.skip(i as int).drop_first() == x@.skip(i + 1));
        assert(y@.skip(i as int).drop_first() == y@.skip(i + 1));
        i = i + 1;
    }
    i == x.len() && i < y.len()
}

/// Each text before the next.
pub open spec fn ascending(keys: Seq<Seq<char>>) -> bool {
    forall|i: int, j: int| 0 <= i < j < keys.len() ==> precedes(keys[i], keys[j])
}

/// Whether `keys` are the names of the set, each once and in order.
pub open spec fn lists(keys: Seq<Seq<char>>, names: Set<Seq<char>>) -> bool {
    &&& ascending(keys)
    &&& forall|k: Seq<char>| #[trigger] keys.contains(k) <==> names.contains(k)
}

/// A set of names is listed in one way only.
pub proof fn listing_is_unique(a: Seq<Seq<char>>, b: Seq<Seq<char>>, names: Set<Seq<char>>)
    requires
        lists(a, names),
        lists(b, names),
    ensures
        a == b,
    decreases a.len(),
{
    if a.len() == 0 {
        if b.len() > 0 {
            assert(b.contains(b[0]));
            assert(a.contains(b[0]));
        }
        assert(a == b);
    } else {
        assert(a.contains(a[0]));
        assert(b.contains(a[0]));
        assert(b.len() > 0);
        assert(b.contains(b[0]));
        assert(a.contains(b[0]));
        let i = choose|i: int| 0 <= i < a.len() && a[i] == b[0];
        let j = choose|j: int| 0 <= j < b.len() && b[j] == a[0];
        if i > 0 && j > 0 {
            lemma_precedes_transitive(a[0], a[i], a[0]);
            lemma_precedes_irreflexive(a[0]);
        }
        assert(a[0] == b[0]);
        let first = a[0];
        let rest = names.remove(first);
        lemma_tail_lists(a, names);
        lemma_tail_lists(b, names);
        listing_is_unique(a.drop_first(), b.drop_first(), rest);
        assert(a == seq![first] + a.drop_first());
        assert(b == seq![first] + b.drop_first());
    }
}

proof fn lemma_tail_lists(keys: Seq<Seq<char>>, names: Set<Seq<char>>)
    requires
        lists(keys, names),
        keys.len() > 0,
    ensures
        lists(keys.drop_first(), names.remove(keys[0])),
{
    let tail = keys.drop_first();
    assert forall|k: Seq<char>| #[trigger] tail.contains(k) <==> names.remove(keys[0]).contains(k) by {
        if tail.contains(k) {
            let i = choose|i: int| 0 <= i < tail.len() && tail[i] == k;
            assert(keys[i + 1] == k);
            assert(keys.contains(k));
            assert(precedes(keys[0], keys[i + 1]));
            lemma_precedes_irreflexive(k);
        }
        if names.contains(k) && k != keys[0] {
            assert(keys.contains(k));
            let i = choose|i: int| 0 <= i < keys.len() && keys[i] == k;
            assert(tail[i - 1] == k);
        }
    }
    assert forall|i: int, j: int| 0 <= i < j < tail.len() implies precedes(tail[i], tail[j]) by {
        assert(precedes(keys[i + 1], keys[j + 1]));
    }
}

/// Values under names, kept in the order of the names.
#[derive(Debug)]
pub struct NameMap<V> {
    entries: Vec<(String, V)>,
}

spec fn keys_of<V>(entries: Seq<(String, V)>) -> Seq<Seq<char>> {
    Seq::new(entries.len(), |i: int| entries[i].0@)
}

spec fn position<V>(entries: Seq<(String, V)>, key: Seq<char>) -> int {
    choose|i: int| 0 <= i < entries.len() && (#[trigger] entries[i]).0@ == key
}

spec fn has_key<V>(entries: Seq<(String, V)>, key: Seq<char>) -> bool {
    exists|i: int| 0 <= i < entries.len() && (#[trigger] entries[i]).0@ == key
}

proof fn lemma_position<V>(entries: Seq<(String, V)>, i: int)
    requires
        ascending(keys_of(entries)),
        0 <= i < entries.len(),
    ensures
        has_key(entries, entries[i].0@),
        position(entries, entries[i].0@) == i,
{
    let key = entries[i].0@;
    assert(has_key(entries, key));
    let j = position(entries, key);
    assert(entries[j].0@ == key);
    let keys = keys_of(entries);
    if i < j {
        assert(precedes(keys[i], keys[j]));
        lemma_precedes_irreflexive(key);
    } else if j < i {
        assert(precedes(keys[j], keys[i]));
        lemma_precedes_irreflexive(key);
    }
}

impl<V> NameMap<V> {
    #[verifier::type_invariant]
    spec fn sorted(self) -> bool {
        ascending(keys_of(self.entries@))
    }

    pub closed spec fn view(self) -> Map<Seq<char>, V> {
        Map::new(
            |key: Seq<char>| has_key(self.entries@, key),
            |key: Seq<char>| self.entries@[position(self.entries@, key)].1,
        )
    }

    /// Nothing under any name.
    pub fn new() -> (r: NameMap<V>)
        ensures
            r@ == Map::<Seq<char>, V>::empty(),
    {
        let r = NameMap { entries: Vec::new() };
        assert(r@ =~= Map::<Seq<char>, V>::empty());
        r
    }

    /// Whether there is nothing.
    pub fn is_empty(&self) -> (r: bool)
        ensures
            r == (self@ == Map::<Seq<char>, V>::empty()),
    {
        proof {
            if self.entries@.len() == 0 {
                assert(self@ =~= Map::<Seq<char>, V>::empty());
            } else {
                assert(has_key(self.entries@, self.entries@[0].0@));
                assert(self@.contains_key(self.entries@[0].0@));
            }
        }
        self.entries.len() == 0
    }

    /// The names in order.
    pub fn keys(&self) -> (r: Vec<String>)
        ensures
            lists(text::texts(r@), self@.dom()),
    {
        proof {
            use_type_invariant(self);
        }
        let mut out: Vec<String> = Vec::new();
        let mut i: usize = 0;
        while i < self.entries.len()
            invariant
                i <= self.entries@.len(),
                out@.len() == i,
                forall|j: int| 0 <= j < i ==> (#[trigger] out@[j])@ == self.entries@[j].0@,
            decreases self.entries@.len() - i,
        {
            out.push(self.entries[i].0.clone());
            i = i + 1;
        }
        proof {
            let keys = text::texts(out@);
            assert(keys =~= keys_of(self.entries@));
            assert forall|k: Seq<char>| #[trigger] keys.contains(k) <==> self@.dom().contains(k) by {
                if keys.contains(k) {
                    let j = choose|j: int| 0 <= j < keys.len() && keys[j] == k;
                    assert(self.entries@[j].0@ == k);
                }
                if has_key(self.entries@, k) {
                    let j = position(self.entries@, k);
                    assert(keys[j] == k);
                }
            }
        }
        out
    }

    /// How many names come before `key`.
    fn rank(&self, key: &str) -> (r: usize)
        ensures
            r <= self.entries@.len(),
            forall|j: int| 0 <= j < r ==> precedes((#[trigger] self.entries@[j]).0@, key@),
            r < self.entries@.len() ==> !precedes(self.entries@[r as int].0@, key@),
    {
        let mut i: usize = 0;
        while i < self.entries.len() && text_precedes(self.entries[i].0.as_str(), key)
            invariant
                i <= self.entries@.len(),
                forall|j: int| 0 <= j < i ==> precedes((#[trigger] self.entries@[j]).0@, key@),
            decreases self.entries@.len() - i,
        {
            i = i + 1;
        }
        i
    }

    /// The value under a name.
    pub fn get(&self, key: &str) -> (r: Option<&V>)
        ensures
            match r {
                Some(value) => self@.contains_key(key@) && *value == self@[key@],
                None => !self@.contains_key(key@),
            },
    {
        proof {
            use_type_invariant(self);
        }
        let i: usize = self.rank(key);
        if i < self.entries.len() && text::same_text(self.entries[i].0.as_str(), key) {
            proof {
                lemma_position(self.entries@, i as int);
            }
            Some(&self.entries[i].1)
        } else {
            proof {
                if has_key(self.entries@, key@) {
                    let j = position(self.entries@, key@);
                    let keys = keys_of(self.entries@);
                    lemma_precedes_irreflexive(key@);
                    assert(j >= i);
                    if j > i {
                        assert(precedes(keys[i as int], keys[j]));
                    }
                }
            }
            None
        }
    }

    /// Puts a value under a name, in place of what was there.
    pub fn insert(&mut self, key: String, value: V)
        ensures
            final(self)@ == old(self)@.insert(key@, value),
    {
        proof {
            use_type_invariant(&*self);
        }
        let i: usize = self.rank(key.as_str());
        let mut entries: Vec<(String, V)> = Vec::new();
        std::mem::swap(&mut entries, &mut self.entries);
        let ghost before = entries@;
        let ghost before_keys = keys_of(before);
        let taken = i < entries.len() && text::same_text(entries[i].0.as_str(), key.as_str());
        let ghost k = key@;
        if taken {
            entries.set(i, (key, value));
            assert(keys_of(entries@) =~= before_keys);
        } else {
            entries.insert(i, (key, value));
            proof {
                let after_keys = keys_of(entries@);
                assert forall|a: int, b: int| 0 <= a < b < after_keys.len() implies precedes(
                    after_keys[a],
                    after_keys[b],
                ) by {
                    let a0 = if a < i {
                        a
                    } else {
                        a - 1
                    };
                    let b0 = if b < i {
                        b
                    } else {
                        b - 1
                    };
                    if a != i && b != i {
                        assert(precedes(before_keys[a0], before_keys[b0]));
                    } else if b == i {
                        assert(precedes(before[a].0@, k));
                    } else {
                        let next = before[i as int].0@;
                        lemma_precedes_total(k, next);
                        if b0 > i {
                            assert(precedes(before_keys[i as int], before_keys[b0]));
                            lemma_precedes_transitive(k, next, before_keys[b0]);
                        }
                    }
                }
            }
        }
        proof {
            let after = entries@;
            assert(after[i as int].0@ == k);
            assert forall|x: Seq<char>| #[trigger] has_key(after, x) <==> has_key(before, x) || x == k by {
                if has_key(after, x) {
                    let j = position(after, x);
                    let j0 = if taken || j < i {
                        j
                    } else {
                        j - 1
                    };
                    if j != i {
                        assert(before[j0].0@ == x);
                    }
                }
                if has_key(before, x) {
                    let j = position(before, x);
                    let j1 = if taken || j < i {
                        j
                    } else {
                        j + 1
                    };
                    assert(after[j1].0@ == x);
                }
            }
            assert forall|x: Seq<char>| has_key(after, x) implies after[#[trigger] position(after, x)].1
                == (if x == k {
                value
            } else {
                before[position(before, x)].1
            }) by {
                if x == k {
                    lemma_position(after, i as int);
                } else {
                    let j = position(before, x);
                    assert(before[j].0@ == x);
                    let j1 = if taken || j < i {
                        j
                    } else {
                        j + 1
                    };
                    assert(after[j1] == before[j]);
                    lemma_position(after, j1);
                }
            }
        }
        self.entries = entries;
        assert(self@ =~= old(self)@.insert(k, value));
    }
}

/// Whether `list` holds the values of the map, each under its name, in the order of the names.
pub open spec fn lists_pairs(list: Seq<(Seq<char>, Seq<char>)>, map: Map<Seq<char>, String>) -> bool {
    &&& lists(Seq::new(list.len(), |i: int| list[i].0), map.dom())
    &&& forall|i: int| 0 <= i < list.len() ==> (#[trigger] list[i]).1 == map[list[i].0]@
}

impl NameMap<String> {
    /// The values with their names, in the order of the names.
    pub fn pairs(&self) -> (r: Vec<(String, String)>)
        ensures
            lists_pairs(text::pairs(r@), self@),
    {
        let keys = self.keys();
        let ghost names = text::texts(keys@);
        let mut out: Vec<(String, String)> = Vec::new();
        let mut i: usize = 0;
        while i < keys.len()
            invariant
                i <= keys@.len(),
                names == text::texts(keys@),
                lists(names, self@.dom()),
                out@.len() == i,
                forall|j: int|
                    0 <= j < i ==> (#[trigger] out@[j]).0@ == keys@[j]@ && out@[j].1@
                        == self@[keys@[j]@]@,
            decreases keys@.len() - i,
        {
            proof {
                assert(names[i as int] == keys@[i as int]@);
                assert(names.contains(keys@[i as int]@));
            }
            match self.get(keys[i].as_str()) {
                Some(value) => {
                    out.push((keys[i].clone(), value.clone()));
                },
                None => {
                    assert(false);
                },
            }
            i = i + 1;
        }
        proof {
            let list = text::pairs(out@);
            assert(Seq::new(list.len(), |i: int| list[i].0) =~= names);
        }
        out
    }
}

/// Texts are ordered by the first character in which they differ, and a text comes before what
/// continues it.
pub proof fn first_difference_decides(
    common: Seq<char>,
    c: char,
    d: char,
    a: Seq<char>,
    b: Seq<char>,
)
    requires
        c < d,
    ensures
        precedes(common + seq![c] + a, common + seq![d] + b),
        !precedes(common + seq![d] + b, common + seq![c] + a),
        precedes(common, common + seq![c] + a),
        !precedes(common + seq![c] + a, common),
    decreases common.len(),
{
    let x = common + seq![c] + a;
    let y = common + seq![d] + b;
    if common.len() > 0 {
        let rest = common.drop_first();
        first_difference_decides(rest, c, d, a, b);
        assert(x.drop_first() == rest + seq![c] + a);
        assert(y.drop_first() == rest + seq![d] + b);
    }
}

/// Names that are listed stand in their order, each once, and are all of the names.
pub proof fn listed_names_ascend(keys: Seq<Seq<char>>, names: Set<Seq<char>>, i: int, j: int)
    requires
        lists(keys, names),
        0 <= i < j < keys.len(),
    ensures
        precedes(keys[i], keys[j]),
        keys[i] != keys[j],
        names.contains(keys[i]),
        forall|name: Seq<char>| #[trigger] names.contains(name) ==> keys.contains(name),
{
    lemma_precedes_irreflexive(keys[i]);
    assert(keys.contains(keys[i]));
    assert forall|name: Seq<char>| #[trigger] names.contains(name) implies keys.contains(name) by {
        assert(keys.contains(name) <==> names.contains(name));
    }
}

/// Pairs that are listed hold each name of the map once, with its value, in the order of the names.
pub proof fn listed_pairs_are_those_of_the_map(
    list: Seq<(Seq<char>, Seq<char>)>,
    map: Map<Seq<char>, String>,
    i: int,
    name: Seq<char>,
)
    requires
        lists_pairs(list, map),
        0 <= i < list.len(),
    ensures
        map.contains_key(list[i].0),
        list[i].1 == map[list[i].0]@,
        i + 1 < list.len() ==> precedes(list[i].0, list[i + 1].0),
        map.contains_key(name) ==> list.contains((name, map[name]@)),
{
    let keys = Seq::new(list.len(), |i: int| list[i].0);
    assert(keys.contains(keys[i]));
    if i + 1 < list.len() {
        listed_names_ascend(keys, map.dom(), i, i + 1);
    }
    if map.contains_key(name) {
        assert(keys.contains(name) <==> map.dom().contains(name));
        let k = choose|k: int| 0 <= k < keys.len() && keys[k] == name;
        assert(list[k] == (name, map[name]@));
    }
}

} // verus!
