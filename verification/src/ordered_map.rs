//! A map from text to values that is walked in the order of its keys.

use crate::text;
use vstd::prelude::*;

verus! {

/// The keys of a list of pairs are strictly ascending.
pub open spec fn ascending<V>(s: Seq<(Seq<char>, V)>) -> bool {
    forall|i: int, j: int| #![trigger s[i], s[j]] 0 <= i < j < s.len() ==> text::precedes(s[i].0, s[j].0)
}

/// `key` is the key of the pair at `i`.
pub open spec fn key_is_at<V>(s: Seq<(Seq<char>, V)>, key: Seq<char>, i: int) -> bool {
    0 <= i < s.len() && s[i].0 == key
}

/// The map that a list of pairs with distinct keys stands for.
pub open spec fn map_of<V>(s: Seq<(Seq<char>, V)>) -> Map<Seq<char>, V> {
    Map::new(
        |k: Seq<char>| exists|i: int| key_is_at(s, k, i),
        |k: Seq<char>| s[choose|i: int| key_is_at(s, k, i)].1,
    )
}

/// A map with text keys, held as pairs in ascending key order without a repeated key.
#[derive(Debug)]
pub struct OrderedMap<V> {
    items: Vec<(String, V)>,
}

impl<V> View for OrderedMap<V> {
    type V = Map<Seq<char>, V>;

    open spec fn view(&self) -> Map<Seq<char>, V> {
        map_of(self.pairs())
    }
}

/// Two maps say the same of `x`.
pub open spec fn agree_at<V>(a: Map<Seq<char>, V>, b: Map<Seq<char>, V>, x: Seq<char>) -> bool {
    &&& a.contains_key(x) == b.contains_key(x)
    &&& a.contains_key(x) ==> a[x] == b[x]
}

/// Maps that say the same of every key are equal.
pub proof fn agreeing_maps_equal<V>(a: Map<Seq<char>, V>, b: Map<Seq<char>, V>)
    requires
        forall|x: Seq<char>| agree_at(a, b, x),
    ensures
        a == b,
{
    assert forall|x: Seq<char>| a.dom().contains(x) == b.dom().contains(x) by {
        assert(agree_at(a, b, x));
    }
    assert(a.dom() =~= b.dom());
    assert forall|x: Seq<char>| a.dom().contains(x) implies a[x] == b[x] by {
        assert(agree_at(a, b, x));
    }
    assert(a =~= b);
}

/// In an ascending list a key stands at one place only.
proof fn key_place_unique<V>(s: Seq<(Seq<char>, V)>, key: Seq<char>, i: int, j: int)
    requires
        ascending(s),
        key_is_at(s, key, i),
        key_is_at(s, key, j),
    ensures
        i == j,
{
    text::precedes_irreflexive(key);
    if i < j {
        assert(text::precedes(s[i].0, s[j].0));
    } else if j < i {
        assert(text::precedes(s[j].0, s[i].0));
    }
}

/// Looking a key up gives the value of the pair that holds it.
pub proof fn map_of_at<V>(s: Seq<(Seq<char>, V)>, i: int)
    requires
        ascending(s),
        0 <= i < s.len(),
    ensures
        map_of(s).contains_key(s[i].0),
        map_of(s)[s[i].0] == s[i].1,
{
    let k = s[i].0;
    assert(key_is_at(s, k, i));
    let j = choose|j: int| key_is_at(s, k, j);
    key_place_unique(s, k, i, j);
}

/// A key of the map has a place in the list.
proof fn map_of_place<V>(s: Seq<(Seq<char>, V)>, k: Seq<char>) -> (i: int)
    requires
        ascending(s),
        map_of(s).contains_key(k),
    ensures
        key_is_at(s, k, i),
        map_of(s)[k] == s[i].1,
{
    let i = choose|i: int| key_is_at(s, k, i);
    map_of_at(s, i);
    i
}

proof fn insert_keeps_order<V>(s: Seq<(Seq<char>, V)>, at: int, k: Seq<char>, v: V)
    requires
        ascending(s),
        0 <= at <= s.len(),
        forall|i: int| 0 <= i < at ==> text::precedes(#[trigger] s[i].0, k),
        at < s.len() ==> text::precedes(k, s[at].0),
    ensures
        ascending(s.insert(at, (k, v))),
        map_of(s.insert(at, (k, v))) == map_of(s).insert(k, v),
        !map_of(s).contains_key(k),
{
    let t = s.insert(at, (k, v));
    assert forall|i: int| at <= i < s.len() implies text::precedes(k, #[trigger] s[i].0) by {
        if at < i {
            text::precedes_transitive(k, s[at].0, s[i].0);
        }
    }
    assert forall|i: int, j: int| #![trigger t[i], t[j]] 0 <= i < j < t.len() implies text::precedes(
        t[i].0,
        t[j].0,
    ) by {
        if i < at {
            assert(t[i] == s[i]);
            if j < at {
                assert(t[j] == s[j]);
            } else if j > at {
                assert(t[j] == s[j - 1]);
            }
        } else if i == at {
            assert(t[j] == s[j - 1]);
        } else {
            assert(t[i] == s[i - 1]);
            assert(t[j] == s[j - 1]);
        }
    }
    if map_of(s).contains_key(k) {
        let i = map_of_place(s, k);
        text::precedes_irreflexive(k);
        if i < at {
            assert(text::precedes(s[i].0, k));
        } else {
            assert(text::precedes(k, s[i].0));
        }
    }
    let m = map_of(s).insert(k, v);
    assert(map_of(t) == m) by {
        assert forall|x: Seq<char>| agree_at(map_of(t), m, x) by {
            if map_of(t).contains_key(x) {
                let i = map_of_place(t, x);
                if i < at {
                    assert(t[i] == s[i]);
                    map_of_at(s, i);
                } else if i > at {
                    assert(t[i] == s[i - 1]);
                    map_of_at(s, i - 1);
                }
            }
            if map_of(s).contains_key(x) {
                let i = map_of_place(s, x);
                if i < at {
                    assert(t[i] == s[i]);
                    map_of_at(t, i);
                } else {
                    assert(t[i + 1] == s[i]);
                    map_of_at(t, i + 1);
                }
            }
            map_of_at(t, at);
        }
        agreeing_maps_equal(map_of(t), m);
    }
}

proof fn update_keeps_order<V>(s: Seq<(Seq<char>, V)>, at: int, v: V)
    requires
        ascending(s),
        0 <= at < s.len(),
    ensures
        ascending(s.update(at, (s[at].0, v))),
        map_of(s.update(at, (s[at].0, v))) == map_of(s).insert(s[at].0, v),
{
    let k = s[at].0;
    let t = s.update(at, (k, v));
    assert forall|i: int, j: int| #![trigger t[i], t[j]] 0 <= i < j < t.len() implies text::precedes(
        t[i].0,
        t[j].0,
    ) by {
        assert(text::precedes(s[i].0, s[j].0));
    }
    let m = map_of(s).insert(k, v);
    assert(map_of(t) == m) by {
        assert forall|x: Seq<char>| agree_at(map_of(t), m, x) by {
            map_of_at(t, at);
            map_of_at(s, at);
            if map_of(t).contains_key(x) {
                let i = map_of_place(t, x);
                map_of_at(s, i);
                map_of_at(t, i);
                if i != at && x == k {
                    key_place_unique(t, x, i, at);
                }
            }
            if map_of(s).contains_key(x) {
                let i = map_of_place(s, x);
                map_of_at(t, i);
            }
        }
        agreeing_maps_equal(map_of(t), m);
    }
}

proof fn remove_keeps_order<V>(s: Seq<(Seq<char>, V)>, at: int)
    requires
        ascending(s),
        0 <= at < s.len(),
    ensures
        ascending(s.remove(at)),
        map_of(s.remove(at)) == map_of(s).remove(s[at].0),
{
    let k = s[at].0;
    let t = s.remove(at);
    assert forall|i: int, j: int| #![trigger t[i], t[j]] 0 <= i < j < t.len() implies text::precedes(
        t[i].0,
        t[j].0,
    ) by {
        let x = if i < at { i } else { i + 1 };
        let y = if j < at { j } else { j + 1 };
        assert(text::precedes(s[x].0, s[y].0));
    }
    let m = map_of(s).remove(k);
    assert(map_of(t) == m) by {
        assert forall|x: Seq<char>| agree_at(map_of(t), m, x) by {
            if map_of(t).contains_key(x) {
                let i = map_of_place(t, x);
                let j = if i < at { i } else { i + 1 };
                assert(t[i] == s[j]);
                map_of_at(s, j);
                if x == k {
                    key_place_unique(s, k, at, j);
                }
            }
            if map_of(s).contains_key(x) && x != k {
                let i = map_of_place(s, x);
                let j = if i < at { i } else { i - 1 };
                assert(t[j] == s[i]);
                map_of_at(t, j);
            }
        }
        agreeing_maps_equal(map_of(t), m);
    }
}

impl<V> OrderedMap<V> {
    /// The pairs, in key order.
    pub closed spec fn pairs(self) -> Seq<(Seq<char>, V)> {
        self.items@.map_values(|e: (String, V)| (e.0@, e.1))
    }

    /// The pairs are in ascending key order.
    #[verifier::type_invariant]
    pub closed spec fn in_order(self) -> bool {
        ascending(self.pairs())
    }

    /// An ordered map's pairs are ascending in their keys.
    pub proof fn pairs_ascend(self)
        requires
            self.in_order(),
        ensures
            ascending(self.pairs()),
    {
    }

    /// The empty map.
    pub fn new() -> (r: Self)
        ensures
            r.pairs() == Seq::<(Seq<char>, V)>::empty(),
            r@ == Map::<Seq<char>, V>::empty(),
    {
        let r = OrderedMap { items: Vec::new() };
        proof {
            assert(r.pairs() =~= Seq::empty());
            assert(r@ =~= Map::<Seq<char>, V>::empty());
        }
        r
    }

    /// How many pairs the map holds.
    pub fn len(&self) -> (n: usize)
        ensures
            n == self.pairs().len(),
    {
        self.items.len()
    }

    /// Whether the map holds nothing.
    pub fn is_empty(&self) -> (r: bool)
        ensures
            r == (self.pairs().len() == 0),
    {
        self.items.len() == 0
    }

    /// The key at a place of the order.
    pub fn key_at(&self, i: usize) -> (k: &String)
        requires
            i < self.pairs().len(),
        ensures
            k@ == self.pairs()[i as int].0,
    {
        &self.items[i].0
    }

    /// The value at a place of the order.
    pub fn value_at(&self, i: usize) -> (v: &V)
        requires
            i < self.pairs().len(),
        ensures
            *v == self.pairs()[i as int].1,
    {
        &self.items[i].1
    }

    /// Where `key` stands, or where it would have to be inserted.
    fn place(&self, key: &str) -> (r: (bool, usize))
        ensures
            r.1 <= self.pairs().len(),
            r.0 ==> key_is_at(self.pairs(), key@, r.1 as int),
            !r.0 ==> {
                &&& forall|i: int| 0 <= i < r.1 ==> text::precedes(#[trigger] self.pairs()[i].0, key@)
                &&& r.1 < self.pairs().len() ==> text::precedes(key@, self.pairs()[r.1 as int].0)
            },
    {
        let mut i: usize = 0;
        while i < self.items.len()
            invariant
                i <= self.items@.len(),
                forall|j: int| 0 <= j < i ==> text::precedes(#[trigger] self.pairs()[j].0, key@),
            decreases self.items@.len() - i,
        {
            let here = self.items[i].0.as_str();
            if text::same(here, key) {
                return (true, i);
            }
            if !text::comes_before(here, key) {
                proof {
                    text::precedes_total(here@, key@);
                }
                return (false, i);
            }
            i += 1;
        }
        (false, i)
    }

    /// The value of `key`, if the map has it.
    pub fn get(&self, key: &str) -> (r: Option<&V>)
        ensures
            self@.contains_key(key@) ==> r == Some(&self@[key@]),
            !self@.contains_key(key@) ==> r is None,
    {
        proof {
            use_type_invariant(self);
        }
        let (found, i) = self.place(key);
        if found {
            proof {
                map_of_at(self.pairs(), i as int);
            }
            Some(&self.items[i].1)
        } else {
            proof {
                absent_at_place(self.pairs(), key@, i as int);
            }
            None
        }
    }

    /// Whether the map has `key`.
    pub fn contains_key(&self, key: &str) -> (r: bool)
        ensures
            r == self@.contains_key(key@),
    {
        match self.get(key) {
            Some(_) => true,
            None => false,
        }
    }

    /// Sets the value of `key` and hands back the one it replaces.
    pub fn insert(&mut self, key: String, value: V) -> (r: Option<V>)
        ensures
            final(self)@ == old(self)@.insert(key@, value),
            old(self)@.contains_key(key@) ==> r == Some(old(self)@[key@]),
            !old(self)@.contains_key(key@) ==> r is None,
    {
        proof {
            use_type_invariant(&*self);
        }
        let ghost before = self.pairs();
        let (found, i) = self.place(key.as_str());
        let mut items: Vec<(String, V)> = Vec::new();
        std::mem::swap(&mut items, &mut self.items);
        if found {
            proof {
                map_of_at(before, i as int);
                update_keeps_order(before, i as int, value);
            }
            let previous = items.remove(i);
            items.insert(i, (key, value));
            proof {
                assert(items@.map_values(|e: (String, V)| (e.0@, e.1)) =~= before.update(
                    i as int,
                    (before[i as int].0, value),
                ));
            }
            self.items = items;
            Some(previous.1)
        } else {
            proof {
                insert_keeps_order(before, i as int, key@, value);
            }
            let ghost k = key@;
            items.insert(i, (key, value));
            proof {
                assert(items@.map_values(|e: (String, V)| (e.0@, e.1)) =~= before.insert(
                    i as int,
                    (k, value),
                ));
            }
            self.items = items;
            None
        }
    }

    /// Takes the pair of `key` out of the map.
    pub fn remove(&mut self, key: &str) -> (r: Option<V>)
        ensures
            final(self)@ == old(self)@.remove(key@),
            old(self)@.contains_key(key@) ==> r == Some(old(self)@[key@]),
            !old(self)@.contains_key(key@) ==> r is None && final(self).pairs() == old(
                self,
            ).pairs(),
    {
        proof {
            use_type_invariant(&*self);
        }
        let ghost before = self.pairs();
        let (found, i) = self.place(key);
        if found {
            let mut items: Vec<(String, V)> = Vec::new();
            std::mem::swap(&mut items, &mut self.items);
            proof {
                map_of_at(before, i as int);
                remove_keeps_order(before, i as int);
            }
            let taken = items.remove(i);
            proof {
                assert(items@.map_values(|e: (String, V)| (e.0@, e.1)) =~= before.remove(i as int));
            }
            self.items = items;
            Some(taken.1)
        } else {
            proof {
                absent_at_place(before, key@, i as int);
                assert(map_of(before).remove(key@) =~= map_of(before));
            }
            None
        }
    }
}

/// A key that would have to be inserted at `at` is not in the map.
proof fn absent_at_place<V>(s: Seq<(Seq<char>, V)>, k: Seq<char>, at: int)
    requires
        ascending(s),
        0 <= at <= s.len(),
        forall|i: int| 0 <= i < at ==> text::precedes(#[trigger] s[i].0, k),
        at < s.len() ==> text::precedes(k, s[at].0),
    ensures
        !map_of(s).contains_key(k),
{
    if map_of(s).contains_key(k) {
        let i = map_of_place(s, k);
        text::precedes_irreflexive(k);
        if at < i {
            text::precedes_transitive(k, s[at].0, s[i].0);
        }
    }
}

/// The items whose flag is set, in order.
pub open spec fn flagged<A>(s: Seq<A>, flags: Seq<bool>) -> Seq<A>
    decreases s.len(),
{
    if s.len() == 0 {
        Seq::empty()
    } else {
        let rest = flagged(s.drop_last(), flags);
        if flags[s.len() - 1] {
            rest.push(s.last())
        } else {
            rest
        }
    }
}

/// The items whose flag is not set, in order.
pub open spec fn unflagged<A>(s: Seq<A>, flags: Seq<bool>) -> Seq<A>
    decreases s.len(),
{
    if s.len() == 0 {
        Seq::empty()
    } else {
        let rest = unflagged(s.drop_last(), flags);
        if flags[s.len() - 1] {
            rest
        } else {
            rest.push(s.last())
        }
    }
}

/// `x` is one of the flagged items.
pub open spec fn is_flagged<A>(s: Seq<A>, flags: Seq<bool>, x: A) -> bool {
    exists|i: int| #![trigger s[i]] 0 <= i < s.len() && flags[i] && s[i] == x
}

/// The items chosen are the flagged ones and no others.
pub proof fn flagged_members<A>(s: Seq<A>, flags: Seq<bool>, x: A)
    ensures
        flagged(s, flags).contains(x) == is_flagged(s, flags, x),
    decreases s.len(),
{
    if s.len() > 0 {
        let front = s.drop_last();
        flagged_members(front, flags, x);
        let whole = flagged(s, flags);
        let part = flagged(front, flags);
        if is_flagged(s, flags, x) {
            let i = choose|i: int| #![trigger s[i]] 0 <= i < s.len() && flags[i] && s[i] == x;
            if i < front.len() {
                assert(front[i] == x);
                let j = choose|j: int| 0 <= j < part.len() && part[j] == x;
                assert(whole[j] == x);
            } else {
                assert(whole[whole.len() - 1] == x);
            }
        }
        if whole.contains(x) {
            let j = choose|j: int| 0 <= j < whole.len() && whole[j] == x;
            if j < part.len() {
                assert(part[j] == x);
                let i = choose|i: int|
                    #![trigger front[i]]
                    0 <= i < front.len() && flags[i] && front[i] == x;
                assert(s[i] == x);
            } else {
                assert(s[s.len() - 1] == x);
            }
        }
    }
}

proof fn flagged_keeps_order<V>(s: Seq<(Seq<char>, V)>, flags: Seq<bool>)
    requires
        ascending(s),
    ensures
        ascending(flagged(s, flags)),
    decreases s.len(),
{
    if s.len() > 0 {
        let front = s.drop_last();
        assert(ascending(front)) by {
            assert forall|i: int, j: int|
                #![trigger front[i], front[j]]
                0 <= i < j < front.len() implies text::precedes(front[i].0, front[j].0) by {
                assert(text::precedes(s[i].0, s[j].0));
            }
        }
        flagged_keeps_order(front, flags);
        let part = flagged(front, flags);
        let whole = flagged(s, flags);
        assert forall|i: int, j: int|
            #![trigger whole[i], whole[j]]
            0 <= i < j < whole.len() implies text::precedes(whole[i].0, whole[j].0) by {
            if j < part.len() {
                assert(text::precedes(part[i].0, part[j].0));
            } else {
                assert(whole[i] == part[i]);
                flagged_members(front, flags, part[i]);
                assert(part.contains(part[i]));
                let n = choose|n: int|
                    #![trigger front[n]]
                    0 <= n < front.len() && flags[n] && front[n] == part[i];
                assert(text::precedes(s[n].0, s[s.len() - 1].0));
            }
        }
    }
}

impl<V> OrderedMap<V> {
    /// Keeps the pairs whose flag is set and hands back the others, both in key order.
    pub fn retain_flagged(&mut self, keep: &Vec<bool>) -> (dropped: Vec<(String, V)>)
        requires
            keep@.len() == old(self).pairs().len(),
        ensures
            final(self).pairs() == flagged(old(self).pairs(), keep@),
            dropped@.map_values(|e: (String, V)| (e.0@, e.1)) == unflagged(
                old(self).pairs(),
                keep@,
            ),
    {
        proof {
            use_type_invariant(&*self);
        }
        let ghost before = self.pairs();
        let mut rest: Vec<(String, V)> = Vec::new();
        std::mem::swap(&mut rest, &mut self.items);
        let mut kept: Vec<(String, V)> = Vec::new();
        let mut dropped: Vec<(String, V)> = Vec::new();
        let mut i: usize = 0;
        let n: usize = keep.len();
        let ghost f = |e: (String, V)| (e.0@, e.1);
        assert(before.skip(0) =~= before);
        assert(kept@.map_values(f) =~= flagged(before.take(0), keep@));
        assert(dropped@.map_values(f) =~= unflagged(before.take(0), keep@));
        while rest.len() > 0
            invariant
                f == (|e: (String, V)| (e.0@, e.1)),
                n == keep@.len(),
                n == before.len(),
                i <= n,
                rest@.map_values(f) == before.skip(i as int),
                kept@.map_values(f) == flagged(before.take(i as int), keep@),
                dropped@.map_values(f) == unflagged(before.take(i as int), keep@),
            decreases rest@.len(),
        {
            let ghost old_rest = rest@;
            assert(old_rest.map_values(f).len() == old_rest.len());
            let e = rest.remove(0);
            proof {
                assert(old_rest.map_values(f)[0] == before[i as int]);
                assert(rest@.map_values(f) =~= before.skip(i + 1)) by {
                    assert forall|j: int| 0 <= j < rest@.len() implies rest@.map_values(f)[j]
                        == before.skip(i + 1)[j] by {
                        assert(old_rest.map_values(f)[j + 1] == before.skip(i as int)[j + 1]);
                    }
                }
                assert(before.take(i + 1).drop_last() =~= before.take(i as int));
            }
            if keep[i] {
                let ghost k = kept@;
                kept.push(e);
                assert(kept@.map_values(f) =~= k.map_values(f).push(f(e)));
            } else {
                let ghost d = dropped@;
                dropped.push(e);
                assert(dropped@.map_values(f) =~= d.map_values(f).push(f(e)));
            }
            i += 1;
        }
        proof {
            assert(rest@.map_values(f).len() == 0);
            assert(before.take(i as int) =~= before);
            flagged_keeps_order(before, keep@);
        }
        self.items = kept;
        dropped
    }
}

/// What two ordered maps hold decides the order in which they are walked.
pub proof fn same_contents_same_order<V>(a: OrderedMap<V>, b: OrderedMap<V>)
    requires
        a.in_order(),
        b.in_order(),
        a@ == b@,
    ensures
        a.pairs() == b.pairs(),
{
    ascending_lists_equal(a.pairs(), b.pairs());
}

proof fn ascending_lists_equal<V>(a: Seq<(Seq<char>, V)>, b: Seq<(Seq<char>, V)>)
    requires
        ascending(a),
        ascending(b),
        map_of(a) == map_of(b),
    ensures
        a == b,
    decreases a.len(),
{
    if a.len() == 0 {
        if b.len() > 0 {
            map_of_at(b, 0);
            let i = map_of_place(a, b[0].0);
        }
        assert(a =~= b);
    } else {
        map_of_at(a, a.len() - 1);
        let j = map_of_place(b, a.last().0);
        map_of_at(b, b.len() - 1);
        let i = map_of_place(a, b.last().0);
        if j < b.len() - 1 {
            assert(text::precedes(b[j].0, b[b.len() - 1].0));
            if i < a.len() - 1 {
                assert(text::precedes(a[i].0, a[a.len() - 1].0));
                text::precedes_transitive(a.last().0, b.last().0, a.last().0);
            }
            text::precedes_irreflexive(a.last().0);
        }
        assert(a.last() == b.last());
        remove_keeps_order(a, a.len() - 1);
        remove_keeps_order(b, b.len() - 1);
        ascending_lists_equal(a.remove(a.len() - 1), b.remove(b.len() - 1));
        assert(a =~= a.remove(a.len() - 1).push(a.last()));
        assert(b =~= b.remove(b.len() - 1).push(b.last()));
    }
}

/// The pairs of a map that holds finitely many keys, in ascending key order.
pub open spec fn in_key_order<V>(m: Map<Seq<char>, V>) -> Seq<(Seq<char>, V)> {
    choose|s: Seq<(Seq<char>, V)>| ascending(s) && #[trigger] map_of(s) == m
}

/// An ascending list of a map's pairs is the one list of them in key order.
pub proof fn ascending_list_is_key_order<V>(s: Seq<(Seq<char>, V)>)
    requires
        ascending(s),
    ensures
        in_key_order(map_of(s)) == s,
{
    ascending_lists_equal(s, in_key_order(map_of(s)));
}

proof fn place_of<V>(s: Seq<(Seq<char>, V)>, k: Seq<char>) -> (at: int)
    requires
        ascending(s),
        forall|i: int| 0 <= i < s.len() ==> (#[trigger] s[i]).0 != k,
    ensures
        0 <= at <= s.len(),
        forall|i: int| 0 <= i < at ==> text::precedes(#[trigger] s[i].0, k),
        at < s.len() ==> text::precedes(k, s[at].0),
    decreases s.len(),
{
    if s.len() == 0 {
        0
    } else if text::precedes(s.last().0, k) {
        let n = s.len() - 1;
        assert(s[n] == s.last());
        assert forall|i: int| 0 <= i < s.len() implies text::precedes(#[trigger] s[i].0, k) by {
            if i < n {
                text::precedes_transitive(s[i].0, s[n].0, k);
            }
        }
        s.len() as int
    } else {
        let front = s.drop_last();
        assert forall|i: int| 0 <= i < front.len() implies (#[trigger] front[i]).0 != k by {
            assert(front[i] == s[i]);
        }
        assert forall|i: int, j: int|
            #![trigger front[i], front[j]]
            0 <= i < j < front.len() implies text::precedes(front[i].0, front[j].0) by {
            assert(front[i] == s[i] && front[j] == s[j]);
        }
        let at = place_of(front, k);
        assert forall|i: int| 0 <= i < at implies text::precedes(#[trigger] s[i].0, k) by {
            assert(front[i] == s[i]);
        }
        if at < front.len() {
            assert(front[at] == s[at]);
        } else {
            assert(s[at] == s.last());
            text::precedes_total(k, s.last().0);
        }
        at
    }
}

/// A map whose keys are among finitely many names has its pairs in key order.
pub proof fn finite_maps_have_a_key_order<V>(names: Seq<Seq<char>>, m: Map<Seq<char>, V>)
    requires
        forall|k: Seq<char>| #[trigger] m.contains_key(k) ==> names.contains(k),
    ensures
        ascending(in_key_order(m)),
        map_of(in_key_order(m)) == m,
    decreases names.len(),
{
    if names.len() == 0 {
        let s = Seq::<(Seq<char>, V)>::empty();
        assert forall|x: Seq<char>| agree_at(map_of(s), m, x) by {
            if m.contains_key(x) {
                assert(names.contains(x));
            }
        }
        agreeing_maps_equal(map_of(s), m);
        assert(ascending(s) && map_of(s) == m);
    } else {
        let front = names.drop_last();
        let k = names.last();
        let rest = m.remove(k);
        assert forall|x: Seq<char>| #[trigger] rest.contains_key(x) implies front.contains(x) by {
            assert(m.contains_key(x));
            let i = choose|i: int| 0 <= i < names.len() && names[i] == x;
            assert(front[i] == x);
        }
        finite_maps_have_a_key_order(front, rest);
        if m.contains_key(k) {
            let s = in_key_order(rest);
            assert forall|i: int| 0 <= i < s.len() implies (#[trigger] s[i]).0 != k by {
                map_of_at(s, i);
                assert(rest.contains_key(s[i].0));
            }
            let at = place_of(s, k);
            insert_keeps_order(s, at, k, m[k]);
            let t = s.insert(at, (k, m[k]));
            assert(rest.insert(k, m[k]) =~= m);
            assert(ascending(t) && map_of(t) == m);
        } else {
            assert(rest =~= m);
        }
    }
}

/// The keys of a list of pairs.
pub open spec fn keys<V>(s: Seq<(Seq<char>, V)>) -> Seq<Seq<char>> {
    s.map_values(|p: (Seq<char>, V)| p.0)
}

impl<V> OrderedMap<V> {
    /// The keys, in ascending order.
    pub fn key_list(&self) -> (r: Vec<String>)
        ensures
            text::texts(r@) == keys(self.pairs()),
    {
        let mut r: Vec<String> = Vec::new();
        let n: usize = self.len();
        let mut i: usize = 0;
        while i < n
            invariant
                i <= n,
                n == self.pairs().len(),
                text::texts(r@) == keys(self.pairs()).take(i as int),
            decreases n - i,
        {
            let ghost before = r@;
            r.push(self.key_at(i).clone());
            assert(text::texts(r@) =~= text::texts(before).push(self.pairs()[i as int].0));
            assert(keys(self.pairs()).take(i + 1) =~= keys(self.pairs()).take(i as int).push(
                self.pairs()[i as int].0,
            ));
            i += 1;
        }
        assert(keys(self.pairs()).take(i as int) =~= keys(self.pairs()));
        r
    }
}

/// Of an ascending list of pairs, exactly those that are flagged stay in the map, with their
/// values.
pub proof fn flagged_pairs_stay<V>(s: Seq<(Seq<char>, V)>, flags: Seq<bool>, i: int)
    requires
        ascending(s),
        flags.len() == s.len(),
        0 <= i < s.len(),
    ensures
        map_of(flagged(s, flags)).contains_key(s[i].0) == flags[i],
        flags[i] ==> map_of(flagged(s, flags))[s[i].0] == s[i].1,
{
    let part = flagged(s, flags);
    flagged_keeps_order(s, flags);
    if flags[i] {
        flagged_members(s, flags, s[i]);
        assert(is_flagged(s, flags, s[i]));
        let k = choose|k: int| 0 <= k < part.len() && part[k] == s[i];
        assert(key_is_at(part, s[i].0, k));
        map_of_at(part, k);
    } else if map_of(part).contains_key(s[i].0) {
        let k = choose|k: int| key_is_at(part, s[i].0, k);
        assert(part.contains(part[k]));
        flagged_members(s, flags, part[k]);
        let j = choose|j: int| #![trigger s[j]] 0 <= j < s.len() && flags[j] && s[j] == part[k];
        assert(key_is_at(s, s[i].0, j));
        assert(key_is_at(s, s[i].0, i));
        key_place_unique(s, s[i].0, i, j);
    }
}

/// With every flag set, nothing is left out.
pub proof fn all_flagged<A>(s: Seq<A>, flags: Seq<bool>)
    requires
        flags.len() >= s.len(),
        forall|i: int| 0 <= i < s.len() ==> #[trigger] flags[i],
    ensures
        flagged(s, flags) == s,
        unflagged(s, flags) == Seq::<A>::empty(),
    decreases s.len(),
{
    if s.len() > 0 {
        all_flagged(s.drop_last(), flags);
        assert(s.drop_last().push(s.last()) =~= s);
    }
}

/// A list of texts in ascending order, none of them twice.
pub open spec fn ascending_texts(s: Seq<Seq<char>>) -> bool {
    forall|i: int, j: int|
        #![trigger s[i], s[j]]
        0 <= i < j < s.len() ==> text::precedes(s[i], s[j])
}

impl OrderedMap<()> {
    /// The members of a set of texts, in ascending order.
    pub fn members(&self) -> (r: Vec<String>)
        ensures
            ascending_texts(text::texts(r@)),
            forall|w: Seq<char>| #[trigger] text::texts(r@).contains(w) == self@.contains_key(w),
    {
        let r = self.key_list();
        proof {
            use_type_invariant(self);
            let pairs = self.pairs();
            let shown = keys(pairs);
            assert forall|a: int, b: int|
                #![trigger shown[a], shown[b]]
                0 <= a < b < shown.len() implies text::precedes(shown[a], shown[b]) by {
                assert(text::precedes(pairs[a].0, pairs[b].0));
            }
            assert forall|w: Seq<char>| #[trigger] shown.contains(w) == self@.contains_key(w) by {
                if shown.contains(w) {
                    let k = choose|k: int| 0 <= k < shown.len() && shown[k] == w;
                    assert(key_is_at(pairs, w, k));
                }
                if self@.contains_key(w) {
                    let k = choose|k: int| key_is_at(pairs, w, k);
                    assert(shown[k] == w);
                }
            }
        }
        r
    }
}

} // verus!
