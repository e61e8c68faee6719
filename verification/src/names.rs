//! A map keyed by name whose names come out in order.
use vstd::prelude::*;

use crate::text::{chars_of, same_text};

verus! {

/// The order of names: by their characters, the shorter first.
pub open spec fn before(a: Seq<char>, b: Seq<char>) -> bool
    decreases a.len(),
{
    if b.len() == 0 {
        false
    } else if a.len() == 0 {
        true
    } else if a[0] == b[0] {
        before(a.skip(1), b.skip(1))
    } else {
        a[0] < b[0]
    }
}

/// Of two different names exactly one stands before the other.
pub proof fn lemma_before_total(a: Seq<char>, b: Seq<char>)
    ensures
        before(a, b) || before(b, a) || a == b,
        !(before(a, b) && before(b, a)),
        a == b ==> !before(a, b),
    decreases a.len(),
{
    if a.len() > 0 && b.len() > 0 && a[0] == b[0] {
        lemma_before_total(a.skip(1), b.skip(1));
        if a.skip(1) == b.skip(1) {
            assert(a == seq![a[0]] + a.skip(1));
            assert(b == seq![b[0]] + b.skip(1));
        }
    } else if a.len() == 0 && b.len() == 0 {
        assert(a == b);
    }
}

/// The order is transitive.
pub proof fn lemma_before_transitive(a: Seq<char>, b: Seq<char>, c: Seq<char>)
    requires
        before(a, b),
        before(b, c),
    ensures
        before(a, c),
    decreases a.len(),
{
    if a.len() > 0 && b.len() > 0 && c.len() > 0 && a[0] == b[0] && b[0] == c[0] {
        lemma_before_transitive(a.skip(1), b.skip(1), c.skip(1));
    }
}

/// Whether `a` stands before `b`.
fn is_before(a: &str, b: &str) -> (out: bool)
    ensures
        out == before(a@, b@),
{
    let left = chars_of(a);
    let right = chars_of(b);
    let mut i: usize = 0;
    assert(a@.skip(0) == a@);
    assert(b@.skip(0) == b@);
    while i < left.len() && i < right.len()
        invariant
            left@ == a@,
            right@ == b@,
            i <= left@.len(),
            i <= right@.len(),
            before(a@, b@) == before(a@.skip(i as int), b@.skip(i as int)),
        decreases left@.len() - i,
    {
        proof {
            assert(a@.skip(i as int)[0] == left@[i as int]);
            assert(b@.skip(i as int)[0] == right@[i as int]);
            assert(a@.skip(i as int).skip(1) == a@.skip(i + 1));
            assert(b@.skip(i as int).skip(1) == b@.skip(i + 1));
        }
        if left[i] != right[i] {
            return left[i] < right[i];
        }
        i += 1;
    }
    i < right.len()
}

/// Whether the names of the pairs ascend, so that none occurs twice.
pub open spec fn ascending<T>(pairs: Seq<(Seq<char>, T)>) -> bool {
    forall|i: int, j: int|
        0 <= i < j < pairs.len() ==> before((#[trigger] pairs[i]).0, (#[trigger] pairs[j]).0)
}

/// Whether some pair has the name.
pub open spec fn has_name<T>(pairs: Seq<(Seq<char>, T)>, name: Seq<char>) -> bool {
    exists|i: int| 0 <= i < pairs.len() && (#[trigger] pairs[i]).0 == name
}

/// The value that a name has among the pairs.
pub open spec fn value_of<T>(pairs: Seq<(Seq<char>, T)>, name: Seq<char>) -> T {
    let i = choose|i: int| 0 <= i < pairs.len() && (#[trigger] pairs[i]).0 == name;
    pairs[i].1
}

/// The map from names to values that the pairs stand for.
pub open spec fn map_of<T>(pairs: Seq<(Seq<char>, T)>) -> Map<Seq<char>, T> {
    Map::new(|name: Seq<char>| has_name(pairs, name), |name: Seq<char>| value_of(pairs, name))
}

/// In ascending pairs a name belongs to the one pair that has it.
pub proof fn lemma_ascending_value<T>(pairs: Seq<(Seq<char>, T)>, i: int)
    requires
        ascending(pairs),
        0 <= i < pairs.len(),
    ensures
        has_name(pairs, pairs[i].0),
        value_of(pairs, pairs[i].0) == pairs[i].1,
        map_of(pairs).dom().contains(pairs[i].0),
        map_of(pairs)[pairs[i].0] == pairs[i].1,
{
    let name = pairs[i].0;
    let j = choose|j: int| 0 <= j < pairs.len() && (#[trigger] pairs[j]).0 == name;
    assert(pairs[i].0 == name);
    lemma_before_total(name, name);
    if i < j {
        assert(before(pairs[i].0, pairs[j].0));
    } else if j < i {
        assert(before(pairs[j].0, pairs[i].0));
    }
}

/// A map keyed by name.
#[derive(Debug)]
pub struct NameMap<T> {
    items: Vec<(String, T)>,
}

impl<T: DeepView> NameMap<T> {
    /// The pairs of the map, by ascending name.
    pub closed spec fn pairs(&self) -> Seq<(Seq<char>, T::V)> {
        self.items.deep_view()
    }

    /// The names ascend.
    pub open spec fn wf(&self) -> bool {
        ascending(self.pairs())
    }
}

impl<T: DeepView> View for NameMap<T> {
    type V = Map<Seq<char>, T::V>;

    open spec fn view(&self) -> Map<Seq<char>, T::V> {
        map_of(self.pairs())
    }
}

impl<T: DeepView> NameMap<T> {
    /// A map without any name.
    pub fn new() -> (map: NameMap<T>)
        ensures
            map.wf(),
            map@ == Map::<Seq<char>, T::V>::empty(),
            map.pairs() == Seq::<(Seq<char>, T::V)>::empty(),
    {
        let map: NameMap<T> = NameMap { items: Vec::new() };
        assert(map.pairs() == Seq::<(Seq<char>, T::V)>::empty());
        assert(map@ =~= Map::<Seq<char>, T::V>::empty());
        map
    }

    /// How many names there are.
    pub fn len(&self) -> (n: usize)
        ensures
            n == self.pairs().len(),
    {
        self.items.len()
    }

    /// Whether there is no name.
    pub fn is_empty(&self) -> (empty: bool)
        ensures
            empty == (self.pairs().len() == 0),
            empty == (self@ == Map::<Seq<char>, T::V>::empty()),
    {
        proof {
            if self.pairs().len() == 0 {
                assert(self@ =~= Map::<Seq<char>, T::V>::empty());
            } else {
                let name = self.pairs()[0].0;
                assert(has_name(self.pairs(), name));
                assert(self@.dom().contains(name));
            }
        }
        self.items.len() == 0
    }

    /// Whether the name has a value.
    pub fn contains_key(&self, name: &str) -> (found: bool)
        requires
            self.wf(),
        ensures
            found == self@.dom().contains(name@),
    {
        self.get(name).is_some()
    }

    /// The pair at position `i`, by ascending name.
    pub fn at(&self, i: usize) -> (pair: (&str, &T))
        requires
            i < self.pairs().len(),
        ensures
            pair.0@ == self.pairs()[i as int].0,
            pair.1.deep_view() == self.pairs()[i as int].1,
    {
        let pair = &self.items[i];
        (pair.0.as_str(), &pair.1)
    }

    /// The first position whose name does not stand before `name`.
    fn position(&self, name: &str) -> (at: usize)
        requires
            self.wf(),
        ensures
            at <= self.pairs().len(),
            forall|i: int| 0 <= i < at ==> before((#[trigger] self.pairs()[i]).0, name@),
            forall|i: int|
                at <= i < self.pairs().len() ==> !before((#[trigger] self.pairs()[i]).0, name@),
    {
        let mut at: usize = 0;
        while at < self.items.len()
            invariant
                at <= self.items@.len(),
                self.pairs().len() == self.items@.len(),
                self.wf(),
                forall|i: int| 0 <= i < at ==> before((#[trigger] self.pairs()[i]).0, name@),
            decreases self.items@.len() - at,
        {
            assert(self.pairs()[at as int].0 == self.items@[at as int].0@);
            if !is_before(self.items[at].0.as_str(), name) {
                proof {
                    assert forall|i: int| at <= i < self.pairs().len() implies !before(
                        (#[trigger] self.pairs()[i]).0,
                        name@,
                    ) by {
                        if before(self.pairs()[i].0, name@) && i > at {
                            lemma_before_transitive(
                                self.pairs()[at as int].0,
                                self.pairs()[i].0,
                                name@,
                            );
                        }
                    }
                }
                return at;
            }
            at += 1;
        }
        at
    }

    /// The value of a name.
    pub fn get(&self, name: &str) -> (value: Option<&T>)
        requires
            self.wf(),
        ensures
            value.deep_view() == (if self@.dom().contains(name@) {
                Some(self@[name@])
            } else {
                None
            }),
    {
        let at = self.position(name);
        if at < self.items.len() && same_text(self.items[at].0.as_str(), name) {
            proof {
                assert(self.pairs()[at as int].0 == name@);
                lemma_ascending_value(self.pairs(), at as int);
            }
            Some(&self.items[at].1)
        } else {
            proof {
                if has_name(self.pairs(), name@) {
                    let i = choose|i: int|
                        0 <= i < self.pairs().len() && (#[trigger] self.pairs()[i]).0 == name@;
                    lemma_before_total(name@, name@);
                    assert(i >= at);
                    if i > at {
                        assert(before(self.pairs()[at as int].0, self.pairs()[i].0));
                    }
                    assert(self.items@[at as int].0@ == name@);
                }
            }
            None
        }
    }

    /// Gives a name a value, in place of the one it had.
    pub fn insert(&mut self, name: String, value: T)
        requires
            old(self).wf(),
        ensures
            final(self).wf(),
            final(self)@ == old(self)@.insert(name@, value.deep_view()),
    {
        let at = self.position(name.as_str());
        let ghost old_pairs = self.pairs();
        let ghost new = (name@, value.deep_view());
        if at < self.items.len() && same_text(self.items[at].0.as_str(), name.as_str()) {
            self.items.set(at, (name, value));
            assert(self.pairs() =~= old_pairs.update(at as int, new));
            proof {
                assert(old_pairs[at as int].0 == name@);
                assert(ascending(self.pairs()));
                lemma_replaced(old_pairs, at as int, new);
            }
        } else {
            proof {
                if at < old_pairs.len() {
                    lemma_before_total(old_pairs[at as int].0, name@);
                }
            }
            self.items.insert(at, (name, value));
            assert(self.pairs() =~= old_pairs.insert(at as int, new));
            proof {
                lemma_inserted(old_pairs, at as int, new);
            }
        }
    }
}

proof fn lemma_replaced<T>(pairs: Seq<(Seq<char>, T)>, at: int, new: (Seq<char>, T))
    requires
        ascending(pairs),
        0 <= at < pairs.len(),
        pairs[at].0 == new.0,
    ensures
        ascending(pairs.update(at, new)),
        map_of(pairs.update(at, new)) == map_of(pairs).insert(new.0, new.1),
{
    let after = pairs.update(at, new);
    assert(ascending(after));
    assert forall|name: Seq<char>| #[trigger]
        map_of(after).dom().contains(name) <==> map_of(pairs).insert(new.0, new.1).dom().contains(
            name,
        ) by {
        if has_name(pairs, name) {
            let i = choose|i: int| 0 <= i < pairs.len() && (#[trigger] pairs[i]).0 == name;
            assert(after[i].0 == name);
        }
        if has_name(after, name) {
            let i = choose|i: int| 0 <= i < after.len() && (#[trigger] after[i]).0 == name;
            assert(pairs[i].0 == name);
        }
    }
    assert forall|name: Seq<char>| #[trigger] map_of(after).dom().contains(name) implies map_of(
        after,
    )[name] == map_of(pairs).insert(new.0, new.1)[name] by {
        let i = choose|i: int| 0 <= i < after.len() && (#[trigger] after[i]).0 == name;
        lemma_ascending_value(after, i);
        if i != at {
            lemma_ascending_value(pairs, i);
            lemma_before_total(pairs[at].0, pairs[i].0);
            if i < at {
                assert(before(pairs[i].0, pairs[at].0));
            } else {
                assert(before(pairs[at].0, pairs[i].0));
            }
        }
    }
    assert(map_of(after) =~= map_of(pairs).insert(new.0, new.1));
}

proof fn lemma_inserted<T>(pairs: Seq<(Seq<char>, T)>, at: int, new: (Seq<char>, T))
    requires
        ascending(pairs),
        0 <= at <= pairs.len(),
        forall|i: int| 0 <= i < at ==> before((#[trigger] pairs[i]).0, new.0),
        at < pairs.len() ==> before(new.0, pairs[at].0),
    ensures
        ascending(pairs.insert(at, new)),
        map_of(pairs.insert(at, new)) == map_of(pairs).insert(new.0, new.1),
{
    let after = pairs.insert(at, new);
    assert forall|i: int, j: int| 0 <= i < j < after.len() implies before(
        (#[trigger] after[i]).0,
        (#[trigger] after[j]).0,
    ) by {
        if j < at {
            assert(after[i] == pairs[i] && after[j] == pairs[j]);
        } else if j == at {
            assert(after[i] == pairs[i]);
        } else if i < at {
            assert(after[i] == pairs[i] && after[j] == pairs[j - 1]);
        } else if i == at {
            assert(after[j] == pairs[j - 1]);
            if j - 1 > at {
                assert(before(pairs[at].0, pairs[j - 1].0));
                lemma_before_transitive(new.0, pairs[at].0, pairs[j - 1].0);
            }
        } else {
            assert(after[i] == pairs[i - 1] && after[j] == pairs[j - 1]);
        }
    }
    assert(after[at] == new);
    assert forall|name: Seq<char>| #[trigger]
        map_of(after).dom().contains(name) <==> map_of(pairs).insert(new.0, new.1).dom().contains(
            name,
        ) by {
        if has_name(pairs, name) {
            let i = choose|i: int| 0 <= i < pairs.len() && (#[trigger] pairs[i]).0 == name;
            let k = if i < at { i } else { i + 1 };
            assert(after[k] == pairs[i]);
        }
        if has_name(after, name) && name != new.0 {
            let i = choose|i: int| 0 <= i < after.len() && (#[trigger] after[i]).0 == name;
            let k = if i < at { i } else { i - 1 };
            assert(pairs[k] == after[i]);
        }
    }
    assert forall|name: Seq<char>| #[trigger] map_of(after).dom().contains(name) implies map_of(
        after,
    )[name] == map_of(pairs).insert(new.0, new.1)[name] by {
        let i = choose|i: int| 0 <= i < after.len() && (#[trigger] after[i]).0 == name;
        lemma_ascending_value(after, i);
        lemma_ascending_value(after, at);
        if i != at {
            let k = if i < at { i } else { i - 1 };
            assert(pairs[k] == after[i]);
            lemma_ascending_value(pairs, k);
            lemma_before_total(new.0, name);
            if i < at {
                assert(before(after[i].0, after[at].0));
            } else {
                assert(before(after[at].0, after[i].0));
            }
        }
    }
    assert(map_of(after) =~= map_of(pairs).insert(new.0, new.1));
}

/// Names are ordered as in a dictionary, by code point: by the first character
/// in which they differ, and the shorter one first where the other goes on.
pub proof fn law_names_are_ordered_by_character(
    common: Seq<char>,
    a: char,
    b: char,
    x: Seq<char>,
    y: Seq<char>,
)
    ensures
        (a as u32) < (b as u32) ==> before(common.push(a) + x, common.push(b) + y),
        before(common, common.push(a) + x),
        !before(common.push(a) + x, common),
        !before(common, common),
    decreases common.len(),
{
    let left = common.push(a) + x;
    let right = common.push(b) + y;
    if common.len() == 0 {
        assert(left[0] == a);
        assert(right[0] == b);
    } else {
        law_names_are_ordered_by_character(common.skip(1), a, b, x, y);
        assert(left[0] == common[0]);
        assert(right[0] == common[0]);
        assert(left.skip(1) == common.skip(1).push(a) + x);
        assert(right.skip(1) == common.skip(1).push(b) + y);
    }
}

/// The map of pairs that ascend has the names of the pairs and no others, each
/// with its own value.
pub proof fn law_map_has_the_pairs<T>(pairs: Seq<(Seq<char>, T)>, name: Seq<char>)
    requires
        ascending(pairs),
    ensures
        forall|i: int|
            0 <= i < pairs.len() ==> map_of(pairs).dom().contains((#[trigger] pairs[i]).0)
                && map_of(pairs)[pairs[i].0] == pairs[i].1,
        map_of(pairs).dom().contains(name) ==> exists|i: int|
            0 <= i < pairs.len() && (#[trigger] pairs[i]).0 == name,
{
    assert forall|i: int| 0 <= i < pairs.len() implies map_of(pairs).dom().contains(
        (#[trigger] pairs[i]).0,
    ) && map_of(pairs)[pairs[i].0] == pairs[i].1 by {
        lemma_ascending_value(pairs, i);
    }
}

} // verus!
