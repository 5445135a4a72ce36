//! A map from paths to values, kept in path order.

use vstd::prelude::*;
use vstd::string::*;

use crate::path::{is_under, under};
use crate::text::{append_range, before, chars_of, order, TextOrder};
use crate::text::{lemma_before_strict, lemma_before_transitive};

verus! {

/// Entries in strictly ascending path order.
#[derive(Debug)]
pub struct PathMap<V> {
    entries: Vec<(String, V)>,
}

/// The paths of a list.
pub open spec fn listed(paths: Seq<String>) -> Set<Seq<char>> {
    Set::new(|q: Seq<char>| exists|i: int| 0 <= i < paths.len() && (#[trigger] paths[i])@ == q)
}

/// `p` is where one of the selected paths goes when `from` at its start becomes `to`.
pub open spec fn lands_on(
    selected: Set<Seq<char>>,
    from: Seq<char>,
    to: Seq<char>,
    p: Seq<char>,
) -> bool {
    to.is_prefix_of(p) && selected.contains(from + p.skip(to.len() as int))
}

/// `base`, overwritten with the selected entries of `source` under their new paths.
pub open spec fn placed<V>(
    base: Map<Seq<char>, V>,
    source: Map<Seq<char>, V>,
    selected: Set<Seq<char>>,
    from: Seq<char>,
    to: Seq<char>,
) -> Map<Seq<char>, V> {
    Map::new(
        |p: Seq<char>| lands_on(selected, from, to, p) || base.contains_key(p),
        |p: Seq<char>|
            if lands_on(selected, from, to, p) {
                source[from + p.skip(to.len() as int)]
            } else {
                base[p]
            },
    )
}

/// The map with the selected entries taken out and put back with `to` in place of `from`.
pub open spec fn relocated<V>(
    m: Map<Seq<char>, V>,
    selected: Set<Seq<char>>,
    from: Seq<char>,
    to: Seq<char>,
) -> Map<Seq<char>, V> {
    placed(m.remove_keys(selected), m, selected, from, to)
}

proof fn lemma_place_one<V>(
    base: Map<Seq<char>, V>,
    source: Map<Seq<char>, V>,
    selected: Set<Seq<char>>,
    from: Seq<char>,
    to: Seq<char>,
    q: Seq<char>,
)
    requires
        from.is_prefix_of(q),
    ensures
        placed(base, source, selected.insert(q), from, to) == placed(
            base,
            source,
            selected,
            from,
            to,
        ).insert(to + q.skip(from.len() as int), source[q]),
{
    let t = to + q.skip(from.len() as int);
    assert(t.skip(to.len() as int) =~= q.skip(from.len() as int));
    assert(from + t.skip(to.len() as int) =~= q);
    assert(to =~= t.take(to.len() as int));
    assert forall|p: Seq<char>| to.is_prefix_of(p) && from + p.skip(to.len() as int) == q implies p
        == t by {
        assert(p.skip(to.len() as int) =~= q.skip(from.len() as int)) by {
            assert(q.skip(from.len() as int) =~= (from + p.skip(to.len() as int)).skip(
                from.len() as int,
            ));
        }
        assert(p =~= to + p.skip(to.len() as int));
    }
    assert(placed(base, source, selected.insert(q), from, to) =~= placed(
        base,
        source,
        selected,
        from,
        to,
    ).insert(t, source[q]));
}

impl<V> View for PathMap<V> {
    type V = Map<Seq<char>, V>;

    closed spec fn view(&self) -> Map<Seq<char>, V> {
        Map::new(
            |p: Seq<char>| exists|i: int| self.holds_at(p, i),
            |p: Seq<char>| self.entries@[choose|i: int| self.holds_at(p, i)].1,
        )
    }
}

impl<V> PathMap<V> {
    /// The paths in ascending order.
    pub closed spec fn keys(self) -> Seq<Seq<char>> {
        Seq::new(self.entries@.len(), |i: int| self.entries@[i].0@)
    }

    spec fn holds_at(self, p: Seq<char>, i: int) -> bool {
        0 <= i < self.entries@.len() && self.entries@[i].0@ == p
    }

    /// The paths ascend strictly, so that none occurs twice.
    pub open spec fn wf(self) -> bool {
        forall|i: int, j: int|
            0 <= i < j < self.keys().len() ==> before(#[trigger] self.keys()[i], #[trigger] self.keys()[j])
    }

    /// The keys are the paths that the map holds.
    pub proof fn lemma_keys(self)
        ensures
            forall|p: Seq<char>| self@.contains_key(p) <==> #[trigger] self.keys().contains(p),
            forall|i: int|
                0 <= i < self.keys().len() ==> self@.contains_key(#[trigger] self.keys()[i]),
    {
        assert forall|p: Seq<char>| self@.contains_key(p) == #[trigger] self.keys().contains(p) by {
            if self@.contains_key(p) {
                let i = choose|i: int| self.holds_at(p, i);
                assert(self.keys()[i] == p);
            }
            if self.keys().contains(p) {
                let i = choose|i: int| 0 <= i < self.keys().len() && self.keys()[i] == p;
                assert(self.holds_at(p, i));
            }
        }
        assert forall|i: int| 0 <= i < self.keys().len() implies self@.contains_key(
            #[trigger] self.keys()[i],
        ) by {
            assert(self.keys().contains(self.keys()[i]));
        }
    }

    proof fn lemma_at(self, i: int)
        requires
            self.wf(),
            0 <= i < self.entries@.len(),
        ensures
            self@.contains_key(self.entries@[i].0@),
            self@[self.entries@[i].0@] == self.entries@[i].1,
    {
        let p = self.entries@[i].0@;
        assert(self.holds_at(p, i));
        let j = choose|j: int| self.holds_at(p, j);
        assert(self.holds_at(p, j));
        assert(self.keys()[i] == p && self.keys()[j] == p);
        if i < j {
            lemma_before_strict(self.keys()[i], self.keys()[j]);
        } else if j < i {
            lemma_before_strict(self.keys()[j], self.keys()[i]);
        }
    }

    proof fn lemma_absent(self, p: Seq<char>)
        requires
            forall|i: int| 0 <= i < self.keys().len() ==> #[trigger] self.keys()[i] != p,
        ensures
            !self@.contains_key(p),
    {
        if self@.contains_key(p) {
            let i = choose|i: int| self.holds_at(p, i);
            assert(self.keys()[i] == p);
        }
    }

    /// A map without entries.
    pub fn new() -> (r: Self)
        ensures
            r.wf(),
            r@ == Map::<Seq<char>, V>::empty(),
    {
        let r = PathMap { entries: Vec::new() };
        assert(r@ =~= Map::<Seq<char>, V>::empty());
        r
    }

    /// The number of entries.
    pub fn len(&self) -> (r: usize)
        ensures
            r == self.keys().len(),
    {
        self.entries.len()
    }

    /// The path at a position in path order.
    pub fn key_at(&self, i: usize) -> (r: &String)
        requires
            i < self.keys().len(),
        ensures
            r@ == self.keys()[i as int],
    {
        &self.entries[i].0
    }

    /// Where a path stands, or where it would have to be put.
    fn find(&self, key: &str) -> (r: (bool, usize))
        requires
            self.wf(),
        ensures
            r.1 <= self.entries@.len(),
            forall|i: int| 0 <= i < r.1 ==> before(#[trigger] self.keys()[i], key@),
            r.0 ==> r.1 < self.entries@.len() && self.keys()[r.1 as int] == key@,
            !r.0 ==> forall|i: int|
                r.1 <= i < self.keys().len() ==> before(key@, #[trigger] self.keys()[i]),
            r.0 == self@.contains_key(key@),
    {
        let mut low: usize = 0;
        let mut high: usize = self.entries.len();
        while low < high
            invariant
                self.wf(),
                low <= high <= self.entries@.len(),
                forall|i: int| 0 <= i < low ==> before(#[trigger] self.keys()[i], key@),
                forall|i: int|
                    high <= i < self.keys().len() ==> before(key@, #[trigger] self.keys()[i]),
            decreases high - low,
        {
            let mid: usize = low + (high - low) / 2;
            let ghost at = self.keys()[mid as int];
            match order(self.entries[mid].0.as_str(), key) {
                TextOrder::Same => {
                    proof {
                        self.lemma_at(mid as int);
                    }
                    return (true, mid);
                },
                TextOrder::Before => {
                    proof {
                        assert forall|i: int| 0 <= i < mid + 1 implies before(
                            #[trigger] self.keys()[i],
                            key@,
                        ) by {
                            if i < mid {
                                lemma_before_transitive(self.keys()[i], at, key@);
                            }
                        }
                    }
                    low = mid + 1;
                },
                TextOrder::After => {
                    proof {
                        assert forall|i: int| mid <= i < self.keys().len() implies before(
                            key@,
                            #[trigger] self.keys()[i],
                        ) by {
                            if mid < i {
                                lemma_before_transitive(key@, at, self.keys()[i]);
                            }
                        }
                    }
                    high = mid;
                },
            }
        }
        proof {
            assert forall|i: int| 0 <= i < self.keys().len() implies #[trigger] self.keys()[i]
                != key@ by {
                if i < low {
                    lemma_before_strict(self.keys()[i], key@);
                } else {
                    lemma_before_strict(key@, self.keys()[i]);
                }
            }
            self.lemma_absent(key@);
        }
        (false, low)
    }

    /// Whether a path is in the map.
    pub fn contains(&self, key: &str) -> (r: bool)
        requires
            self.wf(),
        ensures
            r == self@.contains_key(key@),
    {
        self.find(key).0
    }

    /// The value of a path.
    pub fn get(&self, key: &str) -> (r: Option<&V>)
        requires
            self.wf(),
        ensures
            match r {
                Some(v) => self@.contains_key(key@) && *v == self@[key@],
                None => !self@.contains_key(key@),
            },
    {
        let (found, at) = self.find(key);
        if found {
            proof {
                self.lemma_at(at as int);
            }
            Some(&self.entries[at].1)
        } else {
            None
        }
    }

    /// Sets the value of a path.
    pub fn insert(&mut self, key: String, value: V)
        requires
            old(self).wf(),
        ensures
            final(self).wf(),
            final(self)@ == old(self)@.insert(key@, value),
    {
        let ghost before_call = *self;
        let ghost p = key@;
        let (found, at) = self.find(key.as_str());
        if found {
            self.entries[at] = (key, value);
            proof {
                assert(self.keys() =~= before_call.keys());
            }
        } else {
            self.entries.insert(at, (key, value));
            proof {
                assert(self.keys() =~= before_call.keys().insert(at as int, p));
                assert forall|i: int, j: int| 0 <= i < j < self.keys().len() implies before(
                    #[trigger] self.keys()[i],
                    #[trigger] self.keys()[j],
                ) by {
                    let old_i = if i < at {
                        i
                    } else {
                        i - 1
                    };
                    let old_j = if j < at {
                        j
                    } else {
                        j - 1
                    };
                    if i != at && j != at {
                        assert(before(before_call.keys()[old_i], before_call.keys()[old_j]));
                    }
                }
            }
        }
        proof {
            self.lemma_at(at as int);
            self.lemma_keys();
            before_call.lemma_keys();
            assert forall|q: Seq<char>| q != p implies #[trigger] self@.dom().contains(q)
                == before_call@.contains_key(q) && (self@.contains_key(q) ==> self@[q]
                == before_call@[q]) by {
                if self@.contains_key(q) {
                    let i = choose|i: int| self.holds_at(q, i);
                    assert(self.holds_at(q, i));
                    self.lemma_at(i);
                    let old_i = if found || i < at {
                        i
                    } else {
                        i - 1
                    };
                    before_call.lemma_at(old_i);
                }
                if before_call@.contains_key(q) {
                    let i = choose|i: int| before_call.holds_at(q, i);
                    assert(before_call.holds_at(q, i));
                    let new_i = if found || i < at {
                        i
                    } else {
                        i + 1
                    };
                    self.lemma_at(new_i);
                }
            }
            assert(self@ =~= before_call@.insert(p, value));
        }
    }

    proof fn lemma_update(before_call: Self, after: Self, at: int, value: V)
        requires
            before_call.wf(),
            0 <= at < before_call.entries@.len(),
            after.entries@ == before_call.entries@.update(at, (before_call.entries@[at].0, value)),
        ensures
            after.wf(),
            after@ == before_call@.insert(before_call.keys()[at], value),
    {
        assert(after.keys() =~= before_call.keys());
        before_call.lemma_keys();
        after.lemma_keys();
        after.lemma_at(at);
        let p = before_call.keys()[at];
        assert forall|q: Seq<char>| q != p implies #[trigger] after@.dom().contains(q)
            == before_call@.contains_key(q) && (after@.contains_key(q) ==> after@[q]
            == before_call@[q]) by {
            assert(after.keys().contains(q) == before_call.keys().contains(q));
            if after@.contains_key(q) {
                let i = choose|i: int| after.holds_at(q, i);
                assert(after.holds_at(q, i));
                after.lemma_at(i);
                before_call.lemma_at(i);
            }
        }
        assert(after@ =~= before_call@.insert(p, value));
    }

    /// Gives access to the value of a path that is in the map.
    pub fn value_mut(&mut self, key: &str) -> (r: &mut V)
        requires
            old(self).wf(),
            old(self)@.contains_key(key@),
        ensures
            *r == old(self)@[key@],
            final(self).wf(),
            final(self)@ == old(self)@.insert(key@, *final(r)),
    {
        let (_, at) = self.find(key);
        let ghost before_call = *self;
        proof {
            self.lemma_at(at as int);
        }
        proof {
            assert forall|after: Self|
                #![trigger after.wf()]
                #![trigger after.view()]
                after.entries@ =~= before_call.entries@.update(
                    at as int,
                    (before_call.entries@[at as int].0, after.entries@[at as int].1),
                ) implies after.wf() && after@ == before_call@.insert(
                key@,
                after.entries@[at as int].1,
            ) by {
                Self::lemma_update(before_call, after, at as int, after.entries@[at as int].1);
            }
        }
        &mut self.entries[at].1
    }

    /// Takes a path out of the map and hands back its value.
    pub fn remove(&mut self, key: &str) -> (r: Option<V>)
        requires
            old(self).wf(),
        ensures
            final(self).wf(),
            final(self)@ == old(self)@.remove(key@),
            match r {
                Some(v) => old(self)@.contains_key(key@) && v == old(self)@[key@],
                None => !old(self)@.contains_key(key@),
            },
    {
        let ghost before_call = *self;
        let (found, at) = self.find(key);
        if !found {
            assert(self@ =~= before_call@.remove(key@));
            return None;
        }
        proof {
            self.lemma_at(at as int);
        }
        let (_, value) = self.entries.remove(at);
        proof {
            assert(self.keys() =~= before_call.keys().remove(at as int));
            assert forall|i: int, j: int| 0 <= i < j < self.keys().len() implies before(
                #[trigger] self.keys()[i],
                #[trigger] self.keys()[j],
            ) by {
                let old_i = if i < at {
                    i
                } else {
                    i + 1
                };
                let old_j = if j < at {
                    j
                } else {
                    j + 1
                };
                assert(before(before_call.keys()[old_i], before_call.keys()[old_j]));
            }
            assert forall|q: Seq<char>| #[trigger] self@.dom().contains(q) == (q != key@
                && before_call@.contains_key(q)) && (self@.contains_key(q) ==> self@[q]
                == before_call@[q]) by {
                if self@.contains_key(q) {
                    let i = choose|i: int| self.holds_at(q, i);
                    assert(self.holds_at(q, i));
                    self.lemma_at(i);
                    let old_i = if i < at {
                        i
                    } else {
                        i + 1
                    };
                    before_call.lemma_at(old_i);
                    if old_i < at {
                        lemma_before_strict(before_call.keys()[old_i], before_call.keys()[at as int]);
                    } else {
                        lemma_before_strict(before_call.keys()[at as int], before_call.keys()[old_i]);
                    }
                }
                if q != key@ && before_call@.contains_key(q) {
                    let i = choose|i: int| before_call.holds_at(q, i);
                    assert(before_call.holds_at(q, i));
                    let new_i = if i < at {
                        i
                    } else {
                        i - 1
                    };
                    self.lemma_at(new_i);
                }
            }
            assert(self@ =~= before_call@.remove(key@));
        }
        Some(value)
    }

    /// The paths that are `dir` or lie below it.
    pub fn keys_under(&self, dir: &Vec<char>) -> (r: Vec<String>)
        requires
            self.wf(),
        ensures
            listed(r@) == Set::new(|q: Seq<char>| self@.contains_key(q) && under(q, dir@)),
            forall|i: int, j: int| 0 <= i < j < r@.len() ==> (#[trigger] r@[i])@ != (#[trigger] r@[j])@,
    {
        let mut r: Vec<String> = Vec::new();
        let mut i: usize = 0;
        let ghost mut at: Seq<int> = Seq::empty();
        while i < self.entries.len()
            invariant
                i <= self.entries@.len(),
                self.wf(),
                at.len() == r@.len(),
                forall|k: int|
                    0 <= k < at.len() ==> 0 <= #[trigger] at[k] < i && r@[k]@ == self.keys()[at[k]]
                        && under(r@[k]@, dir@),
                forall|j: int, k: int| 0 <= j < k < at.len() ==> #[trigger] at[j] < #[trigger] at[k],
                forall|n: int|
                    0 <= n < i && under(self.keys()[n], dir@) ==> listed(r@).contains(
                        #[trigger] self.keys()[n],
                    ),
            decreases self.entries@.len() - i,
        {
            let ghost r_before = r@;
            let chars = chars_of(self.entries[i].0.as_str());
            if is_under(&chars, dir) {
                r.push(self.entries[i].0.clone());
                proof {
                    at = at.push(i as int);
                    assert(r@[r_before.len() as int]@ == self.keys()[i as int]);
                    assert forall|q: Seq<char>| listed(r_before).contains(q) implies listed(
                        r@,
                    ).contains(q) by {
                        let k = choose|k: int|
                            0 <= k < r_before.len() && (#[trigger] r_before[k])@ == q;
                        assert(r@[k]@ == q);
                    }
                }
            }
            i = i + 1;
        }
        proof {
            self.lemma_keys();
            assert forall|q: Seq<char>| #[trigger] listed(r@).contains(q) == (self@.contains_key(q)
                && under(q, dir@)) by {
                if listed(r@).contains(q) {
                    let k = choose|k: int| 0 <= k < r@.len() && (#[trigger] r@[k])@ == q;
                    assert(0 <= at[k]);
                }
                if self@.contains_key(q) && under(q, dir@) {
                    assert(self.keys().contains(q));
                    let n = choose|n: int| 0 <= n < self.keys().len() && self.keys()[n] == q;
                    assert(listed(r@).contains(self.keys()[n]));
                }
            }
            assert(listed(r@) =~= Set::new(
                |q: Seq<char>| self@.contains_key(q) && under(q, dir@),
            ));
            assert forall|i: int, j: int| 0 <= i < j < r@.len() implies (#[trigger] r@[i])@ != (
            #[trigger] r@[j])@ by {
                assert(at[i] < at[j]);
                lemma_before_strict(self.keys()[at[i]], self.keys()[at[j]]);
            }
        }
        r
    }

    /// Moves the listed entries: `from` at the start of their paths becomes `to`.
    pub fn relocate(&mut self, paths: &Vec<String>, from: &str, to: &str)
        requires
            old(self).wf(),
            forall|i: int|
                0 <= i < paths@.len() ==> old(self)@.contains_key((#[trigger] paths@[i])@)
                    && from@.is_prefix_of(paths@[i]@),
            forall|i: int, j: int|
                0 <= i < j < paths@.len() ==> (#[trigger] paths@[i])@ != (#[trigger] paths@[j])@,
        ensures
            final(self).wf(),
            final(self)@ == relocated(old(self)@, listed(paths@), from@, to@),
    {
        let ghost source = self@;
        let from_len = from.unicode_len();
        let mut moved: Vec<V> = Vec::new();
        let mut n: usize = 0;
        assert(listed(paths@.take(0)) =~= Set::empty());
        assert(source.remove_keys(Set::empty()) =~= source);
        while n < paths.len()
            invariant
                n <= paths@.len(),
                self.wf(),
                moved@.len() == n,
                forall|i: int|
                    0 <= i < paths@.len() ==> source.contains_key((#[trigger] paths@[i])@)
                        && from@.is_prefix_of(paths@[i]@),
                forall|i: int, j: int|
                    0 <= i < j < paths@.len() ==> (#[trigger] paths@[i])@ != (#[trigger] paths@[j])@,
                self@ == source.remove_keys(listed(paths@.take(n as int))),
                forall|j: int| 0 <= j < n ==> #[trigger] moved@[j] == source[paths@[j]@],
            decreases paths@.len() - n,
        {
            let ghost q = paths@[n as int]@;
            proof {
                lemma_listed_push(paths@.take(n as int), paths@[n as int]);
                assert(paths@.take(n + 1) =~= paths@.take(n as int).push(paths@[n as int]));
                assert(!listed(paths@.take(n as int)).contains(q)) by {
                    if listed(paths@.take(n as int)).contains(q) {
                        let i = choose|i: int|
                            0 <= i < n && (#[trigger] paths@.take(n as int)[i])@ == q;
                        assert(paths@[i]@ != paths@[n as int]@);
                    }
                }
            }
            if let Some(value) = self.remove(paths[n].as_str()) {
                moved.push(value);
            }
            assert(source.remove_keys(listed(paths@.take(n + 1))) =~= source.remove_keys(
                listed(paths@.take(n as int)),
            ).remove(q));
            n = n + 1;
        }
        assert(paths@.take(n as int) =~= paths@);
        let ghost base = self@;
        assert(listed(paths@.skip(n as int)) =~= Set::empty());
        assert(base =~= placed(base, source, Set::empty(), from@, to@));
        while n > 0
            invariant
                n <= paths@.len(),
                self.wf(),
                moved@.len() == n,
                from_len == from@.len(),
                forall|i: int|
                    0 <= i < paths@.len() ==> source.contains_key((#[trigger] paths@[i])@)
                        && from@.is_prefix_of(paths@[i]@),
                self@ == placed(base, source, listed(paths@.skip(n as int)), from@, to@),
                forall|j: int| 0 <= j < n ==> #[trigger] moved@[j] == source[paths@[j]@],
            decreases n,
        {
            let ghost q = paths@[n - 1]@;
            if let Some(value) = moved.pop() {
                let chars = chars_of(paths[n - 1].as_str());
                let mut path = to.to_owned();
                append_range(&mut path, &chars, from_len, chars.len());
                assert(path@ =~= to@ + q.skip(from@.len() as int));
                self.insert(path, value);
            }
            proof {
                lemma_place_one(base, source, listed(paths@.skip(n as int)), from@, to@, q);
                assert(listed(paths@.skip(n - 1)) =~= listed(paths@.skip(n as int)).insert(q)) by {
                    assert forall|p: Seq<char>| #[trigger]
                        listed(paths@.skip(n - 1)).contains(p) == (p == q || listed(
                            paths@.skip(n as int),
                        ).contains(p)) by {
                        if listed(paths@.skip(n - 1)).contains(p) {
                            let i = choose|i: int|
                                0 <= i < paths@.skip(n - 1).len() && (#[trigger] paths@.skip(
                                    n - 1,
                                )[i])@ == p;
                            if i > 0 {
                                assert(paths@.skip(n as int)[i - 1]@ == p);
                            }
                        }
                        if p == q {
                            assert(paths@.skip(n - 1)[0]@ == q);
                        }
                        if listed(paths@.skip(n as int)).contains(p) {
                            let i = choose|i: int|
                                0 <= i < paths@.skip(n as int).len() && (#[trigger] paths@.skip(
                                    n as int,
                                )[i])@ == p;
                            assert(paths@.skip(n - 1)[i + 1]@ == p);
                        }
                    }
                }
            }
            n = n - 1;
        }
        assert(paths@.skip(0) =~= paths@);
    }
}

proof fn lemma_listed_push(paths: Seq<String>, path: String)
    ensures
        listed(paths.push(path)) == listed(paths).insert(path@),
{
    let longer = paths.push(path);
    assert forall|p: Seq<char>| #[trigger] listed(longer).contains(p) == (p == path@ || listed(
        paths,
    ).contains(p)) by {
        if listed(longer).contains(p) {
            let i = choose|i: int| 0 <= i < longer.len() && (#[trigger] longer[i])@ == p;
            if i < paths.len() {
                assert(paths[i]@ == p);
            }
        }
        if p == path@ {
            assert(longer[paths.len() as int]@ == p);
        }
        if listed(paths).contains(p) {
            let i = choose|i: int| 0 <= i < paths.len() && (#[trigger] paths[i])@ == p;
            assert(longer[i]@ == p);
        }
    }
    assert(listed(longer) =~= listed(paths).insert(path@));
}

} // verus!
