//! A table of values under names, in the order in which the names came.
use crate::strings::same;
use vstd::prelude::*;

verus! {

/// Values under names. No name occurs twice.
pub struct Table<T> {
    entries: Vec<(String, T)>,
}

/// The position of a name among entries, or their number.
pub open spec fn position_of<T>(entries: Seq<(String, T)>, name: Seq<char>) -> nat
    decreases entries.len(),
{
    if entries.len() == 0 || entries[0].0@ == name {
        0
    } else {
        1 + position_of(entries.skip(1), name)
    }
}

proof fn lemma_position<T>(entries: Seq<(String, T)>, name: Seq<char>)
    ensures
        position_of(entries, name) <= entries.len(),
        forall|i: int| 0 <= i < position_of(entries, name) ==> #[trigger] entries[i].0@ != name,
        position_of(entries, name) < entries.len() ==> entries[position_of(
            entries,
            name,
        ) as int].0@ == name,
    decreases entries.len(),
{
    if entries.len() > 0 && entries[0].0@ != name {
        let rest = entries.skip(1);
        lemma_position(rest, name);
        assert forall|i: int| 0 <= i < position_of(entries, name) implies #[trigger] entries[i].0@
            != name by {
            if i > 0 {
                assert(rest[i - 1] == entries[i]);
            }
        }
    }
}

proof fn lemma_position_is<T>(entries: Seq<(String, T)>, name: Seq<char>, n: int)
    requires
        0 <= n <= entries.len(),
        forall|i: int| 0 <= i < n ==> #[trigger] entries[i].0@ != name,
        n < entries.len() ==> entries[n].0@ == name,
    ensures
        position_of(entries, name) == n,
    decreases entries.len(),
{
    if n > 0 {
        let rest = entries.skip(1);
        assert forall|i: int| 0 <= i < n - 1 implies #[trigger] rest[i].0@ != name by {
            assert(rest[i] == entries[i + 1]);
        }
        assert(entries[0].0@ != name);
        lemma_position_is(rest, name, n - 1);
    }
}

/// Names without one of them.
pub open spec fn without(names: Seq<Seq<char>>, name: Seq<char>) -> Seq<Seq<char>> {
    names.filter(|n: Seq<char>| n != name)
}

/// The values of a map in the order of its names, of which each is there once.
pub open spec fn listed_by<T>(
    values: Seq<T>,
    names: Seq<Seq<char>>,
    map: Map<Seq<char>, T>,
) -> bool {
    &&& names.no_duplicates()
    &&& forall|name: Seq<char>| #[trigger] map.contains_key(name) <==> names.contains(name)
    &&& values.len() == names.len()
    &&& forall|i: int| 0 <= i < values.len() ==> #[trigger] values[i] == map[names[i]]
}

/// All values of a map, one for each of its names.
pub open spec fn all_values<T>(values: Seq<T>, map: Map<Seq<char>, T>) -> bool {
    exists|names: Seq<Seq<char>>| listed_by(values, names, map)
}

impl<T> Table<T> {
    #[verifier::type_invariant]
    spec fn distinct(self) -> bool {
        forall|i: int, j: int|
            0 <= i < j < self.entries@.len() ==> self.entries@[i].0@ != self.entries@[j].0@
    }

    /// The names, in the order in which they came.
    pub closed spec fn names(&self) -> Seq<Seq<char>> {
        self.entries@.map_values(|e: (String, T)| e.0@)
    }

    /// The values under their names.
    pub closed spec fn view(&self) -> Map<Seq<char>, T> {
        Map::new(
            |name: Seq<char>| position_of(self.entries@, name) < self.entries@.len(),
            |name: Seq<char>| self.entries@[position_of(self.entries@, name) as int].1,
        )
    }

    /// The names are those under which there is a value.
    pub proof fn lemma_names_cover(self)
        ensures
            forall|name: Seq<char>| #[trigger] self@.contains_key(name) <==> self.names().contains(name),
    {
        assert forall|name: Seq<char>| #[trigger] self@.contains_key(name) implies self.names().contains(
            name,
        ) by {
            lemma_position(self.entries@, name);
            assert(self.names()[position_of(self.entries@, name) as int] == name);
        }
        assert forall|name: Seq<char>| self.names().contains(name) implies #[trigger] self@.contains_key(
            name,
        ) by {
            let i = choose|i: int| 0 <= i < self.names().len() && self.names()[i] == name;
            lemma_position(self.entries@, name);
            assert(self.entries@[i].0@ == name);
        }
    }

    /// An empty table.
    pub fn new() -> (r: Self)
        ensures
            r@ == Map::<Seq<char>, T>::empty(),
            r.names() == Seq::<Seq<char>>::empty(),
    {
        let r: Table<T> = Table { entries: Vec::new() };
        proof {
            assert(r@ =~= Map::<Seq<char>, T>::empty());
            assert(r.names() =~= Seq::<Seq<char>>::empty());
        }
        r
    }

    /// How many names there are.
    pub fn len(&self) -> (r: usize)
        ensures
            r == self.names().len(),
    {
        self.entries.len()
    }

    fn position(&self, name: &str) -> (r: usize)
        ensures
            r == position_of(self.entries@, name@),
            r <= self.entries@.len(),
    {
        let mut i: usize = 0;
        while i < self.entries.len()
            invariant
                0 <= i <= self.entries@.len(),
                forall|j: int| 0 <= j < i ==> #[trigger] self.entries@[j].0@ != name@,
            decreases self.entries.len() - i,
        {
            if same(self.entries[i].0.as_str(), name) {
                proof {
                    lemma_position_is(self.entries@, name@, i as int);
                }
                return i;
            }
            i = i + 1;
        }
        proof {
            lemma_position_is(self.entries@, name@, i as int);
        }
        i
    }

    /// Whether there is a value under a name.
    pub fn contains(&self, name: &str) -> (r: bool)
        ensures
            r == self@.contains_key(name@),
    {
        self.position(name) < self.entries.len()
    }

    /// The value under a name.
    pub fn get(&self, name: &str) -> (r: Option<&T>)
        ensures
            r is Some <==> self@.contains_key(name@),
            r matches Some(value) ==> *value == self@[name@],
    {
        let i: usize = self.position(name);
        if i < self.entries.len() {
            Some(&self.entries[i].1)
        } else {
            None
        }
    }

    /// The name at a position, with its value.
    pub fn at(&self, i: usize) -> (r: (&str, &T))
        requires
            i < self.names().len(),
        ensures
            r.0@ == self.names()[i as int],
            self@.contains_key(r.0@),
            *r.1 == self@[r.0@],
    {
        proof {
            use_type_invariant(self);
            lemma_position_is(self.entries@, self.entries@[i as int].0@, i as int);
        }
        (self.entries[i].0.as_str(), &self.entries[i].1)
    }

    /// Puts a value under a name, in place of the one that was there.
    pub fn insert(&mut self, name: String, value: T) -> (r: Option<T>)
        ensures
            final(self)@ == old(self)@.insert(name@, value),
            r is Some <==> old(self)@.contains_key(name@),
            r matches Some(v) ==> v == old(self)@[name@],
            final(self).names() == if old(self)@.contains_key(name@) {
                old(self).names()
            } else {
                old(self).names().push(name@)
            },
    {
        proof {
            use_type_invariant(&*self);
        }
        let i: usize = self.position(name.as_str());
        let mut entries: Vec<(String, T)> = Vec::new();
        std::mem::swap(&mut entries, &mut self.entries);
        let ghost before = entries@;
        proof {
            lemma_position(before, name@);
        }
        if i < entries.len() {
            let last: (String, T) = entries.remove(i);
            let kept: String = last.0;
            entries.insert(i, (kept, value));
            proof {
                assert(entries@ =~= before.update(i as int, (kept, value)));
                lemma_update(before, i as int, kept, value);
                assert(entries@.map_values(|e: (String, T)| e.0@) =~= before.map_values(
                    |e: (String, T)| e.0@,
                ));
            }
            self.entries = entries;
            proof {
                assert forall|n: Seq<char>| n != name@ implies #[trigger] position_of(before, n)
                    != i by {
                    lemma_position(before, n);
                }
                assert(self@ =~= old(self)@.insert(name@, value));
            }
            Some(last.1)
        } else {
            entries.push((name, value));
            proof {
                assert(entries@ =~= before.push((name, value)));
                lemma_push(before, name, value);
                assert(entries@.map_values(|e: (String, T)| e.0@) =~= before.map_values(
                    |e: (String, T)| e.0@,
                ).push(name@));
            }
            self.entries = entries;
            proof {
                assert(self@ =~= old(self)@.insert(name@, value));
            }
            None
        }
    }

    /// Takes a name and its value out.
    pub fn remove(&mut self, name: &str) -> (r: Option<T>)
        ensures
            final(self)@ == old(self)@.remove(name@),
            r is Some <==> old(self)@.contains_key(name@),
            r matches Some(v) ==> v == old(self)@[name@],
            final(self).names() == without(old(self).names(), name@),
    {
        proof {
            use_type_invariant(&*self);
        }
        let i: usize = self.position(name);
        let mut entries: Vec<(String, T)> = Vec::new();
        std::mem::swap(&mut entries, &mut self.entries);
        let ghost before = entries@;
        let ghost names = before.map_values(|e: (String, T)| e.0@);
        proof {
            lemma_position(before, name@);
        }
        if i < entries.len() {
            let taken: (String, T) = entries.remove(i);
            proof {
                lemma_remove(before, i as int);
                assert(entries@.map_values(|e: (String, T)| e.0@) =~= names.remove(i as int));
                lemma_filter_one(names, i as int, name@);
            }
            self.entries = entries;
            proof {
                assert(self@ =~= old(self)@.remove(name@));
            }
            Some(taken.1)
        } else {
            proof {
                lemma_filter_none(names, name@);
                assert(old(self)@.remove(name@) =~= old(self)@);
            }
            self.entries = entries;
            None
        }
    }

    /// Takes all out and gives the values in the order in which their names came.
    pub fn drain(&mut self) -> (r: Vec<T>)
        ensures
            final(self)@ == Map::<Seq<char>, T>::empty(),
            final(self).names() == Seq::<Seq<char>>::empty(),
            listed_by(r@, old(self).names(), old(self)@),
    {
        proof {
            use_type_invariant(&*self);
        }
        let mut entries: Vec<(String, T)> = Vec::new();
        std::mem::swap(&mut entries, &mut self.entries);
        let ghost before = entries@;
        proof {
            assert(self@ =~= Map::<Seq<char>, T>::empty());
            assert(self.names() =~= Seq::<Seq<char>>::empty());
            assert forall|i: int| 0 <= i < before.len() implies position_of(
                before,
                #[trigger] before[i].0@,
            ) == i by {
                lemma_position_is(before, before[i].0@, i);
            }
        }
        let mut out: Vec<T> = Vec::new();
        while entries.len() > 0
            invariant
                out@.len() + entries@.len() == before.len(),
                entries@ == before.skip(out@.len() as int),
                forall|i: int| 0 <= i < out@.len() ==> #[trigger] out@[i] == before[i].1,
            decreases entries.len(),
        {
            let first: (String, T) = entries.remove(0);
            proof {
                assert(first == before[out@.len() as int]);
                assert(entries@ =~= before.skip(out@.len() as int + 1));
            }
            out.push(first.1);
        }
        proof {
            assert forall|i: int| 0 <= i < out@.len() implies #[trigger] out@[i] == old(
                self,
            )@[old(self).names()[i]] by {
                assert(old(self).names()[i] == before[i].0@);
                assert(position_of(before, before[i].0@) == i);
            }
            old(self).lemma_names_cover();
        }
        out
    }
}

proof fn lemma_update<T>(before: Seq<(String, T)>, i: int, name: String, value: T)
    requires
        0 <= i < before.len(),
        before[i].0@ == name@,
        forall|a: int, b: int| 0 <= a < b < before.len() ==> before[a].0@ != before[b].0@,
    ensures
        ({
            let after = before.update(i, (name, value));
            &&& forall|n: Seq<char>| position_of(after, n) == position_of(before, n)
            &&& forall|a: int, b: int| 0 <= a < b < after.len() ==> after[a].0@ != after[b].0@
        }),
{
    let after = before.update(i, (name, value));
    assert forall|n: Seq<char>| position_of(after, n) == position_of(before, n) by {
        lemma_position(before, n);
        lemma_position_is(after, n, position_of(before, n) as int);
    }
}

proof fn lemma_push<T>(before: Seq<(String, T)>, name: String, value: T)
    requires
        position_of(before, name@) == before.len(),
        forall|a: int, b: int| 0 <= a < b < before.len() ==> before[a].0@ != before[b].0@,
    ensures
        ({
            let after = before.push((name, value));
            &&& position_of(after, name@) == before.len()
            &&& forall|n: Seq<char>|
                n != name@ ==> #[trigger] position_of(after, n) == if position_of(before, n)
                    < before.len() {
                    position_of(before, n)
                } else {
                    after.len()
                }
            &&& forall|a: int, b: int| 0 <= a < b < after.len() ==> after[a].0@ != after[b].0@
        }),
{
    let after = before.push((name, value));
    lemma_position(before, name@);
    lemma_position_is(after, name@, before.len() as int);
    assert forall|n: Seq<char>| n != name@ implies #[trigger] position_of(after, n)
        == if position_of(before, n) < before.len() {
        position_of(before, n)
    } else {
        after.len()
    } by {
        lemma_position(before, n);
        if position_of(before, n) < before.len() {
            lemma_position_is(after, n, position_of(before, n) as int);
        } else {
            lemma_position_is(after, n, after.len() as int);
        }
    }
}

proof fn lemma_remove<T>(before: Seq<(String, T)>, i: int)
    requires
        0 <= i < before.len(),
        forall|a: int, b: int| 0 <= a < b < before.len() ==> before[a].0@ != before[b].0@,
    ensures
        ({
            let after = before.remove(i);
            &&& position_of(after, before[i].0@) == after.len()
            &&& forall|n: Seq<char>|
                n != before[i].0@ ==> {
                    let p = position_of(before, n);
                    &&& (#[trigger] position_of(after, n) < after.len()) == (p < before.len())
                    &&& p < before.len() ==> after[position_of(after, n) as int]
                        == before[p as int]
                }
            &&& forall|a: int, b: int| 0 <= a < b < after.len() ==> after[a].0@ != after[b].0@
        }),
{
    let after = before.remove(i);
    let gone = before[i].0@;
    assert forall|k: int| 0 <= k < after.len() implies #[trigger] after[k].0@ != gone by {
        if k < i {
            assert(after[k] == before[k]);
        } else {
            assert(after[k] == before[k + 1]);
        }
    }
    lemma_position_is(after, gone, after.len() as int);
    assert forall|n: Seq<char>| n != gone implies {
        let p = position_of(before, n);
        &&& (#[trigger] position_of(after, n) < after.len()) == (p < before.len())
        &&& p < before.len() ==> after[position_of(after, n) as int] == before[p as int]
    } by {
        lemma_position(before, n);
        let p = position_of(before, n) as int;
        let q = if p < i {
            p
        } else {
            p - 1
        };
        if p == before.len() {
            assert forall|k: int| 0 <= k < after.len() implies #[trigger] after[k].0@ != n by {
                if k < i {
                    assert(after[k] == before[k]);
                } else {
                    assert(after[k] == before[k + 1]);
                }
            }
            lemma_position_is(after, n, after.len() as int);
        } else {
            assert(p != i);
            assert forall|k: int| 0 <= k < q implies #[trigger] after[k].0@ != n by {
                if k < i {
                    assert(after[k] == before[k]);
                } else {
                    assert(after[k] == before[k + 1]);
                }
            }
            if p < i {
                assert(after[q] == before[p]);
            } else {
                assert(after[q] == before[q + 1]);
            }
            lemma_position_is(after, n, q);
        }
    }
    assert forall|a: int, b: int| 0 <= a < b < after.len() implies after[a].0@ != after[b].0@ by {
        let a0 = if a < i {
            a
        } else {
            a + 1
        };
        let b0 = if b < i {
            b
        } else {
            b + 1
        };
        assert(after[a] == before[a0]);
        assert(after[b] == before[b0]);
    }
}

proof fn lemma_filter_none(names: Seq<Seq<char>>, name: Seq<char>)
    requires
        forall|i: int| 0 <= i < names.len() ==> #[trigger] names[i] != name,
    ensures
        without(names, name) == names,
    decreases names.len(),
{
    reveal(Seq::filter);
    if names.len() > 0 {
        let less = names.drop_last();
        assert forall|i: int| 0 <= i < less.len() implies #[trigger] less[i] != name by {
            assert(less[i] == names[i]);
        }
        lemma_filter_none(less, name);
        assert(names[names.len() - 1] != name);
        assert(less.push(names.last()) =~= names);
    }
}

proof fn lemma_filter_one(names: Seq<Seq<char>>, i: int, name: Seq<char>)
    requires
        0 <= i < names.len(),
        names[i] == name,
        forall|a: int, b: int| 0 <= a < b < names.len() ==> names[a] != names[b],
    ensures
        without(names, name) == names.remove(i),
    decreases names.len(),
{
    reveal(Seq::filter);
    let less = names.drop_last();
    if i == names.len() - 1 {
        assert forall|k: int| 0 <= k < less.len() implies #[trigger] less[k] != name by {
            assert(less[k] == names[k]);
        }
        lemma_filter_none(less, name);
        assert(names.remove(i) =~= less);
    } else {
        assert forall|a: int, b: int| 0 <= a < b < less.len() implies less[a] != less[b] by {
            assert(less[a] == names[a]);
            assert(less[b] == names[b]);
        }
        assert(less[i] == names[i]);
        lemma_filter_one(less, i, name);
        assert(names.last() != name);
        assert(names.remove(i) =~= less.remove(i).push(names.last()));
    }
}

} // verus!
