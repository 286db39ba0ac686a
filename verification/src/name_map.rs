//! A map from names to values that also keeps the order in which the names came.
use crate::message::strings;
use vstd::prelude::*;

verus! {

/// A map keyed by name. No name occurs twice, and the names stay in the order in
/// which each was first inserted.
pub struct NameMap<V> {
    entries: Vec<(String, V)>,
}

/// `names` with `name` put at the end, unless it is among them already.
pub open spec fn with_name(names: Seq<Seq<char>>, name: Seq<char>) -> Seq<Seq<char>> {
    if names.contains(name) {
        names
    } else {
        names.push(name)
    }
}

/// `names` without `name`, the others in their order.
pub open spec fn without_name(names: Seq<Seq<char>>, name: Seq<char>) -> Seq<Seq<char>> {
    names.filter(other_than(name))
}

/// Is every name but `name`.
pub open spec fn other_than(name: Seq<char>) -> spec_fn(Seq<char>) -> bool {
    |other: Seq<char>| other != name
}

/// A filter that every item passes changes nothing.
proof fn lemma_filter_keeps_all<A>(s: Seq<A>, pred: spec_fn(A) -> bool)
    requires
        forall|i: int| 0 <= i < s.len() ==> pred(#[trigger] s[i]),
    ensures
        s.filter(pred) == s,
    decreases s.len(),
{
    reveal(Seq::filter);
    if s.len() > 0 {
        assert forall|i: int| 0 <= i < s.drop_last().len() implies pred(
            #[trigger] s.drop_last()[i],
        ) by {
            assert(s.drop_last()[i] == s[i]);
        }
        lemma_filter_keeps_all(s.drop_last(), pred);
        assert(pred(s[s.len() - 1]));
        assert(s.drop_last().push(s.last()) =~= s);
    }
}

/// Taking out a name that is not there changes nothing.
pub proof fn lemma_without_absent_name(names: Seq<Seq<char>>, name: Seq<char>)
    requires
        !names.contains(name),
    ensures
        without_name(names, name) == names,
{
    assert forall|i: int| 0 <= i < names.len() implies #[trigger] names[i] != name by {
        assert(names.contains(names[i]));
    }
    lemma_filter_keeps_all(names, other_than(name));
}

/// Taking out a name that occurs once removes its place and keeps the rest.
pub proof fn lemma_without_name_at(names: Seq<Seq<char>>, i: int)
    requires
        names.no_duplicates(),
        0 <= i < names.len(),
    ensures
        without_name(names, names[i]) == names.remove(i),
{
    let name = names[i];
    let pred = other_than(name);
    let front = names.take(i);
    let back = names.skip(i + 1);
    assert(names =~= front + (seq![name] + back));
    Seq::filter_distributes_over_add(front, seq![name] + back, pred);
    Seq::filter_distributes_over_add(seq![name], back, pred);
    assert forall|j: int| 0 <= j < front.len() implies pred(#[trigger] front[j]) by {
        assert(front[j] == names[j]);
    }
    assert forall|j: int| 0 <= j < back.len() implies pred(#[trigger] back[j]) by {
        assert(back[j] == names[i + 1 + j]);
    }
    lemma_filter_keeps_all(front, pred);
    lemma_filter_keeps_all(back, pred);
    assert(seq![name].filter(pred) =~= Seq::<Seq<char>>::empty()) by {
        reveal_with_fuel(Seq::filter, 2);
    }
    assert(names.remove(i) =~= front + back);
    assert(Seq::<Seq<char>>::empty() + back =~= back);
}

impl<V> View for NameMap<V> {
    type V = Map<Seq<char>, V>;

    closed spec fn view(&self) -> Map<Seq<char>, V> {
        Map::new(
            |name: Seq<char>| self.names().contains(name),
            |name: Seq<char>| self.entries@[self.names().index_of(name)].1,
        )
    }
}

impl<V> NameMap<V> {
    /// The names in their order.
    pub closed spec fn names(&self) -> Seq<Seq<char>> {
        Seq::new(self.entries@.len(), |i: int| self.entries@[i].0@)
    }

    /// No name occurs twice.
    pub closed spec fn wf(&self) -> bool {
        self.names().no_duplicates()
    }

    /// The names in their order are exactly the keys of the map, each once.
    pub proof fn lemma_names(&self)
        requires
            self.wf(),
        ensures
            self.names().no_duplicates(),
            self@.dom() =~= self.names().to_set(),
            forall|name: Seq<char>| self@.contains_key(name) <==> self.names().contains(name),
    {
    }

    proof fn lemma_entry(&self, i: int)
        requires
            self.wf(),
            0 <= i < self.entries@.len(),
        ensures
            self.names()[i] == self.entries@[i].0@,
            self@.contains_key(self.entries@[i].0@),
            self@[self.entries@[i].0@] == self.entries@[i].1,
    {
        let name = self.names()[i];
        assert(self.names().contains(name));
        let k = self.names().index_of(name);
        assert(0 <= k < self.names().len() && self.names()[k] == name);
    }

    pub fn new() -> (r: Self)
        ensures
            r.wf(),
            r@ == Map::<Seq<char>, V>::empty(),
            r.names() == Seq::<Seq<char>>::empty(),
    {
        let r = NameMap { entries: Vec::new() };
        proof {
            assert(r.names() =~= Seq::<Seq<char>>::empty());
            assert(r@ =~= Map::<Seq<char>, V>::empty());
        }
        r
    }

    /// The position of a name, if it is there.
    fn position(&self, name: &String) -> (r: Option<usize>)
        requires
            self.wf(),
        ensures
            match r {
                Some(i) => i < self.entries@.len() && self.entries@[i as int].0@ == name@,
                None => !self@.contains_key(name@),
            },
    {
        let mut i: usize = 0;
        while i < self.entries.len()
            invariant
                i <= self.entries@.len(),
                forall|j: int| 0 <= j < i ==> self.entries@[j].0@ != name@,
            decreases self.entries@.len() - i,
        {
            if self.entries[i].0 == *name {
                return Some(i);
            }
            i = i + 1;
        }
        assert(!self.names().contains(name@)) by {
            assert forall|j: int| 0 <= j < self.names().len() implies self.names()[j] != name@ by {
                assert(self.names()[j] == self.entries@[j].0@);
            }
        }
        None
    }

    pub fn is_empty(&self) -> (r: bool)
        requires
            self.wf(),
        ensures
            r == (self.names().len() == 0),
    {
        self.entries.len() == 0
    }

    pub fn contains_key(&self, name: &String) -> (r: bool)
        requires
            self.wf(),
        ensures
            r == self@.contains_key(name@),
    {
        match self.position(name) {
            Some(i) => {
                proof {
                    self.lemma_entry(i as int);
                }
                true
            },
            None => false,
        }
    }

    pub fn get(&self, name: &String) -> (r: Option<&V>)
        requires
            self.wf(),
        ensures
            match r {
                Some(value) => self@.contains_key(name@) && *value == self@[name@],
                None => !self@.contains_key(name@),
            },
    {
        match self.position(name) {
            Some(i) => {
                proof {
                    self.lemma_entry(i as int);
                }
                Some(&self.entries[i].1)
            },
            None => None,
        }
    }

    /// A change of one value in place is an `insert` under its name.
    proof fn lemma_updated(before: Self, after: Self, i: int, value: V)
        requires
            before.wf(),
            0 <= i < before.entries@.len(),
            after.entries@ == before.entries@.update(i, (before.entries@[i].0, value)),
        ensures
            after.wf(),
            after.names() == before.names(),
            after@ == before@.insert(before.entries@[i].0@, value),
    {
        let name = before.entries@[i].0@;
        assert(after.names() =~= before.names());
        before.lemma_entry(i);
        assert forall|other: Seq<char>| after@.contains_key(other) implies after@[other]
            == before@.insert(name, value)[other] by {
            let k = after.names().index_of(other);
            assert(0 <= k < after.names().len() && after.names()[k] == other);
            before.lemma_entry(k);
            after.lemma_entry(k);
        }
        assert(after@ =~= before@.insert(name, value));
    }

    /// The value of a name, to be changed in place.
    pub fn get_mut(&mut self, name: &String) -> (r: Option<&mut V>)
        requires
            old(self).wf(),
        ensures
            final(self).wf(),
            final(self).names() == old(self).names(),
            match r {
                Some(value) => {
                    &&& old(self)@.contains_key(name@)
                    &&& *value == old(self)@[name@]
                    &&& final(self)@ == old(self)@.insert(name@, *final(value))
                },
                None => !old(self)@.contains_key(name@) && *final(self) == *old(self),
            },
    {
        match self.position(name) {
            Some(i) => {
                proof {
                    self.lemma_entry(i as int);
                }
                let value = &mut self.entries[i].1;
                proof {
                    Self::lemma_updated(*old(self), *after_borrow(self), i as int, *final(value));
                }
                Some(value)
            },
            None => None,
        }
    }

    /// The names in their order.
    pub fn keys(&self) -> (r: Vec<String>)
        requires
            self.wf(),
        ensures
            strings(r@) == self.names(),
    {
        let mut r: Vec<String> = Vec::new();
        let mut i: usize = 0;
        while i < self.entries.len()
            invariant
                i <= self.entries@.len(),
                r@.len() == i,
                forall|j: int| 0 <= j < i ==> (#[trigger] r@[j])@ == self.entries@[j].0@,
            decreases self.entries@.len() - i,
        {
            r.push(self.entries[i].0.clone());
            i = i + 1;
        }
        assert(strings(r@) =~= self.names());
        r
    }

    /// The values in the order of their names.
    pub fn values(&self) -> (r: Vec<&V>)
        requires
            self.wf(),
        ensures
            r@.len() == self.names().len(),
            forall|i: int| 0 <= i < r@.len() ==> *(#[trigger] r@[i]) == self@[self.names()[i]],
    {
        let mut r: Vec<&V> = Vec::new();
        let mut i: usize = 0;
        while i < self.entries.len()
            invariant
                self.wf(),
                i <= self.entries@.len(),
                r@.len() == i,
                forall|j: int| 0 <= j < i ==> *(#[trigger] r@[j]) == self@[self.names()[j]],
            decreases self.entries@.len() - i,
        {
            proof {
                self.lemma_entry(i as int);
            }
            r.push(&self.entries[i].1);
            i = i + 1;
        }
        r
    }

    /// Sets the value of a name: in the name's place if it is there, else at the end.
    pub fn insert(&mut self, name: String, value: V)
        requires
            old(self).wf(),
        ensures
            final(self).wf(),
            final(self)@ == old(self)@.insert(name@, value),
            final(self).names() == with_name(old(self).names(), name@),
    {
        let ghost before = *self;
        match self.position(&name) {
            Some(i) => {
                self.entries[i].1 = value;
                proof {
                    before.lemma_entry(i as int);
                    Self::lemma_updated(before, *self, i as int, value);
                    assert(with_name(before.names(), name@) == before.names());
                }
            },
            None => {
                proof {
                    before.lemma_names();
                }
                self.entries.push((name, value));
                proof {
                    let n = before.entries@.len() as int;
                    assert(self.names() =~= before.names().push(name@));
                    assert forall|i: int, j: int|
                        0 <= i < self.names().len() && 0 <= j < self.names().len() && i
                            != j implies self.names()[i] != self.names()[j] by {
                        if i == n {
                            assert(before.names().contains(before.names()[j]));
                        }
                        if j == n {
                            assert(before.names().contains(before.names()[i]));
                        }
                    }
                    self.lemma_entry(n);
                    assert forall|other: Seq<char>|
                        self@.contains_key(other) <==> before@.insert(name@, value).contains_key(
                            other,
                        ) by {
                        if before.names().contains(other) {
                            let k = before.names().index_of(other);
                            assert(self.names()[k] == other);
                        }
                        if self.names().contains(other) {
                            let k = self.names().index_of(other);
                            assert(0 <= k < self.names().len() && self.names()[k] == other);
                            if k < n {
                                assert(before.names()[k] == other);
                            }
                        }
                    }
                    assert forall|other: Seq<char>| self@.contains_key(other) implies self@[other]
                        == before@.insert(name@, value)[other] by {
                        let k = self.names().index_of(other);
                        assert(0 <= k < self.names().len() && self.names()[k] == other);
                        self.lemma_entry(k);
                        if k < n {
                            before.lemma_entry(k);
                        }
                    }
                    assert(self@ =~= before@.insert(name@, value));
                }
            },
        }
    }

    /// Takes a name out, and hands back its value if it was there.
    pub fn remove(&mut self, name: &String) -> (r: Option<V>)
        requires
            old(self).wf(),
        ensures
            final(self).wf(),
            final(self)@ == old(self)@.remove(name@),
            final(self).names() == without_name(old(self).names(), name@),
            match r {
                Some(value) => old(self)@.contains_key(name@) && value == old(self)@[name@],
                None => !old(self)@.contains_key(name@),
            },
    {
        let ghost before = *self;
        match self.position(name) {
            Some(i) => {
                proof {
                    self.lemma_entry(i as int);
                }
                let (_, value) = self.entries.remove(i);
                proof {
                    let k = i as int;
                    assert(self.names() =~= before.names().remove(k));
                    lemma_without_name_at(before.names(), k);
                    before.lemma_names();
                    assert(self.wf()) by {
                        assert forall|a: int, b: int|
                            0 <= a < self.names().len() && 0 <= b < self.names().len() && a
                                != b implies self.names()[a] != self.names()[b] by {
                            let a0 = if a < k { a } else { a + 1 };
                            let b0 = if b < k { b } else { b + 1 };
                            assert(self.names()[a] == before.names()[a0]);
                            assert(self.names()[b] == before.names()[b0]);
                        }
                    }
                    assert forall|other: Seq<char>|
                        self@.contains_key(other) <==> before@.remove(name@).contains_key(
                            other,
                        ) by {
                        if self.names().contains(other) {
                            let a = self.names().index_of(other);
                            assert(0 <= a < self.names().len() && self.names()[a] == other);
                            let a0 = if a < k { a } else { a + 1 };
                            assert(before.names()[a0] == other);
                            assert(before.names()[k] == name@);
                        }
                        if before.names().contains(other) && other != name@ {
                            let a0 = before.names().index_of(other);
                            assert(0 <= a0 < before.names().len() && before.names()[a0] == other);
                            let a = if a0 < k { a0 } else { a0 - 1 };
                            assert(self.names()[a] == other);
                        }
                    }
                    assert forall|other: Seq<char>| self@.contains_key(other) implies self@[other]
                        == before@.remove(name@)[other] by {
                        let a = self.names().index_of(other);
                        assert(0 <= a < self.names().len() && self.names()[a] == other);
                        let a0 = if a < k { a } else { a + 1 };
                        self.lemma_entry(a);
                        before.lemma_entry(a0);
                    }
                    assert(self@ =~= before@.remove(name@));
                }
                Some(value)
            },
            None => {
                proof {
                    lemma_without_absent_name(self.names(), name@);
                    assert(self@ =~= before@.remove(name@));
                }
                None
            },
        }
    }
}

} // verus!
