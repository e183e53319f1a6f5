//! A small map from names to values that remembers the order in which the
//! names came.

use vstd::prelude::*;

verus! {

/// Pairs of a name and a value, in the order in which the names were first
/// inserted.
pub struct Table<V> {
    entries: Vec<(String, V)>,
}

/// Whether no name occurs twice among `pairs`.
pub open spec fn distinct_names<W>(pairs: Seq<(Seq<char>, W)>) -> bool {
    forall|i: int, j: int| 0 <= i < j < pairs.len() ==> pairs[i].0 != pairs[j].0
}

/// Whether `i` is the first place among `pairs` at which `name` stands.
pub open spec fn is_place_of<W>(pairs: Seq<(Seq<char>, W)>, name: Seq<char>, i: int) -> bool {
    &&& 0 <= i < pairs.len()
    &&& pairs[i].0 == name
    &&& forall|j: int| 0 <= j < i ==> pairs[j].0 != name
}

/// The first place among `pairs` at which `name` stands, if it stands there.
pub open spec fn place_of<W>(pairs: Seq<(Seq<char>, W)>, name: Seq<char>) -> Option<int> {
    if exists|i: int| is_place_of(pairs, name, i) {
        Some(choose|i: int| is_place_of(pairs, name, i))
    } else {
        None
    }
}

/// `pairs` after `name` was given `value`: the value replaces the one that
/// `name` had, or the pair is added at the end.
pub open spec fn with_pair<W>(pairs: Seq<(Seq<char>, W)>, name: Seq<char>, value: W) -> Seq<
    (Seq<char>, W),
> {
    match place_of(pairs, name) {
        Some(i) => pairs.update(i, (name, value)),
        None => pairs.push((name, value)),
    }
}

/// A name that stands somewhere among `pairs` has a first place there.
pub proof fn lemma_place_exists<W>(pairs: Seq<(Seq<char>, W)>, name: Seq<char>, at: int)
    requires
        0 <= at < pairs.len(),
        pairs[at].0 == name,
    ensures
        place_of(pairs, name) is Some,
        is_place_of(pairs, name, place_of(pairs, name)->0),
        place_of(pairs, name)->0 <= at,
    decreases at,
{
    if exists|j: int| 0 <= j < at && pairs[j].0 == name {
        let j = choose|j: int| 0 <= j < at && pairs[j].0 == name;
        lemma_place_exists(pairs, name, j);
    } else {
        assert(is_place_of(pairs, name, at));
        let chosen = choose|i: int| is_place_of(pairs, name, i);
        assert(chosen <= at);
    }
}

impl<V: DeepView> DeepView for Table<V> {
    type V = Seq<(Seq<char>, V::V)>;

    closed spec fn deep_view(&self) -> Seq<(Seq<char>, V::V)> {
        self.entries.deep_view()
    }
}

impl<V: DeepView> Table<V> {
    /// Whether no name stands twice in the table. Every table that was built
    /// with [`Table::new`] and [`Table::insert`] is well formed.
    pub open spec fn wf(&self) -> bool {
        distinct_names(self.deep_view())
    }

    /// The value at `index`, as it is stored.
    pub closed spec fn stored(&self, index: int) -> V {
        self.entries@[index].1
    }

    /// The empty table.
    pub fn new() -> (table: Self)
        ensures
            table.deep_view() == Seq::<(Seq<char>, V::V)>::empty(),
            table.wf(),
    {
        let table = Table { entries: Vec::new() };
        assert(table.deep_view() =~= Seq::<(Seq<char>, V::V)>::empty());
        table
    }

    /// The number of names.
    pub fn len(&self) -> (n: usize)
        ensures
            n == self.deep_view().len(),
    {
        self.entries.len()
    }

    /// The name at `index`.
    pub fn name(&self, index: usize) -> (name: &String)
        requires
            index < self.deep_view().len(),
        ensures
            name@ == self.deep_view()[index as int].0,
    {
        &self.entries[index].0
    }

    /// The value at `index`.
    pub fn value(&self, index: usize) -> (value: &V)
        requires
            index < self.deep_view().len(),
        ensures
            value.deep_view() == self.deep_view()[index as int].1,
            *value == self.stored(index as int),
    {
        &self.entries[index].1
    }

    /// The pairs of the table, handed over in order.
    pub fn into_pairs(self) -> (pairs: Vec<(String, V)>)
        ensures
            pairs.deep_view() == self.deep_view(),
    {
        self.entries
    }

    /// Where `name` stands, if it does.
    pub fn position(&self, name: &String) -> (found: Option<usize>)
        ensures
            found matches Some(i) ==> place_of(self.deep_view(), name@) == Some(i as int),
            found is None ==> place_of(self.deep_view(), name@) is None,
    {
        let mut i: usize = 0;
        while i < self.entries.len()
            invariant
                i <= self.entries.len(),
                forall|j: int| 0 <= j < i ==> self.deep_view()[j].0 != name@,
            decreases self.entries.len() - i,
        {
            if self.entries[i].0 == *name {
                proof {
                    let pairs = self.deep_view();
                    assert(is_place_of(pairs, name@, i as int));
                    let chosen = choose|k: int| is_place_of(pairs, name@, k);
                    assert(chosen == i as int);
                }
                return Some(i);
            }
            i += 1;
        }
        None
    }

    /// Gives `name` the value `value`: in place where the name is there
    /// already, else at the end.
    pub fn insert(&mut self, name: String, value: V)
        ensures
            final(self).deep_view() == with_pair(old(self).deep_view(), name@, value.deep_view()),
            old(self).wf() ==> final(self).wf(),
    {
        let ghost before = self.deep_view();
        let ghost added = (name@, value.deep_view());
        match self.position(&name) {
            Some(i) => {
                self.entries.set(i, (name, value));
                assert(self.deep_view() =~= before.update(i as int, added));
                assert(distinct_names(before) ==> distinct_names(before.update(i as int, added)));
            },
            None => {
                self.entries.push((name, value));
                assert(self.deep_view() =~= before.push(added));
                assert(distinct_names(before) ==> distinct_names(before.push(added))) by {
                    assert forall|j: int| 0 <= j < before.len() implies before[j].0 != name@ by {
                        if before[j].0 == name@ {
                            lemma_place_exists(before, name@, j);
                        }
                    }
                }
            },
        }
    }
}

impl Table<String> {
    /// A copy of the table.
    pub fn duplicate(&self) -> (copy: Self)
        ensures
            copy.deep_view() == self.deep_view(),
    {
        let mut entries: Vec<(String, String)> = Vec::new();
        let mut i: usize = 0;
        while i < self.entries.len()
            invariant
                i <= self.entries.len(),
                entries.deep_view() == self.entries.deep_view().take(i as int),
            decreases self.entries.len() - i,
        {
            let ghost before = entries.deep_view();
            let name = self.entries[i].0.clone();
            let value = self.entries[i].1.clone();
            entries.push((name, value));
            proof {
                assert(entries.deep_view() =~= before.push((name@, value@)));
                assert(self.entries.deep_view().take(i + 1) =~= before.push((name@, value@)));
            }
            i += 1;
        }
        proof {
            assert(self.entries.deep_view().take(self.entries.len() as int)
                =~= self.entries.deep_view());
        }
        Table { entries }
    }
}

} // verus!
