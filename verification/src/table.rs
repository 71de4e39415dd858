//! A table of values by name.
use vstd::prelude::*;

use crate::json::distinct_keys;
use crate::model::views;
use crate::text::same;

verus! {

/// Values by name.
pub struct Table<V> {
    entries: Vec<(String, V)>,
}

/// The map of a list of rows, where a later row replaces an earlier one.
pub open spec fn rows_view<V: View>(rows: Seq<(String, V)>) -> Map<Seq<char>, V::V>
    decreases rows.len(),
{
    if rows.len() == 0 {
        Map::empty()
    } else {
        rows_view(rows.drop_last()).insert(rows.last().0@, rows.last().1@)
    }
}

impl<V: View> View for Table<V> {
    type V = Map<Seq<char>, V::V>;

    closed spec fn view(&self) -> Map<Seq<char>, V::V> {
        rows_view(self.entries@)
    }
}

proof fn lemma_distinct_front<V>(s: Seq<(String, V)>)
    requires
        distinct_keys(s),
        s.len() > 0,
    ensures
        distinct_keys(s.drop_last()),
{
    let t = s.drop_last();
    assert forall|j: int, k: int| 0 <= j < k < t.len() implies #[trigger] t[j].0@
        != #[trigger] t[k].0@ by {
        assert(s[j].0@ != s[k].0@);
    }
}

proof fn lemma_row<V: View>(s: Seq<(String, V)>, i: int)
    requires
        0 <= i < s.len(),
        distinct_keys(s),
    ensures
        rows_view(s).contains_key(s[i].0@),
        rows_view(s)[s[i].0@] == s[i].1@,
    decreases s.len(),
{
    if i < s.len() - 1 {
        lemma_distinct_front(s);
        lemma_row(s.drop_last(), i);
        assert(s[i].0@ != s[s.len() - 1].0@);
    }
}

proof fn lemma_name<V: View>(s: Seq<(String, V)>, k: Seq<char>) -> (i: int)
    requires
        rows_view(s).contains_key(k),
    ensures
        0 <= i < s.len(),
        s[i].0@ == k,
    decreases s.len(),
{
    if s.last().0@ == k {
        s.len() - 1
    } else {
        lemma_name(s.drop_last(), k)
    }
}

proof fn lemma_replaced<V: View>(s: Seq<(String, V)>, i: int, x: (String, V))
    requires
        0 <= i < s.len(),
        distinct_keys(s),
        x.0@ == s[i].0@,
    ensures
        distinct_keys(s.update(i, x)),
        rows_view(s.update(i, x)) == rows_view(s).insert(x.0@, x.1@),
    decreases s.len(),
{
    let u = s.update(i, x);
    assert forall|j: int, k: int| 0 <= j < k < u.len() implies #[trigger] u[j].0@
        != #[trigger] u[k].0@ by {
        assert(s[j].0@ != s[k].0@);
    }
    if i == s.len() - 1 {
        assert(u.drop_last() =~= s.drop_last());
    } else {
        lemma_distinct_front(s);
        lemma_replaced(s.drop_last(), i, x);
        assert(u.drop_last() =~= s.drop_last().update(i, x));
        assert(s[i].0@ != s[s.len() - 1].0@);
    }
    assert(rows_view(u) =~= rows_view(s).insert(x.0@, x.1@));
}

proof fn lemma_removed<V: View>(s: Seq<(String, V)>, i: int)
    requires
        0 <= i < s.len(),
        distinct_keys(s),
    ensures
        distinct_keys(s.remove(i)),
        rows_view(s.remove(i)) == rows_view(s).remove(s[i].0@),
    decreases s.len(),
{
    let u = s.remove(i);
    assert forall|j: int, k: int| 0 <= j < k < u.len() implies #[trigger] u[j].0@
        != #[trigger] u[k].0@ by {
        let a = if j < i {
            j
        } else {
            j + 1
        };
        let b = if k < i {
            k
        } else {
            k + 1
        };
        assert(s[a].0@ != s[b].0@);
    }
    let t = s.drop_last();
    if i == s.len() - 1 {
        assert(u =~= t);
        if rows_view(t).contains_key(s[i].0@) {
            let j = lemma_name(t, s[i].0@);
            assert(s[j].0@ != s[i].0@);
        }
    } else {
        lemma_distinct_front(s);
        lemma_removed(t, i);
        assert(u.drop_last() =~= t.remove(i));
        assert(u.last() == s.last());
        assert(s[i].0@ != s[s.len() - 1].0@);
    }
    assert(rows_view(u) =~= rows_view(s).remove(s[i].0@));
}

impl<V> Table<V> {
    #[verifier::type_invariant]
    spec fn names_are_distinct(self) -> bool {
        distinct_keys(self.entries@)
    }
}

impl<V: View> Table<V> {
    pub fn new() -> (r: Table<V>)
        ensures
            r@ == Map::<Seq<char>, V::V>::empty(),
    {
        Table { entries: Vec::new() }
    }

    fn position(&self, name: &str) -> (r: Option<usize>)
        ensures
            match r {
                Some(i) => i < self.entries@.len() && self.entries@[i as int].0@ == name@
                    && self@.contains_key(name@) && self@[name@] == self.entries@[i as int].1@,
                None => !self@.contains_key(name@),
            },
    {
        proof {
            use_type_invariant(self);
        }
        let mut i: usize = 0;
        while i < self.entries.len()
            invariant
                i <= self.entries@.len(),
                distinct_keys(self.entries@),
                forall|j: int| 0 <= j < i ==> #[trigger] self.entries@[j].0@ != name@,
            decreases self.entries@.len() - i,
        {
            if same(self.entries[i].0.as_str(), name) {
                proof {
                    lemma_row(self.entries@, i as int);
                }
                return Some(i);
            }
            i += 1;
        }
        proof {
            if self@.contains_key(name@) {
                let j = lemma_name(self.entries@, name@);
                assert(self.entries@[j].0@ != name@);
            }
        }
        None
    }

    /// The value of a name.
    pub fn get(&self, name: &str) -> (r: Option<&V>)
        ensures
            match r {
                Some(v) => self@.contains_key(name@) && self@[name@] == v@,
                None => !self@.contains_key(name@),
            },
    {
        match self.position(name) {
            Some(i) => Some(&self.entries[i].1),
            None => None,
        }
    }

    /// Gives a name a value, in place of the one it had.
    pub fn insert(&mut self, name: &str, value: V)
        ensures
            final(self)@ == old(self)@.insert(name@, value@),
    {
        let found: Option<usize> = self.position(name);
        proof {
            use_type_invariant(&*self);
        }
        let mut entries: Vec<(String, V)> = Vec::new();
        std::mem::swap(&mut entries, &mut self.entries);
        let ghost before = entries@;
        let row: (String, V) = (name.to_owned(), value);
        match found {
            Some(i) => {
                proof {
                    lemma_replaced(before, i as int, row);
                }
                entries.set(i, row);
            },
            None => {
                proof {
                    assert forall|j: int| 0 <= j < before.len() implies #[trigger] before[j].0@
                        != name@ by {
                        lemma_row(before, j);
                    }
                    assert(before.push(row).drop_last() =~= before);
                }
                entries.push(row);
            },
        }
        self.entries = entries;
    }

    /// Takes a name and its value out of the table.
    pub fn remove(&mut self, name: &str) -> (r: Option<V>)
        ensures
            final(self)@ == old(self)@.remove(name@),
            match r {
                Some(v) => old(self)@.contains_key(name@) && old(self)@[name@] == v@,
                None => !old(self)@.contains_key(name@),
            },
    {
        match self.position(name) {
            Some(i) => {
                proof {
                    use_type_invariant(&*self);
                    lemma_removed(self.entries@, i as int);
                }
                let mut entries: Vec<(String, V)> = Vec::new();
                std::mem::swap(&mut entries, &mut self.entries);
                let (_, value) = entries.remove(i);
                self.entries = entries;
                Some(value)
            },
            None => {
                assert(self@.remove(name@) =~= self@);
                None
            },
        }
    }
}

/// A list of values, seen as the list of their views.
pub struct List<T> {
    pub items: Vec<T>,
}

impl<T: View> View for List<T> {
    type V = Seq<T::V>;

    open spec fn view(&self) -> Seq<T::V> {
        views(self.items@)
    }
}

/// The list of a name, empty where it has none.
pub open spec fn row_of<T>(table: Map<Seq<char>, Seq<T>>, name: Seq<char>) -> Seq<T> {
    if table.contains_key(name) {
        table[name]
    } else {
        Seq::empty()
    }
}

/// Adds a value to the list of a name.
pub fn add_to<T: View>(table: &mut Table<List<T>>, name: &str, value: T)
    ensures
        final(table)@ == old(table)@.insert(name@, row_of(old(table)@, name@).push(value@)),
{
    broadcast use crate::model::group_views;

    let mut list: List<T> = match table.remove(name) {
        Some(list) => list,
        None => List { items: Vec::new() },
    };
    list.items.push(value);
    table.insert(name, list);
    assert(table@ =~= old(table)@.insert(name@, row_of(old(table)@, name@).push(value@)));
}

} // verus!
