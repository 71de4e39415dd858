//! A table of values by number, in the order of the numbers.
use vstd::prelude::*;

verus! {

/// Values by number, in the order of the numbers.
pub struct Slots<V> {
    entries: Vec<(u64, V)>,
}

/// A sorted list of numbered values.
pub type SlotsView<T> = Seq<(u64, T)>;

/// The value of a number.
pub open spec fn slot<T>(s: SlotsView<T>, k: u64) -> Option<T>
    decreases s.len(),
{
    if s.len() == 0 {
        None
    } else if s[0].0 == k {
        Some(s[0].1)
    } else {
        slot(s.skip(1), k)
    }
}

/// The list with a value for a number, in place of the one it had.
pub open spec fn with_slot<T>(s: SlotsView<T>, k: u64, v: T) -> SlotsView<T>
    decreases s.len(),
{
    if s.len() == 0 {
        seq![(k, v)]
    } else if s[0].0 == k {
        seq![(k, v)] + s.skip(1)
    } else if k < s[0].0 {
        seq![(k, v)] + s
    } else {
        seq![s[0]] + with_slot(s.skip(1), k, v)
    }
}

/// The list without a number.
pub open spec fn without_slot<T>(s: SlotsView<T>, k: u64) -> SlotsView<T>
    decreases s.len(),
{
    if s.len() == 0 {
        s
    } else if s[0].0 == k {
        s.skip(1)
    } else {
        seq![s[0]] + without_slot(s.skip(1), k)
    }
}

/// Whether the numbers of a list grow.
pub open spec fn sorted<T>(s: SlotsView<T>) -> bool {
    forall|i: int, j: int| 0 <= i < j < s.len() ==> (#[trigger] s[i]).0 < (#[trigger] s[j]).0
}

/// Setting and dropping numbers keeps a list in order; what was set can be
/// found again, what was dropped cannot, and other numbers are left alone.
pub proof fn slots_work<T>(s: SlotsView<T>, k: u64, v: T, other: u64)
    requires
        sorted(s),
    ensures
        sorted(with_slot(s, k, v)),
        sorted(without_slot(s, k)),
        slot(with_slot(s, k, v), k) == Some(v),
        slot(without_slot(s, k), k) is None,
        other != k ==> slot(with_slot(s, k, v), other) == slot(s, other),
        other != k ==> slot(without_slot(s, k), other) == slot(s, other),
        forall|i: int|
            0 <= i < with_slot(s, k, v).len() ==> (#[trigger] with_slot(s, k, v)[i]).0 == k || (
            exists|j: int|
                0 <= j < s.len() && (#[trigger] s[j]).0 == with_slot(s, k, v)[i].0),
        forall|i: int|
            0 <= i < without_slot(s, k).len() ==> exists|j: int|
                0 <= j < s.len() && (#[trigger] s[j]).0 == (#[trigger] without_slot(s, k)[i]).0,
    decreases s.len(),
{
    let w = with_slot(s, k, v);
    let d = without_slot(s, k);
    if s.len() == 0 {
        assert(w.skip(1) =~= s);
    } else {
        let t = s.skip(1);
        assert forall|i: int, j: int| 0 <= i < j < t.len() implies (#[trigger] t[i]).0 < (
        #[trigger] t[j]).0 by {
            assert(s[i + 1].0 < s[j + 1].0);
        }
        slots_work(t, k, v, other);
        assert forall|i: int| 0 <= i < t.len() implies s[0].0 < (#[trigger] t[i]).0 by {
            assert(s[0].0 < s[i + 1].0);
        }
        if s[0].0 == k {
            assert(w.skip(1) =~= t);
            assert forall|i: int| 0 <= i < w.len() implies (#[trigger] w[i]).0 == k || (exists|
                j: int,
            | 0 <= j < s.len() && (#[trigger] s[j]).0 == w[i].0) by {
                assert(s[i].0 == w[i].0);
            }
            assert forall|i: int| 0 <= i < d.len() implies exists|j: int|
                0 <= j < s.len() && (#[trigger] s[j]).0 == (#[trigger] d[i]).0 by {
                assert(s[i + 1].0 == d[i].0);
            }
            lemma_absent(t, k);
        } else {
            let r = without_slot(t, k);
            assert(d.skip(1) =~= r);
            assert forall|i: int| 0 <= i < d.len() implies exists|j: int|
                0 <= j < s.len() && (#[trigger] s[j]).0 == (#[trigger] d[i]).0 by {
                if i == 0 {
                    assert(s[0].0 == d[0].0);
                } else {
                    let j = choose|j: int| 0 <= j < t.len() && (#[trigger] t[j]).0 == r[i - 1].0;
                    assert(s[j + 1].0 == d[i].0);
                }
            }
            assert forall|i: int, j: int| 0 <= i < j < d.len() implies (#[trigger] d[i]).0 < (
            #[trigger] d[j]).0 by {
                if i == 0 {
                    let m = choose|m: int| 0 <= m < t.len() && (#[trigger] t[m]).0 == r[j - 1].0;
                    assert(s[0].0 < t[m].0);
                } else {
                    assert(r[i - 1].0 < r[j - 1].0);
                }
            }
            if k < s[0].0 {
                assert(w.skip(1) =~= s);
                assert forall|i: int| 0 <= i < w.len() implies (#[trigger] w[i]).0 == k || (exists|
                    j: int,
                | 0 <= j < s.len() && (#[trigger] s[j]).0 == w[i].0) by {
                    if i > 0 {
                        assert(s[i - 1].0 == w[i].0);
                    }
                }
            } else {
                let p = with_slot(t, k, v);
                assert(w.skip(1) =~= p);
                assert forall|i: int| 0 <= i < w.len() implies (#[trigger] w[i]).0 == k || (exists|
                    j: int,
                | 0 <= j < s.len() && (#[trigger] s[j]).0 == w[i].0) by {
                    if i == 0 {
                        assert(s[0].0 == w[0].0);
                    } else if p[i - 1].0 != k {
                        let j = choose|j: int|
                            0 <= j < t.len() && (#[trigger] t[j]).0 == p[i - 1].0;
                        assert(s[j + 1].0 == w[i].0);
                    }
                }
                assert forall|i: int, j: int| 0 <= i < j < w.len() implies (#[trigger] w[i]).0 < (
                #[trigger] w[j]).0 by {
                    if i == 0 {
                        if p[j - 1].0 != k {
                            let m = choose|m: int|
                                0 <= m < t.len() && (#[trigger] t[m]).0 == p[j - 1].0;
                            assert(s[0].0 < t[m].0);
                        }
                    } else {
                        assert(p[i - 1].0 < p[j - 1].0);
                    }
                }
            }
        }
    }
}

/// A number below or equal to none of a list's numbers has no value.
proof fn lemma_absent<T>(s: SlotsView<T>, k: u64)
    requires
        forall|i: int| 0 <= i < s.len() ==> (#[trigger] s[i]).0 != k,
    ensures
        slot(s, k) is None,
    decreases s.len(),
{
    if s.len() > 0 {
        let t = s.skip(1);
        assert forall|i: int| 0 <= i < t.len() implies (#[trigger] t[i]).0 != k by {
            assert(s[i + 1].0 != k);
        }
        lemma_absent(t, k);
    }
}

impl<V: View> View for Slots<V> {
    type V = SlotsView<V::V>;

    closed spec fn view(&self) -> SlotsView<V::V> {
        Seq::new(self.entries@.len(), |i: int| (self.entries@[i].0, self.entries@[i].1@))
    }
}

impl<V: View> Slots<V> {
    pub fn new() -> (r: Slots<V>)
        ensures
            r@ == Seq::<(u64, V::V)>::empty(),
    {
        let r: Slots<V> = Slots { entries: Vec::new() };
        assert(r@ =~= Seq::<(u64, V::V)>::empty());
        r
    }

    /// The value of a number.
    pub fn get(&self, k: u64) -> (r: Option<&V>)
        ensures
            match r {
                Some(v) => slot(self@, k) == Some(v@),
                None => slot(self@, k) is None,
            },
    {
        let ghost all = self@;
        let mut i: usize = 0;
        assert(all.skip(0) =~= all);
        while i < self.entries.len()
            invariant
                i <= self.entries@.len(),
                all == self@,
                slot(all, k) == slot(all.skip(i as int), k),
            decreases self.entries@.len() - i,
        {
            assert(all.skip(i as int).skip(1) =~= all.skip(i + 1));
            assert(all.skip(i as int)[0] == (self.entries@[i as int].0, self.entries@[i as int].1@));
            if self.entries[i].0 == k {
                return Some(&self.entries[i].1);
            }
            i += 1;
        }
        None
    }

    /// Gives a number a value, in place of the one it had.
    pub fn set(&mut self, k: u64, value: V)
        ensures
            final(self)@ == with_slot(old(self)@, k, value@),
    {
        let ghost all = self@;
        let mut i: usize = 0;
        assert(all.skip(0) =~= all);
        assert(all.take(0) + with_slot(all, k, value@) =~= with_slot(all, k, value@));
        while i < self.entries.len()
            invariant
                i <= self.entries@.len(),
                all == self@,
                all == old(self)@,
                with_slot(all, k, value@) == all.take(i as int) + with_slot(
                    all.skip(i as int),
                    k,
                    value@,
                ),
            decreases self.entries@.len() - i,
        {
            let ghost rest = all.skip(i as int);
            let ghost before = self.entries@;
            assert(rest[0] == (before[i as int].0, before[i as int].1@));
            assert(rest.skip(1) =~= all.skip(i + 1));
            if self.entries[i].0 == k {
                self.entries.set(i, (k, value));
                assert(self@ =~= all.take(i as int) + (seq![(k, value@)] + rest.skip(1)));
                return;
            }
            if k < self.entries[i].0 {
                self.entries.insert(i, (k, value));
                assert(self@ =~= all.take(i as int) + (seq![(k, value@)] + rest));
                return;
            }
            assert(all.take(i as int) + (seq![rest[0]] + with_slot(rest.skip(1), k, value@))
                =~= all.take(i + 1) + with_slot(rest.skip(1), k, value@));
            i += 1;
        }
        self.entries.push((k, value));
        assert(self@ =~= all.take(i as int) + seq![(k, value@)]);
    }

    /// Takes a number and its value out.
    pub fn take(&mut self, k: u64) -> (r: Option<V>)
        ensures
            final(self)@ == without_slot(old(self)@, k),
            match r {
                Some(v) => slot(old(self)@, k) == Some(v@),
                None => slot(old(self)@, k) is None,
            },
    {
        let ghost all = self@;
        let mut i: usize = 0;
        assert(all.skip(0) =~= all);
        assert(all.take(0) + without_slot(all, k) =~= without_slot(all, k));
        while i < self.entries.len()
            invariant
                i <= self.entries@.len(),
                all == self@,
                all == old(self)@,
                slot(all, k) == slot(all.skip(i as int), k),
                without_slot(all, k) == all.take(i as int) + without_slot(all.skip(i as int), k),
            decreases self.entries@.len() - i,
        {
            let ghost rest = all.skip(i as int);
            let ghost before = self.entries@;
            assert(rest[0] == (before[i as int].0, before[i as int].1@));
            assert(rest.skip(1) =~= all.skip(i + 1));
            if self.entries[i].0 == k {
                let (_, value) = self.entries.remove(i);
                assert(self@ =~= all.take(i as int) + rest.skip(1));
                return Some(value);
            }
            assert(all.take(i as int) + (seq![rest[0]] + without_slot(rest.skip(1), k))
                =~= all.take(i + 1) + without_slot(rest.skip(1), k));
            i += 1;
        }
        assert(all.take(i as int) + without_slot(all.skip(i as int), k) =~= all);
        None
    }

    /// Takes the first number and its value out.
    pub fn take_first(&mut self) -> (r: Option<(u64, V)>)
        ensures
            match r {
                Some((k, v)) => old(self)@.len() > 0 && old(self)@[0] == (k, v@) && final(self)@
                    == old(self)@.skip(1),
                None => old(self)@.len() == 0 && final(self)@ == old(self)@,
            },
    {
        if self.entries.len() == 0 {
            return None;
        }
        let first: (u64, V) = self.entries.remove(0);
        assert(self@ =~= old(self)@.skip(1));
        Some(first)
    }
}

} // verus!
