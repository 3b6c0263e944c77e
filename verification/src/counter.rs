//! The per-page counter map: page name to new-link count.
//!
//! The counter keeps entries in the order their names were first inserted,
//! so the summary message mentions pages in the order the run was given
//! them, whatever order the page workers finished in. Names are unique;
//! adding under a known name accumulates into its entry.

use vstd::prelude::*;

verus! {

/// An insertion-ordered map from page name to a count.
#[derive(Debug)]
pub struct Counter {
    entries: Vec<(String, u64)>,
}

/// The entries as mathematical pairs, counts widened beyond the machine
/// width so that accumulation can be described without overflow.
pub open spec fn counter_entries_int(v: Seq<(Seq<char>, u64)>) -> Seq<(Seq<char>, int)> {
    v.map(|i: int, p: (Seq<char>, u64)| (p.0, p.1 as int))
}

/// The index of the first entry under `name`, or the length where none is.
pub open spec fn find_name(c: Seq<(Seq<char>, int)>, name: Seq<char>) -> int
    decreases c.len(),
{
    if c.len() == 0 {
        0
    } else if c[0].0 == name {
        0
    } else {
        1 + find_name(c.drop_first(), name)
    }
}

/// Whether some entry carries `name`.
pub open spec fn has_name(c: Seq<(Seq<char>, int)>, name: Seq<char>) -> bool {
    exists|i: int| 0 <= i < c.len() && (#[trigger] c[i]).0 == name
}

/// `find_name` points at the first entry under `name`, and at the length
/// exactly when the name is absent.
pub proof fn lemma_find_name(c: Seq<(Seq<char>, int)>, name: Seq<char>)
    ensures
        0 <= find_name(c, name) <= c.len(),
        has_name(c, name) <==> find_name(c, name) < c.len(),
        find_name(c, name) < c.len() ==> c[find_name(c, name)].0 == name,
        forall|j: int| 0 <= j < find_name(c, name) ==> (#[trigger] c[j]).0 != name,
    decreases c.len(),
{
    if c.len() > 0 && c[0].0 != name {
        let c1 = c.drop_first();
        lemma_find_name(c1, name);
        assert(forall|i: int| 0 <= i < c1.len() ==> (#[trigger] c1[i]) == c[i + 1]);
        assert forall|i: int| 0 <= i < c.len() && (#[trigger] c[i]).0 == name implies has_name(
            c1,
            name,
        ) by {
            if i > 0 {
                assert(c1[i - 1] == c[i]);
            }
        }
        assert forall|i: int| 0 <= i < c1.len() && (#[trigger] c1[i]).0 == name implies has_name(
            c,
            name,
        ) by {
            assert(c[i + 1] == c1[i]);
        }
        assert forall|j: int| 0 <= j < find_name(c, name) implies (#[trigger] c[j]).0 != name by {
            if j > 0 {
                assert(c1[j - 1] == c[j]);
            }
        }
    }
}

/// Adding `delta` under `name`: accumulate into the first entry under that
/// name, or append a fresh entry at the end.
pub open spec fn accum(c: Seq<(Seq<char>, int)>, name: Seq<char>, delta: int) -> Seq<
    (Seq<char>, int),
> {
    if has_name(c, name) {
        let i = find_name(c, name);
        c.update(i, (name, c[i].1 + delta))
    } else {
        c.push((name, delta))
    }
}

/// The sum of the counts of a list of (name, count) pairs.
pub open spec fn sum_counts(pairs: Seq<(Seq<char>, int)>) -> int
    decreases pairs.len(),
{
    if pairs.len() == 0 {
        0
    } else {
        sum_counts(pairs.drop_last()) + pairs.last().1
    }
}

/// The names of the entries, in order.
pub open spec fn names_of(c: Seq<(Seq<char>, int)>) -> Seq<Seq<char>> {
    c.map(|i: int, p: (Seq<char>, int)| p.0)
}

/// Appends a name only where it is not yet present.
pub open spec fn distinct_push(s: Seq<Seq<char>>, n: Seq<char>) -> Seq<Seq<char>> {
    if s.contains(n) {
        s
    } else {
        s.push(n)
    }
}

/// Each name of the list at its first occurrence, in order.
pub open spec fn first_names(names: Seq<Seq<char>>) -> Seq<Seq<char>>
    decreases names.len(),
{
    if names.len() == 0 {
        Seq::empty()
    } else {
        distinct_push(first_names(names.drop_last()), names.last())
    }
}

/// A name stands in the entries exactly where it stands in the name list.
pub proof fn lemma_has_name_names(c: Seq<(Seq<char>, int)>, n: Seq<char>)
    ensures
        has_name(c, n) <==> names_of(c).contains(n),
{
    if has_name(c, n) {
        let i = choose|i: int| 0 <= i < c.len() && (#[trigger] c[i]).0 == n;
        assert(names_of(c)[i] == n);
    }
    if names_of(c).contains(n) {
        let i = choose|i: int| 0 <= i < names_of(c).len() && names_of(c)[i] == n;
        assert(c[i].0 == n);
    }
}

/// The first occurrences of a list hold exactly the list's names.
pub proof fn lemma_first_names_contains(names: Seq<Seq<char>>, n: Seq<char>)
    ensures
        first_names(names).contains(n) <==> names.contains(n),
    decreases names.len(),
{
    if names.len() > 0 {
        lemma_first_names_contains(names.drop_last(), n);
        let f = first_names(names.drop_last());
        if names.contains(n) {
            let i = choose|i: int| 0 <= i < names.len() && names[i] == n;
            if i < names.len() - 1 {
                assert(names.drop_last()[i] == n);
                assert(names.drop_last().contains(n));
                if !f.contains(names.last()) {
                    assert(first_names(names)[choose|j: int|
                        0 <= j < f.len() && f[j] == n] == n);
                } else {
                    assert(first_names(names) == f);
                }
            } else {
                if f.contains(names.last()) {
                    assert(first_names(names).contains(n));
                } else {
                    assert(first_names(names).last() == n);
                }
            }
        }
        if first_names(names).contains(n) {
            let j = choose|j: int| 0 <= j < first_names(names).len() && first_names(names)[j]
                == n;
            if f.contains(names.last()) {
                assert(f.contains(n));
                let k = choose|k: int| 0 <= k < names.drop_last().len() && names.drop_last()[k]
                    == n;
                assert(names[k] == n);
            } else {
                if j < f.len() {
                    assert(f[j] == n);
                    assert(f.contains(n));
                    let k = choose|k: int|
                        0 <= k < names.drop_last().len() && names.drop_last()[k] == n;
                    assert(names[k] == n);
                } else {
                    assert(n == names.last());
                    assert(names[names.len() - 1] == n);
                }
            }
        }
    }
}

/// Accumulating keeps the names where the name is known, and appends it
/// where it is new.
pub proof fn lemma_accum_names(c: Seq<(Seq<char>, int)>, n: Seq<char>, d: int)
    ensures
        names_of(accum(c, n, d)) == distinct_push(names_of(c), n),
{
    lemma_has_name_names(c, n);
    if has_name(c, n) {
        lemma_find_name(c, n);
        assert(names_of(accum(c, n, d)) =~= names_of(c));
    } else {
        assert(names_of(accum(c, n, d)) =~= names_of(c).push(n));
    }
}

/// Changing one entry's count changes the sum by the difference.
pub proof fn lemma_sum_counts_update(c: Seq<(Seq<char>, int)>, i: int, v: int)
    requires
        0 <= i < c.len(),
    ensures
        sum_counts(c.update(i, (c[i].0, v))) == sum_counts(c) - c[i].1 + v,
    decreases c.len(),
{
    let c1 = c.update(i, (c[i].0, v));
    if i == c.len() - 1 {
        assert(c1.drop_last() =~= c.drop_last());
        assert(c1.last() == (c[i].0, v));
    } else {
        assert(c1.drop_last() =~= c.drop_last().update(i, (c[i].0, v)));
        assert(c1.last() == c.last());
        lemma_sum_counts_update(c.drop_last(), i, v);
    }
}

/// Accumulating adds the delta to the sum of the counts.
pub proof fn lemma_accum_sum(c: Seq<(Seq<char>, int)>, n: Seq<char>, d: int)
    ensures
        sum_counts(accum(c, n, d)) == sum_counts(c) + d,
{
    if has_name(c, n) {
        lemma_find_name(c, n);
        let i = find_name(c, n);
        assert(accum(c, n, d) =~= c.update(i, (c[i].0, c[i].1 + d)));
        lemma_sum_counts_update(c, i, c[i].1 + d);
    } else {
        assert(accum(c, n, d).drop_last() =~= c);
    }
}

impl View for Counter {
    type V = Seq<(Seq<char>, u64)>;

    closed spec fn view(&self) -> Seq<(Seq<char>, u64)> {
        Seq::new(self.entries@.len(), |i: int| (self.entries@[i].0@, self.entries@[i].1))
    }
}

impl Counter {
    /// Names are unique: an entry's name never repeats later in the list.
    pub open spec fn wf(self) -> bool {
        forall|i: int, j: int| 0 <= i < j < self@.len() ==> (#[trigger] self@[i]).0 != (
        #[trigger] self@[j]).0
    }

    /// An empty counter.
    pub fn new() -> (r: Self)
        ensures
            r@ == Seq::<(Seq<char>, u64)>::empty(),
            r.wf(),
    {
        let r = Counter { entries: Vec::new() };
        proof {
            assert(r@ =~= Seq::<(Seq<char>, u64)>::empty());
        }
        r
    }

    /// How many entries the counter holds.
    pub fn len(&self) -> (n: usize)
        ensures
            n == self@.len(),
    {
        self.entries.len()
    }

    /// The name and count at a position, for reading the counter out in
    /// insertion order.
    pub fn entry_at(&self, i: usize) -> (r: (String, u64))
        requires
            i < self@.len(),
        ensures
            (r.0@, r.1) == self@[i as int],
    {
        let p = &self.entries[i];
        (p.0.clone(), p.1)
    }

    /// The position of the first entry under `name`, where one exists.
    fn position_of(&self, name: &String) -> (r: Option<usize>)
        ensures
            r matches Some(i) ==> i == find_name(counter_entries_int(self@), name@),
            r matches Some(i) ==> i < self@.len() && self@[i as int].0 == name@,
            r is None ==> !has_name(counter_entries_int(self@), name@),
    {
        let ghost c = counter_entries_int(self@);
        let mut i: usize = 0;
        while i < self.entries.len()
            invariant
                0 <= i <= self@.len(),
                self@.len() == self.entries@.len(),
                c == counter_entries_int(self@),
                forall|j: int| 0 <= j < i ==> (#[trigger] c[j]).0 != name@,
            decreases self@.len() - i,
        {
            if self.entries[i].0 == *name {
                proof {
                    assert(c[i as int].0 == self.entries@[i as int].0@);
                    lemma_find_name(c, name@);
                }
                return Some(i);
            }
            proof {
                assert(c[i as int].0 == self.entries@[i as int].0@);
            }
            i = i + 1;
        }
        None
    }

    /// Adds `delta` under `name`: accumulates into the entry first inserted
    /// under that name, or appends a fresh one. Refuses to wrap: where the
    /// entry's count would pass the counter width, reports `None` and
    /// leaves the counter unchanged.
    pub fn add_count(&mut self, name: &String, delta: u64) -> (r: Option<()>)
        requires
            old(self).wf(),
        ensures
            final(self).wf(),
            r matches Some(_) ==> counter_entries_int(final(self)@) == accum(
                counter_entries_int(old(self)@),
                name@,
                delta as int,
            ),
            r is None ==> final(self)@ == old(self)@ && {
                let c = counter_entries_int(old(self)@);
                has_name(c, name@) && c[find_name(c, name@)].1 + delta > u64::MAX
            },
    {
        let ghost v0 = self@;
        let ghost c0 = counter_entries_int(self@);
        match self.position_of(name) {
            Some(i) => {
                let cur = self.entries[i].1;
                match cur.checked_add(delta) {
                    Some(updated) => {
                        let owned = name.clone();
                        self.entries.set(i, (owned, updated));
                        proof {
                            assert(forall|k: int|
                                0 <= k < v0.len() && k != i ==> (#[trigger] self@[k]) == v0[k]);
                            assert(self@[i as int] == (name@, updated));
                            assert(counter_entries_int(self@) =~= accum(c0, name@, delta as int));
                            assert forall|a: int, b: int|
                                0 <= a < b < self@.len() implies (#[trigger] self@[a]).0 != (
                            #[trigger] self@[b]).0 by {
                                assert(v0[a].0 != v0[b].0);
                                assert(self@[a].0 == v0[a].0);
                                assert(self@[b].0 == v0[b].0);
                            }
                        }
                        Some(())
                    },
                    None => {
                        None
                    },
                }
            },
            None => {
                let owned = name.clone();
                self.entries.push((owned, delta));
                proof {
                    assert(forall|k: int|
                        0 <= k < v0.len() ==> (#[trigger] self@[k]) == v0[k]);
                    assert(self@[v0.len() as int] == (name@, delta));
                    assert(counter_entries_int(self@) =~= accum(c0, name@, delta as int));
                    assert forall|a: int, b: int| 0 <= a < b < self@.len() implies (
                    #[trigger] self@[a]).0 != (#[trigger] self@[b]).0 by {
                        if b == self@.len() - 1 {
                            assert(c0[a].0 == v0[a].0);
                            assert(c0[a].0 != name@);
                        } else {
                            assert(v0[a].0 != v0[b].0);
                        }
                    }
                }
                Some(())
            },
        }
    }
}

} // verus!
