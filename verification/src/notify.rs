//! Composition of the summary notification.
//!
//! After a run that found new links, a short message names the pages with
//! new links in counter order. Up to three pages are named one by one; from
//! four pages on, the first two are named and the rest are summarized in a
//! single closing clause. The title carries the total, singular for one
//! new link and plural otherwise.

use vstd::prelude::*;

use crate::counter::Counter;
use crate::counter::counter_entries_int;
use crate::counter::sum_counts;
use crate::decimal::dec_str;
use crate::decimal::u64_to_dec;
use crate::stats::CollectionStats;

verus! {

/// The counter entries with at least one new link, in counter order.
pub open spec fn qualifying(c: Seq<(Seq<char>, u64)>) -> Seq<(Seq<char>, u64)>
    decreases c.len(),
{
    if c.len() == 0 {
        Seq::empty()
    } else if c.last().1 > 0 {
        qualifying(c.drop_last()).push(c.last())
    } else {
        qualifying(c.drop_last())
    }
}

/// The clause for one page: its new-link count, then its name.
pub open spec fn clause(p: (Seq<char>, u64)) -> Seq<char> {
    dec_str(p.1 as nat) + " for "@ + p.0
}

/// The closing clause that stands in for every page after the second.
pub open spec fn remainder_clause(k: nat) -> Seq<char> {
    "and some more for "@ + dec_str(k) + " other pages."@
}

/// The whole summary message for a counter.
pub open spec fn message_of(c: Seq<(Seq<char>, u64)>) -> Seq<char> {
    let q = qualifying(c);
    if q.len() == 0 {
        Seq::empty()
    } else if q.len() == 1 {
        clause(q[0]) + "."@
    } else if q.len() == 2 {
        clause(q[0]) + " and "@ + clause(q[1]) + "."@
    } else if q.len() == 3 {
        clause(q[0]) + ", "@ + clause(q[1]) + ", and "@ + clause(q[2]) + "."@
    } else {
        clause(q[0]) + ", "@ + clause(q[1]) + ", "@ + remainder_clause((q.len() - 2) as nat)
    }
}

/// The title: the total count of new links, singular for exactly one.
pub open spec fn title_of(total: u64) -> Seq<char> {
    if total == 1 {
        dec_str(total as nat) + " new link"@
    } else {
        dec_str(total as nat) + " new links"@
    }
}

/// A counter whose counts sum to anything positive has an entry with a
/// positive count.
proof fn lemma_positive_sum_has_positive_entry(c: Seq<(Seq<char>, u64)>)
    requires
        sum_counts(counter_entries_int(c)) > 0,
    ensures
        exists|i: int| 0 <= i < c.len() && (#[trigger] c[i]).1 > 0,
    decreases c.len(),
{
    let cint = counter_entries_int(c);
    assert(cint.len() > 0);
    if c.last().1 > 0 {
        assert(c[c.len() - 1].1 > 0);
    } else {
        assert(cint.drop_last() =~= counter_entries_int(c.drop_last()));
        assert(cint.last().1 == c.last().1 as int);
        lemma_positive_sum_has_positive_entry(c.drop_last());
        let i = choose|i: int| 0 <= i < c.drop_last().len() && (#[trigger] c.drop_last()[i]).1
            > 0;
        assert(c[i].1 > 0);
    }
}

/// An entry with a positive count qualifies, so the qualifying list is
/// not empty.
proof fn lemma_positive_entry_qualifies(c: Seq<(Seq<char>, u64)>, i: int)
    requires
        0 <= i < c.len(),
        c[i].1 > 0,
    ensures
        qualifying(c).len() > 0,
    decreases c.len(),
{
    if i < c.len() - 1 {
        assert(c.drop_last()[i] == c[i]);
        lemma_positive_entry_qualifies(c.drop_last(), i);
    }
}

/// A run that found new links never goes unannounced: where the counts
/// sum to anything positive, the composed message is not empty.
pub proof fn lemma_message_speaks_when_new(c: Seq<(Seq<char>, u64)>)
    requires
        sum_counts(counter_entries_int(c)) > 0,
    ensures
        message_of(c).len() > 0,
{
    lemma_positive_sum_has_positive_entry(c);
    let i = choose|i: int| 0 <= i < c.len() && (#[trigger] c[i]).1 > 0;
    lemma_positive_entry_qualifies(c, i);
    let q = qualifying(c);
    reveal_strlit(".");
    reveal_strlit(" other pages.");
    if q.len() >= 4 {
        assert(" other pages."@.len() == 13);
    } else {
        assert("."@.len() == 1);
    }
}

/// A notification is owed exactly when the run found new links and a
/// notifier is configured.
pub fn should_notify(stats: &CollectionStats, has_notifier: bool) -> (r: bool)
    ensures
        r == (stats.n_new_links > 0 && has_notifier),
{
    stats.n_new_links > 0 && has_notifier
}

/// Appends the clause for one page to the message being built.
fn push_clause(s: &mut String, name: &String, n: u64)
    ensures
        final(s)@ == old(s)@ + clause((name@, n)),
{
    let numeral = u64_to_dec(n);
    s.append(numeral.as_str());
    s.append(" for ");
    s.append(name.as_str());
    proof {
        assert(s@ =~= old(s)@ + clause((name@, n)));
    }
}

/// Composes the summary message for the per-page counter. The result is
/// the empty string exactly when no page has new links.
pub fn compose_message(counter: &Counter) -> (m: String)
    ensures
        m@ == message_of(counter@),
{
    let ghost cv = counter@;
    let mut names: Vec<String> = Vec::new();
    let mut counts: Vec<u64> = Vec::new();
    let mut i: usize = 0;
    while i < counter.len()
        invariant
            0 <= i <= cv.len(),
            cv == counter@,
            names@.len() == counts@.len(),
            qualifying(cv.subrange(0, i as int)) =~= Seq::new(
                names@.len(),
                |k: int| (names@[k]@, counts@[k]),
            ),
        decreases cv.len() - i,
    {
        let (name, n) = counter.entry_at(i);
        if n > 0 {
            names.push(name);
            counts.push(n);
        }
        proof {
            assert(cv.subrange(0, i + 1).drop_last() =~= cv.subrange(0, i as int));
            assert(cv.subrange(0, i + 1).last() == cv[i as int]);
            assert(qualifying(cv.subrange(0, i + 1)) =~= Seq::new(
                names@.len(),
                |k: int| (names@[k]@, counts@[k]),
            ));
        }
        i = i + 1;
    }
    proof {
        assert(cv.subrange(0, cv.len() as int) =~= cv);
    }
    let ghost q = qualifying(cv);
    let mut m = String::new();
    if names.len() == 0 {
        proof {
            assert(m@ =~= message_of(cv));
        }
        m
    } else if names.len() == 1 {
        push_clause(&mut m, &names[0], counts[0]);
        m.append(".");
        proof {
            assert(q[0] == (names@[0]@, counts@[0]));
            assert(m@ =~= message_of(cv));
        }
        m
    } else if names.len() == 2 {
        push_clause(&mut m, &names[0], counts[0]);
        m.append(" and ");
        push_clause(&mut m, &names[1], counts[1]);
        m.append(".");
        proof {
            assert(q[0] == (names@[0]@, counts@[0]));
            assert(q[1] == (names@[1]@, counts@[1]));
            assert(m@ =~= message_of(cv));
        }
        m
    } else if names.len() == 3 {
        push_clause(&mut m, &names[0], counts[0]);
        m.append(", ");
        push_clause(&mut m, &names[1], counts[1]);
        m.append(", and ");
        push_clause(&mut m, &names[2], counts[2]);
        m.append(".");
        proof {
            assert(q[0] == (names@[0]@, counts@[0]));
            assert(q[1] == (names@[1]@, counts@[1]));
            assert(q[2] == (names@[2]@, counts@[2]));
            assert(m@ =~= message_of(cv));
        }
        m
    } else {
        push_clause(&mut m, &names[0], counts[0]);
        m.append(", ");
        push_clause(&mut m, &names[1], counts[1]);
        m.append(", ");
        m.append("and some more for ");
        let k = u64_to_dec((names.len() - 2) as u64);
        m.append(k.as_str());
        m.append(" other pages.");
        proof {
            assert(q[0] == (names@[0]@, counts@[0]));
            assert(q[1] == (names@[1]@, counts@[1]));
            assert(q.len() == names@.len());
            assert(m@ =~= message_of(cv));
        }
        m
    }
}

/// Composes the notification title for a run total.
pub fn compose_title(stats: &CollectionStats) -> (t: String)
    ensures
        t@ == title_of(stats.n_new_links),
{
    let mut t = u64_to_dec(stats.n_new_links);
    if stats.n_new_links == 1 {
        t.append(" new link");
    } else {
        t.append(" new links");
    }
    t
}

} // verus!
