//! Aggregate counts for a collection run, and their fold.
//!
//! Per-page results are combined by pointwise addition, with the all-zero
//! value as the unit. The fold of any list of well-formed per-page counts
//! keeps the count of new links below the count of links seen.

use vstd::prelude::*;

verus! {

/// Counts produced by one page worker or by a whole run: pages visited,
/// links seen, and links seen for the first time ever.
#[derive(Debug, Clone, Copy, PartialEq, Eq, Structural)]
pub struct CollectionStats {
    pub n_pages: u64,
    pub n_links: u64,
    pub n_new_links: u64,
}

impl CollectionStats {
    /// A well-formed count never reports more new links than links seen.
    pub open spec fn wf(self) -> bool {
        self.n_new_links <= self.n_links
    }

    /// The unit of the fold: all counts zero.
    pub fn zero() -> (r: Self)
        ensures
            r.n_pages == 0,
            r.n_links == 0,
            r.n_new_links == 0,
    {
        CollectionStats { n_pages: 0, n_links: 0, n_new_links: 0 }
    }

    /// Pointwise addition, refusing to wrap on overflow.
    pub fn checked_plus(self, other: Self) -> (r: Option<Self>)
        ensures
            r matches Some(t) ==> {
                &&& t.n_pages == self.n_pages + other.n_pages
                &&& t.n_links == self.n_links + other.n_links
                &&& t.n_new_links == self.n_new_links + other.n_new_links
            },
            r is None ==> self.n_pages + other.n_pages > u64::MAX
                || self.n_links + other.n_links > u64::MAX
                || self.n_new_links + other.n_new_links > u64::MAX,
    {
        let n_pages = self.n_pages.checked_add(other.n_pages)?;
        let n_links = self.n_links.checked_add(other.n_links)?;
        let n_new_links = self.n_new_links.checked_add(other.n_new_links)?;
        Some(CollectionStats { n_pages, n_links, n_new_links })
    }
}

impl Default for CollectionStats {
    /// The default value is the unit of the fold.
    fn default() -> (r: Self)
        ensures
            r.n_pages == 0,
            r.n_links == 0,
            r.n_new_links == 0,
    {
        CollectionStats { n_pages: 0, n_links: 0, n_new_links: 0 }
    }
}

/// The sum of the page counts of a list of per-page results.
pub open spec fn sum_pages(s: Seq<CollectionStats>) -> int
    decreases s.len(),
{
    if s.len() == 0 {
        0
    } else {
        sum_pages(s.drop_last()) + s.last().n_pages
    }
}

/// The sum of the link counts of a list of per-page results.
pub open spec fn sum_links(s: Seq<CollectionStats>) -> int
    decreases s.len(),
{
    if s.len() == 0 {
        0
    } else {
        sum_links(s.drop_last()) + s.last().n_links
    }
}

/// The sum of the new-link counts of a list of per-page results.
pub open spec fn sum_new_links(s: Seq<CollectionStats>) -> int
    decreases s.len(),
{
    if s.len() == 0 {
        0
    } else {
        sum_new_links(s.drop_last()) + s.last().n_new_links
    }
}

/// Each of the three sums grows by the pushed element.
pub proof fn lemma_sums_push(s: Seq<CollectionStats>, x: CollectionStats)
    ensures
        sum_pages(s.push(x)) == sum_pages(s) + x.n_pages,
        sum_links(s.push(x)) == sum_links(s) + x.n_links,
        sum_new_links(s.push(x)) == sum_new_links(s) + x.n_new_links,
{
    assert(s.push(x).drop_last() =~= s);
}

/// Every prefix of the fold sums to no more than the whole: the summands
/// are counts, never negative.
pub proof fn lemma_sums_prefix_le(s: Seq<CollectionStats>, i: int)
    requires
        0 <= i <= s.len(),
    ensures
        sum_pages(s.subrange(0, i)) <= sum_pages(s),
        sum_links(s.subrange(0, i)) <= sum_links(s),
        sum_new_links(s.subrange(0, i)) <= sum_new_links(s),
    decreases s.len() - i,
{
    if i == s.len() {
        assert(s.subrange(0, i) =~= s);
    } else {
        lemma_sums_prefix_le(s, i + 1);
        assert(s.subrange(0, i + 1).drop_last() =~= s.subrange(0, i));
        assert(sum_pages(s.subrange(0, i + 1)) == sum_pages(s.subrange(0, i))
            + s.subrange(0, i + 1).last().n_pages);
    }
}

/// Folding well-formed per-page counts keeps new links bounded by links:
/// the bound is preserved by pointwise addition from the all-zero unit.
pub proof fn lemma_fold_keeps_bound(s: Seq<CollectionStats>)
    requires
        forall|i: int| 0 <= i < s.len() ==> (#[trigger] s[i]).wf(),
    ensures
        sum_new_links(s) <= sum_links(s),
    decreases s.len(),
{
    if s.len() > 0 {
        assert(s.last().wf());
        lemma_fold_keeps_bound(s.drop_last());
    }
}

/// Folds a list of per-page counts by pointwise addition, starting from the
/// all-zero unit. Returns the exact three sums, or `None` where one of them
/// does not fit in the counter width.
pub fn fold_stats(per_page: &Vec<CollectionStats>) -> (r: Option<CollectionStats>)
    ensures
        r matches Some(t) ==> {
            &&& t.n_pages == sum_pages(per_page@)
            &&& t.n_links == sum_links(per_page@)
            &&& t.n_new_links == sum_new_links(per_page@)
        },
        r is None ==> sum_pages(per_page@) > u64::MAX
            || sum_links(per_page@) > u64::MAX
            || sum_new_links(per_page@) > u64::MAX,
{
    let mut total = CollectionStats::zero();
    let mut i: usize = 0;
    while i < per_page.len()
        invariant
            0 <= i <= per_page.len(),
            total.n_pages == sum_pages(per_page@.subrange(0, i as int)),
            total.n_links == sum_links(per_page@.subrange(0, i as int)),
            total.n_new_links == sum_new_links(per_page@.subrange(0, i as int)),
        decreases per_page.len() - i,
    {
        proof {
            assert(per_page@.subrange(0, i as int).push(per_page@[i as int])
                =~= per_page@.subrange(0, i + 1));
            lemma_sums_push(per_page@.subrange(0, i as int), per_page@[i as int]);
        }
        match total.checked_plus(per_page[i]) {
            Some(t) => {
                total = t;
            },
            None => {
                proof {
                    lemma_sums_prefix_le(per_page@, i + 1);
                }
                return None;
            },
        }
        i = i + 1;
    }
    proof {
        assert(per_page@.subrange(0, per_page@.len() as int) =~= per_page@);
    }
    Some(total)
}

} // verus!
