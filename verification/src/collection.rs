//! The per-run orchestrator.
//!
//! A run opens a run row, works through the pages in input order, and
//! closes the row with the folded totals. Each page's links are checked
//! against the store strictly before they are inserted, so the new-link
//! count reflects first-ever sighting; every observed link, new or not,
//! has one sighting recorded for the run. A failed page aborts the run
//! and the run row stays open, an operational signal; nothing already
//! persisted is rolled back.

use vstd::prelude::*;

use vstd::multiset::Multiset;

use crate::counter::Counter;
use crate::counter::accum;
use crate::counter::counter_entries_int;
use crate::counter::first_names;
use crate::counter::has_name;
use crate::counter::lemma_accum_names;
use crate::counter::lemma_accum_sum;
use crate::counter::find_name;
use crate::counter::lemma_find_name;
use crate::counter::lemma_first_names_contains;
use crate::counter::lemma_has_name_names;
use crate::counter::names_of;
use crate::counter::sum_counts;
use crate::database::Database;
use crate::database::StoreError;
use crate::database::get_or_create_post;
use crate::database::injective_ids;
use crate::page::Link;
use crate::page::Page;
use crate::page::spec_extract_key;
use crate::retry::FetchError;
use crate::stats::CollectionStats;
use crate::stats::fold_stats;
use crate::stats::lemma_fold_keeps_bound;
use crate::stats::lemma_sums_push;
use crate::stats::sum_links;
use crate::stats::sum_new_links;
use crate::stats::sum_pages;

verus! {

/// The (href, text) views of a list of links.
pub open spec fn link_views(ls: Seq<Link>) -> Seq<(Seq<char>, Seq<char>)> {
    ls.map(|i: int, l: Link| (l.href@, l.text@))
}

/// The store key of a link on a page.
pub open spec fn lkey(pid: i64, lv: (Seq<char>, Seq<char>)) -> (i64, Seq<char>, Seq<char>) {
    (pid, lv.0, lv.1)
}

/// The store keys of a list of links on one page.
pub open spec fn keys_of(pid: i64, ls: Seq<(Seq<char>, Seq<char>)>) -> Set<
    (i64, Seq<char>, Seq<char>),
>
    decreases ls.len(),
{
    if ls.len() == 0 {
        Set::empty()
    } else {
        keys_of(pid, ls.drop_last()).insert(lkey(pid, ls.last()))
    }
}

/// A key belongs to a page's link list exactly where some link of the
/// list carries it.
pub proof fn lemma_keys_of_member(pid: i64, ls: Seq<(Seq<char>, Seq<char>)>, k: (
    i64,
    Seq<char>,
    Seq<char>,
))
    ensures
        keys_of(pid, ls).contains(k) <==> exists|j: int|
            0 <= j < ls.len() && k == lkey(pid, ls[j]),
    decreases ls.len(),
{
    if ls.len() > 0 {
        lemma_keys_of_member(pid, ls.drop_last(), k);
        if keys_of(pid, ls).contains(k) {
            if k == lkey(pid, ls.last()) {
                assert(k == lkey(pid, ls[ls.len() - 1]));
            } else {
                let j = choose|j: int| 0 <= j < ls.drop_last().len() && k == lkey(
                    pid,
                    ls.drop_last()[j],
                );
                assert(k == lkey(pid, ls[j]));
            }
        }
        if exists|j: int| 0 <= j < ls.len() && k == lkey(pid, ls[j]) {
            let j = choose|j: int| 0 <= j < ls.len() && k == lkey(pid, ls[j]);
            if j < ls.len() - 1 {
                assert(k == lkey(pid, ls.drop_last()[j]));
            }
        }
    }
}

/// Every key of a prefix of the list is a key of the whole list.
proof fn lemma_keys_of_prefix(pid: i64, ls: Seq<(Seq<char>, Seq<char>)>, n: int)
    requires
        0 <= n <= ls.len(),
    ensures
        forall|k: (i64, Seq<char>, Seq<char>)|
            #[trigger] keys_of(pid, ls.subrange(0, n)).contains(k) ==> keys_of(pid, ls).contains(
                k,
            ),
{
    assert forall|k: (i64, Seq<char>, Seq<char>)|
        #[trigger] keys_of(pid, ls.subrange(0, n)).contains(k) implies keys_of(pid, ls).contains(
        k,
    ) by {
        lemma_keys_of_member(pid, ls.subrange(0, n), k);
        lemma_keys_of_member(pid, ls, k);
        let j = choose|j: int|
            0 <= j < ls.subrange(0, n).len() && k == lkey(pid, ls.subrange(0, n)[j]);
        assert(ls.subrange(0, n)[j] == ls[j]);
    }
}

/// How many of the links are new against the store: an (href, text) pair
/// counts once, at its first position, and only where the store did not
/// already hold its key when the run reached the page.
pub open spec fn count_new(
    dom0: Set<(i64, Seq<char>, Seq<char>)>,
    pid: i64,
    ls: Seq<(Seq<char>, Seq<char>)>,
) -> int
    decreases ls.len(),
{
    if ls.len() == 0 {
        0
    } else {
        count_new(dom0, pid, ls.drop_last()) + if dom0.union(
            keys_of(pid, ls.drop_last()),
        ).contains(lkey(pid, ls.last())) {
            0int
        } else {
            1int
        }
    }
}

/// The sightings one page's links produce in a run: each link's id under
/// the links table it was recorded against, paired with the run.
pub open spec fn sightings_of(
    m: Map<(i64, Seq<char>, Seq<char>), i64>,
    pid: i64,
    cid: i64,
    ls: Seq<(Seq<char>, Seq<char>)>,
) -> Multiset<(i64, i64)>
    decreases ls.len(),
{
    if ls.len() == 0 {
        Multiset::empty()
    } else {
        sightings_of(m, pid, cid, ls.drop_last()).insert((m[lkey(pid, ls.last())], cid))
    }
}

/// A page's sightings read the same off any larger table that still
/// holds every key of the list.
pub proof fn lemma_sightings_stable(
    m1: Map<(i64, Seq<char>, Seq<char>), i64>,
    m2: Map<(i64, Seq<char>, Seq<char>), i64>,
    pid: i64,
    cid: i64,
    ls: Seq<(Seq<char>, Seq<char>)>,
)
    requires
        m1.submap_of(m2),
        forall|j: int| 0 <= j < ls.len() ==> m1.contains_key(lkey(pid, #[trigger] ls[j])),
    ensures
        sightings_of(m1, pid, cid, ls) == sightings_of(m2, pid, cid, ls),
    decreases ls.len(),
{
    if ls.len() > 0 {
        assert(forall|j: int|
            0 <= j < ls.drop_last().len() ==> #[trigger] ls.drop_last()[j] == ls[j]);
        lemma_sightings_stable(m1, m2, pid, cid, ls.drop_last());
        let k = lkey(pid, ls[ls.len() - 1]);
        assert(m1.contains_key(k));
        assert(m1.dom().contains(k) && m2.dom().contains(k) && m2[k] == m1[k]) by {
            assert(m1.dom().contains(k));
        }
    }
}

/// Nothing already in a sighting log leaves it when more is added.
proof fn lemma_subset_of_add(s: Multiset<(i64, i64)>, x: Multiset<(i64, i64)>)
    ensures
        s.subset_of(s.add(x)),
{
    assert forall|e: (i64, i64)| s.count(e) <= s.add(x).count(e) by {
        assert(s.add(x).count(e) == s.count(e) + x.count(e));
    }
}

/// A submap of a submap is a submap.
proof fn lemma_submap_trans<K, V>(m1: Map<K, V>, m2: Map<K, V>, m3: Map<K, V>)
    requires
        m1.submap_of(m2),
        m2.submap_of(m3),
    ensures
        m1.submap_of(m3),
{
    assert forall|k: K| #[trigger] m1.dom().contains(k) implies m3.dom().contains(k) && m1[k]
        == m3[k] by {
        assert(m2.dom().contains(k));
        assert(m3.dom().contains(k));
    }
}

/// Multiset containment is transitive.
proof fn lemma_multiset_subset_trans(s1: Multiset<(i64, i64)>, s2: Multiset<(i64, i64)>, s3: Multiset<(i64, i64)>)
    requires
        s1.subset_of(s2),
        s2.subset_of(s3),
    ensures
        s1.subset_of(s3),
{
    assert forall|e: (i64, i64)| s1.count(e) <= s3.count(e) by {
        assert(s1.count(e) <= s2.count(e));
        assert(s2.count(e) <= s3.count(e));
    }
}

/// Collects one page against the store: for each link in extraction
/// order, test whether its triple is already known, insert it if not,
/// and record one sighting for the run. Returns that page's counts.
pub fn collect_page(db: &mut Database, page_id: i64, collection_id: i64, links: &Vec<Link>) -> (r:
    Result<CollectionStats, StoreError>)
    ensures
        r matches Ok(stats) ==> {
            &&& stats.n_pages == 1
            &&& stats.n_links == links@.len()
            &&& stats.n_new_links == count_new(
                old(db).links().dom(),
                page_id,
                link_views(links@),
            )
            &&& stats.wf()
            &&& old(db).links().submap_of(final(db).links())
            &&& final(db).links().dom() == old(db).links().dom().union(
                keys_of(page_id, link_views(links@)),
            )
            &&& (injective_ids(old(db).links()) ==> injective_ids(final(db).links()))
            &&& final(db).sightings() == old(db).sightings().add(
                sightings_of(final(db).links(), page_id, collection_id, link_views(links@)),
            )
            &&& final(db).pages() == old(db).pages()
            &&& final(db).collections() == old(db).collections()
        },
        r is Err ==> {
            &&& old(db).links().submap_of(final(db).links())
            &&& forall|k: (i64, Seq<char>, Seq<char>)|
                #[trigger] final(db).links().contains_key(k) ==> old(
                    db,
                ).links().contains_key(k) || keys_of(page_id, link_views(links@)).contains(k)
            &&& old(db).sightings().subset_of(final(db).sightings())
            &&& final(db).pages() == old(db).pages()
            &&& final(db).collections() == old(db).collections()
        },
{
    let ghost m0 = db.links();
    let ghost dom0 = db.links().dom();
    let ghost s0 = db.sightings();
    let ghost p0 = db.pages();
    let ghost c0 = db.collections();
    let ghost lv = link_views(links@);
    let mut n_links: u64 = 0;
    let mut n_new_links: u64 = 0;
    let mut i: usize = 0;
    proof {
        assert(lv.subrange(0, 0) =~= Seq::<(Seq<char>, Seq<char>)>::empty());
        assert(db.links().dom() =~= dom0.union(keys_of(page_id, lv.subrange(0, 0))));
        assert(db.sightings() =~= s0.add(
            sightings_of(db.links(), page_id, collection_id, lv.subrange(0, 0)),
        ));
    }
    while i < links.len()
        invariant
            0 <= i <= links@.len(),
            lv == link_views(links@),
            lv.len() == links@.len(),
            n_links == i,
            n_new_links <= i,
            m0 == old(db).links(),
            dom0 == m0.dom(),
            s0 == old(db).sightings(),
            p0 == old(db).pages(),
            c0 == old(db).collections(),
            db.pages() == p0,
            db.collections() == c0,
            m0.submap_of(db.links()),
            db.links().dom() == dom0.union(keys_of(page_id, lv.subrange(0, i as int))),
            n_new_links == count_new(dom0, page_id, lv.subrange(0, i as int)),
            injective_ids(m0) ==> injective_ids(db.links()),
            db.sightings() == s0.add(
                sightings_of(db.links(), page_id, collection_id, lv.subrange(0, i as int)),
            ),
            forall|j: int|
                0 <= j < i ==> db.links().contains_key(lkey(page_id, #[trigger] lv[j])),
        decreases links@.len() - i,
    {
        let link = &links[i];
        let ghost key = lkey(page_id, lv[i as int]);
        proof {
            assert(lv[i as int] == (links@[i as int].href@, links@[i as int].text@));
        }
        let known = match db.link_exists(page_id, link.href.as_str(), link.text.as_str()) {
            Ok(b) => b,
            Err(e) => {
                proof {
                    lemma_subset_of_add(
                        s0,
                        sightings_of(db.links(), page_id, collection_id, lv.subrange(0, i as int)),
                    );
                    lemma_keys_of_prefix(page_id, lv, i as int);
                    assert forall|k: (i64, Seq<char>, Seq<char>)|
                        #[trigger] db.links().contains_key(k) implies m0.contains_key(k)
                        || keys_of(page_id, lv).contains(k) by {
                        if !m0.contains_key(k) {
                            assert(keys_of(page_id, lv.subrange(0, i as int)).contains(k));
                        }
                    }
                }
                return Err(e);
            },
        };
        if !known {
            n_new_links = n_new_links + 1;
        }
        let ghost m_before = db.links();
        let link_id = match db.add_link(page_id, link.href.as_str(), link.text.as_str()) {
            Ok(id) => id,
            Err(e) => {
                proof {
                    assert forall|k: (i64, Seq<char>, Seq<char>)| #[trigger]
                        m0.dom().contains(k) implies db.links().dom().contains(k) && m0[k]
                        == db.links()[k] by {
                        assert(m_before.dom().contains(k));
                        assert(db.links().dom().contains(k));
                    }
                    assert(m0.submap_of(db.links()));
                    lemma_subset_of_add(
                        s0,
                        sightings_of(m_before, page_id, collection_id, lv.subrange(0, i as int)),
                    );
                    lemma_keys_of_prefix(page_id, lv, i as int);
                    assert(0 <= i < lv.len() && key == lkey(page_id, lv[i as int]));
                    lemma_keys_of_member(page_id, lv, key);
                    assert forall|k: (i64, Seq<char>, Seq<char>)|
                        #[trigger] db.links().contains_key(k) implies m0.contains_key(k)
                        || keys_of(page_id, lv).contains(k) by {
                        if !m0.contains_key(k) && k != key {
                            assert(m_before.contains_key(k));
                            assert(keys_of(page_id, lv.subrange(0, i as int)).contains(k));
                        }
                    }
                }
                return Err(e);
            },
        };
        proof {
            let pre = lv.subrange(0, i as int);
            assert(forall|j: int|
                0 <= j < pre.len() ==> m_before.contains_key(lkey(page_id, #[trigger] pre[j])));
            assert(m_before.submap_of(db.links()));
            lemma_sightings_stable(m_before, db.links(), page_id, collection_id, pre);
            assert forall|k: (i64, Seq<char>, Seq<char>)| #[trigger]
                m0.dom().contains(k) implies db.links().dom().contains(k) && m0[k]
                == db.links()[k] by {
                assert(m_before.dom().contains(k));
                assert(db.links().dom().contains(k));
            }
            assert(m0.submap_of(db.links()));
            if injective_ids(m0) && !m_before.contains_key(key) {
                crate::database::lemma_insert_fresh_keeps_injective(m_before, key, link_id);
            }
        }
        let ghost m_linked = db.links();
        match db.add_link_collection(link_id, collection_id) {
            Ok(()) => {},
            Err(e) => {
                proof {
                    lemma_subset_of_add(
                        s0,
                        sightings_of(m_linked, page_id, collection_id, lv.subrange(0, i as int)),
                    );
                    lemma_keys_of_prefix(page_id, lv, i as int);
                    assert(0 <= i < lv.len() && key == lkey(page_id, lv[i as int]));
                    lemma_keys_of_member(page_id, lv, key);
                    assert forall|k: (i64, Seq<char>, Seq<char>)|
                        #[trigger] db.links().contains_key(k) implies m0.contains_key(k)
                        || keys_of(page_id, lv).contains(k) by {
                        if !m0.contains_key(k) && k != key {
                            assert(m_before.contains_key(k));
                            assert(keys_of(page_id, lv.subrange(0, i as int)).contains(k));
                        }
                    }
                }
                return Err(e);
            },
        }
        proof {
            let pre = lv.subrange(0, i as int);
            let cur = lv.subrange(0, i + 1);
            assert(cur.drop_last() =~= pre);
            assert(cur.last() == lv[i as int]);
            assert(db.links() == m_linked);
            assert(db.links().dom() =~= dom0.union(keys_of(page_id, cur)));
            assert(db.links()[key] == link_id);
            assert(sightings_of(db.links(), page_id, collection_id, cur) == sightings_of(
                db.links(),
                page_id,
                collection_id,
                pre,
            ).insert((link_id, collection_id)));
            assert(db.sightings() =~= s0.add(
                sightings_of(db.links(), page_id, collection_id, cur),
            ));
            assert(known == dom0.union(keys_of(page_id, pre)).contains(key));
            assert(n_new_links == count_new(dom0, page_id, cur));
        }
        n_links = n_links + 1;
        i = i + 1;
    }
    proof {
        assert(lv.subrange(0, links@.len() as int) =~= lv);
    }
    Ok(CollectionStats { n_pages: 1, n_links, n_new_links })
}

/// What fetching and extracting one page produced, as handed to the run.
#[derive(Debug)]
pub enum PageOutcome {
    /// The page's links, in extraction order.
    Links(Vec<Link>),
    /// The fetch gave up, or was cancelled.
    FetchFailed(FetchError),
    /// The markup came back but the extraction strategy failed on it.
    ExtractFailed,
}

/// Why a run aborted. An aborted run never closes its run row.
#[derive(Debug)]
pub enum RunError {
    /// A store operation failed; the failing page's error aborts the run.
    Store(StoreError),
    /// A page's fetch failed for good.
    Fetch(FetchError),
    /// A page's fetch observed the cancellation signal.
    Cancelled,
    /// A page's extraction failed.
    Extraction,
    /// The run's totals would not fit the store's counters.
    Overflow,
}

/// A completed run: the folded totals and the per-page counter map, in
/// input page order.
#[derive(Debug)]
pub struct Collection {
    pub stats: CollectionStats,
    pub counter: Counter,
}

/// The store key of a page: its URL and its serialized extraction spec.
pub open spec fn page_key(p: Page) -> (Seq<char>, Seq<char>) {
    (p.url@, spec_extract_key(p.extract))
}

/// The page keys of the run's inputs.
pub open spec fn input_page_keys(inputs: Seq<(Page, PageOutcome)>) -> Set<(Seq<char>, Seq<char>)>
    decreases inputs.len(),
{
    if inputs.len() == 0 {
        Set::empty()
    } else {
        input_page_keys(inputs.drop_last()).insert(page_key(inputs.last().0))
    }
}

/// The page names of the run's inputs, in input order.
pub open spec fn input_names(inputs: Seq<(Page, PageOutcome)>) -> Seq<Seq<char>> {
    inputs.map(|i: int, p: (Page, PageOutcome)| p.0.name@)
}

/// Whether every page's fetch and extraction succeeded.
pub open spec fn all_fetched(inputs: Seq<(Page, PageOutcome)>) -> bool {
    forall|j: int| 0 <= j < inputs.len() ==> (#[trigger] inputs[j]).1 is Links
}

/// The total count of links over all fetched pages.
pub open spec fn total_input_links(inputs: Seq<(Page, PageOutcome)>) -> int
    decreases inputs.len(),
{
    if inputs.len() == 0 {
        0
    } else {
        total_input_links(inputs.drop_last()) + match inputs.last().1 {
            PageOutcome::Links(ls) => ls.len() as int,
            PageOutcome::FetchFailed(_) => 0,
            PageOutcome::ExtractFailed => 0,
        }
    }
}

/// The links a page outcome carries: none unless the fetch succeeded.
pub open spec fn outcome_links(o: PageOutcome) -> Seq<Link> {
    match o {
        PageOutcome::Links(ls) => ls@,
        PageOutcome::FetchFailed(_) => Seq::empty(),
        PageOutcome::ExtractFailed => Seq::empty(),
    }
}

/// Whether some fetched page carries a link with this (href, text) pair.
pub open spec fn input_has_link(inputs: Seq<(Page, PageOutcome)>, t: (Seq<char>, Seq<char>))
    -> bool {
    exists|j: int, l: int|
        0 <= j < inputs.len() && 0 <= l < outcome_links(inputs[j].1).len() && ((#[trigger]
        outcome_links(inputs[j].1)[l]).href@, outcome_links(inputs[j].1)[l].text@) == t
}

/// The counter as primed for the run: every input page name, in input
/// order, with a zero count.
pub open spec fn zeros_counter(names: Seq<Seq<char>>) -> Seq<(Seq<char>, int)>
    decreases names.len(),
{
    if names.len() == 0 {
        Seq::empty()
    } else {
        accum(zeros_counter(names.drop_last()), names.last(), 0)
    }
}

/// The links-table domain once the first `n` pages of the run have been
/// collected, page ids read off `pm`, the pages table as the run leaves
/// it (a page's id is assigned when the run reaches it and never changes
/// after).
pub open spec fn run_links_dom(
    dom0: Set<(i64, Seq<char>, Seq<char>)>,
    pm: Map<(Seq<char>, Seq<char>), i64>,
    inputs: Seq<(Page, PageOutcome)>,
    n: int,
) -> Set<(i64, Seq<char>, Seq<char>)>
    decreases n,
{
    if n <= 0 {
        dom0
    } else {
        run_links_dom(dom0, pm, inputs, n - 1).union(
            keys_of(
                pm[page_key(inputs[n - 1].0)],
                link_views(outcome_links(inputs[n - 1].1)),
            ),
        )
    }
}

/// Page `i`'s novelty count in the run: how many of its links were
/// first-ever sightings when the run reached it.
pub open spec fn run_page_new(
    dom0: Set<(i64, Seq<char>, Seq<char>)>,
    pm: Map<(Seq<char>, Seq<char>), i64>,
    inputs: Seq<(Page, PageOutcome)>,
    i: int,
) -> int {
    count_new(
        run_links_dom(dom0, pm, inputs, i),
        pm[page_key(inputs[i].0)],
        link_views(outcome_links(inputs[i].1)),
    )
}

/// The run's total novelty: the sum of the first `n` pages' counts.
pub open spec fn run_new_total(
    dom0: Set<(i64, Seq<char>, Seq<char>)>,
    pm: Map<(Seq<char>, Seq<char>), i64>,
    inputs: Seq<(Page, PageOutcome)>,
    n: int,
) -> int
    decreases n,
{
    if n <= 0 {
        0
    } else {
        run_new_total(dom0, pm, inputs, n - 1) + run_page_new(dom0, pm, inputs, n - 1)
    }
}

/// The per-page counter the run produces: primed with zeros for every
/// input name, then each page's novelty count accumulated under its
/// name, in input order.
pub open spec fn run_counter(
    dom0: Set<(i64, Seq<char>, Seq<char>)>,
    pm: Map<(Seq<char>, Seq<char>), i64>,
    inputs: Seq<(Page, PageOutcome)>,
    n: int,
) -> Seq<(Seq<char>, int)>
    decreases n,
{
    if n <= 0 {
        zeros_counter(input_names(inputs))
    } else {
        accum(
            run_counter(dom0, pm, inputs, n - 1),
            inputs[n - 1].0.name@,
            run_page_new(dom0, pm, inputs, n - 1),
        )
    }
}

/// The run's bookkeeping reads the pages table only at the processed
/// pages' keys, so any pages table that agrees there reads the same.
proof fn lemma_run_specs_stable(
    dom0: Set<(i64, Seq<char>, Seq<char>)>,
    pm1: Map<(Seq<char>, Seq<char>), i64>,
    pm2: Map<(Seq<char>, Seq<char>), i64>,
    inputs: Seq<(Page, PageOutcome)>,
    n: int,
)
    requires
        0 <= n <= inputs.len(),
        forall|j: int|
            0 <= j < n ==> pm2[page_key((#[trigger] inputs[j]).0)] == pm1[page_key(inputs[j].0)],
    ensures
        run_links_dom(dom0, pm2, inputs, n) == run_links_dom(dom0, pm1, inputs, n),
        run_new_total(dom0, pm2, inputs, n) == run_new_total(dom0, pm1, inputs, n),
        run_counter(dom0, pm2, inputs, n) == run_counter(dom0, pm1, inputs, n),
        forall|i: int|
            0 <= i < n ==> #[trigger] run_page_new(dom0, pm2, inputs, i) == run_page_new(
                dom0,
                pm1,
                inputs,
                i,
            ),
    decreases n,
{
    if n > 0 {
        lemma_run_specs_stable(dom0, pm1, pm2, inputs, n - 1);
        assert(pm2[page_key(inputs[n - 1].0)] == pm1[page_key(inputs[n - 1].0)]);
        assert(run_page_new(dom0, pm2, inputs, n - 1) == run_page_new(dom0, pm1, inputs, n - 1));
        assert forall|i: int|
            0 <= i < n implies #[trigger] run_page_new(dom0, pm2, inputs, i) == run_page_new(
            dom0,
            pm1,
            inputs,
            i,
        ) by {
            assert(i < n - 1 || i == n - 1);
        }
    }
}

/// A link key new to the links table after one page's collection names
/// one of that page's links, which the run's inputs carry.
proof fn link_new_key_has_input(
    m_before: Map<(i64, Seq<char>, Seq<char>), i64>,
    m_after: Map<(i64, Seq<char>, Seq<char>), i64>,
    pid: i64,
    lv: Seq<(Seq<char>, Seq<char>)>,
    inputs: Seq<(Page, PageOutcome)>,
    i: int,
    k: (i64, Seq<char>, Seq<char>),
)
    requires
        m_after.contains_key(k),
        !m_before.contains_key(k),
        keys_of(pid, lv).contains(k),
        0 <= i < inputs.len(),
        inputs[i].1 is Links,
        link_views(outcome_links(inputs[i].1)) == lv,
    ensures
        input_has_link(inputs, (k.1, k.2)),
{
    lemma_keys_of_member(pid, lv, k);
    let l = choose|l: int| 0 <= l < lv.len() && k == lkey(pid, lv[l]);
    let ls = outcome_links(inputs[i].1);
    assert(lv[l] == (ls[l].href@, ls[l].text@));
    assert((outcome_links(inputs[i].1)[l].href@, outcome_links(inputs[i].1)[l].text@) == (
        k.1,
        k.2,
    ));
}

impl Collection {
    /// Runs one collection over the store: opens a run row, collects every
    /// page in input order, folds the totals, fills the per-page counter in
    /// input order, and closes the row with the totals. The totals and the
    /// counter are pinned down: a function of the inputs, of the links
    /// already known when the run began, and of the page ids the run
    /// resolved. The first failing page aborts the run with its error; an
    /// aborted run leaves the run row open and keeps everything already
    /// persisted.
    pub fn try_new(db: &mut Database, inputs: &Vec<(Page, PageOutcome)>) -> (r: Result<
        Collection,
        RunError,
    >)
        ensures
            r matches Ok(c) ==> {
                &&& all_fetched(inputs@)
                &&& c.stats.wf()
                &&& c.stats.n_pages == inputs@.len()
                &&& c.stats.n_links == total_input_links(inputs@)
                &&& exists|cid: i64|
                    !old(db).collections().contains_key(cid) && final(db).collections() == old(
                        db,
                    ).collections().insert(
                        cid,
                        (true, c.stats.n_pages, c.stats.n_links, c.stats.n_new_links),
                    )
                &&& old(db).pages().submap_of(final(db).pages())
                &&& final(db).pages().dom() == old(db).pages().dom().union(
                    input_page_keys(inputs@),
                )
                &&& old(db).links().submap_of(final(db).links())
                &&& forall|k: (i64, Seq<char>, Seq<char>)|
                    #[trigger] final(db).links().contains_key(k) ==> old(
                        db,
                    ).links().contains_key(k) || input_has_link(inputs@, (k.1, k.2))
                &&& old(db).sightings().subset_of(final(db).sightings())
                &&& c.counter.wf()
                &&& names_of(counter_entries_int(c.counter@)) == first_names(input_names(inputs@))
                &&& sum_counts(counter_entries_int(c.counter@)) == c.stats.n_new_links
                &&& forall|j: int|
                    0 <= j < inputs@.len() ==> final(db).pages().contains_key(
                        page_key((#[trigger] inputs@[j]).0),
                    )
                &&& c.stats.n_new_links == run_new_total(
                    old(db).links().dom(),
                    final(db).pages(),
                    inputs@,
                    inputs@.len() as int,
                )
                &&& counter_entries_int(c.counter@) == run_counter(
                    old(db).links().dom(),
                    final(db).pages(),
                    inputs@,
                    inputs@.len() as int,
                )
            },
            r matches Err(e) ==> {
                &&& old(db).pages().submap_of(final(db).pages())
                &&& old(db).links().submap_of(final(db).links())
                &&& old(db).sightings().subset_of(final(db).sightings())
                &&& (final(db).collections() == old(db).collections() || exists|cid: i64|
                    !old(db).collections().contains_key(cid) && final(db).collections() == old(
                        db,
                    ).collections().insert(cid, (false, 0u64, 0u64, 0u64)))
                &&& (e is Cancelled ==> exists|j: int|
                    #![auto]
                    0 <= j < inputs@.len() && inputs@[j].1 == PageOutcome::FetchFailed(
                        FetchError::Cancelled,
                    ))
                &&& (e matches RunError::Fetch(f) ==> f != FetchError::Cancelled && exists|j: int|
                    #![auto]
                    0 <= j < inputs@.len() && inputs@[j].1 == PageOutcome::FetchFailed(f))
                &&& (e is Extraction ==> exists|j: int|
                    #![auto]
                    0 <= j < inputs@.len() && inputs@[j].1 is ExtractFailed)
                &&& (e is Overflow ==> inputs@.len() > i64::MAX || total_input_links(inputs@)
                    > i64::MAX)
            },
    {
        let ghost pages0 = db.pages();
        let ghost links0 = db.links();
        let ghost dom0 = db.links().dom();
        let ghost colls0 = db.collections();
        let ghost sight0 = db.sightings();
        let collection_id = match db.start_collection() {
            Ok(id) => id,
            Err(e) => {
                return Err(RunError::Store(e));
            },
        };
        let ghost cid = collection_id;

        // The counter first lists every page under its name, in input order,
        // with no new links yet.
        let mut counter = Counter::new();
        let mut i: usize = 0;
        proof {
            assert(input_names(inputs@).subrange(0, 0) =~= Seq::<Seq<char>>::empty());
            assert(names_of(counter_entries_int(counter@)) =~= first_names(
                input_names(inputs@).subrange(0, 0),
            ));
            assert(counter_entries_int(counter@) =~= zeros_counter(
                input_names(inputs@).subrange(0, 0),
            ));
        }
        while i < inputs.len()
            invariant
                0 <= i <= inputs@.len(),
                counter.wf(),
                names_of(counter_entries_int(counter@)) == first_names(
                    input_names(inputs@).subrange(0, i as int),
                ),
                sum_counts(counter_entries_int(counter@)) == 0,
                counter_entries_int(counter@) == zeros_counter(
                    input_names(inputs@).subrange(0, i as int),
                ),
                forall|k: int|
                    0 <= k < counter_entries_int(counter@).len() ==> (
                    #[trigger] counter_entries_int(counter@)[k]).1 == 0,
                db.pages() == pages0,
                db.links() == links0,
                db.sightings() == sight0,
                !colls0.contains_key(cid),
                db.collections() == colls0.insert(cid, (false, 0u64, 0u64, 0u64)),
                pages0 == old(db).pages(),
                links0 == old(db).links(),
                colls0 == old(db).collections(),
                sight0 == old(db).sightings(),
            decreases inputs@.len() - i,
        {
            let ghost c0 = counter_entries_int(counter@);
            let ghost name = inputs@[i as int].0.name@;
            match counter.add_count(&inputs[i].0.name, 0) {
                Some(_) => {
                    proof {
                        lemma_accum_names(c0, name, 0);
                        lemma_accum_sum(c0, name, 0);
                        let ns = input_names(inputs@);
                        assert(ns[i as int] == name);
                        assert(ns.subrange(0, i + 1).drop_last() =~= ns.subrange(0, i as int));
                        assert(ns.subrange(0, i + 1).last() == name);
                        let c1 = counter_entries_int(counter@);
                        assert(c1 == accum(c0, name, 0));
                        assert(zeros_counter(ns.subrange(0, i + 1)) == accum(
                            zeros_counter(ns.subrange(0, i as int)),
                            name,
                            0,
                        ));
                        assert forall|k: int| 0 <= k < c1.len() implies (#[trigger] c1[k]).1
                            == 0 by {
                            if has_name(c0, name) {
                                lemma_find_name(c0, name);
                                assert(c1 == c0.update(
                                    find_name(c0, name),
                                    (name, c0[find_name(c0, name)].1 + 0),
                                ));
                            }
                        }
                    }
                },
                None => {
                    proof {
                        lemma_find_name(c0, name);
                        assert(false);
                    }
                    return Err(RunError::Overflow);
                },
            }
            i = i + 1;
        }
        proof {
            assert(input_names(inputs@).subrange(0, inputs@.len() as int) =~= input_names(inputs@));
        }

        // One page at a time, in input order: resolve the page row, then run
        // the dedup loop over its links. The first failure aborts the run.
        let mut names_vec: Vec<String> = Vec::new();
        let mut stats_vec: Vec<CollectionStats> = Vec::new();
        let mut i: usize = 0;
        proof {
            assert(inputs@.subrange(0, 0) =~= Seq::<(Page, PageOutcome)>::empty());
            assert(db.pages().dom() =~= pages0.dom().union(input_page_keys(inputs@.subrange(0, 0))));
            assert(db.links().dom() == run_links_dom(dom0, db.pages(), inputs@, 0));
            assert(sum_new_links(stats_vec@) == run_new_total(dom0, db.pages(), inputs@, 0));
        }
        while i < inputs.len()
            invariant
                0 <= i <= inputs@.len(),
                names_vec@.len() == i,
                stats_vec@.len() == i,
                forall|j: int| 0 <= j < i ==> (#[trigger] inputs@[j]).1 is Links,
                forall|j: int| 0 <= j < i ==> (#[trigger] names_vec@[j])@ == inputs@[j].0.name@,
                forall|j: int|
                    0 <= j < i ==> (#[trigger] stats_vec@[j]).wf() && stats_vec@[j].n_pages == 1,
                sum_pages(stats_vec@) == i,
                sum_links(stats_vec@) == total_input_links(inputs@.subrange(0, i as int)),
                counter.wf(),
                names_of(counter_entries_int(counter@)) == first_names(input_names(inputs@)),
                sum_counts(counter_entries_int(counter@)) == 0,
                counter_entries_int(counter@) == zeros_counter(input_names(inputs@)),
                forall|k: int|
                    0 <= k < counter_entries_int(counter@).len() ==> (
                    #[trigger] counter_entries_int(counter@)[k]).1 == 0,
                forall|j: int|
                    0 <= j < i ==> db.pages().contains_key(
                        page_key((#[trigger] inputs@[j]).0),
                    ),
                dom0 == links0.dom(),
                db.links().dom() == run_links_dom(dom0, db.pages(), inputs@, i as int),
                sum_new_links(stats_vec@) == run_new_total(dom0, db.pages(), inputs@, i as int),
                forall|j: int|
                    0 <= j < i ==> (#[trigger] stats_vec@[j]).n_new_links == run_page_new(
                        dom0,
                        db.pages(),
                        inputs@,
                        j,
                    ),
                pages0.submap_of(db.pages()),
                db.pages().dom() == pages0.dom().union(input_page_keys(inputs@.subrange(0, i as int))),
                links0.submap_of(db.links()),
                forall|k: (i64, Seq<char>, Seq<char>)|
                    #[trigger] db.links().contains_key(k) ==> links0.contains_key(k)
                        || input_has_link(inputs@, (k.1, k.2)),
                sight0.subset_of(db.sightings()),
                !colls0.contains_key(cid),
                db.collections() == colls0.insert(cid, (false, 0u64, 0u64, 0u64)),
                pages0 == old(db).pages(),
                links0 == old(db).links(),
                colls0 == old(db).collections(),
                sight0 == old(db).sightings(),
            decreases inputs@.len() - i,
        {
            match &inputs[i].1 {
                PageOutcome::Links(links) => {
                    let page = &inputs[i].0;
                    let key = page.extract.key_string();
                    let ghost pkey = page_key(inputs@[i as int].0);
                    let ghost pages_before = db.pages();
                    let page_id = match db.add_page(page.url.as_str(), key.as_str()) {
                        Ok(id) => id,
                        Err(e) => {
                            proof {
                                lemma_submap_trans(pages0, pages_before, db.pages());
                            }
                            return Err(RunError::Store(e));
                        },
                    };
                    proof {
                        assert(get_or_create_post(pages_before, pkey, page_id, db.pages()));
                        if pages_before.contains_key(pkey) {
                            assert(pages0.submap_of(db.pages()));
                        } else {
                            lemma_submap_trans(pages0, pages_before, db.pages());
                        }
                        assert forall|j: int|
                            0 <= j < i implies db.pages()[page_key((#[trigger] inputs@[j]).0)]
                            == pages_before[page_key(inputs@[j].0)] && db.pages().contains_key(
                            page_key(inputs@[j].0),
                        ) by {
                            let kj = page_key(inputs@[j].0);
                            assert(pages_before.contains_key(kj));
                            if !pages_before.contains_key(pkey) {
                                assert(kj != pkey);
                                assert(db.pages() == pages_before.insert(pkey, page_id));
                            }
                        }
                        lemma_run_specs_stable(dom0, pages_before, db.pages(), inputs@, i as int);
                    }
                    let ghost links_before = db.links();
                    let ghost sight_before = db.sightings();
                    let stats = match collect_page(db, page_id, collection_id, links) {
                        Ok(s) => s,
                        Err(e) => {
                            proof {
                                lemma_submap_trans(links0, links_before, db.links());
                                lemma_multiset_subset_trans(sight0, sight_before, db.sightings());
                                assert forall|k: (i64, Seq<char>, Seq<char>)|
                                    #[trigger] db.links().contains_key(k) implies links0.contains_key(
                                    k,
                                ) || input_has_link(inputs@, (k.1, k.2)) by {
                                    if !links_before.contains_key(k) {
                                        assert(inputs@[i as int].1 == PageOutcome::Links(*links));
                                        assert(keys_of(page_id, link_views(links@)).contains(k));
                                        link_new_key_has_input(
                                            links_before,
                                            db.links(),
                                            page_id,
                                            link_views(links@),
                                            inputs@,
                                            i as int,
                                            k,
                                        );
                                    }
                                }
                            }
                            return Err(RunError::Store(e));
                        },
                    };
                    proof {
                        lemma_submap_trans(links0, links_before, db.links());
                        lemma_multiset_subset_trans(sight0, sight_before, db.sightings());
                        assert forall|k: (i64, Seq<char>, Seq<char>)|
                            #[trigger] db.links().contains_key(k) implies links0.contains_key(k)
                            || input_has_link(inputs@, (k.1, k.2)) by {
                            if !links_before.contains_key(k) {
                                assert(inputs@[i as int].1 == PageOutcome::Links(*links));
                                assert(db.links().dom().contains(k));
                                assert(keys_of(page_id, link_views(links@)).contains(k));
                                link_new_key_has_input(
                                    links_before,
                                    db.links(),
                                    page_id,
                                    link_views(links@),
                                    inputs@,
                                    i as int,
                                    k,
                                );
                            }
                        }
                    }
                    let ghost sv0 = stats_vec@;
                    names_vec.push(page.name.clone());
                    stats_vec.push(stats);
                    proof {
                        lemma_sums_push(sv0, stats);
                        assert(stats_vec@ == sv0.push(stats));
                        let pre = inputs@.subrange(0, i as int);
                        let cur = inputs@.subrange(0, i + 1);
                        assert(cur.drop_last() =~= pre);
                        assert(cur.last() == inputs@[i as int]);
                        assert(inputs@[i as int].1 == PageOutcome::Links(*links));
                        assert(total_input_links(cur) == total_input_links(pre) + links@.len());
                        assert(input_page_keys(cur) =~= input_page_keys(pre).insert(pkey));
                        assert(db.pages().dom() =~= pages0.dom().union(input_page_keys(cur)));
                        assert(outcome_links(inputs@[i as int].1) == links@);
                        assert(db.pages()[pkey] == page_id);
                        assert(links_before.dom() == run_links_dom(
                            dom0,
                            db.pages(),
                            inputs@,
                            i as int,
                        ));
                        assert(run_links_dom(dom0, db.pages(), inputs@, i + 1) =~= run_links_dom(
                            dom0,
                            db.pages(),
                            inputs@,
                            i as int,
                        ).union(keys_of(page_id, link_views(links@))));
                        assert(db.links().dom() =~= run_links_dom(dom0, db.pages(), inputs@, i + 1));
                        assert(stats.n_new_links == run_page_new(dom0, db.pages(), inputs@, i as int));
                        assert(sum_new_links(stats_vec@) == run_new_total(
                            dom0,
                            db.pages(),
                            inputs@,
                            i + 1,
                        ));
                        assert forall|j: int|
                            0 <= j < i + 1 implies (#[trigger] stats_vec@[j]).n_new_links
                            == run_page_new(dom0, db.pages(), inputs@, j) by {
                            if j < i {
                                assert(stats_vec@[j] == sv0[j]);
                            }
                        }
                    }
                },
                PageOutcome::FetchFailed(f) => {
                    let failure = *f;
                    proof {
                        assert(inputs@[i as int].1 == PageOutcome::FetchFailed(failure));
                    }
                    return Err(
                        match failure {
                            FetchError::Cancelled => RunError::Cancelled,
                            FetchError::Transient => RunError::Fetch(failure),
                            FetchError::Permanent => RunError::Fetch(failure),
                        },
                    );
                },
                PageOutcome::ExtractFailed => {
                    proof {
                        assert(inputs@[i as int].1 is ExtractFailed);
                    }
                    return Err(RunError::Extraction);
                },
            }
            i = i + 1;
        }
        proof {
            assert(inputs@.subrange(0, inputs@.len() as int) =~= inputs@);
        }

        // Fold the per-page counts into the run totals, which must fit the
        // store's counters.
        let total = match fold_stats(&stats_vec) {
            Some(t) => t,
            None => {
                proof {
                    lemma_fold_keeps_bound(stats_vec@);
                }
                return Err(RunError::Overflow);
            },
        };
        if total.n_pages > (i64::MAX as u64) || total.n_links > (i64::MAX as u64) || total.n_new_links
            > (i64::MAX as u64) {
            proof {
                lemma_fold_keeps_bound(stats_vec@);
            }
            return Err(RunError::Overflow);
        }
        proof {
            lemma_fold_keeps_bound(stats_vec@);
        }

        // Each page's new-link count accumulates into the counter under the
        // page's name, in input order.
        let ghost pm_run = db.pages();
        let mut j: usize = 0;
        proof {
            assert(stats_vec@.subrange(0, 0) =~= Seq::<CollectionStats>::empty());
            assert(counter_entries_int(counter@) == run_counter(dom0, pm_run, inputs@, 0));
        }
        while j < stats_vec.len()
            invariant
                0 <= j <= stats_vec@.len(),
                stats_vec@.len() == inputs@.len(),
                names_vec@.len() == stats_vec@.len(),
                forall|k: int|
                    0 <= k < names_vec@.len() ==> (#[trigger] names_vec@[k])@ == inputs@[k].0.name@,
                counter.wf(),
                names_of(counter_entries_int(counter@)) == first_names(input_names(inputs@)),
                sum_counts(counter_entries_int(counter@)) == sum_new_links(
                    stats_vec@.subrange(0, j as int),
                ),
                forall|k: int|
                    0 <= k < counter_entries_int(counter@).len() ==> (
                    #[trigger] counter_entries_int(counter@)[k]).1 <= sum_new_links(
                        stats_vec@.subrange(0, j as int),
                    ),
                sum_new_links(stats_vec@) == total.n_new_links,
                total.n_new_links <= i64::MAX,
                forall|k: int| 0 <= k < stats_vec@.len() ==> (#[trigger] stats_vec@[k]).wf(),
                counter_entries_int(counter@) == run_counter(dom0, pm_run, inputs@, j as int),
                forall|k: int|
                    0 <= k < stats_vec@.len() ==> (#[trigger] stats_vec@[k]).n_new_links
                        == run_page_new(dom0, pm_run, inputs@, k),
            decreases stats_vec@.len() - j,
        {
            let ghost c0 = counter_entries_int(counter@);
            let ghost name = names_vec@[j as int]@;
            let delta = stats_vec[j].n_new_links;
            proof {
                assert(stats_vec@.subrange(0, j + 1).drop_last() =~= stats_vec@.subrange(0, j as int));
                assert(stats_vec@.subrange(0, j + 1).last() == stats_vec@[j as int]);
                crate::stats::lemma_sums_prefix_le(stats_vec@, j + 1);
                lemma_has_name_names(c0, name);
                lemma_first_names_contains(input_names(inputs@), name);
                assert(input_names(inputs@)[j as int] == name);
                assert(input_names(inputs@).contains(name));
            }
            match counter.add_count(&names_vec[j], delta) {
                Some(_) => {
                    proof {
                        lemma_accum_names(c0, name, delta as int);
                        lemma_accum_sum(c0, name, delta as int);
                        lemma_find_name(c0, name);
                        let c1 = counter_entries_int(counter@);
                        assert(c1 == accum(c0, name, delta as int));
                        assert(delta as int == run_page_new(dom0, pm_run, inputs@, j as int));
                        assert(run_counter(dom0, pm_run, inputs@, j + 1) == accum(
                            run_counter(dom0, pm_run, inputs@, j as int),
                            inputs@[j as int].0.name@,
                            run_page_new(dom0, pm_run, inputs@, j as int),
                        ));
                        assert(c1 == run_counter(dom0, pm_run, inputs@, j + 1));
                        let s1 = sum_new_links(stats_vec@.subrange(0, j + 1));
                        assert forall|k: int| 0 <= k < c1.len() implies (#[trigger] c1[k]).1
                            <= s1 by {
                            let f = find_name(c0, name);
                            assert(c1 == c0.update(f, (name, c0[f].1 + delta)));
                            if k != f {
                                assert(c1[k] == c0[k]);
                            }
                        }
                    }
                },
                None => {
                    proof {
                        lemma_find_name(c0, name);
                        assert(false);
                    }
                    return Err(RunError::Overflow);
                },
            }
            j = j + 1;
        }
        proof {
            assert(stats_vec@.subrange(0, stats_vec@.len() as int) =~= stats_vec@);
        }

        // Close the run row with the totals.
        match db.end_collection(collection_id, total.n_pages, total.n_links, total.n_new_links) {
            Ok(()) => {},
            Err(e) => {
                return Err(RunError::Store(e));
            },
        }
        proof {
            assert(db.collections() =~= colls0.insert(
                cid,
                (true, total.n_pages, total.n_links, total.n_new_links),
            ));
            assert(db.pages() == pm_run);
            assert(stats_vec@.subrange(0, stats_vec@.len() as int) =~= stats_vec@);
            assert(total.n_new_links == run_new_total(dom0, pm_run, inputs@, inputs@.len() as int));
            assert(counter_entries_int(counter@) == run_counter(
                dom0,
                pm_run,
                inputs@,
                inputs@.len() as int,
            ));
        }
        Ok(Collection { stats: total, counter })
    }
}

} // verus!
