use linkwatch::collection::Collection;
use linkwatch::collection::PageOutcome;
use linkwatch::collection::RunError;
use linkwatch::collection::collect_page;
use linkwatch::database::Database;
use linkwatch::notify::compose_message;
use linkwatch::page::Extract;
use linkwatch::page::Link;
use linkwatch::page::Page;
use linkwatch::retry::FetchError;

fn link(href: &str, text: &str) -> Link {
    Link { href: href.to_string(), text: text.to_string() }
}

fn page(name: &str, url: &str) -> Page {
    Page { name: name.to_string(), url: url.to_string(), extract: Extract::CSSPlain("a".to_string()) }
}

#[test]
fn novelty_counting_reports_first_ever_sightings() {
    let mut db = Database::try_new(":memory:").unwrap();
    let page_id = db.add_page("http://foo.bar", "a").unwrap();

    db.add_link(page_id, "/known", "old news").unwrap();

    let collection_id = db.start_collection().unwrap();
    let links = vec![link("/known", "old news"), link("/fresh", "breaking"), link("/other", "more")];
    let stats = collect_page(&mut db, page_id, collection_id, &links).unwrap();

    assert_eq!(stats.n_pages, 1);
    assert_eq!(stats.n_links, 3);
    assert_eq!(stats.n_new_links, 2);
}

#[test]
fn a_link_repeated_on_one_page_counts_once() {
    let mut db = Database::try_new(":memory:").unwrap();
    let page_id = db.add_page("http://foo.bar", "a").unwrap();
    let collection_id = db.start_collection().unwrap();

    let links = vec![link("/a", "x"), link("/a", "x"), link("/b", "y")];
    let stats = collect_page(&mut db, page_id, collection_id, &links).unwrap();

    assert_eq!(stats.n_links, 3);
    assert_eq!(stats.n_new_links, 2);
}

#[test]
fn a_successful_run_closes_its_row_with_the_totals() {
    let mut db = Database::try_new(":memory:").unwrap();

    let inputs = vec![
        (page("A", "http://a"), PageOutcome::Links(vec![link("/1", "one"), link("/2", "two")])),
        (page("B", "http://b"), PageOutcome::Links(vec![link("/3", "three")])),
    ];
    let collection: Collection = Collection::try_new(&mut db, &inputs).unwrap();

    assert_eq!(collection.stats.n_pages, 2);
    assert_eq!(collection.stats.n_links, 3);
    assert_eq!(collection.stats.n_new_links, 3);

    assert_eq!(collection.counter.len(), 2);
    assert_eq!(collection.counter.entry_at(0), ("A".to_string(), 2));
    assert_eq!(collection.counter.entry_at(1), ("B".to_string(), 1));

    // A fresh store numbers its first run row one.
    assert_eq!(db.collection_row(1).unwrap(), (true, 2, 3, 3));
}

#[test]
fn a_second_run_reports_only_what_is_new() {
    let mut db = Database::try_new(":memory:").unwrap();

    let first = vec![
        (page("A", "http://a"), PageOutcome::Links(vec![link("/1", "one"), link("/2", "two")])),
    ];
    Collection::try_new(&mut db, &first).unwrap();

    let second = vec![
        (page("A", "http://a"), PageOutcome::Links(vec![link("/1", "one"), link("/9", "nine")])),
    ];
    let collection = Collection::try_new(&mut db, &second).unwrap();

    assert_eq!(collection.stats.n_links, 2);
    assert_eq!(collection.stats.n_new_links, 1);
    assert_eq!(compose_message(&collection.counter), "1 for A.");
}

#[test]
fn run_results_compose_the_notification() {
    let mut db = Database::try_new(":memory:").unwrap();

    let inputs = vec![
        (page("A", "http://a"), PageOutcome::Links(vec![
            link("/1", "a"),
            link("/2", "b"),
            link("/3", "c"),
            link("/4", "d"),
            link("/5", "e"),
        ])),
        (page("B", "http://b"), PageOutcome::Links(vec![link("/6", "f"), link("/7", "g")])),
    ];
    let collection = Collection::try_new(&mut db, &inputs).unwrap();

    assert_eq!(compose_message(&collection.counter), "5 for A and 2 for B.");
}

#[test]
fn a_cancelled_run_leaves_the_row_open_and_the_links_queryable() {
    let mut db = Database::try_new(":memory:").unwrap();

    let inputs = vec![
        (page("A", "http://a"), PageOutcome::Links(vec![link("/1", "one")])),
        (page("B", "http://b"), PageOutcome::FetchFailed(FetchError::Cancelled)),
    ];
    let err = Collection::try_new(&mut db, &inputs).unwrap_err();

    assert!(matches!(err, RunError::Cancelled));

    // The run row was opened as number one on this fresh store, and its
    // end fields were never set.
    assert_eq!(db.collection_row(1).unwrap(), (false, 0, 0, 0));

    // The first page's link was written before the abort and stays.
    let page_id = db.add_page("http://a", "css:1:a").unwrap();
    assert!(db.link_exists(page_id, "/1", "one").unwrap());
}

#[test]
fn a_permanent_fetch_failure_aborts_the_run() {
    let mut db = Database::try_new(":memory:").unwrap();

    let inputs = vec![
        (page("A", "http://a"), PageOutcome::FetchFailed(FetchError::Permanent)),
    ];
    let err = Collection::try_new(&mut db, &inputs).unwrap_err();

    assert!(matches!(err, RunError::Fetch(FetchError::Permanent)));
    assert_eq!(db.collection_row(1).unwrap(), (false, 0, 0, 0));
}

#[test]
fn a_failed_extraction_aborts_the_run() {
    let mut db = Database::try_new(":memory:").unwrap();

    let inputs = vec![(page("A", "http://a"), PageOutcome::ExtractFailed)];
    let err = Collection::try_new(&mut db, &inputs).unwrap_err();

    assert!(matches!(err, RunError::Extraction));
}

#[test]
fn pages_sharing_a_name_share_a_counter_entry() {
    let mut db = Database::try_new(":memory:").unwrap();

    let inputs = vec![
        (page("A", "http://a"), PageOutcome::Links(vec![link("/1", "one")])),
        (page("A", "http://a2"), PageOutcome::Links(vec![link("/2", "two")])),
    ];
    let collection = Collection::try_new(&mut db, &inputs).unwrap();

    assert_eq!(collection.counter.len(), 1);
    assert_eq!(collection.counter.entry_at(0), ("A".to_string(), 2));
}

#[test]
fn an_empty_run_closes_with_zeros() {
    let mut db = Database::try_new(":memory:").unwrap();

    let collection = Collection::try_new(&mut db, &Vec::new()).unwrap();

    assert_eq!(collection.stats.n_pages, 0);
    assert_eq!(collection.stats.n_links, 0);
    assert_eq!(collection.stats.n_new_links, 0);
    assert_eq!(collection.counter.len(), 0);
    assert_eq!(db.collection_row(1).unwrap(), (true, 0, 0, 0));
}
