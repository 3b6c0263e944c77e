use linkwatch::database::Database;

#[test]
fn add_page_does_not_add_duplicate() {
    let mut db = Database::try_new(":memory:").unwrap();

    let id_a = db.add_page("http://foo.bar", "a").unwrap();
    let id_b = db.add_page("http://foo.bar", "a").unwrap();

    assert_eq!(id_a, id_b);
}

#[test]
fn add_page_accounts_for_url() {
    let mut db = Database::try_new(":memory:").unwrap();

    let id_a = db.add_page("http://foo/bar", "a").unwrap();
    let id_b = db.add_page("http://foo/baz", "a").unwrap();

    assert_ne!(id_a, id_b);
}

#[test]
fn add_page_accounts_for_selector() {
    let mut db = Database::try_new(":memory:").unwrap();

    let id_a = db.add_page("http://foo.bar", "a[href^='/foo']").unwrap();
    let id_b = db.add_page("http://foo.bar", "a[href^='/bar']").unwrap();

    assert_ne!(id_a, id_b);
}

#[test]
fn add_link_requires_valid_page_id() {
    let mut db = Database::try_new(":memory:").unwrap();
    let nonexistent: i64 = 1;

    assert!(db.add_link(nonexistent, "/foo", "bar").is_err());
}

#[test]
fn add_link_does_not_add_duplicate() {
    let mut db = Database::try_new(":memory:").unwrap();
    let page_id = db.add_page("http://foo.bar", "a").unwrap();

    let id_a = db.add_link(page_id, "/foo", "bar").unwrap();
    let id_b = db.add_link(page_id, "/foo", "bar").unwrap();

    assert_eq!(id_a, id_b);
}

#[test]
fn link_exists_works() {
    let mut db = Database::try_new(":memory:").unwrap();
    let page_id = db.add_page("http://foo.bar", "a").unwrap();

    assert!(!db.link_exists(page_id, "/foo", "bar").unwrap());
    assert!(!db.link_exists(page_id, "/bar", "baz").unwrap());

    db.add_link(page_id, "/foo", "bar").unwrap();

    assert!(db.link_exists(page_id, "/foo", "bar").unwrap());
    assert!(!db.link_exists(page_id, "/bar", "baz").unwrap());

    db.add_link(page_id, "/lorem", "ipsum").unwrap();

    assert!(db.link_exists(page_id, "/foo", "bar").unwrap());
    assert!(!db.link_exists(page_id, "/bar", "baz").unwrap());

    db.add_link(page_id, "/bar", "baz").unwrap();

    assert!(db.link_exists(page_id, "/foo", "bar").unwrap());
    assert!(db.link_exists(page_id, "/bar", "baz").unwrap());
}

#[test]
fn links_are_scoped_to_their_page() {
    let mut db = Database::try_new(":memory:").unwrap();
    let page_a = db.add_page("http://foo/bar", "a").unwrap();
    let page_b = db.add_page("http://foo/baz", "a").unwrap();

    let id_a = db.add_link(page_a, "/foo", "bar").unwrap();
    let id_b = db.add_link(page_b, "/foo", "bar").unwrap();

    assert_ne!(id_a, id_b);
    assert!(db.link_exists(page_a, "/foo", "bar").unwrap());
    assert!(db.link_exists(page_b, "/foo", "bar").unwrap());
}

#[test]
fn collection_rows_record_start_and_end() {
    let mut db = Database::try_new(":memory:").unwrap();

    let id = db.start_collection().unwrap();
    assert_eq!(db.collection_row(id).unwrap(), (false, 0, 0, 0));

    db.end_collection(id, 2, 5, 3).unwrap();
    assert_eq!(db.collection_row(id).unwrap(), (true, 2, 5, 3));
}

#[test]
fn collection_ids_are_distinct() {
    let mut db = Database::try_new(":memory:").unwrap();

    let id_a = db.start_collection().unwrap();
    let id_b = db.start_collection().unwrap();

    assert_ne!(id_a, id_b);
}

#[test]
fn missing_collection_row_is_an_error() {
    let db = Database::try_new(":memory:").unwrap();

    assert!(db.collection_row(41).is_err());
}
