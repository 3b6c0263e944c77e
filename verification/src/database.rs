//! The persistent link store.
//!
//! Four tables back the watcher: pages keyed by (url, selector key),
//! links keyed by (page, href, text), the log of collection runs, and the
//! append-only sighting log. The store's contract is stated over named
//! views of the tables: maps from key to row id for the two keyed tables,
//! the run rows by id, and the sightings as a multiset. Every operation
//! is an insert-if-absent, a point lookup, or a single update; nothing is
//! ever deleted, so a fresh row's id differs from every id handed out
//! before, and rows being keyed by rowid, distinct keys always carry
//! distinct ids. The SQL engine does the work behind trusted wrappers;
//! the get-or-create discipline above them is verified.

use vstd::prelude::*;

use vstd::multiset::Multiset;

verus! {

#[verifier::external_type_specification]
#[verifier::external_body]
pub struct ExConnection(rusqlite::Connection);

#[verifier::external_type_specification]
#[verifier::external_body]
pub struct ExSqlError(rusqlite::Error);

/// The pages table: (url, selector key) to row id.
pub uninterp spec fn db_pages(c: rusqlite::Connection) -> Map<(Seq<char>, Seq<char>), i64>;

/// The links table: (page id, href, text) to row id.
pub uninterp spec fn db_links(c: rusqlite::Connection) -> Map<(i64, Seq<char>, Seq<char>), i64>;

/// The collections table: run id to (ended, n_pages, n_links,
/// n_new_links). The three counts mean nothing until the run has ended.
pub uninterp spec fn db_collections(c: rusqlite::Connection) -> Map<i64, (bool, u64, u64, u64)>;

/// The sighting log: one (link id, collection id) entry per recorded
/// sighting, its timestamp abstracted away.
pub uninterp spec fn db_sightings(c: rusqlite::Connection) -> Multiset<(i64, i64)>;

/// The rowid of the most recent successful insert on the connection.
pub uninterp spec fn db_last_insert_id(c: rusqlite::Connection) -> i64;

/// All four tables unchanged between two connection states: a failed
/// statement has no effect.
pub open spec fn tables_unchanged(c0: rusqlite::Connection, c1: rusqlite::Connection) -> bool {
    &&& db_pages(c1) == db_pages(c0)
    &&& db_links(c1) == db_links(c0)
    &&& db_collections(c1) == db_collections(c0)
    &&& db_sightings(c1) == db_sightings(c0)
}

/// Whether some key of `m` is mapped to `v`.
pub open spec fn map_has_value<K>(m: Map<K, i64>, v: i64) -> bool {
    exists|k: K| #[trigger] m.contains_key(k) && m[k] == v
}

/// No two keys share an id.
pub open spec fn injective_ids<K>(m: Map<K, i64>) -> bool {
    forall|k1: K, k2: K|
        m.contains_key(k1) && m.contains_key(k2) && k1 != k2
            ==> #[trigger] m[k1] != #[trigger] m[k2]
}

/// What get-or-create does to a keyed id table: an existing key keeps
/// the table and returns its id; a missing key is inserted under an id
/// unlike any already in the table.
pub open spec fn get_or_create_post<K>(m0: Map<K, i64>, key: K, id: i64, m1: Map<K, i64>) -> bool {
    &&& m1.contains_key(key)
    &&& m1[key] == id
    &&& if m0.contains_key(key) {
        m1 == m0 && id == m0[key]
    } else {
        m1 == m0.insert(key, id) && !map_has_value(m0, id)
    }
}

/// Idempotent dedup: a second get-or-create under the same key returns
/// the same id and leaves the table as it was.
pub proof fn lemma_get_or_create_idempotent<K>(
    m0: Map<K, i64>,
    key: K,
    id1: i64,
    m1: Map<K, i64>,
    id2: i64,
    m2: Map<K, i64>,
)
    requires
        get_or_create_post(m0, key, id1, m1),
        get_or_create_post(m1, key, id2, m2),
    ensures
        id2 == id1,
        m2 == m1,
{
}

/// Inserting a fresh id under a new key keeps ids injective.
pub proof fn lemma_insert_fresh_keeps_injective<K>(m: Map<K, i64>, key: K, id: i64)
    requires
        injective_ids(m),
        !map_has_value(m, id),
    ensures
        injective_ids(m.insert(key, id)),
{
    let m1 = m.insert(key, id);
    assert forall|k1: K, k2: K|
        m1.contains_key(k1) && m1.contains_key(k2) && k1 != k2 implies #[trigger] m1[k1]
        != #[trigger] m1[k2] by {
        if k1 != key && k2 != key {
            assert(m[k1] == m1[k1] && m[k2] == m1[k2]);
        } else if k1 == key {
            assert(m.contains_key(k2) && m[k2] == m1[k2]);
        } else {
            assert(m.contains_key(k1) && m[k1] == m1[k1]);
        }
    }
}

/// Store discrimination: get-or-create under two different keys returns
/// two different ids, and ids stay injective throughout.
pub proof fn lemma_get_or_create_discriminates<K>(
    m0: Map<K, i64>,
    key1: K,
    id1: i64,
    m1: Map<K, i64>,
    key2: K,
    id2: i64,
    m2: Map<K, i64>,
)
    requires
        injective_ids(m0),
        key1 != key2,
        get_or_create_post(m0, key1, id1, m1),
        get_or_create_post(m1, key2, id2, m2),
    ensures
        id1 != id2,
        injective_ids(m1),
        injective_ids(m2),
{
    if !m0.contains_key(key1) {
        lemma_insert_fresh_keeps_injective(m0, key1, id1);
    }
    if !m1.contains_key(key2) {
        lemma_insert_fresh_keeps_injective(m1, key2, id2);
    }
    assert(m2.contains_key(key1) && m2[key1] == id1);
    assert(m2.contains_key(key2) && m2[key2] == id2);
}

/// A failure of the underlying store, with the engine's own wording.
#[derive(Debug)]
pub struct StoreError {
    pub message: String,
}

/// The persistent dedup store for pages, links, runs and sightings.
#[derive(Debug)]
pub struct Database {
    conn: rusqlite::Connection,
}

/// Relies on rusqlite::Connection::open: opens or creates the database
/// file at `path`. An existing file keeps its rows; the ":memory:" path
/// opens a fresh, private, empty database. Each table keys its rows by
/// rowid, so distinct keys always carry distinct ids.
#[verifier::external_body]
fn open_connection(path: &str) -> (r: Result<rusqlite::Connection, rusqlite::Error>)
    ensures
        r matches Ok(c) ==> injective_ids(db_pages(c)) && injective_ids(db_links(c)),
        r matches Ok(c) ==> (path@ == ":memory:"@ ==> {
            &&& db_pages(c) == Map::<(Seq<char>, Seq<char>), i64>::empty()
            &&& db_links(c) == Map::<(i64, Seq<char>, Seq<char>), i64>::empty()
            &&& db_collections(c) == Map::<i64, (bool, u64, u64, u64)>::empty()
            &&& db_sightings(c) == Multiset::<(i64, i64)>::empty()
        }),
{
    rusqlite::Connection::open(path)
}

/// Relies on rusqlite::Connection::execute_batch running the store's
/// schema: the pragma turns foreign keys on for this connection, and the
/// CREATE TABLE IF NOT EXISTS statements create missing tables without
/// touching any row, so all four tables keep their content.
#[verifier::external_body]
fn apply_schema(conn: &mut rusqlite::Connection) -> (r: Result<(), rusqlite::Error>)
    ensures
        r is Ok ==> tables_unchanged(*old(conn), *final(conn)) && injective_ids(
            db_pages(*final(conn)),
        ) && injective_ids(db_links(*final(conn))),
{
    conn.execute_batch(
        "PRAGMA foreign_keys = ON; CREATE TABLE IF NOT EXISTS pages (id INTEGER PRIMARY KEY, url TEXT NOT NULL, selector TEXT NOT NULL, UNIQUE (url, selector)); CREATE TABLE IF NOT EXISTS links (id INTEGER PRIMARY KEY, page_id INTEGER NOT NULL REFERENCES pages (id), href TEXT NOT NULL, text TEXT NOT NULL, UNIQUE (page_id, href, text)); CREATE TABLE IF NOT EXISTS collections (id INTEGER PRIMARY KEY, start_time TEXT NOT NULL, end_time TEXT, n_pages INTEGER, n_links INTEGER, n_new_links INTEGER); CREATE TABLE IF NOT EXISTS links_collections (link_id INTEGER NOT NULL REFERENCES links (id), collection_id INTEGER NOT NULL REFERENCES collections (id), timestamp TEXT NOT NULL);",
    )
}

/// Relies on rusqlite's Display for errors: the engine's description of
/// what went wrong.
#[verifier::external_body]
fn backend_message(e: &rusqlite::Error) -> (r: String) {
    e.to_string()
}

/// Relies on rusqlite::Connection::execute running INSERT OR IGNORE
/// against the UNIQUE (url, selector) constraint of pages: an existing
/// key leaves the table unchanged; a missing key gets a fresh row whose
/// rowid differs from every existing id, rows never being deleted. Rows
/// are keyed by rowid, so distinct keys always carry distinct ids. The
/// other tables are untouched, and a failed statement changes nothing.
#[verifier::external_body]
fn page_insert(conn: &mut rusqlite::Connection, url: &str, selector: &str) -> (r: Result<
    (),
    rusqlite::Error,
>)
    ensures
        injective_ids(db_pages(*final(conn))),
        r is Ok ==> {
            let key = (url@, selector@);
            let m0 = db_pages(*old(conn));
            let m1 = db_pages(*final(conn));
            &&& if m0.contains_key(key) {
                m1 == m0
            } else {
                exists|id: i64| m1 == m0.insert(key, id) && !map_has_value(m0, id)
            }
            &&& db_links(*final(conn)) == db_links(*old(conn))
            &&& db_collections(*final(conn)) == db_collections(*old(conn))
            &&& db_sightings(*final(conn)) == db_sightings(*old(conn))
        },
        r is Err ==> tables_unchanged(*old(conn), *final(conn)),
{
    match conn.execute(
        "INSERT OR IGNORE INTO pages (url, selector) VALUES (?1, ?2)",
        (url, selector),
    ) {
        Ok(_) => Ok(()),
        Err(e) => Err(e),
    }
}

/// Relies on rusqlite::Connection::query_row reading the id column of
/// the single pages row under (url, selector); absence is the engine's
/// no-rows error.
#[verifier::external_body]
fn page_select(conn: &rusqlite::Connection, url: &str, selector: &str) -> (r: Result<
    i64,
    rusqlite::Error,
>)
    ensures
        r matches Ok(id) ==> db_pages(*conn).contains_key((url@, selector@)) && id == db_pages(
            *conn,
        )[(url@, selector@)] && injective_ids(db_pages(*conn)),
{
    conn.query_row(
        "SELECT id FROM pages WHERE url = ?1 AND selector = ?2",
        (url, selector),
        |row| row.get(0),
    )
}

/// Relies on rusqlite::Connection::execute running INSERT OR IGNORE
/// against the UNIQUE (page_id, href, text) constraint of links, as
/// page_insert does for pages; a failed statement changes nothing. The
/// store's opener turns foreign keys on for the connection, and OR
/// IGNORE does not swallow their violations, so a row is only ever
/// inserted under a page id the pages table holds.
#[verifier::external_body]
fn link_insert(conn: &mut rusqlite::Connection, page_id: i64, href: &str, text: &str) -> (r:
    Result<(), rusqlite::Error>)
    ensures
        injective_ids(db_links(*final(conn))),
        r is Err ==> tables_unchanged(*old(conn), *final(conn)),
        r is Ok ==> {
            let key = (page_id, href@, text@);
            let m0 = db_links(*old(conn));
            let m1 = db_links(*final(conn));
            &&& if m0.contains_key(key) {
                m1 == m0
            } else {
                &&& exists|id: i64| m1 == m0.insert(key, id) && !map_has_value(m0, id)
                &&& map_has_value(db_pages(*final(conn)), page_id)
            }
            &&& db_pages(*final(conn)) == db_pages(*old(conn))
            &&& db_collections(*final(conn)) == db_collections(*old(conn))
            &&& db_sightings(*final(conn)) == db_sightings(*old(conn))
        },
{
    match conn.execute(
        "INSERT OR IGNORE INTO links (page_id, href, text) VALUES (?1, ?2, ?3)",
        (page_id, href, text),
    ) {
        Ok(_) => Ok(()),
        Err(e) => Err(e),
    }
}

/// Relies on rusqlite::Connection::query_row reading the id column of
/// the single links row under (page_id, href, text).
#[verifier::external_body]
fn link_select(conn: &rusqlite::Connection, page_id: i64, href: &str, text: &str) -> (r: Result<
    i64,
    rusqlite::Error,
>)
    ensures
        r matches Ok(id) ==> db_links(*conn).contains_key((page_id, href@, text@)) && id
            == db_links(*conn)[(page_id, href@, text@)] && injective_ids(db_links(*conn)),
{
    conn.query_row(
        "SELECT id FROM links WHERE page_id = ?1 AND href = ?2 AND text = ?3",
        (page_id, href, text),
        |row| row.get(0),
    )
}

/// Relies on rusqlite::Connection::query_row counting links rows under
/// (page_id, href, text): the UNIQUE constraint makes the count positive
/// exactly where the key exists.
#[verifier::external_body]
fn link_count(conn: &rusqlite::Connection, page_id: i64, href: &str, text: &str) -> (r: Result<
    i64,
    rusqlite::Error,
>)
    ensures
        r matches Ok(c) ==> (c > 0 <==> db_links(*conn).contains_key((page_id, href@, text@))),
{
    conn.query_row(
        "SELECT COUNT(*) FROM links WHERE page_id = ?1 AND href = ?2 AND text = ?3",
        (page_id, href, text),
        |row| row.get(0),
    )
}

/// Relies on rusqlite::Connection::query_row reading one collections
/// row: whether its end time is set, and its three counts, zero while
/// unset; absence is the engine's no-rows error.
#[verifier::external_body]
fn collection_select(conn: &rusqlite::Connection, collection_id: i64) -> (r: Result<
    (bool, u64, u64, u64),
    rusqlite::Error,
>)
    ensures
        r matches Ok(row) ==> db_collections(*conn).contains_key(collection_id) && row
            == db_collections(*conn)[collection_id],
{
    conn.query_row(
        "SELECT end_time IS NOT NULL, COALESCE(n_pages, 0), COALESCE(n_links, 0), COALESCE(n_new_links, 0) FROM collections WHERE id = ?1",
        (collection_id,),
        |row| {
            Ok((
                row.get::<_, bool>(0)?,
                row.get::<_, i64>(1)? as u64,
                row.get::<_, i64>(2)? as u64,
                row.get::<_, i64>(3)? as u64,
            ))
        },
    )
}

/// Relies on rusqlite::Connection::execute inserting a collections row
/// with the start time set and the end fields unset: the fresh row's
/// rowid differs from every existing run id, rows never being deleted,
/// and is what last_insert_rowid then reports. The other tables are
/// untouched, and a failed statement changes nothing.
#[verifier::external_body]
fn collection_insert(conn: &mut rusqlite::Connection) -> (r: Result<(), rusqlite::Error>)
    ensures
        r is Err ==> tables_unchanged(*old(conn), *final(conn)),
        r is Ok ==> {
            let m0 = db_collections(*old(conn));
            let m1 = db_collections(*final(conn));
            &&& {
                let id = db_last_insert_id(*final(conn));
                &&& !m0.contains_key(id)
                &&& m1 == m0.insert(id, (false, 0u64, 0u64, 0u64))
            }
            &&& db_pages(*final(conn)) == db_pages(*old(conn))
            &&& db_links(*final(conn)) == db_links(*old(conn))
            &&& db_sightings(*final(conn)) == db_sightings(*old(conn))
        },
{
    match conn.execute(
        "INSERT INTO collections (start_time) VALUES (DATETIME('now', 'utc'))",
        (),
    ) {
        Ok(_) => Ok(()),
        Err(e) => Err(e),
    }
}

/// Relies on rusqlite::Connection::last_insert_rowid: the rowid of the
/// most recent successful insert on this connection.
#[verifier::external_body]
fn last_insert_id(conn: &rusqlite::Connection) -> (r: i64)
    ensures
        r == db_last_insert_id(*conn),
{
    conn.last_insert_rowid()
}

/// Relies on rusqlite::Connection::execute running UPDATE on the
/// collections row with the given id, setting the end time and the three
/// counts; with no such row the update matches nothing and changes
/// nothing. The other tables are untouched, and a failed statement
/// changes nothing.
#[verifier::external_body]
fn collection_update(
    conn: &mut rusqlite::Connection,
    collection_id: i64,
    n_pages: u64,
    n_links: u64,
    n_new_links: u64,
) -> (r: Result<(), rusqlite::Error>)
    requires
        n_pages <= i64::MAX,
        n_links <= i64::MAX,
        n_new_links <= i64::MAX,
    ensures
        r is Err ==> tables_unchanged(*old(conn), *final(conn)),
        r is Ok ==> {
            let m0 = db_collections(*old(conn));
            let m1 = db_collections(*final(conn));
            &&& if m0.contains_key(collection_id) {
                m1 == m0.insert(collection_id, (true, n_pages, n_links, n_new_links))
            } else {
                m1 == m0
            }
            &&& db_pages(*final(conn)) == db_pages(*old(conn))
            &&& db_links(*final(conn)) == db_links(*old(conn))
            &&& db_sightings(*final(conn)) == db_sightings(*old(conn))
        },
{
    match conn.execute(
        "UPDATE collections SET end_time = DATETIME('now', 'utc'), n_pages = ?1, n_links = ?2, n_new_links = ?3 WHERE id = ?4",
        (n_pages as i64, n_links as i64, n_new_links as i64, collection_id),
    ) {
        Ok(_) => Ok(()),
        Err(e) => Err(e),
    }
}

/// Relies on rusqlite::Connection::execute appending a sighting row with
/// the current timestamp. The other tables are untouched, and a failed
/// statement changes nothing.
#[verifier::external_body]
fn sighting_insert(conn: &mut rusqlite::Connection, link_id: i64, collection_id: i64) -> (r:
    Result<(), rusqlite::Error>)
    ensures
        r is Err ==> tables_unchanged(*old(conn), *final(conn)),
        r is Ok ==> {
            &&& db_sightings(*final(conn)) == db_sightings(*old(conn)).insert(
                (link_id, collection_id),
            )
            &&& db_pages(*final(conn)) == db_pages(*old(conn))
            &&& db_links(*final(conn)) == db_links(*old(conn))
            &&& db_collections(*final(conn)) == db_collections(*old(conn))
        },
{
    match conn.execute(
        "INSERT INTO links_collections (link_id, collection_id, timestamp) VALUES (?1, ?2, DATETIME('now', 'utc'))",
        (link_id, collection_id),
    ) {
        Ok(_) => Ok(()),
        Err(e) => Err(e),
    }
}

impl Database {
    /// The pages table as the store sees it.
    pub closed spec fn pages(self) -> Map<(Seq<char>, Seq<char>), i64> {
        db_pages(self.conn)
    }

    /// The links table as the store sees it.
    pub closed spec fn links(self) -> Map<(i64, Seq<char>, Seq<char>), i64> {
        db_links(self.conn)
    }

    /// The run log as the store sees it.
    pub closed spec fn collections(self) -> Map<i64, (bool, u64, u64, u64)> {
        db_collections(self.conn)
    }

    /// The sighting log as the store sees it.
    pub closed spec fn sightings(self) -> Multiset<(i64, i64)> {
        db_sightings(self.conn)
    }

    /// Opens the store at `path`, creating missing tables and keeping
    /// whatever the file already held. The ":memory:" path opens a fresh,
    /// empty store; and a table's ids always tell its keys apart.
    pub fn try_new(path: &str) -> (r: Result<Database, StoreError>)
        ensures
            r matches Ok(db) ==> injective_ids(db.pages()) && injective_ids(db.links()),
            r matches Ok(db) ==> (path@ == ":memory:"@ ==> {
                &&& db.pages() == Map::<(Seq<char>, Seq<char>), i64>::empty()
                &&& db.links() == Map::<(i64, Seq<char>, Seq<char>), i64>::empty()
                &&& db.collections() == Map::<i64, (bool, u64, u64, u64)>::empty()
                &&& db.sightings() == Multiset::<(i64, i64)>::empty()
            }),
    {
        let conn = match open_connection(path) {
            Ok(c) => c,
            Err(e) => {
                return Err(StoreError { message: backend_message(&e) });
            },
        };
        let mut db = Database { conn };
        match apply_schema(&mut db.conn) {
            Ok(()) => Ok(db),
            Err(e) => Err(StoreError { message: backend_message(&e) }),
        }
    }

    /// Opens a new run row with its start time set and its end fields
    /// unset, and returns its id, which no earlier run carries.
    pub fn start_collection(&mut self) -> (r: Result<i64, StoreError>)
        ensures
            r is Err ==> {
                &&& final(self).pages() == old(self).pages()
                &&& final(self).links() == old(self).links()
                &&& final(self).collections() == old(self).collections()
                &&& final(self).sightings() == old(self).sightings()
            },
            r matches Ok(id) ==> {
                &&& !old(self).collections().contains_key(id)
                &&& final(self).collections() == old(self).collections().insert(
                    id,
                    (false, 0u64, 0u64, 0u64),
                )
                &&& final(self).pages() == old(self).pages()
                &&& final(self).links() == old(self).links()
                &&& final(self).sightings() == old(self).sightings()
            },
    {
        match collection_insert(&mut self.conn) {
            Ok(()) => Ok(last_insert_id(&self.conn)),
            Err(e) => Err(StoreError { message: backend_message(&e) }),
        }
    }

    /// Closes the run row: sets its end time and its three counts, once,
    /// after every page worker has finished. A run id the log does not
    /// hold leaves the log unchanged.
    pub fn end_collection(
        &mut self,
        collection_id: i64,
        n_pages: u64,
        n_links: u64,
        n_new_links: u64,
    ) -> (r: Result<(), StoreError>)
        requires
            n_pages <= i64::MAX,
            n_links <= i64::MAX,
            n_new_links <= i64::MAX,
        ensures
            r is Err ==> {
                &&& final(self).pages() == old(self).pages()
                &&& final(self).links() == old(self).links()
                &&& final(self).collections() == old(self).collections()
                &&& final(self).sightings() == old(self).sightings()
            },
            r is Ok ==> {
                &&& if old(self).collections().contains_key(collection_id) {
                    final(self).collections() == old(self).collections().insert(
                        collection_id,
                        (true, n_pages, n_links, n_new_links),
                    )
                } else {
                    final(self).collections() == old(self).collections()
                }
                &&& final(self).pages() == old(self).pages()
                &&& final(self).links() == old(self).links()
                &&& final(self).sightings() == old(self).sightings()
            },
    {
        match collection_update(&mut self.conn, collection_id, n_pages, n_links, n_new_links) {
            Ok(()) => Ok(()),
            Err(e) => Err(StoreError { message: backend_message(&e) }),
        }
    }

    /// Insert-if-absent by (url, selector key), then look the id up: the
    /// same pair always converges on the same id, and a fresh pair gets
    /// an id unlike any page's before.
    pub fn add_page(&mut self, url: &str, selector: &str) -> (r: Result<i64, StoreError>)
        ensures
            injective_ids(final(self).pages()),
            r matches Ok(id) ==> {
                &&& get_or_create_post(
                    old(self).pages(),
                    (url@, selector@),
                    id,
                    final(self).pages(),
                )
                &&& final(self).links() == old(self).links()
                &&& final(self).collections() == old(self).collections()
                &&& final(self).sightings() == old(self).sightings()
            },
            r is Err ==> {
                &&& old(self).pages().submap_of(final(self).pages())
                &&& forall|k: (Seq<char>, Seq<char>)|
                    #[trigger] final(self).pages().contains_key(k)
                        ==> old(self).pages().contains_key(k) || k == (url@, selector@)
                &&& final(self).links() == old(self).links()
                &&& final(self).collections() == old(self).collections()
                &&& final(self).sightings() == old(self).sightings()
            },
    {
        match page_insert(&mut self.conn, url, selector) {
            Ok(()) => {},
            Err(e) => {
                return Err(StoreError { message: backend_message(&e) });
            },
        }
        match page_select(&self.conn, url, selector) {
            Ok(id) => Ok(id),
            Err(e) => Err(StoreError { message: backend_message(&e) }),
        }
    }

    /// Insert-if-absent by (page id, href, text), then look the id up,
    /// as add_page does for pages.
    pub fn add_link(&mut self, page_id: i64, href: &str, text: &str) -> (r: Result<
        i64,
        StoreError,
    >)
        ensures
            injective_ids(final(self).links()),
            r matches Ok(id) ==> {
                &&& get_or_create_post(
                    old(self).links(),
                    (page_id, href@, text@),
                    id,
                    final(self).links(),
                )
                &&& (!old(self).links().contains_key((page_id, href@, text@))
                    ==> map_has_value(old(self).pages(), page_id))
                &&& final(self).pages() == old(self).pages()
                &&& final(self).collections() == old(self).collections()
                &&& final(self).sightings() == old(self).sightings()
            },
            r is Err ==> {
                &&& old(self).links().submap_of(final(self).links())
                &&& forall|k: (i64, Seq<char>, Seq<char>)|
                    #[trigger] final(self).links().contains_key(k)
                        ==> old(self).links().contains_key(k) || k == (page_id, href@, text@)
                &&& final(self).pages() == old(self).pages()
                &&& final(self).collections() == old(self).collections()
                &&& final(self).sightings() == old(self).sightings()
            },
    {
        match link_insert(&mut self.conn, page_id, href, text) {
            Ok(()) => {},
            Err(e) => {
                return Err(StoreError { message: backend_message(&e) });
            },
        }
        match link_select(&self.conn, page_id, href, text) {
            Ok(id) => Ok(id),
            Err(e) => Err(StoreError { message: backend_message(&e) }),
        }
    }

    /// Whether the triple is already known. Evaluated strictly before the
    /// corresponding add_link, so that novelty reflects first-ever
    /// sighting rather than insert outcomes.
    pub fn link_exists(&self, page_id: i64, href: &str, text: &str) -> (r: Result<
        bool,
        StoreError,
    >)
        ensures
            r matches Ok(b) ==> b == self.links().contains_key((page_id, href@, text@)),
    {
        match link_count(&self.conn, page_id, href, text) {
            Ok(c) => Ok(c > 0),
            Err(e) => Err(StoreError { message: backend_message(&e) }),
        }
    }

    /// Reads one run row back: whether the run has ended, and its three
    /// counts, which mean nothing until it has.
    pub fn collection_row(&self, collection_id: i64) -> (r: Result<(bool, u64, u64, u64), StoreError>)
        ensures
            r matches Ok(row) ==> self.collections().contains_key(collection_id) && row
                == self.collections()[collection_id],
    {
        match collection_select(&self.conn, collection_id) {
            Ok(row) => Ok(row),
            Err(e) => Err(StoreError { message: backend_message(&e) }),
        }
    }

    /// Appends one sighting of the link in the run to the log, new and
    /// pre-existing links alike.
    pub fn add_link_collection(&mut self, link_id: i64, collection_id: i64) -> (r: Result<
        (),
        StoreError,
    >)
        ensures
            r is Err ==> {
                &&& final(self).pages() == old(self).pages()
                &&& final(self).links() == old(self).links()
                &&& final(self).collections() == old(self).collections()
                &&& final(self).sightings() == old(self).sightings()
            },
            r is Ok ==> {
                &&& final(self).sightings() == old(self).sightings().insert(
                    (link_id, collection_id),
                )
                &&& final(self).pages() == old(self).pages()
                &&& final(self).links() == old(self).links()
                &&& final(self).collections() == old(self).collections()
            },
    {
        match sighting_insert(&mut self.conn, link_id, collection_id) {
            Ok(()) => Ok(()),
            Err(e) => Err(StoreError { message: backend_message(&e) }),
        }
    }
}

} // verus!
