//! The durable catalog: a path-keyed store of file records, written in
//! atomic batches. The store itself is a SQLite database reached through
//! rusqlite; its contents are modeled as a map from path to record, on the
//! understanding that this handle is the store's only writer.
use vstd::prelude::*;
use rusqlite::OptionalExtension;
use crate::models::{views_of, FileEntry, RecordModel};

verus! {

/// Closed error taxonomy of the pipeline. Trouble with a single file is
/// skippable and never aborts a scan; a failed catalog transaction is fatal;
/// a failed progress write is swallowed by the caller.
#[derive(Clone, Copy, Debug, PartialEq, Eq, Structural)]
pub enum PipelineError {
    SkippableFile,
    Persistence,
    ProgressSink,
}

#[verifier::external_type_specification]
#[verifier::external_body]
pub struct ExConnection(rusqlite::Connection);

/// What the store holds: one record per path.
pub type CatalogModel = Map<Seq<char>, RecordModel>;

/// A batch of records applied in order: each record replaces whatever row
/// shared its path, so the last record with a given path wins.
pub open spec fn upsert_seq(m: CatalogModel, recs: Seq<RecordModel>) -> CatalogModel
    decreases recs.len(),
{
    if recs.len() == 0 {
        m
    } else {
        upsert_seq(m, recs.drop_last()).insert(recs.last().path, recs.last())
    }
}

/// The last record of the batch carrying the given path, if any.
pub open spec fn last_with_path(recs: Seq<RecordModel>, k: Seq<char>) -> Option<RecordModel>
    decreases recs.len(),
{
    if recs.len() == 0 {
        None
    } else if recs.last().path == k {
        Some(recs.last())
    } else {
        last_with_path(recs.drop_last(), k)
    }
}

/// Key-wise reading of `upsert_seq`: a path maps to the last record of the
/// batch that carries it, and to its old row when the batch never names it.
pub proof fn lemma_upsert_key(m: CatalogModel, recs: Seq<RecordModel>, k: Seq<char>)
    ensures
        upsert_seq(m, recs).contains_key(k) <==> (m.contains_key(k) || last_with_path(recs, k)
            is Some),
        upsert_seq(m, recs).contains_key(k) ==> upsert_seq(m, recs)[k] == (match last_with_path(
            recs,
            k,
        ) {
            Some(r) => r,
            None => m[k],
        }),
    decreases recs.len(),
{
    if recs.len() > 0 {
        lemma_upsert_key(m, recs.drop_last(), k);
    }
}

/// Completeness: when a record is the last of its batch with its path — in
/// particular, when all paths in the batch are distinct — the catalog holds
/// exactly that record under that path after the batch is applied.
pub proof fn lemma_upsert_complete(m: CatalogModel, recs: Seq<RecordModel>, i: int)
    requires
        0 <= i < recs.len(),
        forall|j: int| i < j < recs.len() ==> recs[j].path != recs[i].path,
    ensures
        upsert_seq(m, recs).contains_key(recs[i].path),
        upsert_seq(m, recs)[recs[i].path] == recs[i],
    decreases recs.len(),
{
    if i == recs.len() - 1 {
        lemma_upsert_key(m, recs, recs[i].path);
    } else {
        lemma_upsert_complete(m, recs.drop_last(), i);
    }
}

/// A batch that never names a path leaves it unmapped.
pub proof fn lemma_absent_path(recs: Seq<RecordModel>, k: Seq<char>)
    requires
        forall|i: int| 0 <= i < recs.len() ==> recs[i].path != k,
    ensures
        last_with_path(recs, k) is None,
    decreases recs.len(),
{
    if recs.len() > 0 {
        lemma_absent_path(recs.drop_last(), k);
    }
}

/// Skip-safety, catalog side: a file that was skipped — its record never
/// reached the writer — is absent from the catalog after the run, unless an
/// earlier run had already stored that path.
pub proof fn lemma_skipped_absent(m: CatalogModel, recs: Seq<RecordModel>, k: Seq<char>)
    requires
        !m.contains_key(k),
        forall|i: int| 0 <= i < recs.len() ==> recs[i].path != k,
    ensures
        !upsert_seq(m, recs).contains_key(k),
{
    lemma_absent_path(recs, k);
    lemma_upsert_key(m, recs, k);
}

/// Idempotence: applying the same batch twice is the same as applying it
/// once, so rescanning an unchanged tree keeps the same rows — same count,
/// same fingerprints — instead of accumulating duplicates.
pub proof fn lemma_upsert_idempotent(m: CatalogModel, recs: Seq<RecordModel>)
    ensures
        upsert_seq(upsert_seq(m, recs), recs) == upsert_seq(m, recs),
{
    let m1 = upsert_seq(m, recs);
    assert forall|k: Seq<char>|
        #[trigger] upsert_seq(m1, recs).contains_key(k) == m1.contains_key(k) && (
        m1.contains_key(k) ==> upsert_seq(m1, recs)[k] == m1[k]) by {
        lemma_upsert_key(m, recs, k);
        lemma_upsert_key(m1, recs, k);
    }
    assert(upsert_seq(m1, recs) =~= m1);
}

/// Applying a concatenation of two batches is applying one after the other,
/// which lets the whole run's effect be read off the per-batch transactions.
pub proof fn lemma_upsert_append(m: CatalogModel, a: Seq<RecordModel>, b: Seq<RecordModel>)
    ensures
        upsert_seq(m, a + b) == upsert_seq(upsert_seq(m, a), b),
    decreases b.len(),
{
    if b.len() == 0 {
        assert(a + b =~= a);
    } else {
        lemma_upsert_append(m, a, b.drop_last());
        assert((a + b).drop_last() =~= a + b.drop_last());
        assert((a + b).last() == b.last());
    }
}

/// Handle to the persistent catalog. It owns the store's single write
/// connection; every change goes through one atomic transaction per batch.
pub struct Database {
    conn: rusqlite::Connection,
    /// The abstract contents of the store: what the trusted operations below
    /// promise about their calls is stated over this map, on the
    /// understanding that this handle is the store's sole writer.
    contents: Ghost<CatalogModel>,
}

impl View for Database {
    type V = CatalogModel;

    closed spec fn view(&self) -> CatalogModel {
        self.contents@
    }
}

impl Database {
    /// Opens (or creates) the store at the given path and applies the
    /// performance pragmas. Relies on `rusqlite::Connection::open` and
    /// `rusqlite::Connection::execute_batch`; pragmas change no rows, and the
    /// rows found on disk form a finite table.
    #[verifier::external_body]
    pub fn new(path: &str) -> (r: Result<Database, PipelineError>)
        ensures
            r matches Ok(db) ==> db@.dom().finite(),
            r matches Err(e) ==> e == PipelineError::Persistence,
    {
        let conn = rusqlite::Connection::open(path).map_err(|_| PipelineError::Persistence)?;
        conn.execute_batch(
            "PRAGMA journal_mode = WAL; PRAGMA synchronous = NORMAL; PRAGMA temp_store = MEMORY; PRAGMA cache_size = -64000;",
        ).map_err(|_| PipelineError::Persistence)?;
        Ok(Database { conn, contents: Ghost(Map::empty()) })
    }

    /// Creates the `files` table — path unique, one row per path — and the
    /// lookup indexes, among them the composite `(size_bytes, md5_hash)` index
    /// that duplicate-candidate queries use. Existing rows are kept. Relies on
    /// `rusqlite::Connection::execute_batch`.
    #[verifier::external_body]
    pub fn init(&self) -> (r: Result<(), PipelineError>)
        ensures
            r matches Err(e) ==> e == PipelineError::Persistence,
    {
        self.conn.execute_batch(
            "CREATE TABLE IF NOT EXISTS files (id INTEGER PRIMARY KEY AUTOINCREMENT, path TEXT NOT NULL UNIQUE, filename TEXT NOT NULL, extension TEXT, size_bytes INTEGER NOT NULL, created_at INTEGER, modified_at INTEGER, md5_hash TEXT NOT NULL, sha256_hash TEXT, sha256_verified INTEGER DEFAULT 0); CREATE INDEX IF NOT EXISTS idx_path ON files(path); CREATE INDEX IF NOT EXISTS idx_filename ON files(filename); CREATE INDEX IF NOT EXISTS idx_extension ON files(extension); CREATE INDEX IF NOT EXISTS idx_size ON files(size_bytes); CREATE INDEX IF NOT EXISTS idx_md5 ON files(md5_hash); CREATE INDEX IF NOT EXISTS idx_dupe_check ON files(size_bytes, md5_hash);",
        ).map_err(|_| PipelineError::Persistence)
    }

    /// Writes one batch as a single transaction: every record replaces any
    /// row sharing its path (`INSERT OR REPLACE` against the unique `path`
    /// column), and the batch lands in the store all or nothing — on any
    /// failure the transaction is dropped, and rusqlite's `Transaction`
    /// rolls back on drop, so the store is exactly as before the call.
    /// Relies on `rusqlite::Connection::transaction`, `Transaction::prepare`,
    /// `Statement::execute` and `Transaction::commit`.
    #[verifier::external_body]
    pub fn insert_files(&mut self, files: &Vec<FileEntry>) -> (r: Result<(), PipelineError>)
        ensures
            r is Ok ==> final(self)@ == upsert_seq(old(self)@, views_of(files@)),
            r is Err ==> final(self)@ == old(self)@,
            r matches Err(e) ==> e == PipelineError::Persistence,
    {
        let tx = self.conn.transaction().map_err(|_| PipelineError::Persistence)?;
        {
            let mut stmt = tx.prepare(
                "INSERT OR REPLACE INTO files (path, filename, extension, size_bytes, created_at, modified_at, md5_hash, sha256_hash, sha256_verified) VALUES (?1, ?2, ?3, ?4, ?5, ?6, ?7, ?8, 0)",
            ).map_err(|_| PipelineError::Persistence)?;
            for f in files.iter() {
                stmt.execute((
                    &f.path, &f.filename, &f.extension, f.size_bytes as i64, f.created_at,
                    f.modified_at, &f.md5_hash, &f.sha256_hash,
                )).map_err(|_| PipelineError::Persistence)?;
            }
        }
        tx.commit().map_err(|_| PipelineError::Persistence)
    }

    /// Relies on `rusqlite::Connection::query_row` over `SELECT COUNT(*)`:
    /// the table holds one row per cataloged path.
    #[verifier::external_body]
    fn query_count(&self) -> (r: Result<usize, PipelineError>)
        ensures
            r matches Ok(n) ==> n == self@.dom().len(),
            r matches Err(e) ==> e == PipelineError::Persistence,
    {
        let n: i64 = self.conn.query_row("SELECT COUNT(*) FROM files", (), |row| row.get(0))
            .map_err(|_| PipelineError::Persistence)?;
        Ok(n as usize)
    }

    /// Relies on `rusqlite::Connection::query_row` over `SELECT ... WHERE
    /// path = ?1` (with `OptionalExtension::optional` for the no-row case):
    /// returns the stored row for the path, rebuilt as a record.
    #[verifier::external_body]
    fn query_path(&self, path: &str) -> (r: Result<Option<FileEntry>, PipelineError>)
        ensures
            r matches Ok(found) ==> match found {
                Some(e) => self@.contains_key(path@) && e@ == self@[path@],
                None => !self@.contains_key(path@),
            },
            r matches Err(e) ==> e == PipelineError::Persistence,
    {
        self.conn.query_row(
            "SELECT path, filename, extension, size_bytes, created_at, modified_at, md5_hash, sha256_hash FROM files WHERE path = ?1",
            (path,),
            |row| Ok(FileEntry {
                path: row.get(0)?, filename: row.get(1)?, extension: row.get(2)?,
                size_bytes: row.get::<_, i64>(3)? as u64, created_at: row.get(4)?, modified_at: row.get(5)?,
                md5_hash: row.get(6)?, sha256_hash: row.get(7)?,
            }),
        ).optional().map_err(|_| PipelineError::Persistence)
    }

    /// How many files the catalog holds: one row per path.
    pub fn row_count(&self) -> (r: Result<usize, PipelineError>)
        ensures
            r matches Ok(n) ==> n == self@.dom().len(),
            r matches Err(e) ==> e == PipelineError::Persistence,
    {
        self.query_count()
    }

    /// The cataloged record for a path, if the path has been cataloged.
    pub fn find_by_path(&self, path: &str) -> (r: Result<Option<FileEntry>, PipelineError>)
        ensures
            r matches Ok(found) ==> match found {
                Some(e) => self@.contains_key(path@) && e@ == self@[path@],
                None => !self@.contains_key(path@),
            },
            r matches Err(e) ==> e == PipelineError::Persistence,
    {
        self.query_path(path)
    }
}

} // verus!
