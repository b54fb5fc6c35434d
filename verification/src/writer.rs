//! The single consumer of the record stream. It accumulates records into
//! batches, commits each full batch as one atomic transaction, and hands a
//! progress snapshot back to its caller at a fixed cadence; a commit failure
//! is fatal and ends the run.
use vstd::prelude::*;
use vstd::arithmetic::div_mod::lemma_fundamental_div_mod_converse;
use crate::catalog::{upsert_seq, CatalogModel, Database, PipelineError};
use crate::models::{views_of, FileEntry, RecordModel};

verus! {

/// How many records a batch holds before it is committed as one transaction.
pub const BATCH_CAPACITY: usize = 1000;

/// How many records pass between two progress snapshots.
pub const PROGRESS_EVERY: usize = 10;

/// Where the scan stands: still running, or finished.
#[derive(Clone, Copy, Debug, PartialEq, Eq, Structural)]
pub enum ScanStatus {
    Running,
    Completed,
}

/// A point-in-time summary of scan progress, handed to the caller for an
/// external observer; it is never stored in the catalog.
#[derive(Clone, Debug)]
pub struct ProgressSnapshot {
    pub scanned: usize,
    pub total: Option<usize>,
    pub current_file: String,
    pub status: ScanStatus,
}

/// Mathematical image of a progress snapshot.
pub struct SnapshotModel {
    pub scanned: int,
    pub total: Option<int>,
    pub current_file: Seq<char>,
    pub status: ScanStatus,
}

impl View for ProgressSnapshot {
    type V = SnapshotModel;

    open spec fn view(&self) -> SnapshotModel {
        SnapshotModel {
            scanned: self.scanned as int,
            total: match self.total {
                Some(n) => Some(n as int),
                None => None,
            },
            current_file: self.current_file@,
            status: self.status,
        }
    }
}

/// Snapshots in emission order never report a shrinking count.
pub open spec fn snapshots_ordered(snaps: Seq<SnapshotModel>) -> bool {
    forall|i: int, j: int|
        0 <= i <= j < snaps.len() ==> snaps[i].scanned <= snaps[j].scanned
}

/// What a finished run hands back: the number of records cataloged, the
/// number of transactions it took, the terminal snapshot, and the catalog
/// handle itself.
pub struct ScanSummary {
    pub total: usize,
    pub commits: usize,
    pub last: ProgressSnapshot,
    pub catalog: Database,
}

/// The writer's whole state: the catalog handle it exclusively owns, the
/// batch being filled, and the running totals. The ghost fields record the
/// history the contracts speak of: every record accepted so far, the catalog
/// contents the run started from, and every snapshot handed out.
pub struct BatchWriter {
    pub db: Database,
    pub batch: Vec<FileEntry>,
    pub total: usize,
    pub commits: usize,
    pub batch_capacity: usize,
    pub progress_every: usize,
    pub accepted: Ghost<Seq<RecordModel>>,
    pub baseline: Ghost<CatalogModel>,
    pub emitted: Ghost<Seq<SnapshotModel>>,
}

/// With every full batch counted once, the number of commits can never pass
/// the number of committed records.
proof fn lemma_commits_below_total(c: int, k: int, t: int)
    requires
        t == c * k,
        k >= 1,
        c >= 0,
    ensures
        c <= t,
{
    assert(c * k >= c * 1) by (nonlinear_arith)
        requires
            k >= 1,
            c >= 0,
    ;
}

impl BatchWriter {
    /// Everything the writer keeps true between records: the batch never
    /// reaches its capacity outside a call, the totals add up, committed
    /// records are exactly the accepted ones up to `total` and stand in the
    /// catalog as their upsert, and the snapshot history is consistent.
    pub open spec fn wf(self) -> bool {
        &&& self.batch_capacity >= 1
        &&& self.progress_every >= 1
        &&& self.batch@.len() < self.batch_capacity
        &&& self.total + self.batch@.len() == self.accepted@.len()
        &&& self.accepted@.len() <= usize::MAX
        &&& self.total == self.commits * self.batch_capacity
        &&& self.accepted@.skip(self.total as int) == views_of(self.batch@)
        &&& self.db@ == upsert_seq(self.baseline@, self.accepted@.take(self.total as int))
        &&& snapshots_ordered(self.emitted@)
        &&& forall|i: int|
            0 <= i < self.emitted@.len() ==> (#[trigger] self.emitted@[i]).scanned
                <= self.accepted@.len()
        &&& forall|i: int|
            0 <= i < self.emitted@.len() ==> (#[trigger] self.emitted@[i]).status
                == ScanStatus::Running
    }

    /// A writer that has seen nothing yet, over the given catalog.
    pub fn new(db: Database, batch_capacity: usize, progress_every: usize) -> (w: BatchWriter)
        requires
            batch_capacity >= 1,
            progress_every >= 1,
        ensures
            w.wf(),
            w.accepted@ == Seq::<RecordModel>::empty(),
            w.emitted@ == Seq::<SnapshotModel>::empty(),
            w.baseline@ == db@,
            w.batch_capacity == batch_capacity,
            w.progress_every == progress_every,
            w.commits == 0,
    {
        let ghost base = db@;
        let w = BatchWriter {
            db,
            batch: Vec::new(),
            total: 0,
            commits: 0,
            batch_capacity,
            progress_every,
            accepted: Ghost(Seq::empty()),
            baseline: Ghost(base),
            emitted: Ghost(Seq::empty()),
        };
        proof {
            assert(w.accepted@.take(0) =~= Seq::<RecordModel>::empty());
            assert(w.accepted@.skip(0) =~= Seq::<RecordModel>::empty());
            crate::models::lemma_views_of_empty();
            assert(upsert_seq(base, Seq::<RecordModel>::empty()) == base);
            assert(w.commits * w.batch_capacity == 0) by (nonlinear_arith)
                requires
                    w.commits == 0,
            ;
        }
        w
    }

    /// How many records the writer has accepted so far.
    pub fn scanned_count(&self) -> (n: usize)
        requires
            self.wf(),
        ensures
            n == self.accepted@.len(),
    {
        self.total + self.batch.len()
    }

    /// Takes one record: it joins the batch, a snapshot is handed back
    /// whenever the running count reaches the progress cadence, and a full
    /// batch is committed to the catalog as one transaction. A failed commit
    /// is fatal and is returned to the caller.
    pub fn on_record(&mut self, entry: FileEntry) -> (r: Result<
        Option<ProgressSnapshot>,
        PipelineError,
    >)
        requires
            old(self).wf(),
            old(self).accepted@.len() < usize::MAX,
        ensures
            r matches Ok(snap) ==> {
                &&& final(self).wf()
                &&& final(self).accepted@ == old(self).accepted@.push(entry@)
                &&& final(self).baseline@ == old(self).baseline@
                &&& final(self).batch_capacity == old(self).batch_capacity
                &&& final(self).progress_every == old(self).progress_every
                &&& (snap is Some <==> (old(self).accepted@.len() as int + 1) % (
                old(self).progress_every as int) == 0)
                &&& match snap {
                    Some(s) => {
                        &&& s@.scanned == old(self).accepted@.len() + 1
                        &&& s@.total is None
                        &&& s@.current_file == entry.path@
                        &&& s@.status == ScanStatus::Running
                        &&& final(self).emitted@ == old(self).emitted@.push(s@)
                    },
                    None => final(self).emitted@ == old(self).emitted@,
                }
            },
            old(self).batch@.len() + 1 < old(self).batch_capacity ==> r is Ok,
            r is Err ==> {
                &&& final(self).db@ == old(self).db@
                &&& final(self).accepted@ == old(self).accepted@.push(entry@)
                &&& final(self).batch@ == old(self).batch@.push(entry)
                &&& final(self).total == old(self).total
                &&& final(self).commits == old(self).commits
            },
            r matches Err(e) ==> e == PipelineError::Persistence,
    {
        let ghost prev = *self;
        let current = entry.path.clone();
        self.batch.push(entry);
        proof {
            self.accepted@ = self.accepted@.push(entry@);
            crate::models::lemma_views_of_push(prev.batch@, entry);
            assert(self.accepted@.skip(self.total as int) =~= views_of(self.batch@));
            assert(self.accepted@.take(self.total as int) =~= prev.accepted@.take(
                self.total as int,
            ));
        }
        let scanned = self.total + self.batch.len();
        let snap: Option<ProgressSnapshot> = if scanned % self.progress_every == 0 {
            Some(
                ProgressSnapshot {
                    scanned,
                    total: None,
                    current_file: current,
                    status: ScanStatus::Running,
                },
            )
        } else {
            None
        };
        proof {
            match &snap {
                Some(s) => {
                    self.emitted@ = self.emitted@.push(s@);
                },
                None => {},
            }
        }
        if self.batch.len() >= self.batch_capacity {
            let ghost before = *self;
            match self.db.insert_files(&self.batch) {
                Ok(()) => {
                    proof {
                        crate::catalog::lemma_upsert_append(
                            self.baseline@,
                            before.accepted@.take(self.total as int),
                            views_of(before.batch@),
                        );
                        assert(before.accepted@.take(self.total as int) + views_of(before.batch@)
                            =~= self.accepted@.take(self.total as int + before.batch@.len() as int));
                    }
                    proof {
                        lemma_commits_below_total(
                            self.commits as int,
                            self.batch_capacity as int,
                            self.total as int,
                        );
                        assert((self.commits + 1) * self.batch_capacity == self.total
                            + self.batch_capacity) by (nonlinear_arith)
                            requires
                                self.total == self.commits * self.batch_capacity,
                        ;
                    }
                    self.total = self.total + self.batch.len();
                    self.commits = self.commits + 1;
                    self.batch.clear();
                    proof {
                        crate::models::lemma_views_of_empty();
                        assert(self.accepted@.skip(self.total as int) =~= Seq::<
                            RecordModel,
                        >::empty());
                    }
                },
                Err(e) => {
                    return Err(e);
                },
            }
        }
        Ok(snap)
    }

    /// Closes the run: any partial batch is flushed as a final transaction,
    /// and the terminal snapshot — status completed, count equal to the
    /// returned total — is handed back with the catalog. After a successful
    /// finish the catalog holds exactly the baseline upserted with every
    /// accepted record, the transaction count is the accepted count divided
    /// by the batch capacity rounded upward, and the full snapshot history,
    /// terminal snapshot included, never decreases.
    pub fn finish(self) -> (r: Result<ScanSummary, PipelineError>)
        requires
            self.wf(),
        ensures
            r matches Ok(s) ==> {
                &&& s.total == self.accepted@.len()
                &&& s.catalog@ == upsert_seq(self.baseline@, self.accepted@)
                &&& s.commits == if (self.accepted@.len() as int) % (self.batch_capacity as int) == 0 {
                    (self.accepted@.len() as int) / (self.batch_capacity as int)
                } else {
                    (self.accepted@.len() as int) / (self.batch_capacity as int) + 1
                }
                &&& s.last@.scanned == self.accepted@.len()
                &&& s.last@.total == Some(self.accepted@.len() as int)
                &&& s.last@.current_file == Seq::<char>::empty()
                &&& s.last@.status == ScanStatus::Completed
                &&& snapshots_ordered(self.emitted@.push(s.last@))
            },
            self.batch@.len() == 0 ==> r is Ok,
            r matches Err(e) ==> e == PipelineError::Persistence,
    {
        let mut w = self;
        if w.batch.len() > 0 {
            match w.db.insert_files(&w.batch) {
                Ok(()) => {
                    proof {
                        crate::catalog::lemma_upsert_append(
                            w.baseline@,
                            w.accepted@.take(w.total as int),
                            views_of(w.batch@),
                        );
                        assert(w.accepted@.take(w.total as int) + views_of(w.batch@)
                            =~= w.accepted@);
                        lemma_fundamental_div_mod_converse(
                            w.accepted@.len() as int,
                            w.batch_capacity as int,
                            w.commits as int,
                            w.batch@.len() as int,
                        );
                        lemma_commits_below_total(
                            w.commits as int,
                            w.batch_capacity as int,
                            w.total as int,
                        );
                    }
                    w.total = w.total + w.batch.len();
                    w.commits = w.commits + 1;
                },
                Err(e) => {
                    return Err(e);
                },
            }
        } else {
            proof {
                assert(w.accepted@.take(w.total as int) =~= w.accepted@);
                lemma_fundamental_div_mod_converse(
                    w.accepted@.len() as int,
                    w.batch_capacity as int,
                    w.commits as int,
                    0,
                );
            }
        }
        let last = ProgressSnapshot {
            scanned: w.total,
            total: Some(w.total),
            current_file: String::new(),
            status: ScanStatus::Completed,
        };
        Ok(
            ScanSummary {
                total: w.total,
                commits: w.commits,
                last,
                catalog: w.db,
            },
        )
    }
}

} // verus!
