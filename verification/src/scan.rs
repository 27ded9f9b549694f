//! The bookkeeping of a scan: which worker takes the next file, how many
//! files were handed out, and what becomes of each result that comes back.

use crate::aggregate::contents_of;
use crate::aggregate::lemma_order_fixes_sequence;
use crate::aggregate::paths_differ;
use crate::aggregate::records_in_order;
use crate::aggregate::FileAggregateDateList;
use crate::record::CollectDateError;
use crate::record::FileDateList;
use vstd::prelude::*;

verus! {

/// The turn of the workers of a pool: each file goes to the worker whose
/// turn it is, and the turn passes to the next worker, from the last back
/// to the first.
pub struct RoundRobin {
    workers: usize,
    next: usize,
}

impl RoundRobin {
    /// The number of workers.
    pub closed spec fn spec_workers(&self) -> usize {
        self.workers
    }

    /// The worker whose turn it is.
    pub closed spec fn spec_next(&self) -> usize {
        self.next
    }

    /// Whether there is a worker and the turn is that of one of them.
    pub open spec fn wf(&self) -> bool {
        0 < self.workers() && self.next() < self.workers()
    }

    /// The turns after one more file.
    pub closed spec fn spec_sent(&self) -> RoundRobin {
        RoundRobin { workers: self.workers, next: ((self.next + 1) % (self.workers as int)) as usize }
    }

    /// The turns after `files` more files.
    pub open spec fn after(&self, files: nat) -> RoundRobin
        decreases files,
    {
        if files == 0 {
            *self
        } else {
            self.after((files - 1) as nat).spec_sent()
        }
    }

    /// The turns of `thread_count` workers before any file.
    pub closed spec fn spec_new(thread_count: usize) -> RoundRobin {
        RoundRobin { workers: thread_count, next: 0 }
    }

    /// After `files` files the turn is that of the worker `files` modulo
    /// the number of workers, and the number of workers is what it was.
    pub proof fn lemma_turn_after(thread_count: usize, files: nat)
        requires
            thread_count > 0,
        ensures
            RoundRobin::spec_new(thread_count).after(files).wf(),
            RoundRobin::spec_new(thread_count).after(files).workers() == thread_count,
            RoundRobin::spec_new(thread_count).after(files).next() == files % (thread_count as nat),
        decreases files,
    {
        if files > 0 {
            RoundRobin::lemma_turn_after(thread_count, (files - 1) as nat);
            let n = thread_count as int;
            let f = files as int;
            vstd::arithmetic::div_mod::lemma_add_mod_noop_right(1, f - 1, n);
            assert((1 + (f - 1) % n) % n == f % n);
        }
    }

    /// Creates the turns of `thread_count` workers: the first file goes to
    /// worker 0.
    #[verifier::when_used_as_spec(spec_new)]
    pub fn new(thread_count: usize) -> (turns: RoundRobin)
        requires
            thread_count > 0,
        ensures
            turns == RoundRobin::spec_new(thread_count),
            turns.wf(),
            turns.workers() == thread_count,
            turns.next() == 0,
    {
        RoundRobin { workers: thread_count, next: 0 }
    }

    /// The number of workers.
    #[verifier::when_used_as_spec(spec_workers)]
    pub fn workers(&self) -> (workers: usize)
        ensures
            workers == self.spec_workers(),
    {
        self.workers
    }

    /// The worker whose turn it is.
    #[verifier::when_used_as_spec(spec_next)]
    pub fn next(&self) -> (next: usize)
        ensures
            next == self.spec_next(),
    {
        self.next
    }

    /// Names the worker that takes the next file and passes the turn on.
    pub fn send(&mut self) -> (worker: usize)
        requires
            old(self).wf(),
        ensures
            worker == old(self).next(),
            *final(self) == old(self).spec_sent(),
            final(self).wf(),
            final(self).workers() == old(self).workers(),
            final(self).next() == (old(self).next() + 1) % (old(self).workers() as int),
    {
        let worker = self.next;
        self.next = if self.next == self.workers - 1 {
            0
        } else {
            self.next + 1
        };
        proof {
            let n = old(self).workers as int;
            let c = old(self).next as int;
            if c == n - 1 {
                assert((c + 1) % n == 0) by (nonlinear_arith)
                    requires
                        c + 1 == n,
                        n > 0,
                ;
            } else {
                assert((c + 1) % n == c + 1) by (nonlinear_arith)
                    requires
                        0 <= c + 1 < n,
                ;
            }
        }
        worker
    }
}

/// What a look at the results of the workers gave.
pub enum ScanEvent {
    /// No result is ready yet.
    Nothing,
    /// A file was read: here are its dates.
    Parsed(FileDateList),
    /// A file could not be read.
    Failed(CollectDateError),
}

/// What to do with an entry of the tree.
#[derive(Copy, Clone, Debug, PartialEq, Eq, Structural)]
pub enum WalkStep {
    /// The entry is a directory: go through its entries.
    Descend,
    /// The entry is a file: hand it to the pool.
    Dispatch,
}

/// The state of a scan: the number of files handed to the pool, the number
/// of results that were dropped, and the records that were kept.
pub struct Scan {
    dispatched: usize,
    discarded: usize,
    files: FileAggregateDateList,
}

impl Scan {
    /// The number of files handed to the pool.
    pub closed spec fn spec_dispatched(&self) -> usize {
        self.dispatched
    }

    /// The number of results that were dropped: files without dates and
    /// files without text.
    pub closed spec fn spec_discarded(&self) -> usize {
        self.discarded
    }

    /// The aggregate of the records that were kept.
    pub closed spec fn spec_kept(&self) -> FileAggregateDateList {
        self.files
    }

    /// The records that were kept, in the order of records.
    pub open spec fn spec_files(&self) -> Seq<FileDateList> {
        self.spec_kept()@
    }

    /// The number of records that the scan still expects to end with: the
    /// files handed out less the results dropped.
    pub open spec fn expected(&self) -> int {
        self.dispatched() - self.discarded()
    }

    /// The number of files whose result has not come back yet.
    pub open spec fn outstanding(&self) -> int {
        self.dispatched() - self.discarded() - self.spec_files().len()
    }

    /// Whether every result that came back was counted once, as kept or as
    /// dropped, the kept records are in order and each of them has dates.
    pub open spec fn wf(&self) -> bool {
        &&& self.outstanding() >= 0
        &&& self.spec_kept().wf()
        &&& forall|i: int|
            0 <= i < self.spec_files().len() ==> (#[trigger] self.spec_files()[i]).spec_dates()@.len()
                > 0
    }

    /// Whether the result of every file that was handed out has come back.
    pub open spec fn spec_is_drained(&self) -> bool {
        self.outstanding() == 0
    }

    /// Once a scan is drained, every file that was handed out is accounted
    /// for: its record was kept or its result was dropped.
    pub proof fn lemma_drained_accounts_for_all(&self)
        requires
            self.wf(),
            self.is_drained(),
        ensures
            self.spec_files().len() + self.discarded() == self.dispatched(),
    {
    }

    /// Two scans that kept records which say the same, of files of
    /// different paths, kept them in the same sequence: in whatever order
    /// the results came back, and however many workers read the files.
    pub proof fn lemma_arrival_order(&self, other: &Scan)
        requires
            self.wf(),
            other.wf(),
            paths_differ(self.spec_files()),
            contents_of(self.spec_files()).to_multiset() == contents_of(
                other.spec_files(),
            ).to_multiset(),
        ensures
            contents_of(self.spec_files()) == contents_of(other.spec_files()),
    {
        self.spec_kept().lemma_in_order();
        other.spec_kept().lemma_in_order();
        lemma_order_fixes_sequence(self.spec_files(), other.spec_files());
    }

    /// Starts a scan: no file was handed out and no result has come back.
    pub fn new() -> (scan: Scan)
        ensures
            scan.wf(),
            scan.dispatched() == 0,
            scan.discarded() == 0,
            scan.spec_files() == Seq::<FileDateList>::empty(),
            scan.is_drained(),
    {
        Scan { dispatched: 0, discarded: 0, files: FileAggregateDateList::new() }
    }

    /// The number of files handed to the pool.
    #[verifier::when_used_as_spec(spec_dispatched)]
    pub fn dispatched(&self) -> (dispatched: usize)
        ensures
            dispatched == self.spec_dispatched(),
    {
        self.dispatched
    }

    /// The number of results that were dropped.
    #[verifier::when_used_as_spec(spec_discarded)]
    pub fn discarded(&self) -> (discarded: usize)
        ensures
            discarded == self.spec_discarded(),
    {
        self.discarded
    }

    /// The number of records that were kept.
    pub fn kept(&self) -> (kept: usize)
        ensures
            kept == self.spec_files().len(),
    {
        self.files.len()
    }

    /// Whether the result of every file that was handed out has come back.
    #[verifier::when_used_as_spec(spec_is_drained)]
    pub fn is_drained(&self) -> (drained: bool)
        requires
            self.wf(),
        ensures
            drained == self.spec_is_drained(),
    {
        self.files.len() == self.dispatched - self.discarded
    }

    /// Decides what to do with an entry of the tree: a directory is gone
    /// through, a file is handed to the pool and counted.
    pub fn visit(&mut self, is_directory: bool) -> (step: WalkStep)
        requires
            old(self).wf(),
            old(self).dispatched() < usize::MAX,
        ensures
            final(self).wf(),
            final(self).discarded() == old(self).discarded(),
            final(self).spec_files() == old(self).spec_files(),
            is_directory ==> step == WalkStep::Descend && final(self).dispatched() == old(
                self,
            ).dispatched(),
            !is_directory ==> step == WalkStep::Dispatch && final(self).dispatched() == old(
                self,
            ).dispatched() + 1,
    {
        if is_directory {
            WalkStep::Descend
        } else {
            self.dispatched = self.dispatched + 1;
            WalkStep::Dispatch
        }
    }

    /// Takes in what a look at the results gave. A record with dates is
    /// kept. A record without dates and a file without text are dropped
    /// and counted as dropped. Any other failure ends the scan with that
    /// error. Nothing changes where no result was ready.
    pub fn collect(&mut self, event: ScanEvent) -> (r: Result<(), CollectDateError>)
        requires
            old(self).wf(),
            event !is Nothing ==> !old(self).is_drained(),
        ensures
            final(self).wf(),
            final(self).dispatched() == old(self).dispatched(),
            match event {
                ScanEvent::Nothing => {
                    &&& r is Ok
                    &&& final(self).discarded() == old(self).discarded()
                    &&& final(self).spec_files() == old(self).spec_files()
                },
                ScanEvent::Parsed(record) => {
                    &&& r is Ok
                    &&& if record.spec_dates()@.len() > 0 {
                        &&& final(self).discarded() == old(self).discarded()
                        &&& exists|at: int|
                            0 <= at <= old(self).spec_files().len() && final(self).spec_files()
                                == old(self).spec_files().insert(at, record)
                    } else {
                        &&& final(self).discarded() == old(self).discarded() + 1
                        &&& final(self).spec_files() == old(self).spec_files()
                    }
                },
                ScanEvent::Failed(error) => {
                    &&& final(self).spec_files() == old(self).spec_files()
                    &&& if error == CollectDateError::InvalidData {
                        r is Ok && final(self).discarded() == old(self).discarded() + 1
                    } else {
                        r == Err::<(), CollectDateError>(error) && final(self).discarded() == old(
                            self,
                        ).discarded()
                    }
                },
            },
    {
        match event {
            ScanEvent::Nothing => Ok(()),
            ScanEvent::Parsed(record) => {
                if record.dates().is_empty() {
                    self.discarded = self.discarded + 1;
                } else {
                    let ghost before = self.files@;
                    let at = self.files.push(record);
                    proof {
                        let after = self.files@;
                        assert forall|i: int| 0 <= i < after.len() implies (#[trigger] after[i])
                            .spec_dates()@.len() > 0 by {
                            if i < at {
                                assert(after[i] == before[i]);
                            } else if i > at {
                                assert(after[i] == before[i - 1]);
                            }
                        }
                    }
                }
                Ok(())
            },
            ScanEvent::Failed(error) => {
                match error {
                    CollectDateError::InvalidData => {
                        self.discarded = self.discarded + 1;
                        Ok(())
                    },
                    _ => Err(error),
                }
            },
        }
    }

    /// Ends a drained scan and hands out the records that were kept, in the
    /// order of records.
    pub fn finish(self) -> (files: FileAggregateDateList)
        requires
            self.wf(),
            self.is_drained(),
        ensures
            files.wf(),
            records_in_order(files@),
            files@ == self.spec_files(),
            files@.len() + self.discarded() == self.dispatched(),
    {
        proof {
            self.files.lemma_in_order();
        }
        self.files
    }
}

} // verus!
