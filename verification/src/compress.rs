//! The archive writer: consumes the walker's entries one at a time, writes
//! each into the container, records one progress event per entry, and honors
//! a cancellation request at every entry boundary.

use vstd::prelude::*;

verus! {

use crate::ErrorKind;
use crate::archive::{
    ArchiveBuilder,
    Method,
    archive_listing,
    archive_member_data,
    builder_members,
    member_names,
};
use crate::paths::SLASH;
use crate::state::SharedRun;
use crate::tree::{Entry, EntryKind, EntryView, FsNode, concat_bytes, entry_views, tree_entries, walk_tree};

/// An immutable progress snapshot, emitted once per processed entry.
pub struct ProgressEvent {
    /// Entries processed so far, this one included.
    pub processed: usize,
    /// Total entries known upfront.
    pub total: usize,
    /// The relative path of the entry just processed.
    pub name: Vec<u8>,
}

/// The mathematical value of a [`ProgressEvent`].
#[verifier::ext_equal]
pub struct ProgressEventView {
    pub processed: nat,
    pub total: nat,
    pub name: Seq<u8>,
}

impl View for ProgressEvent {
    type V = ProgressEventView;

    open spec fn view(&self) -> ProgressEventView {
        ProgressEventView {
            processed: self.processed as nat,
            total: self.total as nat,
            name: self.name@,
        }
    }
}

/// The views of a sequence of progress events.
pub open spec fn event_views(s: Seq<ProgressEvent>) -> Seq<ProgressEventView> {
    s.map_values(|e: ProgressEvent| e@)
}

/// The event emitted after entry `i` of `entries` (zero-based) is processed.
pub open spec fn progress_view(entries: Seq<EntryView>, total: nat, i: int) -> ProgressEventView {
    ProgressEventView { processed: (i + 1) as nat, total: total, name: entries[i].path }
}

/// The events emitted after the first `k` entries are processed, in order.
pub open spec fn progress_prefix(entries: Seq<EntryView>, total: nat, k: int) -> Seq<
    ProgressEventView,
> {
    Seq::new(k as nat, |i: int| progress_view(entries, total, i))
}

/// The name an entry is stored under: its relative path, with a trailing `/`
/// marking a directory.
pub open spec fn stored_name_of(e: EntryView) -> Seq<u8> {
    if e.kind is Dir {
        e.path + seq![SLASH]
    } else {
        e.path
    }
}

/// The bytes an entry stores: its data for a file, nothing for a directory.
pub open spec fn stored_data_of(e: EntryView) -> Seq<u8> {
    if e.kind is Dir {
        Seq::empty()
    } else {
        e.data
    }
}

/// The archive members a sequence of entries produces, in order.
pub open spec fn members_of_entries(es: Seq<EntryView>) -> Seq<(Seq<u8>, Seq<u8>)> {
    es.map_values(|e: EntryView| (stored_name_of(e), stored_data_of(e)))
}

/// What one write step reported.
pub enum StepStatus {
    /// The next entry was written and its progress event recorded.
    Wrote,
    /// Writing the next entry failed; the job can only be dropped.
    Failed(ErrorKind),
}

/// An in-flight compression: the remaining entries, the container under
/// construction, and the progress events recorded so far.
pub struct CompressJob {
    entries: Vec<Entry>,
    next: usize,
    failed: bool,
    builder: ArchiveBuilder,
    events: Vec<ProgressEvent>,
}

impl CompressJob {
    /// The entries this job was created over.
    pub closed spec fn entries_spec(self) -> Seq<EntryView> {
        entry_views(self.entries@)
    }

    /// How many entries have been written.
    pub closed spec fn processed_spec(self) -> nat {
        self.next as nat
    }

    /// Whether a write failed; a failed job can only be dropped.
    pub closed spec fn failed_spec(self) -> bool {
        self.failed
    }

    /// The members written so far and the events recorded so far are exactly
    /// those of the first `processed` entries.
    pub closed spec fn wf(self) -> bool {
        &&& self.next <= self.entries@.len()
        &&& !self.failed ==> builder_members(self.builder) == members_of_entries(
            entry_views(self.entries@),
        ).take(self.next as int)
        &&& !self.failed ==> event_views(self.events@) == progress_prefix(
            entry_views(self.entries@),
            self.entries@.len() as nat,
            self.next as int,
        )
    }

    /// Start a compression over `entries` with the given method.
    pub fn new(entries: Vec<Entry>, method: Method) -> (j: CompressJob)
        ensures
            j.wf(),
            !j.failed_spec(),
            j.processed_spec() == 0,
            j.entries_spec() == entry_views(entries@),
    {
        let j = CompressJob {
            entries,
            next: 0,
            failed: false,
            builder: ArchiveBuilder::new(method),
            events: Vec::new(),
        };
        proof {
            assert(members_of_entries(entry_views(j.entries@)).take(0)
                =~= Seq::<(Seq<u8>, Seq<u8>)>::empty());
            assert(event_views(j.events@) =~= progress_prefix(
                entry_views(j.entries@),
                j.entries@.len() as nat,
                0,
            ));
        }
        j
    }

    /// Total number of entries.
    pub fn total(&self) -> (r: usize)
        ensures
            r == self.entries_spec().len(),
    {
        self.entries.len()
    }

    /// Entries written so far.
    pub fn processed(&self) -> (r: usize)
        ensures
            r == self.processed_spec(),
    {
        self.next
    }

    /// Write the next entry and record its progress event.
    pub fn step(&mut self) -> (r: StepStatus)
        requires
            old(self).wf(),
            !old(self).failed_spec(),
            old(self).processed_spec() < old(self).entries_spec().len(),
        ensures
            final(self).wf(),
            final(self).entries_spec() == old(self).entries_spec(),
            match r {
                StepStatus::Wrote => !final(self).failed_spec() && final(self).processed_spec()
                    == old(self).processed_spec() + 1,
                StepStatus::Failed(_) => final(self).failed_spec() && final(self).processed_spec()
                    == old(self).processed_spec(),
            },
    {
        let idx = self.next;
        let total = self.entries.len();
        let empty: Vec<u8> = Vec::new();
        let kind = self.entries[idx].kind;
        let path = concat_bytes(&self.entries[idx].path, &empty);
        proof {
            assert(path@ =~= entry_views(self.entries@)[idx as int].path);
        }
        let res: Result<(), ErrorKind> = match kind {
            EntryKind::Dir => {
                let mut stored = concat_bytes(&self.entries[idx].path, &empty);
                stored.push(SLASH);
                proof {
                    assert(stored@ =~= stored_name_of(entry_views(self.entries@)[idx as int]));
                }
                self.builder.add_dir(&stored)
            },
            EntryKind::File => {
                let data = concat_bytes(&self.entries[idx].data, &empty);
                proof {
                    assert(path@ =~= stored_name_of(entry_views(self.entries@)[idx as int]));
                    assert(data@ =~= stored_data_of(entry_views(self.entries@)[idx as int]));
                }
                self.builder.add_file(&path, &data)
            },
        };
        match res {
            Ok(()) => {
                self.next = idx + 1;
                self.events.push(ProgressEvent { processed: idx + 1, total, name: path });
                proof {
                    let es = entry_views(self.entries@);
                    let ms = members_of_entries(es);
                    let n = self.entries@.len() as nat;
                    assert(ms[idx as int] == (stored_name_of(es[idx as int]), stored_data_of(
                        es[idx as int],
                    )));
                    assert(builder_members(self.builder) =~= ms.take(idx + 1));
                    let evs = event_views(self.events@);
                    let pp = progress_prefix(es, n, idx + 1);
                    assert(self.events@.len() == old(self).events@.len() + 1);
                    assert(event_views(old(self).events@).len() == old(self).events@.len());
                    assert(event_views(old(self).events@) == progress_prefix(
                        es,
                        n,
                        idx as int,
                    ));
                    assert(old(self).events@.len() == idx as int);
                    assert(evs.len() == self.events@.len());
                    assert(pp.len() == idx + 1);
                    assert(evs.len() == pp.len());
                    assert forall|i: int| 0 <= i < evs.len() implies evs[i] == pp[i] by {
                        assert(evs[i] == self.events@[i]@);
                        assert(pp[i] == progress_view(es, n, i));
                        if i < idx {
                            assert(self.events@[i] == old(self).events@[i]);
                            assert(event_views(old(self).events@)[i] == progress_prefix(
                                es,
                                n,
                                idx as int,
                            )[i]);
                        } else {
                            assert(self.events@[i]@.name =~= es[i].path);
                            assert(self.events@[i]@ =~~= progress_view(es, n, i));
                        }
                    }
                    assert(evs =~= pp);
                }
                StepStatus::Wrote
            },
            Err(k) => {
                self.failed = true;
                StepStatus::Failed(k)
            },
        }
    }

    /// Stop before the next entry, discarding the partial container, and
    /// hand back how many entries were written and their events.
    pub fn cancel(self) -> (r: (usize, Vec<ProgressEvent>))
        requires
            self.wf(),
            !self.failed_spec(),
        ensures
            r.0 == self.processed_spec(),
            event_views(r.1@) == progress_prefix(
                self.entries_spec(),
                self.entries_spec().len(),
                self.processed_spec() as int,
            ),
    {
        (self.next, self.events)
    }

    /// Write the trailing directory structure and hand back the container
    /// bytes and all events.
    pub fn finish(self) -> (r: Result<(Vec<u8>, Vec<ProgressEvent>), ErrorKind>)
        requires
            self.wf(),
            !self.failed_spec(),
            self.processed_spec() == self.entries_spec().len(),
        ensures
            r is Ok ==> archive_listing(r.unwrap().0@) == Some(
                member_names(members_of_entries(self.entries_spec())),
            ),
            r is Ok ==> forall|i: int|
                0 <= i < self.entries_spec().len() ==> archive_member_data(r.unwrap().0@, i)
                    == Some(members_of_entries(self.entries_spec())[i].1),
            r is Ok ==> event_views(r.unwrap().1@) == progress_prefix(
                self.entries_spec(),
                self.entries_spec().len(),
                self.entries_spec().len() as int,
            ),
    {
        proof {
            assert(members_of_entries(entry_views(self.entries@)).take(self.next as int)
                =~= members_of_entries(entry_views(self.entries@)));
        }
        match self.builder.finish() {
            Ok(bytes) => Ok((bytes, self.events)),
            Err(k) => Err(k),
        }
    }
}

/// How a compression ended.
pub enum CompressOutcome {
    /// Every entry was written; the container bytes and all events.
    Success { archive: Vec<u8>, events: Vec<ProgressEvent> },
    /// Cancellation was observed after `processed` entries; no container
    /// bytes are produced.
    Aborted { processed: usize, events: Vec<ProgressEvent> },
    /// Writing failed; the partial container is discarded.
    Failure { kind: ErrorKind },
}

/// Compress `entries` into a fresh container, checking the shared run state
/// once per entry, before the entry is written.
///
/// On `Success` the container's listing holds exactly one member per entry,
/// in walk order, with the entry's bytes; on `Aborted` exactly the first
/// `processed` entries were written and their events recorded.
pub fn run_compress(entries: Vec<Entry>, method: Method, run: &SharedRun) -> (r: CompressOutcome)
    ensures
        match r {
            CompressOutcome::Success { archive, events } => {
                &&& archive_listing(archive@) == Some(
                    member_names(members_of_entries(entry_views(entries@))),
                )
                &&& forall|i: int|
                    0 <= i < entries@.len() ==> archive_member_data(archive@, i) == Some(
                        members_of_entries(entry_views(entries@))[i].1,
                    )
                &&& event_views(events@) == progress_prefix(
                    entry_views(entries@),
                    entries@.len() as nat,
                    entries@.len() as int,
                )
            },
            CompressOutcome::Aborted { processed, events } => {
                &&& processed <= entries@.len()
                &&& event_views(events@) == progress_prefix(
                    entry_views(entries@),
                    entries@.len() as nat,
                    processed as int,
                )
            },
            CompressOutcome::Failure { kind: _ } => true,
        },
{
    let ghost es = entry_views(entries@);
    let mut job = CompressJob::new(entries, method);
    loop
        invariant
            job.wf(),
            !job.failed_spec(),
            job.entries_spec() == es,
            es == entry_views(entries@),
        ensures
            job.wf(),
            !job.failed_spec(),
            job.entries_spec() == es,
            job.processed_spec() == es.len(),
        decreases es.len() - job.processed_spec(),
    {
        if job.processed() >= job.total() {
            break ;
        }
        let ab = match run.is_abort_requested() {
            Ok(b) => b,
            Err(k) => {
                return CompressOutcome::Failure { kind: k };
            },
        };
        if ab {
            let (processed, events) = job.cancel();
            return CompressOutcome::Aborted { processed, events };
        }
        match job.step() {
            StepStatus::Wrote => {},
            StepStatus::Failed(k) => {
                return CompressOutcome::Failure { kind: k };
            },
        }
    }
    match job.finish() {
        Ok((archive, events)) => CompressOutcome::Success { archive, events },
        Err(k) => CompressOutcome::Failure { kind: k },
    }
}

/// The full lifecycle of one compression: move the shared state to
/// `Running`, run the writer, and return the state to `Idle` on every path,
/// whatever the outcome.
///
/// A request while the state is not `Idle` (a second operation, or a
/// poisoned lock) fails with `ConcurrencyError` and touches nothing.
pub fn begin_compress(entries: Vec<Entry>, method: Method, run: &SharedRun) -> (r: CompressOutcome)
    ensures
        match r {
            CompressOutcome::Success { archive, events } => {
                &&& archive_listing(archive@) == Some(
                    member_names(members_of_entries(entry_views(entries@))),
                )
                &&& forall|i: int|
                    0 <= i < entries@.len() ==> archive_member_data(archive@, i) == Some(
                        members_of_entries(entry_views(entries@))[i].1,
                    )
                &&& event_views(events@) == progress_prefix(
                    entry_views(entries@),
                    entries@.len() as nat,
                    entries@.len() as int,
                )
            },
            CompressOutcome::Aborted { processed, events } => {
                &&& processed <= entries@.len()
                &&& event_views(events@) == progress_prefix(
                    entry_views(entries@),
                    entries@.len() as nat,
                    processed as int,
                )
            },
            CompressOutcome::Failure { kind: _ } => true,
        },
{
    match run.set_running() {
        Ok(true) => {},
        Ok(false) => {
            return CompressOutcome::Failure { kind: ErrorKind::ConcurrencyError };
        },
        Err(k) => {
            return CompressOutcome::Failure { kind: k };
        },
    }
    let r = run_compress(entries, method, run);
    let _ = run.reset_idle();
    r
}

/// Walk a source tree and compress everything reachable from it, with the
/// same lifecycle as [`begin_compress`].
///
/// On `Success` the archive lists exactly one member per entry of the walk,
/// in walk order, holding that entry's bytes.
pub fn begin_compress_tree(root: &Vec<FsNode>, method: Method, run: &SharedRun) -> (r:
    CompressOutcome)
    ensures
        match r {
            CompressOutcome::Success { archive, events } => {
                &&& archive_listing(archive@) == Some(
                    member_names(members_of_entries(tree_entries(root@))),
                )
                &&& forall|i: int|
                    0 <= i < tree_entries(root@).len() ==> #[trigger] archive_member_data(
                        archive@,
                        i,
                    ) == Some(members_of_entries(tree_entries(root@))[i].1)
                &&& event_views(events@) == progress_prefix(
                    tree_entries(root@),
                    tree_entries(root@).len(),
                    tree_entries(root@).len() as int,
                )
            },
            CompressOutcome::Aborted { processed, events } => {
                &&& processed <= tree_entries(root@).len()
                &&& event_views(events@) == progress_prefix(
                    tree_entries(root@),
                    tree_entries(root@).len(),
                    processed as int,
                )
            },
            CompressOutcome::Failure { kind: _ } => true,
        },
{
    let entries = walk_tree(root);
    begin_compress(entries, method, run)
}

} // verus!
