//! The archive reader: walks an archive's members in stored order,
//! materializes each as an extracted entry, records one progress event per
//! member, and honors cancellation at every member boundary.
//!
//! Before any member is materialized, every stored name is checked: a name
//! that could escape the extraction root (a `..` segment, an absolute path,
//! a `\`) rejects the whole archive.

use vstd::prelude::*;

verus! {

use crate::ErrorKind;
use crate::archive::{ZipHandle, archive_listing, archive_member_data, handle_bytes};
use crate::compress::{ProgressEvent, ProgressEventView, event_views};
use crate::paths::{SLASH, check_safe_path, is_safe_path};
use crate::state::SharedRun;
use crate::tree::EntryKind;

/// One materialized archive member: a relative path, a kind, and the
/// decompressed bytes (empty for directories).
pub struct Extracted {
    pub path: Vec<u8>,
    pub kind: EntryKind,
    pub data: Vec<u8>,
}

/// The mathematical value of an [`Extracted`].
#[verifier::ext_equal]
pub struct ExtractedView {
    pub path: Seq<u8>,
    pub kind: EntryKind,
    pub data: Seq<u8>,
}

impl View for Extracted {
    type V = ExtractedView;

    open spec fn view(&self) -> ExtractedView {
        ExtractedView { path: self.path@, kind: self.kind, data: self.data@ }
    }
}

/// The views of a sequence of extracted entries.
pub open spec fn extracted_views(s: Seq<Extracted>) -> Seq<ExtractedView> {
    s.map_values(|e: Extracted| e@)
}

/// The views of a list of byte vectors.
pub open spec fn byte_vec_views(s: Seq<Vec<u8>>) -> Seq<Seq<u8>> {
    s.map_values(|v: Vec<u8>| v@)
}

/// Whether a stored member name may be materialized: after stripping the
/// trailing `/` that marks a directory, it must be a safe relative path.
pub open spec fn stored_name_ok(s: Seq<u8>) -> bool {
    if s.len() > 0 && s[s.len() - 1] == SLASH {
        is_safe_path(s.drop_last())
    } else {
        is_safe_path(s)
    }
}

/// What a member with stored name `name` and decompressed bytes `data`
/// materializes as: a trailing `/` denotes a directory, which carries no
/// bytes; anything else is a file with exactly `data`.
pub open spec fn extracted_of(name: Seq<u8>, data: Seq<u8>) -> ExtractedView {
    if name.len() > 0 && name[name.len() - 1] == SLASH {
        ExtractedView { path: name.drop_last(), kind: EntryKind::Dir, data: Seq::empty() }
    } else {
        ExtractedView { path: name, kind: EntryKind::File, data }
    }
}

/// The first `k` members of the archive `bytes`, materialized.
pub open spec fn extract_views(bytes: Seq<u8>, k: int) -> Seq<ExtractedView> {
    Seq::new(
        k as nat,
        |i: int|
            extracted_of(
                archive_listing(bytes).unwrap()[i],
                archive_member_data(bytes, i).unwrap(),
            ),
    )
}

/// The events emitted for the first `k` members of the archive `bytes`.
pub open spec fn extract_events(bytes: Seq<u8>, total: nat, k: int) -> Seq<ProgressEventView> {
    Seq::new(
        k as nat,
        |i: int|
            ProgressEventView {
                processed: (i + 1) as nat,
                total: total,
                name: extracted_of(
                    archive_listing(bytes).unwrap()[i],
                    archive_member_data(bytes, i).unwrap(),
                ).path,
            },
    )
}

/// Every stored name of `listing` passes [`stored_name_ok`].
pub open spec fn all_names_ok(listing: Seq<Seq<u8>>) -> bool {
    forall|i: int| 0 <= i < listing.len() ==> stored_name_ok(#[trigger] listing[i])
}

/// A copy of `v` without its last byte.
fn drop_last_byte(v: &Vec<u8>) -> (r: Vec<u8>)
    requires
        v@.len() > 0,
    ensures
        r@ == v@.drop_last(),
{
    let mut r: Vec<u8> = Vec::new();
    let n = v.len() - 1;
    let mut i: usize = 0;
    while i < n
        invariant
            0 <= i <= n,
            n == v@.len() - 1,
            r@ == v@.take(i as int),
        decreases n - i,
    {
        r.push(v[i]);
        proof {
            assert(r@ =~= v@.take(i + 1 as int));
        }
        i = i + 1;
    }
    proof {
        assert(r@ =~= v@.drop_last());
    }
    r
}

/// Decide [`stored_name_ok`] on a concrete stored name.
pub fn check_stored_name(name: &Vec<u8>) -> (r: bool)
    ensures
        r == stored_name_ok(name@),
{
    if name.len() == 0 {
        return check_safe_path(name);
    }
    if name[name.len() - 1] == SLASH {
        let trimmed = drop_last_byte(name);
        check_safe_path(&trimmed)
    } else {
        check_safe_path(name)
    }
}

/// What one extraction step reported.
pub enum ExtractStep {
    /// The next member was materialized and its event recorded.
    Materialized,
    /// Reading the next member failed; the job can only be dropped.
    Failed(ErrorKind),
}

/// An in-flight extraction: the opened archive, its validated stored names,
/// and what has been materialized so far.
pub struct ExtractJob {
    handle: ZipHandle,
    names: Vec<Vec<u8>>,
    next: usize,
    failed: bool,
    out: Vec<Extracted>,
    events: Vec<ProgressEvent>,
}

impl ExtractJob {
    /// The container bytes this job reads.
    pub closed spec fn bytes_spec(self) -> Seq<u8> {
        handle_bytes(self.handle)
    }

    /// The archive's stored names.
    pub closed spec fn listing_spec(self) -> Seq<Seq<u8>> {
        archive_listing(self.bytes_spec()).unwrap()
    }

    /// How many members have been materialized.
    pub closed spec fn processed_spec(self) -> nat {
        self.next as nat
    }

    /// Whether a member read failed; a failed job can only be dropped.
    pub closed spec fn failed_spec(self) -> bool {
        self.failed
    }

    /// The archive is well formed, every stored name is safe, and what has
    /// been materialized so far is exactly the first `processed` members.
    pub closed spec fn wf(self) -> bool {
        &&& archive_listing(self.bytes_spec()) is Some
        &&& byte_vec_views(self.names@) == self.listing_spec()
        &&& all_names_ok(self.listing_spec())
        &&& self.next <= self.names@.len()
        &&& !self.failed ==> extracted_views(self.out@) == extract_views(
            self.bytes_spec(),
            self.next as int,
        )
        &&& !self.failed ==> event_views(self.events@) == extract_events(
            self.bytes_spec(),
            self.names@.len() as nat,
            self.next as int,
        )
    }

    /// Open an archive and validate every stored name, before anything is
    /// materialized. Fails exactly when the bytes are not a well-formed
    /// container or some stored name is unsafe; an unsafe name rejects the
    /// whole archive as `ArchiveFormatError` with nothing extracted.
    pub fn new(bytes: &Vec<u8>) -> (r: Result<ExtractJob, ErrorKind>)
        ensures
            r is Ok <==> archive_listing(bytes@) is Some && all_names_ok(
                archive_listing(bytes@).unwrap(),
            ),
            r is Ok ==> {
                &&& r.unwrap().wf()
                &&& !r.unwrap().failed_spec()
                &&& r.unwrap().processed_spec() == 0
                &&& r.unwrap().bytes_spec() == bytes@
            },
            r is Err && archive_listing(bytes@) is Some ==> r->Err_0
                == ErrorKind::ArchiveFormatError,
    {
        let handle = match ZipHandle::open(bytes) {
            Ok(h) => h,
            Err(k) => {
                return Err(k);
            },
        };
        let count = handle.count();
        let mut names: Vec<Vec<u8>> = Vec::new();
        let mut i: usize = 0;
        while i < count
            invariant
                0 <= i <= count,
                archive_listing(bytes@) is Some,
                handle_bytes(handle) == bytes@,
                count == archive_listing(bytes@).unwrap().len(),
                names@.len() == i,
                byte_vec_views(names@) == archive_listing(bytes@).unwrap().take(i as int),
                forall|j: int|
                    0 <= j < i ==> stored_name_ok(#[trigger] archive_listing(bytes@).unwrap()[j]),
            decreases count - i,
        {
            let name = match handle.name_at(i) {
                Ok(n) => n,
                Err(k) => {
                    return Err(k);
                },
            };
            if !check_stored_name(&name) {
                return Err(ErrorKind::ArchiveFormatError);
            }
            names.push(name);
            proof {
                assert(byte_vec_views(names@) =~= archive_listing(bytes@).unwrap().take(
                    i + 1 as int,
                ));
            }
            i = i + 1;
        }
        proof {
            assert(byte_vec_views(names@) =~= archive_listing(bytes@).unwrap());
        }
        let job = ExtractJob { handle, names, next: 0, failed: false, out: Vec::new(), events: Vec::new() };
        proof {
            assert(extracted_views(job.out@) =~= extract_views(bytes@, 0));
            assert(event_views(job.events@) =~= extract_events(
                bytes@,
                job.names@.len() as nat,
                0,
            ));
        }
        Ok(job)
    }

    /// Total number of members.
    pub fn total(&self) -> (r: usize)
        requires
            self.wf(),
        ensures
            r == self.listing_spec().len(),
    {
        self.names.len()
    }

    /// Members materialized so far.
    pub fn processed(&self) -> (r: usize)
        ensures
            r == self.processed_spec(),
    {
        self.next
    }

    /// Materialize the next member and record its progress event.
    pub fn step(&mut self) -> (r: ExtractStep)
        requires
            old(self).wf(),
            !old(self).failed_spec(),
            old(self).processed_spec() < old(self).listing_spec().len(),
        ensures
            final(self).wf(),
            final(self).bytes_spec() == old(self).bytes_spec(),
            match r {
                ExtractStep::Materialized => !final(self).failed_spec()
                    && final(self).processed_spec() == old(self).processed_spec() + 1,
                ExtractStep::Failed(_) => final(self).failed_spec()
                    && final(self).processed_spec() == old(self).processed_spec()
                    && archive_member_data(
                        old(self).bytes_spec(),
                        old(self).processed_spec() as int,
                    ) is None,
            },
    {
        let idx = self.next;
        let total = self.names.len();
        let data = match self.handle.read_data(idx) {
            Ok(d) => d,
            Err(k) => {
                self.failed = true;
                return ExtractStep::Failed(k);
            },
        };
        let name = &self.names[idx];
        let empty: Vec<u8> = Vec::new();
        proof {
            assert(byte_vec_views(self.names@)[idx as int] == name@);
            assert(stored_name_ok(self.listing_spec()[idx as int]));
            assert(name@.len() > 0);
        }
        let item: Extracted = if name[name.len() - 1] == SLASH {
            let path = drop_last_byte(name);
            Extracted { path, kind: EntryKind::Dir, data: Vec::new() }
        } else {
            let path = crate::tree::concat_bytes(name, &empty);
            proof {
                assert(path@ =~= name@);
            }
            Extracted { path, kind: EntryKind::File, data }
        };
        proof {
            assert(item@ =~~= extracted_of(
                self.listing_spec()[idx as int],
                archive_member_data(self.bytes_spec(), idx as int).unwrap(),
            ));
        }
        let event_name = crate::tree::concat_bytes(&item.path, &empty);
        proof {
            assert(event_name@ =~= item@.path);
        }
        let ev = ProgressEvent { processed: idx + 1, total, name: event_name };
        self.out.push(item);
        self.events.push(ev);
        self.next = idx + 1;
        proof {
            let bs = self.bytes_spec();
            let n = self.names@.len() as nat;
            let ls = self.listing_spec();
            assert(self.out@.len() == old(self).out@.len() + 1);
            assert(extracted_views(old(self).out@) == extract_views(bs, idx as int));
            assert(extracted_views(old(self).out@).len() == old(self).out@.len());
            assert(extract_views(bs, idx as int).len() == idx as nat);
            assert(old(self).out@.len() == idx as int);
            let ovs = extracted_views(self.out@);
            let xvs = extract_views(bs, idx + 1);
            assert(ovs.len() == xvs.len());
            assert forall|i: int| 0 <= i < ovs.len() implies ovs[i] == xvs[i] by {
                assert(ovs[i] == self.out@[i]@);
                if i < idx {
                    assert(self.out@[i] == old(self).out@[i]);
                    assert(extracted_views(old(self).out@)[i] == extract_views(bs, idx as int)[i]);
                } else {
                    assert(self.out@[i]@ =~~= extracted_of(
                        ls[i],
                        archive_member_data(bs, i).unwrap(),
                    ));
                }
            }
            assert(ovs =~= xvs);
            assert(self.events@.len() == old(self).events@.len() + 1);
            assert(event_views(old(self).events@) == extract_events(bs, n, idx as int));
            assert(event_views(old(self).events@).len() == old(self).events@.len());
            assert(extract_events(bs, n, idx as int).len() == idx as nat);
            assert(old(self).events@.len() == idx as int);
            let evs = event_views(self.events@);
            let xevs = extract_events(bs, n, idx + 1);
            assert(evs.len() == xevs.len());
            assert forall|i: int| 0 <= i < evs.len() implies evs[i] == xevs[i] by {
                assert(evs[i] == self.events@[i]@);
                if i < idx {
                    assert(self.events@[i] == old(self).events@[i]);
                    assert(event_views(old(self).events@)[i] == extract_events(
                        bs,
                        n,
                        idx as int,
                    )[i]);
                } else {
                    assert(self.events@[i]@ =~~= ProgressEventView {
                        processed: (i + 1) as nat,
                        total: n,
                        name: extracted_of(ls[i], archive_member_data(bs, i).unwrap()).path,
                    });
                }
            }
            assert(evs =~= xevs);
        }
        ExtractStep::Materialized
    }

    /// Stop before the next member, keeping what was already materialized.
    pub fn cancel(self) -> (r: (usize, Vec<Extracted>, Vec<ProgressEvent>))
        requires
            self.wf(),
            !self.failed_spec(),
        ensures
            r.0 == self.processed_spec(),
            extracted_views(r.1@) == extract_views(self.bytes_spec(), self.processed_spec() as int),
            event_views(r.2@) == extract_events(
                self.bytes_spec(),
                self.listing_spec().len(),
                self.processed_spec() as int,
            ),
    {
        (self.next, self.out, self.events)
    }

    /// Hand back everything materialized, once every member is done.
    pub fn finish(self) -> (r: (Vec<Extracted>, Vec<ProgressEvent>))
        requires
            self.wf(),
            !self.failed_spec(),
            self.processed_spec() == self.listing_spec().len(),
        ensures
            extracted_views(r.0@) == extract_views(
                self.bytes_spec(),
                self.listing_spec().len() as int,
            ),
            event_views(r.1@) == extract_events(
                self.bytes_spec(),
                self.listing_spec().len(),
                self.listing_spec().len() as int,
            ),
    {
        (self.out, self.events)
    }
}

/// How an extraction ended.
pub enum DecompressOutcome {
    /// Every member was materialized; the entries and all events.
    Success { entries: Vec<Extracted>, events: Vec<ProgressEvent> },
    /// Cancellation was observed after `processed` members; what was already
    /// materialized is kept.
    Aborted { processed: usize, entries: Vec<Extracted>, events: Vec<ProgressEvent> },
    /// The archive was rejected or a member could not be read; nothing
    /// beyond the already-reported events is handed out.
    Failure { kind: ErrorKind },
}

/// Extract every member of the archive `bytes`, checking the shared run
/// state once per member, before the member is materialized.
///
/// An archive holding any member whose stored path could escape the target
/// root is rejected whole: the result is a format failure and zero entries
/// are handed out.
pub fn run_decompress(bytes: &Vec<u8>, run: &SharedRun) -> (r: DecompressOutcome)
    ensures
        match r {
            DecompressOutcome::Success { entries, events } => {
                &&& archive_listing(bytes@) is Some
                &&& all_names_ok(archive_listing(bytes@).unwrap())
                &&& extracted_views(entries@) == extract_views(
                    bytes@,
                    archive_listing(bytes@).unwrap().len() as int,
                )
                &&& event_views(events@) == extract_events(
                    bytes@,
                    archive_listing(bytes@).unwrap().len(),
                    archive_listing(bytes@).unwrap().len() as int,
                )
            },
            DecompressOutcome::Aborted { processed, entries, events } => {
                &&& archive_listing(bytes@) is Some
                &&& processed <= archive_listing(bytes@).unwrap().len()
                &&& extracted_views(entries@) == extract_views(bytes@, processed as int)
                &&& event_views(events@) == extract_events(
                    bytes@,
                    archive_listing(bytes@).unwrap().len(),
                    processed as int,
                )
            },
            DecompressOutcome::Failure { kind: _ } => true,
        },
        archive_listing(bytes@) is Some && !all_names_ok(archive_listing(bytes@).unwrap()) ==> (
        r matches DecompressOutcome::Failure { kind } && kind == ErrorKind::ArchiveFormatError),
{
    let mut job = match ExtractJob::new(bytes) {
        Ok(j) => j,
        Err(k) => {
            return DecompressOutcome::Failure { kind: k };
        },
    };
    loop
        invariant
            job.wf(),
            !job.failed_spec(),
            job.bytes_spec() == bytes@,
        ensures
            job.wf(),
            !job.failed_spec(),
            job.bytes_spec() == bytes@,
            job.processed_spec() == job.listing_spec().len(),
        decreases job.listing_spec().len() - job.processed_spec(),
    {
        if job.processed() >= job.total() {
            break ;
        }
        let ab = match run.is_abort_requested() {
            Ok(b) => b,
            Err(k) => {
                return DecompressOutcome::Failure { kind: k };
            },
        };
        if ab {
            let (processed, entries, events) = job.cancel();
            return DecompressOutcome::Aborted { processed, entries, events };
        }
        match job.step() {
            ExtractStep::Materialized => {},
            ExtractStep::Failed(k) => {
                return DecompressOutcome::Failure { kind: k };
            },
        }
    }
    let (entries, events) = job.finish();
    DecompressOutcome::Success { entries, events }
}

/// The full lifecycle of one extraction: move the shared state to `Running`,
/// run the reader, and return the state to `Idle` on every path, whatever
/// the outcome.
///
/// A request while the state is not `Idle` (a second operation, or a
/// poisoned lock) fails with `ConcurrencyError` and touches nothing.
pub fn begin_decompress(bytes: &Vec<u8>, run: &SharedRun) -> (r: DecompressOutcome)
    ensures
        match r {
            DecompressOutcome::Success { entries, events } => {
                &&& archive_listing(bytes@) is Some
                &&& all_names_ok(archive_listing(bytes@).unwrap())
                &&& extracted_views(entries@) == extract_views(
                    bytes@,
                    archive_listing(bytes@).unwrap().len() as int,
                )
                &&& event_views(events@) == extract_events(
                    bytes@,
                    archive_listing(bytes@).unwrap().len(),
                    archive_listing(bytes@).unwrap().len() as int,
                )
            },
            DecompressOutcome::Aborted { processed, entries, events } => {
                &&& archive_listing(bytes@) is Some
                &&& processed <= archive_listing(bytes@).unwrap().len()
                &&& extracted_views(entries@) == extract_views(bytes@, processed as int)
                &&& event_views(events@) == extract_events(
                    bytes@,
                    archive_listing(bytes@).unwrap().len(),
                    processed as int,
                )
            },
            DecompressOutcome::Failure { kind: _ } => true,
        },
{
    match run.set_running() {
        Ok(true) => {},
        Ok(false) => {
            return DecompressOutcome::Failure { kind: ErrorKind::ConcurrencyError };
        },
        Err(k) => {
            return DecompressOutcome::Failure { kind: k };
        },
    }
    let r = run_decompress(bytes, run);
    let _ = run.reset_idle();
    r
}

/// The stored names of an archive's members, in stored order, without
/// materializing anything.
pub fn list_members(bytes: &Vec<u8>) -> (r: Result<Vec<Vec<u8>>, ErrorKind>)
    ensures
        r is Ok <==> archive_listing(bytes@) is Some,
        r is Ok ==> byte_vec_views(r.unwrap()@) == archive_listing(bytes@).unwrap(),
{
    let handle = match ZipHandle::open(bytes) {
        Ok(h) => h,
        Err(k) => {
            return Err(k);
        },
    };
    let count = handle.count();
    let mut names: Vec<Vec<u8>> = Vec::new();
    let mut i: usize = 0;
    while i < count
        invariant
            0 <= i <= count,
            archive_listing(bytes@) is Some,
            handle_bytes(handle) == bytes@,
            count == archive_listing(bytes@).unwrap().len(),
            names@.len() == i,
            byte_vec_views(names@) == archive_listing(bytes@).unwrap().take(i as int),
        decreases count - i,
    {
        let name = match handle.name_at(i) {
            Ok(n) => n,
            Err(_) => {
                return Err(ErrorKind::ArchiveFormatError);
            },
        };
        names.push(name);
        proof {
            assert(byte_vec_views(names@) =~= archive_listing(bytes@).unwrap().take(i + 1 as int));
        }
        i = i + 1;
    }
    proof {
        assert(byte_vec_views(names@) =~= archive_listing(bytes@).unwrap());
    }
    Ok(names)
}

} // verus!
