//! The upload manager: a durable queue of assembled pings, driven one job
//! at a time against a pluggable uploader capability.
//!
//! The host (or a test) runs the delivery loop: it takes the oldest job
//! with [`UploadManager::next_job`], performs the transport call itself,
//! and reports the result through [`UploadManager::process_outcome`].  A
//! job leaves the queue only on success or on a permanent drop, so an
//! upload abandoned mid-flight is retried after a restart.

use vstd::prelude::*;
use crate::storage::{EntryModel, StorageEntry};

verus! {

/// An HTTP-style header attached to an upload.
#[derive(Debug)]
pub struct Header {
    pub name: String,
    pub value: String,
}

/// Model of a [`Header`].
#[verifier::ext_equal]
pub struct HeaderModel {
    pub name: Seq<char>,
    pub value: Seq<char>,
}

impl View for Header {
    type V = HeaderModel;

    open spec fn view(&self) -> HeaderModel {
        HeaderModel { name: self.name@, value: self.value@ }
    }
}

impl DeepView for Header {
    type V = HeaderModel;

    open spec fn deep_view(&self) -> HeaderModel {
        self.view()
    }
}

impl Clone for Header {
    fn clone(&self) -> (r: Self)
        ensures
            r@ == self@,
    {
        Header { name: self.name.clone(), value: self.value.clone() }
    }
}

/// One assembled ping: its identity, bookkeeping, and the snapshot it
/// carries.
#[derive(Debug)]
pub struct PingRequest {
    pub document_id: String,
    pub ping_name: String,
    pub seqno: u64,
    pub reason: String,
    pub collection_time: u64,
    pub entries: Vec<StorageEntry>,
}

/// Model of a [`PingRequest`].
#[verifier::ext_equal]
pub struct PingRequestModel {
    pub document_id: Seq<char>,
    pub ping_name: Seq<char>,
    pub seqno: u64,
    pub reason: Seq<char>,
    pub collection_time: u64,
    pub entries: Seq<EntryModel>,
}

impl View for PingRequest {
    type V = PingRequestModel;

    open spec fn view(&self) -> PingRequestModel {
        PingRequestModel {
            document_id: self.document_id@,
            ping_name: self.ping_name@,
            seqno: self.seqno,
            reason: self.reason@,
            collection_time: self.collection_time,
            entries: self.entries.deep_view(),
        }
    }
}

/// Copies a snapshot, preserving its model.
pub fn clone_entry_vec(v: &Vec<StorageEntry>) -> (r: Vec<StorageEntry>)
    ensures
        r.deep_view() == v.deep_view(),
{
    let mut r: Vec<StorageEntry> = Vec::new();
    let n = v.len();
    let mut i: usize = 0;
    while i < n
        invariant
            n == v.len(),
            i <= n,
            r.len() == i,
            forall|k: int| 0 <= k < i ==> r.deep_view()[k] == v.deep_view()[k],
        decreases n - i,
    {
        let e = v[i].clone();
        r.push(e);
        i += 1;
    }
    proof {
        assert(r.deep_view() =~= v.deep_view());
    }
    r
}

fn clone_header_vec(v: &Vec<Header>) -> (r: Vec<Header>)
    ensures
        r.deep_view() == v.deep_view(),
{
    let mut r: Vec<Header> = Vec::new();
    let n = v.len();
    let mut i: usize = 0;
    while i < n
        invariant
            n == v.len(),
            i <= n,
            r.len() == i,
            forall|k: int| 0 <= k < i ==> r.deep_view()[k] == v.deep_view()[k],
        decreases n - i,
    {
        let h = v[i].clone();
        r.push(h);
        i += 1;
    }
    proof {
        assert(r.deep_view() =~= v.deep_view());
    }
    r
}

impl Clone for PingRequest {
    fn clone(&self) -> (r: Self)
        ensures
            r@ == self@,
    {
        PingRequest {
            document_id: self.document_id.clone(),
            ping_name: self.ping_name.clone(),
            seqno: self.seqno,
            reason: self.reason.clone(),
            collection_time: self.collection_time,
            entries: clone_entry_vec(&self.entries),
        }
    }
}

/// A queued upload: the request, its serialized body, where it goes, and
/// how often it has been attempted.  The queued body is the plain
/// serialized document; a host that compresses for transport does so
/// inside its uploader capability and must not alter the document
/// itself.
#[derive(Debug)]
pub struct UploadJob {
    pub request: PingRequest,
    pub body: String,
    pub url: String,
    pub headers: Vec<Header>,
    pub attempts: u32,
}

/// Model of an [`UploadJob`].
#[verifier::ext_equal]
pub struct UploadJobModel {
    pub request: PingRequestModel,
    pub body: Seq<char>,
    pub url: Seq<char>,
    pub headers: Seq<HeaderModel>,
    pub attempts: u32,
}

impl View for UploadJob {
    type V = UploadJobModel;

    open spec fn view(&self) -> UploadJobModel {
        UploadJobModel {
            request: self.request@,
            body: self.body@,
            url: self.url@,
            headers: self.headers.deep_view(),
            attempts: self.attempts,
        }
    }
}

impl DeepView for UploadJob {
    type V = UploadJobModel;

    open spec fn deep_view(&self) -> UploadJobModel {
        self.view()
    }
}

impl Clone for UploadJob {
    fn clone(&self) -> (r: Self)
        ensures
            r@ == self@,
    {
        UploadJob {
            request: self.request.clone(),
            body: self.body.clone(),
            url: self.url.clone(),
            headers: clone_header_vec(&self.headers),
            attempts: self.attempts,
        }
    }
}

/// What the uploader capability reports for one attempt.
#[derive(Clone, Copy, Debug, PartialEq, Eq, Structural)]
pub enum UploadOutcome {
    /// Delivered; the status code is informational.
    Success(u16),
    /// Try again later (offline, server busy).
    RecoverableFailure,
    /// Never retry (permanent rejection).
    UnrecoverableFailure,
}

/// What the manager decided after an attempt.
#[derive(Clone, Copy, Debug, PartialEq, Eq, Structural)]
pub enum UploadDisposition {
    /// The job succeeded and left the queue.
    Completed,
    /// The job stays queued; wait this many milliseconds before retrying.
    Retry(u64),
    /// The job was dropped permanently and reported.
    Dropped,
}

/// Retries beyond this count convert a recoverable failure into a
/// permanent drop.
pub const MAX_UPLOAD_ATTEMPTS: u32 = 10;

/// First backoff delay, in milliseconds.
pub const BACKOFF_BASE_MS: u64 = 1000;

/// Backoff delays never exceed this, in milliseconds.
pub const BACKOFF_CAP_MS: u64 = 300000;

/// A saturating increment for diagnostic counters.
pub open spec fn bump64(n: u64) -> u64 {
    if n == u64::MAX {
        n
    } else {
        (n + 1) as u64
    }
}

/// The backoff delay after `attempts` failed attempts: exponential,
/// capped.
pub open spec fn backoff_of(attempts: nat) -> u64
    decreases attempts,
{
    if attempts <= 1 {
        BACKOFF_BASE_MS
    } else {
        if 2 * backoff_of((attempts - 1) as nat) > BACKOFF_CAP_MS {
            BACKOFF_CAP_MS
        } else {
            (2 * backoff_of((attempts - 1) as nat)) as u64
        }
    }
}

/// Backoff delays stay within `[BACKOFF_BASE_MS, BACKOFF_CAP_MS]`.
pub proof fn lemma_backoff_bounds(attempts: nat)
    ensures
        BACKOFF_BASE_MS <= backoff_of(attempts) <= BACKOFF_CAP_MS,
    decreases attempts,
{
    if attempts > 1 {
        lemma_backoff_bounds((attempts - 1) as nat);
    }
}

/// Below the cap, backoff delays strictly increase with the attempt
/// count.
pub proof fn lemma_backoff_strictly_increasing(a: nat, b: nat)
    requires
        1 <= a < b,
        backoff_of(b) < BACKOFF_CAP_MS,
    ensures
        backoff_of(a) < backoff_of(b),
    decreases b,
{
    lemma_backoff_bounds((b - 1) as nat);
    assert(backoff_of(b) == 2 * backoff_of((b - 1) as nat));
    if a < b - 1 {
        lemma_backoff_strictly_increasing(a, (b - 1) as nat);
    }
}

fn backoff_delay(attempts: u32) -> (r: u64)
    ensures
        r == backoff_of(attempts as nat),
    decreases attempts,
{
    if attempts <= 1 {
        BACKOFF_BASE_MS
    } else {
        let p = backoff_delay(attempts - 1);
        proof {
            lemma_backoff_bounds((attempts - 1) as nat);
        }
        if 2 * p > BACKOFF_CAP_MS {
            BACKOFF_CAP_MS
        } else {
            2 * p
        }
    }
}

/// How one reported outcome for the oldest job transforms the manager:
/// the relation established by [`UploadManager::process_outcome`].
pub open spec fn outcome_spec(
    pre: UploadManagerModel,
    post: UploadManagerModel,
    outcome: UploadOutcome,
    r: UploadDisposition,
) -> bool {
    match outcome {
        UploadOutcome::Success(_) => {
            &&& post.queue == pre.queue.skip(1)
            &&& post.dropped == pre.dropped
            &&& post.completed == bump64(pre.completed)
            &&& r == UploadDisposition::Completed
        },
        UploadOutcome::RecoverableFailure => {
            let bumped = (pre.queue[0].attempts + 1) as u32;
            if bumped >= MAX_UPLOAD_ATTEMPTS {
                &&& post.queue == pre.queue.skip(1)
                &&& post.dropped == bump64(pre.dropped)
                &&& post.completed == pre.completed
                &&& r == UploadDisposition::Dropped
            } else {
                &&& post.queue == pre.queue.update(
                    0,
                    (UploadJobModel { attempts: bumped, ..pre.queue[0] }),
                )
                &&& post.dropped == pre.dropped
                &&& post.completed == pre.completed
                &&& r == UploadDisposition::Retry(backoff_of(bumped as nat))
            }
        },
        UploadOutcome::UnrecoverableFailure => {
            &&& post.queue == pre.queue.skip(1)
            &&& post.dropped == bump64(pre.dropped)
            &&& post.completed == pre.completed
            &&& r == UploadDisposition::Dropped
        },
    }
}

/// The durable pending-upload queue and its delivery bookkeeping.
#[derive(Debug)]
pub struct UploadManager {
    queue: Vec<UploadJob>,
    dropped: u64,
    completed: u64,
}

/// Model of an [`UploadManager`].
#[verifier::ext_equal]
pub struct UploadManagerModel {
    pub queue: Seq<UploadJobModel>,
    pub dropped: u64,
    pub completed: u64,
}

impl View for UploadManager {
    type V = UploadManagerModel;

    closed spec fn view(&self) -> UploadManagerModel {
        UploadManagerModel {
            queue: self.queue.deep_view(),
            dropped: self.dropped,
            completed: self.completed,
        }
    }
}

impl UploadManager {
    /// An empty queue.
    pub fn new() -> (r: Self)
        ensures
            r@.queue == Seq::<UploadJobModel>::empty(),
            r@.dropped == 0,
            r@.completed == 0,
    {
        let r = UploadManager { queue: Vec::new(), dropped: 0, completed: 0 };
        proof {
            assert(r@.queue =~= Seq::<UploadJobModel>::empty());
        }
        r
    }

    /// Restores the queue persisted by a previous process run.
    pub fn from_pending(pending: Vec<UploadJob>) -> (r: Self)
        ensures
            r@.queue == pending.deep_view(),
            r@.dropped == 0,
            r@.completed == 0,
    {
        UploadManager { queue: pending, dropped: 0, completed: 0 }
    }

    /// Appends an assembled ping to the durable queue.
    pub fn enqueue(&mut self, job: UploadJob)
        ensures
            final(self)@.queue == old(self)@.queue.push(job@),
            final(self)@.dropped == old(self)@.dropped,
            final(self)@.completed == old(self)@.completed,
    {
        self.queue.push(job);
        proof {
            assert(self@.queue =~= old(self)@.queue.push(job@));
        }
    }

    /// The oldest pending job, copied; the job itself stays queued until
    /// its outcome is reported.
    pub fn next_job(&self) -> (r: Option<UploadJob>)
        ensures
            match r {
                Option::Some(j) => self@.queue.len() > 0 && j@ == self@.queue[0],
                Option::None => self@.queue.len() == 0,
            },
    {
        if self.queue.len() == 0 {
            Option::None
        } else {
            Option::Some(self.queue[0].clone())
        }
    }

    /// Applies the uploader's outcome for the oldest job: success removes
    /// it; a recoverable failure re-queues it with one more attempt and a
    /// backoff delay, until the attempt cap converts it into a permanent
    /// drop; an unrecoverable failure drops it at once.
    pub fn process_outcome(&mut self, outcome: UploadOutcome) -> (r: UploadDisposition)
        requires
            old(self)@.queue.len() > 0,
            old(self)@.queue[0].attempts < u32::MAX,
        ensures
            outcome_spec(old(self)@, final(self)@, outcome, r),
            match outcome {
                UploadOutcome::Success(_) => {
                    &&& final(self)@.queue == old(self)@.queue.skip(1)
                    &&& final(self)@.dropped == old(self)@.dropped
                    &&& final(self)@.completed == bump64(old(self)@.completed)
                    &&& r == UploadDisposition::Completed
                },
                UploadOutcome::RecoverableFailure => {
                    let bumped = (old(self)@.queue[0].attempts + 1) as u32;
                    if bumped >= MAX_UPLOAD_ATTEMPTS {
                        &&& final(self)@.queue == old(self)@.queue.skip(1)
                        &&& final(self)@.dropped == bump64(old(self)@.dropped)
                        &&& final(self)@.completed == old(self)@.completed
                        &&& r == UploadDisposition::Dropped
                    } else {
                        &&& final(self)@.queue == old(self)@.queue.update(
                            0,
                            (UploadJobModel { attempts: bumped, ..old(self)@.queue[0] }),
                        )
                        &&& final(self)@.dropped == old(self)@.dropped
                        &&& final(self)@.completed == old(self)@.completed
                        &&& r == UploadDisposition::Retry(backoff_of(bumped as nat))
                    }
                },
                UploadOutcome::UnrecoverableFailure => {
                    &&& final(self)@.queue == old(self)@.queue.skip(1)
                    &&& final(self)@.dropped == bump64(old(self)@.dropped)
                    &&& final(self)@.completed == old(self)@.completed
                    &&& r == UploadDisposition::Dropped
                },
            },
    {
        match outcome {
            UploadOutcome::Success(_) => {
                let _ = self.queue.remove(0);
                if self.completed < u64::MAX {
                    self.completed += 1;
                } else {
                    self.completed = u64::MAX;
                }
                proof {
                    assert(self@.queue =~= old(self)@.queue.skip(1));
                }
                UploadDisposition::Completed
            },
            UploadOutcome::RecoverableFailure => {
                let mut job = self.queue.remove(0);
                let bumped = job.attempts + 1;
                if bumped >= MAX_UPLOAD_ATTEMPTS {
                    if self.dropped < u64::MAX {
                        self.dropped += 1;
                    } else {
                        self.dropped = u64::MAX;
                    }
                    proof {
                        assert(self@.queue =~= old(self)@.queue.skip(1));
                    }
                    UploadDisposition::Dropped
                } else {
                    job.attempts = bumped;
                    let delay = backoff_delay(bumped);
                    self.queue.insert(0, job);
                    proof {
                        assert(self@.queue =~= old(self)@.queue.update(
                            0,
                            UploadJobModel { attempts: bumped, ..old(self)@.queue[0] },
                        ));
                    }
                    UploadDisposition::Retry(delay)
                }
            },
            UploadOutcome::UnrecoverableFailure => {
                let _ = self.queue.remove(0);
                if self.dropped < u64::MAX {
                    self.dropped += 1;
                } else {
                    self.dropped = u64::MAX;
                }
                proof {
                    assert(self@.queue =~= old(self)@.queue.skip(1));
                }
                UploadDisposition::Dropped
            },
        }
    }

    /// How many jobs are pending.
    pub fn pending_count(&self) -> (r: usize)
        ensures
            r == self@.queue.len(),
    {
        self.queue.len()
    }

    /// How many jobs were dropped permanently.
    pub fn dropped_count(&self) -> (r: u64)
        ensures
            r == self@.dropped,
    {
        self.dropped
    }

    /// How many jobs completed successfully.
    pub fn completed_count(&self) -> (r: u64)
        ensures
            r == self@.completed,
    {
        self.completed
    }

    /// The pending jobs, for the host to persist durably.
    pub fn pending(&self) -> (r: &Vec<UploadJob>)
        ensures
            r.deep_view() == self@.queue,
    {
        &self.queue
    }
}

} // verus!
