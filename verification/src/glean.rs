//! The process-wide context: storage, dispatch queue, sequence counters
//! and upload queue behind one explicitly constructed object with an
//! `initialize`/`shut_down` lifecycle.
//!
//! Every mutating call becomes a [`Task`]; the model function
//! [`apply_task`] says exactly what executing one task does, and every
//! drain is proved equal to folding it over the backlog in order.

use vstd::prelude::*;
use crate::common::{meta_well_formed, identifier_of, CommonMetricData};
use crate::dispatcher::{enqueue_spec, Dispatcher, DispatcherModel, DispatcherState, Task, TaskModel};
use crate::error::{record_error, record_error_spec, ErrorType};
use crate::json::{canonicalize_json, json_canon, json_valid};
use crate::lifetime::Lifetime;
use crate::metric::{Metric, MetricModel, MergePolicy};
use crate::ping::{assemble_body, body_of, build_url, default_headers, default_headers_model, doc_id_of, make_document_id, snapshot_worth_sending, url_of, worth_sending, ClientInfo, ClientInfoModel};
use crate::storage::{clear_all_spec, clear_ping_spec, load_spec, lookup, lookup_value, record_overflow_spec, record_spec, snapshot_spec, storage_wf, EntryModel, StorageEngine, StorageEntry};
use crate::upload::{bump64, clone_entry_vec, PingRequest, PingRequestModel, UploadDisposition, UploadJob, UploadJobModel, UploadManager, UploadManagerModel, UploadOutcome};

verus! {

/// One persisted per-ping sequence counter.
#[derive(Debug)]
pub struct SeqnoEntry {
    pub ping_name: String,
    pub next: u64,
}

/// Model of a [`SeqnoEntry`].
#[verifier::ext_equal]
pub struct SeqnoModel {
    pub ping_name: Seq<char>,
    pub next: u64,
}

impl View for SeqnoEntry {
    type V = SeqnoModel;

    open spec fn view(&self) -> SeqnoModel {
        SeqnoModel { ping_name: self.ping_name@, next: self.next }
    }
}

impl DeepView for SeqnoEntry {
    type V = SeqnoModel;

    open spec fn deep_view(&self) -> SeqnoModel {
        self.view()
    }
}

impl Clone for SeqnoEntry {
    fn clone(&self) -> (r: Self)
        ensures
            r@ == self@,
    {
        SeqnoEntry { ping_name: self.ping_name.clone(), next: self.next }
    }
}

/// The next sequence number for `ping`: how many pings of that name have
/// been submitted so far.
pub open spec fn seq_lookup(s: Seq<SeqnoModel>, ping: Seq<char>) -> u64
    decreases s.len(),
{
    if s.len() == 0 {
        0u64
    } else if s.last().ping_name == ping {
        s.last().next
    } else {
        seq_lookup(s.drop_last(), ping)
    }
}

/// Whether a counter for `ping` exists.
pub open spec fn seq_has(s: Seq<SeqnoModel>, ping: Seq<char>) -> bool
    decreases s.len(),
{
    if s.len() == 0 {
        false
    } else {
        s.last().ping_name == ping || seq_has(s.drop_last(), ping)
    }
}

/// The counters with the last counter for `ping` replaced.
pub open spec fn seq_replace_spec(s: Seq<SeqnoModel>, ping: Seq<char>, v: u64) -> Seq<SeqnoModel>
    decreases s.len(),
{
    if s.len() == 0 {
        s
    } else if s.last().ping_name == ping {
        s.drop_last().push(SeqnoModel { ping_name: ping, next: v })
    } else {
        seq_replace_spec(s.drop_last(), ping, v).push(s.last())
    }
}

/// The counters after storing `v` for `ping`: an existing counter is
/// replaced in place, a fresh ping name is appended at the end.
pub open spec fn seq_set_spec(s: Seq<SeqnoModel>, ping: Seq<char>, v: u64) -> Seq<SeqnoModel> {
    if seq_has(s, ping) {
        seq_replace_spec(s, ping, v)
    } else {
        s.push(SeqnoModel { ping_name: ping, next: v })
    }
}

proof fn lemma_seq_replace(s: Seq<SeqnoModel>, ping: Seq<char>, v: u64, q: Seq<char>)
    ensures
        seq_lookup(seq_replace_spec(s, ping, v), q) == if q == ping && seq_has(s, ping) {
            v
        } else {
            seq_lookup(s, q)
        },
        seq_has(seq_replace_spec(s, ping, v), q) == seq_has(s, q),
    decreases s.len(),
{
    let r = seq_replace_spec(s, ping, v);
    if s.len() > 0 {
        lemma_seq_replace(s.drop_last(), ping, v, q);
        if s.last().ping_name == ping {
            assert(r.last() == (SeqnoModel { ping_name: ping, next: v }));
            assert(r.drop_last() =~= s.drop_last());
        } else {
            assert(r.last() == s.last());
            assert(r.drop_last() =~= seq_replace_spec(s.drop_last(), ping, v));
        }
    }
}

/// What a counter read sees after a counter write.
pub proof fn lemma_seq_set(s: Seq<SeqnoModel>, ping: Seq<char>, v: u64, q: Seq<char>)
    ensures
        seq_lookup(seq_set_spec(s, ping, v), q) == if q == ping {
            v
        } else {
            seq_lookup(s, q)
        },
    decreases s.len(),
{
    if seq_has(s, ping) {
        lemma_seq_replace(s, ping, v, q);
    } else {
        let r = s.push(SeqnoModel { ping_name: ping, next: v });
        assert(r.last() == (SeqnoModel { ping_name: ping, next: v }));
        assert(r.drop_last() =~= s);
    }
}

/// A counter for `ping` exists exactly when some position holds it.
proof fn lemma_seq_has_iff(s: Seq<SeqnoModel>, ping: Seq<char>)
    ensures
        seq_has(s, ping) <==> exists|j: int| 0 <= j < s.len() && s[j].ping_name == ping,
    decreases s.len(),
{
    if s.len() > 0 {
        lemma_seq_has_iff(s.drop_last(), ping);
        assert(forall|j: int| 0 <= j < s.len() - 1 ==> s.drop_last()[j] == s[j]);
        if s.last().ping_name == ping {
            assert(s[s.len() - 1].ping_name == ping);
        }
        if exists|j: int| 0 <= j < s.len() && s[j].ping_name == ping {
            let j = choose|j: int| 0 <= j < s.len() && s[j].ping_name == ping;
            if j < s.len() - 1 {
                assert(s.drop_last()[j].ping_name == ping);
            }
        }
    }
}

/// Reads the next sequence number for `ping`.
fn get_seqno(seqnos: &Vec<SeqnoEntry>, ping: &String) -> (r: u64)
    ensures
        r == seq_lookup(seqnos.deep_view(), ping@),
{
    let ghost dv = seqnos.deep_view();
    let mut i: usize = seqnos.len();
    proof {
        assert(dv.take(seqnos.len() as int) =~= dv);
    }
    while i > 0
        invariant
            i <= seqnos.len(),
            dv == seqnos.deep_view(),
            seq_lookup(dv, ping@) == seq_lookup(dv.take(i as int), ping@),
        decreases i,
    {
        i -= 1;
        proof {
            assert(dv.take(i + 1).drop_last() =~= dv.take(i as int));
            assert(dv.take(i + 1).last() == dv[i as int]);
        }
        if seqnos[i].ping_name == *ping {
            return seqnos[i].next;
        }
    }
    proof {
        assert(dv.take(0) =~= Seq::<SeqnoModel>::empty());
    }
    0
}

proof fn lemma_seq_replace_is_update(s: Seq<SeqnoModel>, ping: Seq<char>, v: u64, i: int)
    requires
        0 <= i < s.len(),
        s[i].ping_name == ping,
        forall|j: int| i < j < s.len() ==> s[j].ping_name != ping,
    ensures
        seq_replace_spec(s, ping, v) == s.update(i, SeqnoModel { ping_name: ping, next: v }),
    decreases s.len(),
{
    if i == s.len() - 1 {
        assert(s.drop_last().push(SeqnoModel { ping_name: ping, next: v }) =~= s.update(
            i,
            SeqnoModel { ping_name: ping, next: v },
        ));
    } else {
        assert(s.last().ping_name != ping);
        assert(forall|j: int| i < j < s.len() - 1 ==> s.drop_last()[j] == s[j]);
        lemma_seq_replace_is_update(s.drop_last(), ping, v, i);
        assert(s.drop_last().update(i, SeqnoModel { ping_name: ping, next: v }).push(s.last())
            =~= s.update(i, SeqnoModel { ping_name: ping, next: v }));
    }
}

/// [`seq_set_spec`] at the last matching index is a pointwise update.
proof fn lemma_seq_set_is_update(s: Seq<SeqnoModel>, ping: Seq<char>, v: u64, i: int)
    requires
        0 <= i < s.len(),
        s[i].ping_name == ping,
        forall|j: int| i < j < s.len() ==> s[j].ping_name != ping,
    ensures
        seq_set_spec(s, ping, v) == s.update(i, SeqnoModel { ping_name: ping, next: v }),
{
    lemma_seq_has_iff(s, ping);
    lemma_seq_replace_is_update(s, ping, v, i);
}

/// Stores `v` as the next sequence number for `ping`.
fn set_seqno(seqnos: &mut Vec<SeqnoEntry>, ping: &String, v: u64)
    ensures
        final(seqnos).deep_view() == seq_set_spec(old(seqnos).deep_view(), ping@, v),
{
    let ghost dv = seqnos.deep_view();
    let mut i: usize = seqnos.len();
    proof {
        assert(dv.take(seqnos.len() as int) =~= dv);
    }
    while i > 0
        invariant
            i <= seqnos.len(),
            dv == seqnos.deep_view(),
            *seqnos == *old(seqnos),
            forall|j: int| i <= j < dv.len() ==> dv[j].ping_name != ping@,
        decreases i,
    {
        i -= 1;
        if seqnos[i].ping_name == *ping {
            proof {
                lemma_seq_set_is_update(dv, ping@, v, i as int);
            }
            vstd::pervasive::VecAdditionalExecFns::set(
                seqnos,
                i,
                SeqnoEntry { ping_name: ping.clone(), next: v },
            );
            proof {
                assert(seqnos.deep_view() =~= dv.update(
                    i as int,
                    SeqnoModel { ping_name: ping@, next: v },
                ));
            }
            return ;
        }
    }
    seqnos.push(SeqnoEntry { ping_name: ping.clone(), next: v });
    proof {
        lemma_seq_no_match_push(dv, ping@, v);
        assert(seqnos.deep_view() =~= dv.push(SeqnoModel { ping_name: ping@, next: v }));
    }
}

/// When no entry holds `ping`, storing appends a fresh counter.
proof fn lemma_seq_no_match_push(s: Seq<SeqnoModel>, ping: Seq<char>, v: u64)
    requires
        forall|j: int| 0 <= j < s.len() ==> s[j].ping_name != ping,
    ensures
        seq_set_spec(s, ping, v) == s.push(SeqnoModel { ping_name: ping, next: v }),
{
    lemma_seq_has_iff(s, ping);
}

/// The configuration surface consumed by the core.
#[derive(Debug)]
pub struct Configuration {
    pub app_id: String,
    pub server_endpoint: String,
    pub upload_enabled: bool,
    pub client_info: ClientInfo,
    /// Ping names submitted even when they carry no non-internal metrics.
    pub unconditional_pings: Vec<String>,
}

/// Model of a [`Configuration`].
#[verifier::ext_equal]
pub struct ConfigModel {
    pub app_id: Seq<char>,
    pub server_endpoint: Seq<char>,
    pub upload_enabled: bool,
    pub client_info: ClientInfoModel,
    pub unconditional_pings: Seq<Seq<char>>,
}

impl View for Configuration {
    type V = ConfigModel;

    open spec fn view(&self) -> ConfigModel {
        ConfigModel {
            app_id: self.app_id@,
            server_endpoint: self.server_endpoint@,
            upload_enabled: self.upload_enabled,
            client_info: self.client_info@,
            unconditional_pings: self.unconditional_pings.deep_view(),
        }
    }
}

/// Everything a data directory persists: metric entries, per-ping
/// sequence counters, the pending upload queue, and the document-id
/// counter.
#[derive(Debug)]
pub struct PersistedState {
    pub entries: Vec<StorageEntry>,
    pub seqnos: Vec<SeqnoEntry>,
    pub pending: Vec<UploadJob>,
    pub doc_counter: u64,
}

/// The model of everything a drain can touch: storage, uploads, counters
/// and configuration — the dispatch queue itself stays apart.
#[verifier::ext_equal]
pub struct CoreModel {
    pub storage: Seq<EntryModel>,
    pub uploads: UploadManagerModel,
    pub seqnos: Seq<SeqnoModel>,
    pub doc_counter: u64,
    pub clock: u64,
    pub load_corruptions: u64,
    /// Submissions skipped (empty conditional ping, or upload disabled):
    /// reported through this counter, never as an error.
    pub skipped_submissions: u64,
    pub config: ConfigModel,
}

/// Model of a [`Glean`] context.
#[verifier::ext_equal]
pub struct GleanModel {
    pub core: CoreModel,
    pub dispatcher: DispatcherModel,
}

/// Whether submitting `ping` in state `m` produces a ping at all: upload
/// must be enabled, and the snapshot must be worth sending unless the
/// ping is unconditional.
pub open spec fn submit_performed(m: CoreModel, ping: Seq<char>) -> bool {
    m.config.upload_enabled && (worth_sending(snapshot_spec(m.storage, ping))
        || m.config.unconditional_pings.contains(ping))
}

/// The upload job a submission assembles in state `m`.
pub open spec fn submitted_job(m: CoreModel, ping: Seq<char>, reason: Seq<char>) -> UploadJobModel {
    let request = PingRequestModel {
        document_id: doc_id_of(m.doc_counter),
        ping_name: ping,
        seqno: seq_lookup(m.seqnos, ping),
        reason: reason,
        collection_time: m.clock,
        entries: snapshot_spec(m.storage, ping),
    };
    UploadJobModel {
        request: request,
        body: body_of(request, m.config.client_info),
        url: url_of(m.config.server_endpoint, m.config.app_id, ping, doc_id_of(m.doc_counter)),
        headers: default_headers_model(),
        attempts: 0,
    }
}

/// What submitting `ping` does: nothing when skipped; otherwise assemble
/// the document from the snapshot, queue it for upload, advance the
/// per-ping sequence number and the document-id counter, and only then
/// clear the Ping-lifetime entries of that ping name.
pub open spec fn submit_spec(m: CoreModel, ping: Seq<char>, reason: Seq<char>) -> CoreModel {
    if !submit_performed(m, ping) {
        CoreModel { skipped_submissions: bump64(m.skipped_submissions), ..m }
    } else {
        CoreModel {
            storage: clear_ping_spec(m.storage, ping, Lifetime::Ping),
            uploads: UploadManagerModel {
                queue: m.uploads.queue.push(submitted_job(m, ping, reason)),
                ..m.uploads
            },
            seqnos: seq_set_spec(m.seqnos, ping, bump64(seq_lookup(m.seqnos, ping))),
            doc_counter: bump64(m.doc_counter),
            ..m
        }
    }
}

/// What executing one task does to the core.  A disabled or ill-formed
/// metric declaration records nothing; invalid structured text records an
/// `InvalidValue` error and leaves the metric's value alone; a counter
/// accumulation that overflows saturates and records `InvalidOverflow`.
pub open spec fn apply_task(m: CoreModel, t: TaskModel) -> CoreModel {
    match t {
        TaskModel::Record { meta, value, policy } => {
            if !meta_well_formed(meta) || meta.disabled {
                m
            } else {
                let id = identifier_of(meta);
                let s1 = record_spec(m.storage, meta.send_in_pings, id, meta.lifetime, value, policy);
                let s2 = if record_overflow_spec(
                    m.storage,
                    meta.send_in_pings,
                    id,
                    meta.lifetime,
                    value,
                    policy,
                ) {
                    record_error_spec(s1, ErrorType::InvalidOverflow, meta)
                } else {
                    s1
                };
                CoreModel { storage: s2, ..m }
            }
        },
        TaskModel::SetObjectRaw { meta, text } => {
            if !meta_well_formed(meta) || meta.disabled {
                m
            } else if json_valid(text) {
                CoreModel {
                    storage: record_spec(
                        m.storage,
                        meta.send_in_pings,
                        identifier_of(meta),
                        meta.lifetime,
                        MetricModel::Object(json_canon(text)),
                        MergePolicy::Overwrite,
                    ),
                    ..m
                }
            } else {
                CoreModel { storage: record_error_spec(m.storage, ErrorType::InvalidValue, meta), ..m }
            }
        },
        TaskModel::RecordError { meta, error } => {
            if !meta_well_formed(meta) {
                m
            } else {
                CoreModel { storage: record_error_spec(m.storage, error, meta), ..m }
            }
        },
        TaskModel::Submit { ping_name, reason } => submit_spec(m, ping_name, reason),
    }
}

/// Folding [`apply_task`] over a backlog, front to back.
pub open spec fn apply_tasks(m: CoreModel, ts: Seq<TaskModel>) -> CoreModel
    decreases ts.len(),
{
    if ts.len() == 0 {
        m
    } else {
        apply_tasks(apply_task(m, ts[0]), ts.skip(1))
    }
}

/// The context's internal invariant: the storage invariant holds.
pub open spec fn glean_inv(m: GleanModel) -> bool {
    storage_wf(m.core.storage)
}

/// Executing one task preserves the storage invariant.
pub proof fn lemma_apply_task_wf(m: CoreModel, t: TaskModel)
    requires
        storage_wf(m.storage),
    ensures
        storage_wf(apply_task(m, t).storage),
{
    match t {
        TaskModel::Record { meta, value, policy } => {
            if meta_well_formed(meta) && !meta.disabled {
                let id = identifier_of(meta);
                let s1 = record_spec(m.storage, meta.send_in_pings, id, meta.lifetime, value, policy);
                crate::storage::lemma_record(m.storage, meta.send_in_pings, id, meta.lifetime, value, policy);
                if record_overflow_spec(m.storage, meta.send_in_pings, id, meta.lifetime, value, policy) {
                    crate::storage::lemma_record(
                        s1,
                        meta.send_in_pings,
                        crate::error::error_id_of(ErrorType::InvalidOverflow, meta),
                        Lifetime::Ping,
                        MetricModel::Counter(1),
                        MergePolicy::Accumulate,
                    );
                }
            }
        },
        TaskModel::SetObjectRaw { meta, text } => {
            if meta_well_formed(meta) && !meta.disabled {
                if json_valid(text) {
                    crate::storage::lemma_record(
                        m.storage,
                        meta.send_in_pings,
                        identifier_of(meta),
                        meta.lifetime,
                        MetricModel::Object(json_canon(text)),
                        MergePolicy::Overwrite,
                    );
                } else {
                    crate::storage::lemma_record(
                        m.storage,
                        meta.send_in_pings,
                        crate::error::error_id_of(ErrorType::InvalidValue, meta),
                        Lifetime::Ping,
                        MetricModel::Counter(1),
                        MergePolicy::Accumulate,
                    );
                }
            }
        },
        TaskModel::RecordError { meta, error } => {
            if meta_well_formed(meta) {
                crate::storage::lemma_record(
                    m.storage,
                    meta.send_in_pings,
                    crate::error::error_id_of(error, meta),
                    Lifetime::Ping,
                    MetricModel::Counter(1),
                    MergePolicy::Accumulate,
                );
            }
        },
        TaskModel::Submit { ping_name, reason } => {
            if submit_performed(m, ping_name) {
                crate::storage::lemma_clear_ping(m.storage, ping_name, Lifetime::Ping);
            }
        },
    }
}

/// Tasks buffered before initialization run exactly once, in their
/// original order, strictly before anything enqueued afterwards: running
/// the buffered backlog and then the later tasks equals running the two
/// backlogs concatenated.
pub proof fn lemma_apply_tasks_append(m: CoreModel, ts1: Seq<TaskModel>, ts2: Seq<TaskModel>)
    ensures
        apply_tasks(m, ts1 + ts2) == apply_tasks(apply_tasks(m, ts1), ts2),
    decreases ts1.len(),
{
    if ts1.len() == 0 {
        assert(ts1 + ts2 =~= ts2);
    } else {
        assert((ts1 + ts2)[0] == ts1[0]);
        assert((ts1 + ts2).skip(1) =~= ts1.skip(1) + ts2);
        lemma_apply_tasks_append(apply_task(m, ts1[0]), ts1.skip(1), ts2);
    }
}

fn vec_contains_string(v: &Vec<String>, s: &String) -> (r: bool)
    ensures
        r == v.deep_view().contains(s@),
{
    let n = v.len();
    let mut i: usize = 0;
    while i < n
        invariant
            n == v.len(),
            i <= n,
            forall|k: int| 0 <= k < i ==> v.deep_view()[k] != s@,
        decreases n - i,
    {
        if v[i] == *s {
            proof {
                assert(v.deep_view()[i as int] == s@);
            }
            return true;
        }
        i += 1;
    }
    proof {
        if v.deep_view().contains(s@) {
            let j = choose|j: int| 0 <= j < v.deep_view().len() && v.deep_view()[j] == s@;
            assert(false);
        }
    }
    false
}

fn clone_seqno_vec(v: &Vec<SeqnoEntry>) -> (r: Vec<SeqnoEntry>)
    ensures
        r.deep_view() == v.deep_view(),
{
    let mut r: Vec<SeqnoEntry> = Vec::new();
    let n = v.len();
    let mut i: usize = 0;
    while i < n
        invariant
            n == v.len(),
            i <= n,
            r.len() == i,
            forall|k: int| 0 <= k < i ==> r.deep_view()[k] == v.deep_view()[k],
        decreases n - i,
    {
        let e = v[i].clone();
        r.push(e);
        i += 1;
    }
    proof {
        assert(r.deep_view() =~= v.deep_view());
    }
    r
}

fn clone_job_vec(v: &Vec<UploadJob>) -> (r: Vec<UploadJob>)
    ensures
        r.deep_view() == v.deep_view(),
{
    let mut r: Vec<UploadJob> = Vec::new();
    let n = v.len();
    let mut i: usize = 0;
    while i < n
        invariant
            n == v.len(),
            i <= n,
            r.len() == i,
            forall|k: int| 0 <= k < i ==> r.deep_view()[k] == v.deep_view()[k],
        decreases n - i,
    {
        let e = v[i].clone();
        r.push(e);
        i += 1;
    }
    proof {
        assert(r.deep_view() =~= v.deep_view());
    }
    r
}

/// The telemetry context: one explicitly constructed object owning
/// storage, the dispatch queue, sequence counters and the upload queue.
#[derive(Debug)]
pub struct Glean {
    storage: StorageEngine,
    dispatcher: Dispatcher,
    uploads: UploadManager,
    seqnos: Vec<SeqnoEntry>,
    doc_counter: u64,
    clock: u64,
    load_corruptions: u64,
    skipped_submissions: u64,
    config: Configuration,
}

impl View for Glean {
    type V = GleanModel;

    closed spec fn view(&self) -> GleanModel {
        GleanModel {
            core: CoreModel {
                storage: self.storage@,
                uploads: self.uploads@,
                seqnos: self.seqnos.deep_view(),
                doc_counter: self.doc_counter,
                clock: self.clock,
                load_corruptions: self.load_corruptions,
                skipped_submissions: self.skipped_submissions,
                config: self.config@,
            },
            dispatcher: self.dispatcher@,
        }
    }
}

impl Glean {
    /// Builds a context from its configuration and, where a data
    /// directory survives, the persisted state of the previous run.
    /// Loading drops corrupt entries instead of failing, then runs the
    /// process-start housekeeping that clears Application-lifetime data.
    /// A dropped entry is reported through the corruption counter rather
    /// than as a per-metric error record: a corrupt entry's identifier
    /// cannot be trusted to synthesize a valid error-counter slot, so the
    /// count is what test/debug introspection sees.
    pub fn new(config: Configuration, persisted: Option<PersistedState>) -> (r: Self)
        ensures
            glean_inv(r@),
            r@.dispatcher.state == DispatcherState::Buffering,
            r@.dispatcher.queue == Seq::<TaskModel>::empty(),
            r@.dispatcher.overflow_count == 0,
            r@.dispatcher.rejected_count == 0,
            r@.core.clock == 0,
            r@.core.skipped_submissions == 0,
            r@.core.config == config@,
            r@.core.uploads.dropped == 0,
            r@.core.uploads.completed == 0,
            match persisted {
                Option::Some(p) => {
                    &&& r@.core.storage == clear_all_spec(
                        load_spec(p.entries.deep_view()),
                        Lifetime::Application,
                    )
                    &&& r@.core.seqnos == p.seqnos.deep_view()
                    &&& r@.core.uploads.queue == p.pending.deep_view()
                    &&& r@.core.doc_counter == p.doc_counter
                    &&& r@.core.load_corruptions == p.entries.deep_view().len() - load_spec(
                        p.entries.deep_view(),
                    ).len()
                },
                Option::None => {
                    &&& r@.core.storage == Seq::<EntryModel>::empty()
                    &&& r@.core.seqnos == Seq::<SeqnoModel>::empty()
                    &&& r@.core.uploads.queue == Seq::<UploadJobModel>::empty()
                    &&& r@.core.doc_counter == 0
                    &&& r@.core.load_corruptions == 0
                },
            },
    {
        let (mut storage, dropped, seqnos, pending, doc_counter): (
            StorageEngine,
            usize,
            Vec<SeqnoEntry>,
            Vec<UploadJob>,
            u64,
        ) = match persisted {
            Option::Some(p) => {
                let (eng, dropped) = StorageEngine::load(p.entries);
                (eng, dropped, p.seqnos, p.pending, p.doc_counter)
            },
            Option::None => (StorageEngine::new(), 0, Vec::new(), Vec::new(), 0),
        };
        storage.clear_all(Lifetime::Application);
        let mut dispatcher = Dispatcher::new();
        dispatcher.open_buffering();
        let r = Glean {
            storage: storage,
            dispatcher: dispatcher,
            uploads: UploadManager::from_pending(pending),
            seqnos: seqnos,
            doc_counter: doc_counter,
            clock: 0,
            load_corruptions: dropped as u64,
            skipped_submissions: 0,
            config: config,
        };
        proof {
            if persisted is None {
                assert(clear_all_spec(Seq::<EntryModel>::empty(), Lifetime::Application)
                    =~= Seq::<EntryModel>::empty());
                assert(r@.core.seqnos =~= Seq::<SeqnoModel>::empty());
            }
        }
        r
    }

    /// Hands a task to the dispatch queue; the caller never blocks and
    /// never sees a failure (see [`enqueue_spec`]).
    pub(crate) fn enqueue_task(&mut self, t: Task)
        ensures
            final(self)@.dispatcher == enqueue_spec(old(self)@.dispatcher, t@),
            final(self)@.core == old(self)@.core,
    {
        self.dispatcher.enqueue(t);
        proof {
            assert(self@.core =~= old(self)@.core);
        }
    }

    /// The generic recording operation of the metric-type contract:
    /// enqueues a write of `value` under `meta`'s identifier with the
    /// given merge policy and returns immediately.
    pub fn record_metric(&mut self, meta: &CommonMetricData, value: Metric, policy: MergePolicy)
        ensures
            final(self)@.core == old(self)@.core,
            final(self)@.dispatcher == enqueue_spec(
                old(self)@.dispatcher,
                TaskModel::Record { meta: meta@, value: value@, policy },
            ),
    {
        let t = Task::Record { meta: meta.clone(), value: value, policy: policy };
        self.enqueue_task(t);
    }

    /// Requests submission of ping `ping_name` with the given reason; the
    /// assembly itself runs as a queued task.
    pub fn submit_ping(&mut self, ping_name: &String, reason: &String)
        ensures
            final(self)@.dispatcher == enqueue_spec(
                old(self)@.dispatcher,
                TaskModel::Submit { ping_name: ping_name@, reason: reason@ },
            ),
            final(self)@.core == old(self)@.core,
    {
        let t = Task::Submit { ping_name: ping_name.clone(), reason: reason.clone() };
        self.enqueue_task(t);
    }

    /// Notes the host-supplied time used as the collection timestamp of
    /// subsequently assembled pings.
    pub fn set_time(&mut self, now: u64)
        ensures
            final(self)@.core == (CoreModel { clock: now, ..old(self)@.core }),
            final(self)@.dispatcher == old(self)@.dispatcher,
    {
        self.clock = now;
        proof {
            assert(self@.core =~= (CoreModel { clock: now, ..old(self)@.core }));
        }
    }

    /// The queue's lifecycle state.
    pub fn state(&self) -> (r: DispatcherState)
        ensures
            r == self@.dispatcher.state,
    {
        self.dispatcher.state()
    }

    /// How many tasks are waiting.
    pub fn pending_task_count(&self) -> (r: usize)
        ensures
            r == self@.dispatcher.queue.len(),
    {
        self.dispatcher.pending_count()
    }

    /// How many pre-initialization tasks were dropped on buffer overflow.
    pub fn overflow_count(&self) -> (r: u64)
        ensures
            r == self@.dispatcher.overflow_count,
    {
        self.dispatcher.overflow_count()
    }

    /// How many tasks were rejected outside the accepting states.
    pub fn rejected_count(&self) -> (r: u64)
        ensures
            r == self@.dispatcher.rejected_count,
    {
        self.dispatcher.rejected_count()
    }

    /// How many submissions were skipped: an empty conditional ping, or
    /// upload disabled.
    pub fn skipped_submission_count(&self) -> (r: u64)
        ensures
            r == self@.core.skipped_submissions,
    {
        self.skipped_submissions
    }

    /// How many persisted entries were dropped as corrupt on load: the
    /// diagnostic standing in for a per-metric `StorageCorruption` record,
    /// whose identifier a corrupt entry could not reliably supply.
    pub fn load_corruption_count(&self) -> (r: u64)
        ensures
            r == self@.core.load_corruptions,
    {
        self.load_corruptions
    }

    /// Read access to the storage engine.
    pub fn storage(&self) -> (r: &StorageEngine)
        ensures
            r@ == self@.core.storage,
    {
        &self.storage
    }

    /// Executes one task against the core, exactly as [`apply_task`]
    /// says; runs either immediately (synchronous recording) or from a
    /// drain.
    pub(crate) fn execute_task(&mut self, t: Task)
        requires
            glean_inv(old(self)@),
        ensures
            glean_inv(final(self)@),
            final(self)@.core == apply_task(old(self)@.core, t@),
            final(self)@.dispatcher == old(self)@.dispatcher,
    {
        let ghost m0 = self@.core;
        let ghost tm = t@;
        proof {
            lemma_apply_task_wf(m0, tm);
        }
        match t {
            Task::Record { meta, value, policy } => {
                if !meta.validate() || meta.disabled {
                    proof {
                        assert(self@.core =~= apply_task(m0, tm));
                    }
                    return ;
                }
                let id = meta.identifier();
                let overflowed = self.storage.record(
                    &meta.send_in_pings,
                    &id,
                    meta.lifetime,
                    &value,
                    policy,
                );
                if overflowed {
                    record_error(&mut self.storage, &meta, ErrorType::InvalidOverflow);
                }
                proof {
                    assert(self@.core =~= apply_task(m0, tm));
                }
            },
            Task::SetObjectRaw { meta, text } => {
                if !meta.validate() || meta.disabled {
                    proof {
                        assert(self@.core =~= apply_task(m0, tm));
                    }
                    return ;
                }
                match canonicalize_json(text.as_str()) {
                    Option::Some(canon) => {
                        let id = meta.identifier();
                        self.storage.record(
                            &meta.send_in_pings,
                            &id,
                            meta.lifetime,
                            &Metric::Object(canon),
                            MergePolicy::Overwrite,
                        );
                    },
                    Option::None => {
                        record_error(&mut self.storage, &meta, ErrorType::InvalidValue);
                    },
                }
                proof {
                    assert(self@.core =~= apply_task(m0, tm));
                }
            },
            Task::RecordError { meta, error } => {
                if meta.validate() {
                    record_error(&mut self.storage, &meta, error);
                }
                proof {
                    assert(self@.core =~= apply_task(m0, tm));
                }
            },
            Task::Submit { ping_name, reason } => {
                if !self.config.upload_enabled {
                    if self.skipped_submissions < u64::MAX {
                        self.skipped_submissions += 1;
                    }
                    proof {
                        assert(self@.core =~= apply_task(m0, tm));
                    }
                    return ;
                }
                let snap = self.storage.snapshot(&ping_name);
                let worth = snapshot_worth_sending(&snap);
                let uncond = vec_contains_string(&self.config.unconditional_pings, &ping_name);
                if !worth && !uncond {
                    if self.skipped_submissions < u64::MAX {
                        self.skipped_submissions += 1;
                    }
                    proof {
                        assert(self@.core =~= apply_task(m0, tm));
                    }
                    return ;
                }
                let doc_id = make_document_id(self.doc_counter);
                let seqno = get_seqno(&self.seqnos, &ping_name);
                let url = build_url(
                    &self.config.server_endpoint,
                    &self.config.app_id,
                    &ping_name,
                    &doc_id,
                );
                let request = PingRequest {
                    document_id: doc_id,
                    ping_name: ping_name.clone(),
                    seqno: seqno,
                    reason: reason,
                    collection_time: self.clock,
                    entries: snap,
                };
                let body = assemble_body(&request, &self.config.client_info);
                let job = UploadJob {
                    request: request,
                    body: body,
                    url: url,
                    headers: default_headers(),
                    attempts: 0,
                };
                proof {
                    assert(job@ =~= submitted_job(m0, ping_name@, job.request.reason@));
                }
                self.uploads.enqueue(job);
                let bumped: u64 = if seqno < u64::MAX {
                    seqno + 1
                } else {
                    seqno
                };
                set_seqno(&mut self.seqnos, &ping_name, bumped);
                if self.doc_counter < u64::MAX {
                    self.doc_counter += 1;
                }
                self.storage.clear(&ping_name, Lifetime::Ping);
                proof {
                    assert(self@.core =~= apply_task(m0, tm));
                }
            },
        }
    }

    /// Drains the whole backlog in submission order.
    fn drain(&mut self)
        requires
            glean_inv(old(self)@),
        ensures
            glean_inv(final(self)@),
            final(self)@.core == apply_tasks(old(self)@.core, old(self)@.dispatcher.queue),
            final(self)@.dispatcher == (DispatcherModel {
                queue: Seq::<TaskModel>::empty(),
                ..old(self)@.dispatcher
            }),
    {
        let ghost m0 = self@.core;
        let ghost tv = self@.dispatcher.queue;
        let mut tasks = self.dispatcher.take_pending();
        while tasks.len() > 0
            invariant
                glean_inv(self@),
                apply_tasks(m0, tv) == apply_tasks(self@.core, tasks.deep_view()),
                self@.dispatcher == (DispatcherModel {
                    queue: Seq::<TaskModel>::empty(),
                    ..old(self)@.dispatcher
                }),
            decreases tasks.len(),
        {
            let ghost pre = tasks.deep_view();
            let ghost core_pre = self@.core;
            let t = tasks.remove(0);
            proof {
                assert(tasks.deep_view() =~= pre.skip(1));
                assert(t@ == pre[0]);
            }
            self.execute_task(t);
            proof {
                assert(apply_tasks(core_pre, pre) == apply_tasks(
                    apply_task(core_pre, pre[0]),
                    pre.skip(1),
                ));
            }
        }
        proof {
            assert(tasks.deep_view() =~= Seq::<TaskModel>::empty());
        }
    }

    /// Finishes initialization: `worker_spawned` reports whether the host
    /// managed to create the dedicated worker.  On success the queue
    /// drains its pre-initialization backlog — every buffered call runs
    /// exactly once, in original order, before anything enqueued later —
    /// and goes live.  A failed spawn or a second initialization attempt
    /// is rejected with `InvalidState` and changes nothing.
    pub fn initialize(&mut self, worker_spawned: bool) -> (r: Result<(), ErrorType>)
        requires
            glean_inv(old(self)@),
        ensures
            glean_inv(final(self)@),
            old(self)@.dispatcher.state == DispatcherState::Buffering && worker_spawned ==> {
                &&& r is Ok
                &&& final(self)@.core == apply_tasks(
                    old(self)@.core,
                    old(self)@.dispatcher.queue,
                )
                &&& final(self)@.dispatcher == (DispatcherModel {
                    state: DispatcherState::Live,
                    queue: Seq::<TaskModel>::empty(),
                    ..old(self)@.dispatcher
                })
            },
            !(old(self)@.dispatcher.state == DispatcherState::Buffering && worker_spawned) ==> {
                &&& r == Result::<(), ErrorType>::Err(ErrorType::InvalidState)
                &&& final(self)@ == old(self)@
            },
    {
        match self.dispatcher.state() {
            DispatcherState::Buffering => {},
            _ => {
                return Result::Err(ErrorType::InvalidState);
            },
        }
        if !worker_spawned {
            return Result::Err(ErrorType::InvalidState);
        }
        self.dispatcher.transition(DispatcherState::Draining);
        proof {
            assert(self@.core =~= old(self)@.core);
        }
        self.drain();
        self.dispatcher.transition(DispatcherState::Live);
        proof {
            assert(self@.core =~= apply_tasks(old(self)@.core, old(self)@.dispatcher.queue));
        }
        Result::Ok(())
    }

    /// Runs every queued task now: the synchronous analog of the
    /// test-only barrier that blocks until the queue is idle.  Does
    /// nothing unless the queue is live.
    pub fn process_pending(&mut self)
        requires
            glean_inv(old(self)@),
        ensures
            glean_inv(final(self)@),
            old(self)@.dispatcher.state == DispatcherState::Live ==> {
                &&& final(self)@.core == apply_tasks(
                    old(self)@.core,
                    old(self)@.dispatcher.queue,
                )
                &&& final(self)@.dispatcher == (DispatcherModel {
                    queue: Seq::<TaskModel>::empty(),
                    ..old(self)@.dispatcher
                })
            },
            old(self)@.dispatcher.state != DispatcherState::Live ==> final(self)@ == old(self)@,
    {
        match self.dispatcher.state() {
            DispatcherState::Live => {
                self.drain();
            },
            _ => {},
        }
    }

    /// Stops accepting tasks and terminates.  When live and within the
    /// shutdown deadline the backlog is drained first; otherwise the
    /// remaining tasks are abandoned unexecuted.
    pub fn shut_down(&mut self, within_deadline: bool)
        requires
            glean_inv(old(self)@),
        ensures
            glean_inv(final(self)@),
            old(self)@.dispatcher.state == DispatcherState::Live && within_deadline
                ==> final(self)@.core == apply_tasks(old(self)@.core, old(self)@.dispatcher.queue),
            !(old(self)@.dispatcher.state == DispatcherState::Live && within_deadline)
                ==> final(self)@.core == old(self)@.core,
            final(self)@.dispatcher == (DispatcherModel {
                state: DispatcherState::Stopped,
                queue: Seq::<TaskModel>::empty(),
                ..old(self)@.dispatcher
            }),
    {
        let live = match self.dispatcher.state() {
            DispatcherState::Live => true,
            _ => false,
        };
        if live && within_deadline {
            self.dispatcher.transition(DispatcherState::ShuttingDown);
            self.drain();
        } else {
            let _ = self.dispatcher.take_pending();
            proof {
                assert(self@.core =~= old(self)@.core);
            }
        }
        self.dispatcher.transition(DispatcherState::Stopped);
    }

    /// A profile reset: clears User-lifetime data, which otherwise
    /// survives restarts and submissions indefinitely.
    pub fn reset_user_data(&mut self)
        requires
            glean_inv(old(self)@),
        ensures
            glean_inv(final(self)@),
            final(self)@.core == (CoreModel {
                storage: clear_all_spec(old(self)@.core.storage, Lifetime::User),
                ..old(self)@.core
            }),
            final(self)@.dispatcher == old(self)@.dispatcher,
    {
        proof {
            crate::storage::lemma_clear_all(self@.core.storage, Lifetime::User);
        }
        self.storage.clear_all(Lifetime::User);
        proof {
            assert(self@.core =~= (CoreModel {
                storage: clear_all_spec(old(self)@.core.storage, Lifetime::User),
                ..old(self)@.core
            }));
        }
    }

    /// The oldest pending upload, for the delivery loop.
    pub fn next_upload_job(&self) -> (r: Option<UploadJob>)
        ensures
            match r {
                Option::Some(j) => self@.core.uploads.queue.len() > 0 && j@
                    == self@.core.uploads.queue[0],
                Option::None => self@.core.uploads.queue.len() == 0,
            },
    {
        self.uploads.next_job()
    }

    /// Reports the uploader's outcome for the oldest pending upload.
    pub fn process_upload_outcome(&mut self, outcome: UploadOutcome) -> (r: UploadDisposition)
        requires
            old(self)@.core.uploads.queue.len() > 0,
            old(self)@.core.uploads.queue[0].attempts < u32::MAX,
        ensures
            final(self)@.core == (CoreModel { uploads: final(self)@.core.uploads, ..old(self)@.core }),
            final(self)@.dispatcher == old(self)@.dispatcher,
            crate::upload::outcome_spec(old(self)@.core.uploads, final(self)@.core.uploads, outcome, r),
    {
        let r = self.uploads.process_outcome(outcome);
        proof {
            assert(self@.core =~= (CoreModel { uploads: self@.core.uploads, ..old(self)@.core }));
        }
        r
    }

    /// How many uploads are pending.
    pub fn pending_upload_count(&self) -> (r: usize)
        ensures
            r == self@.core.uploads.queue.len(),
    {
        self.uploads.pending_count()
    }

    /// How many uploads were dropped permanently.
    pub fn dropped_upload_count(&self) -> (r: u64)
        ensures
            r == self@.core.uploads.dropped,
    {
        self.uploads.dropped_count()
    }

    /// How many uploads completed.
    pub fn completed_upload_count(&self) -> (r: u64)
        ensures
            r == self@.core.uploads.completed,
    {
        self.uploads.completed_count()
    }

    /// Everything the host must write to the data directory to survive a
    /// process restart.
    pub fn export_persisted(&self) -> (r: PersistedState)
        ensures
            r.entries.deep_view() == self@.core.storage,
            r.seqnos.deep_view() == self@.core.seqnos,
            r.pending.deep_view() == self@.core.uploads.queue,
            r.doc_counter == self@.core.doc_counter,
    {
        PersistedState {
            entries: clone_entry_vec(self.storage.entries()),
            seqnos: clone_seqno_vec(&self.seqnos),
            pending: clone_job_vec(self.uploads.pending()),
            doc_counter: self.doc_counter,
        }
    }
}

/// After a performed submit of `ping`, the store holds no Ping-lifetime
/// entry for that ping name: a snapshot taken before any new recording
/// returns no value for any Ping-lifetime identifier.  Entries of other
/// ping names, and entries of other lifetimes, are untouched.
pub proof fn lemma_submit_clears_ping_lifetime(
    m: CoreModel,
    ping: Seq<char>,
    reason: Seq<char>,
    id: Seq<char>,
)
    requires
        storage_wf(m.storage),
    ensures
        submit_performed(m, ping) ==> match lookup(
            apply_task(m, TaskModel::Submit { ping_name: ping, reason }).storage,
            ping,
            id,
        ) {
            Option::Some(e) => e.lifetime != Lifetime::Ping,
            Option::None => true,
        },
{
    if submit_performed(m, ping) {
        crate::storage::lemma_clear_ping(m.storage, ping, Lifetime::Ping);
    }
}

/// An Application-lifetime value survives a submit of its ping — it is
/// cleared by the process-start housekeeping (the lifetime-wide clear a
/// fresh context runs), not by submission.
pub proof fn lemma_application_lifetime(
    m: CoreModel,
    ping: Seq<char>,
    reason: Seq<char>,
    id: Seq<char>,
)
    requires
        storage_wf(m.storage),
    ensures
        match lookup(m.storage, ping, id) {
            Option::Some(e) => e.lifetime == Lifetime::Application ==> {
                &&& lookup(
                    apply_task(m, TaskModel::Submit { ping_name: ping, reason }).storage,
                    ping,
                    id,
                ) == lookup(m.storage, ping, id)
                &&& lookup(clear_all_spec(m.storage, Lifetime::Application), ping, id) is None
            },
            Option::None => true,
        },
{
    if submit_performed(m, ping) {
        crate::storage::lemma_clear_ping(m.storage, ping, Lifetime::Ping);
    }
    crate::storage::lemma_clear_all(m.storage, Lifetime::Application);
}

/// Round trip for a structured metric: when the text is valid JSON,
/// setting it and reading the same identifier back (after the queue has
/// drained) yields exactly its canonical form, in every owning ping.
/// When the text is invalid, every stored metric value — in particular
/// the metric's previous value — is untouched; only the synthesized
/// error counter changes.
pub proof fn lemma_set_object_round_trip(
    m: CoreModel,
    meta: crate::common::MetricMeta,
    text: Seq<char>,
    ping: Seq<char>,
)
    requires
        storage_wf(m.storage),
        meta_well_formed(meta),
        !meta.disabled,
    ensures
        json_valid(text) && meta.send_in_pings.contains(ping) ==> lookup_value(
            apply_task(m, TaskModel::SetObjectRaw { meta, text }).storage,
            ping,
            identifier_of(meta),
        ) == Option::Some(MetricModel::Object(json_canon(text))),
        !json_valid(text) ==> forall|p2: Seq<char>, id2: Seq<char>|
            id2 != crate::error::error_id_of(ErrorType::InvalidValue, meta) ==> lookup(
                apply_task(m, TaskModel::SetObjectRaw { meta, text }).storage,
                p2,
                id2,
            ) == lookup(m.storage, p2, id2),
        !json_valid(text) ==> forall|p2: Seq<char>|
            lookup(
                apply_task(m, TaskModel::SetObjectRaw { meta, text }).storage,
                p2,
                identifier_of(meta),
            ) == lookup(m.storage, p2, identifier_of(meta)),
{
    crate::error::lemma_error_id_is_internal(ErrorType::InvalidValue, meta);
    if json_valid(text) {
        crate::storage::lemma_record(
            m.storage,
            meta.send_in_pings,
            identifier_of(meta),
            meta.lifetime,
            MetricModel::Object(json_canon(text)),
            MergePolicy::Overwrite,
        );
    } else {
        crate::storage::lemma_record(
            m.storage,
            meta.send_in_pings,
            crate::error::error_id_of(ErrorType::InvalidValue, meta),
            Lifetime::Ping,
            MetricModel::Counter(1),
            MergePolicy::Accumulate,
        );
    }
}

/// Round trip for a recorded document (the task that
/// `ObjectMetric::set` enqueues after a successful serialization):
/// executing it and reading the same identifier back yields exactly the
/// recorded text, in every owning ping.
pub proof fn lemma_record_object_round_trip(
    m: CoreModel,
    meta: crate::common::MetricMeta,
    text: Seq<char>,
    ping: Seq<char>,
)
    requires
        storage_wf(m.storage),
        meta_well_formed(meta),
        !meta.disabled,
    ensures
        meta.send_in_pings.contains(ping) ==> lookup_value(
            apply_task(
                m,
                TaskModel::Record {
                    meta,
                    value: MetricModel::Object(text),
                    policy: MergePolicy::Overwrite,
                },
            ).storage,
            ping,
            identifier_of(meta),
        ) == Option::Some(MetricModel::Object(text)),
{
    crate::storage::lemma_record(
        m.storage,
        meta.send_in_pings,
        identifier_of(meta),
        meta.lifetime,
        MetricModel::Object(text),
        MergePolicy::Overwrite,
    );
    crate::storage::lemma_record_overflow(
        m.storage,
        meta.send_in_pings,
        identifier_of(meta),
        meta.lifetime,
        MetricModel::Object(text),
        MergePolicy::Overwrite,
    );
}

/// Recording a structured payload as invalid text bumps the metric's
/// `InvalidValue` error counter by one in each owning ping (until the
/// counter saturates).
pub proof fn lemma_invalid_value_counted(
    m: CoreModel,
    meta: crate::common::MetricMeta,
    text: Seq<char>,
    ping: Seq<char>,
)
    requires
        storage_wf(m.storage),
        meta_well_formed(meta),
        !meta.disabled,
        meta.send_in_pings.contains(ping),
    ensures
        !json_valid(text) && crate::error::num_errors_of(
            m.storage,
            ErrorType::InvalidValue,
            meta,
            ping,
        ) < i32::MAX && (match lookup_value(
            m.storage,
            ping,
            crate::error::error_id_of(ErrorType::InvalidValue, meta),
        ) {
            Option::Some(v) => v is Counter,
            Option::None => true,
        }) ==> crate::error::num_errors_of(
            apply_task(m, TaskModel::SetObjectRaw { meta, text }).storage,
            ErrorType::InvalidValue,
            meta,
            ping,
        ) == crate::error::num_errors_of(m.storage, ErrorType::InvalidValue, meta, ping) + 1,
{
    if !json_valid(text) {
        crate::storage::lemma_record(
            m.storage,
            meta.send_in_pings,
            crate::error::error_id_of(ErrorType::InvalidValue, meta),
            Lifetime::Ping,
            MetricModel::Counter(1),
            MergePolicy::Accumulate,
        );
    }
}

} // verus!
