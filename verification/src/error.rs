//! Recording of recoverable failures as internal meta-metrics.
//!
//! A validation or storage failure is never surfaced to the calling
//! application: it increments a counter stored under a synthesized
//! identifier, inside the same pings as the affected metric.

use vstd::prelude::*;
use vstd::string::StringExecFns;
use crate::common::{base_identifier_of, CommonMetricData, MetricMeta};
use crate::lifetime::Lifetime;
use crate::metric::{Metric, MetricModel, MergePolicy};
use crate::storage::{lookup_value, record_spec, storage_wf, StorageEngine};

verus! {

/// The kinds of failure the library records or reports.
#[derive(Clone, Copy, Debug, PartialEq, Eq, Structural)]
pub enum ErrorType {
    /// A payload failed type or schema expectations.
    InvalidValue,
    /// A metric operation was used on the wrong declared type.
    InvalidType,
    /// An accumulation exceeded the representable range.
    InvalidOverflow,
    /// An operation arrived before initialization or after shutdown.
    InvalidState,
    /// A persisted entry was unreadable on load.
    StorageCorruption,
    /// The transport rejected an upload permanently.
    UploadUnrecoverable,
    /// The pre-initialization buffer overflowed.
    QueueOverflow,
}

/// The token naming an error kind inside a synthesized identifier.
pub open spec fn error_token_of(e: ErrorType) -> Seq<char> {
    match e {
        ErrorType::InvalidValue => "invalid_value"@,
        ErrorType::InvalidType => "invalid_type"@,
        ErrorType::InvalidOverflow => "invalid_overflow"@,
        ErrorType::InvalidState => "invalid_state"@,
        ErrorType::StorageCorruption => "storage_corruption"@,
        ErrorType::UploadUnrecoverable => "upload_unrecoverable"@,
        ErrorType::QueueOverflow => "queue_overflow"@,
    }
}

/// The synthesized identifier under which errors of kind `e` for the
/// metric described by `m` are counted.
pub open spec fn error_id_of(e: ErrorType, m: MetricMeta) -> Seq<char> {
    "glean.error."@ + error_token_of(e) + "/"@ + base_identifier_of(m)
}

fn error_token(e: ErrorType) -> (r: &'static str)
    ensures
        r@ == error_token_of(e),
{
    match e {
        ErrorType::InvalidValue => "invalid_value",
        ErrorType::InvalidType => "invalid_type",
        ErrorType::InvalidOverflow => "invalid_overflow",
        ErrorType::InvalidState => "invalid_state",
        ErrorType::StorageCorruption => "storage_corruption",
        ErrorType::UploadUnrecoverable => "upload_unrecoverable",
        ErrorType::QueueOverflow => "queue_overflow",
    }
}

/// The synthesized error-counter identifier for `(e, meta)`.
pub fn error_identifier(e: ErrorType, meta: &CommonMetricData) -> (r: String)
    ensures
        r@ == error_id_of(e, meta@),
{
    let mut r = String::new();
    r.append("glean.error.");
    r.append(error_token(e));
    r.append("/");
    let base = meta.base_identifier();
    r.append(base.as_str());
    proof {
        assert(r@ =~= error_id_of(e, meta@));
    }
    r
}

/// Synthesized error identifiers live inside the reserved internal
/// namespace, which [`crate::common::meta_well_formed`] keeps ordinary
/// metric identifiers out of: an error counter can never collide with the
/// slot of a declared metric.
pub proof fn lemma_error_id_is_internal(e: ErrorType, m: MetricMeta)
    ensures
        crate::ping::is_internal_id(error_id_of(e, m)),
{
    reveal_strlit("glean.error.");
    assert("glean.error."@ =~= crate::ping::internal_prefix());
    assert(error_id_of(e, m).take(12) =~= crate::ping::internal_prefix());
}

/// The storage state after recording one error of kind `e` for `m`: the
/// counter under the synthesized identifier is incremented in every owning
/// ping, with `Ping` lifetime, so it is cleared together with the ping.
pub open spec fn record_error_spec(
    s: Seq<crate::storage::EntryModel>,
    e: ErrorType,
    m: MetricMeta,
) -> Seq<crate::storage::EntryModel> {
    record_spec(
        s,
        m.send_in_pings,
        error_id_of(e, m),
        Lifetime::Ping,
        MetricModel::Counter(1),
        MergePolicy::Accumulate,
    )
}

/// Counts one error of kind `e` against the metric described by `meta`.
/// The human-readable message that may accompany a failure serves the
/// host's logging only and stays with the host; the counter records the
/// kind.
pub fn record_error(store: &mut StorageEngine, meta: &CommonMetricData, e: ErrorType)
    requires
        storage_wf(old(store)@),
    ensures
        final(store)@ == record_error_spec(old(store)@, e, meta@),
        storage_wf(final(store)@),
{
    let id = error_identifier(e, meta);
    store.record(
        &meta.send_in_pings,
        &id,
        Lifetime::Ping,
        &Metric::Counter(1),
        MergePolicy::Accumulate,
    );
}

/// The number of errors of kind `e` recorded for `m` in ping `ping`.
pub open spec fn num_errors_of(
    s: Seq<crate::storage::EntryModel>,
    e: ErrorType,
    m: MetricMeta,
    ping: Seq<char>,
) -> int {
    match lookup_value(s, ping, error_id_of(e, m)) {
        Option::Some(MetricModel::Counter(n)) => n as int,
        _ => 0,
    }
}

/// Reads the error counter for `(e, meta)` in ping `ping`.
pub fn get_num_errors(
    store: &StorageEngine,
    meta: &CommonMetricData,
    e: ErrorType,
    ping: &String,
) -> (r: i32)
    ensures
        r as int == num_errors_of(store@, e, meta@, ping@),
{
    let id = error_identifier(e, meta);
    match store.get(ping, &id) {
        Option::Some(Metric::Counter(n)) => n,
        _ => 0,
    }
}

} // verus!
