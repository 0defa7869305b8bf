//! The lifetime-aware key/value store behind every metric.
//!
//! Entries are keyed by `(ping name, metric identifier)`; for a given ping
//! name at most one value exists per identifier.  Writes either overwrite
//! or accumulate, snapshots copy without mutating, and clearing is scoped
//! by ping name and lifetime.

use vstd::prelude::*;
use crate::lifetime::Lifetime;
use crate::metric::{merged_value, Metric, MetricModel, MergePolicy};

verus! {

/// One persisted `(ping name, identifier) -> value` mapping.
#[derive(Debug)]
pub struct StorageEntry {
    pub ping_name: String,
    pub metric_id: String,
    pub lifetime: Lifetime,
    pub value: Metric,
}

/// Mathematical model of a [`StorageEntry`].
#[verifier::ext_equal]
pub struct EntryModel {
    pub ping_name: Seq<char>,
    pub metric_id: Seq<char>,
    pub lifetime: Lifetime,
    pub value: MetricModel,
}

impl View for StorageEntry {
    type V = EntryModel;

    open spec fn view(&self) -> EntryModel {
        EntryModel {
            ping_name: self.ping_name@,
            metric_id: self.metric_id@,
            lifetime: self.lifetime,
            value: self.value@,
        }
    }
}

impl DeepView for StorageEntry {
    type V = EntryModel;

    open spec fn deep_view(&self) -> EntryModel {
        self.view()
    }
}

impl Clone for StorageEntry {
    fn clone(&self) -> (r: Self)
        ensures
            r@ == self@,
    {
        StorageEntry {
            ping_name: self.ping_name.clone(),
            metric_id: self.metric_id.clone(),
            lifetime: self.lifetime,
            value: self.value.clone(),
        }
    }
}

/// Whether `e` is stored under the key `(ping, id)`.
pub open spec fn key_matches(e: EntryModel, ping: Seq<char>, id: Seq<char>) -> bool {
    e.ping_name == ping && e.metric_id == id
}

/// The entry stored under `(ping, id)`, if any.
pub open spec fn lookup(s: Seq<EntryModel>, ping: Seq<char>, id: Seq<char>) -> Option<EntryModel>
    decreases s.len(),
{
    if s.len() == 0 {
        Option::<EntryModel>::None
    } else if key_matches(s.last(), ping, id) {
        Option::Some(s.last())
    } else {
        lookup(s.drop_last(), ping, id)
    }
}

/// The value stored under `(ping, id)`, if any.
pub open spec fn lookup_value(s: Seq<EntryModel>, ping: Seq<char>, id: Seq<char>) -> Option<MetricModel> {
    match lookup(s, ping, id) {
        Option::Some(e) => Option::Some(e.value),
        Option::None => Option::None,
    }
}

/// The store's invariant: at most one entry per `(ping name, identifier)`.
pub open spec fn storage_wf(s: Seq<EntryModel>) -> bool {
    forall|i: int, j: int|
        0 <= i < j < s.len() ==> !(s[i].ping_name == s[j].ping_name && s[i].metric_id
            == s[j].metric_id)
}

/// A key is absent exactly when no position holds it.
pub proof fn lemma_lookup_none_iff(s: Seq<EntryModel>, ping: Seq<char>, id: Seq<char>)
    ensures
        lookup(s, ping, id) is None <==> forall|i: int|
            0 <= i < s.len() ==> !key_matches(s[i], ping, id),
    decreases s.len(),
{
    if s.len() > 0 {
        lemma_lookup_none_iff(s.drop_last(), ping, id);
        assert(forall|i: int| 0 <= i < s.len() - 1 ==> s.drop_last()[i] == s[i]);
    }
}

/// `s` with the value under `(ping, id)` replaced by `e` (which carries the
/// same key); positions and all other entries are untouched.
pub open spec fn replace_spec(
    s: Seq<EntryModel>,
    ping: Seq<char>,
    id: Seq<char>,
    e: EntryModel,
) -> Seq<EntryModel>
    decreases s.len(),
{
    if s.len() == 0 {
        s
    } else if key_matches(s.last(), ping, id) {
        s.drop_last().push(e)
    } else {
        replace_spec(s.drop_last(), ping, id, e).push(s.last())
    }
}

/// Replacement keeps length and every key in place.
pub proof fn lemma_replace_keys(s: Seq<EntryModel>, ping: Seq<char>, id: Seq<char>, e: EntryModel)
    requires
        key_matches(e, ping, id),
    ensures
        replace_spec(s, ping, id, e).len() == s.len(),
        forall|i: int|
            0 <= i < s.len() ==> replace_spec(s, ping, id, e)[i].ping_name == s[i].ping_name
                && replace_spec(s, ping, id, e)[i].metric_id == s[i].metric_id,
    decreases s.len(),
{
    if s.len() > 0 {
        lemma_replace_keys(s.drop_last(), ping, id, e);
        assert(forall|i: int| 0 <= i < s.len() - 1 ==> s.drop_last()[i] == s[i]);
    }
}

/// What a lookup sees after a replacement.
pub proof fn lemma_lookup_replace(
    s: Seq<EntryModel>,
    ping: Seq<char>,
    id: Seq<char>,
    e: EntryModel,
    p2: Seq<char>,
    id2: Seq<char>,
)
    requires
        key_matches(e, ping, id),
    ensures
        lookup(replace_spec(s, ping, id, e), p2, id2) == if p2 == ping && id2 == id && lookup(
            s,
            ping,
            id,
        ) is Some {
            Option::Some(e)
        } else {
            lookup(s, p2, id2)
        },
    decreases s.len(),
{
    if s.len() > 0 {
        lemma_lookup_replace(s.drop_last(), ping, id, e, p2, id2);
        let r = replace_spec(s, ping, id, e);
        if key_matches(s.last(), ping, id) {
            assert(r == s.drop_last().push(e));
            assert(r.last() == e);
            assert(r.drop_last() =~= s.drop_last());
        } else {
            assert(r == replace_spec(s.drop_last(), ping, id, e).push(s.last()));
            assert(r.last() == s.last());
            assert(r.drop_last() =~= replace_spec(s.drop_last(), ping, id, e));
        }
    }
}

/// The entry that recording `(v, policy)` under `(ping, id)` stores.
pub open spec fn upserted_entry(
    s: Seq<EntryModel>,
    ping: Seq<char>,
    id: Seq<char>,
    lifetime: Lifetime,
    v: MetricModel,
    policy: MergePolicy,
) -> EntryModel {
    EntryModel {
        ping_name: ping,
        metric_id: id,
        lifetime: lifetime,
        value: merged_value(lookup_value(s, ping, id), v, policy),
    }
}

/// `s` after recording `(v, policy)` under `(ping, id)`: the existing entry
/// is replaced in place, a fresh key is appended at the end.
pub open spec fn upsert_spec(
    s: Seq<EntryModel>,
    ping: Seq<char>,
    id: Seq<char>,
    lifetime: Lifetime,
    v: MetricModel,
    policy: MergePolicy,
) -> Seq<EntryModel> {
    let e = upserted_entry(s, ping, id, lifetime, v, policy);
    if lookup(s, ping, id) is Some {
        replace_spec(s, ping, id, e)
    } else {
        s.push(e)
    }
}

/// What a lookup sees after an upsert, and that the invariant is kept.
pub proof fn lemma_upsert(
    s: Seq<EntryModel>,
    ping: Seq<char>,
    id: Seq<char>,
    lifetime: Lifetime,
    v: MetricModel,
    policy: MergePolicy,
)
    requires
        storage_wf(s),
    ensures
        storage_wf(upsert_spec(s, ping, id, lifetime, v, policy)),
        forall|p2: Seq<char>, id2: Seq<char>|
            lookup(upsert_spec(s, ping, id, lifetime, v, policy), p2, id2) == if p2 == ping && id2
                == id {
                Option::Some(upserted_entry(s, ping, id, lifetime, v, policy))
            } else {
                lookup(s, p2, id2)
            },
{
    let e = upserted_entry(s, ping, id, lifetime, v, policy);
    let r = upsert_spec(s, ping, id, lifetime, v, policy);
    if lookup(s, ping, id) is Some {
        lemma_replace_keys(s, ping, id, e);
        assert forall|p2: Seq<char>, id2: Seq<char>|
            lookup(r, p2, id2) == if p2 == ping && id2 == id {
                Option::Some(e)
            } else {
                lookup(s, p2, id2)
            } by {
            lemma_lookup_replace(s, ping, id, e, p2, id2);
        }
    } else {
        lemma_lookup_none_iff(s, ping, id);
        assert(forall|i: int| 0 <= i < s.len() ==> r[i] == s[i]);
        assert forall|p2: Seq<char>, id2: Seq<char>|
            lookup(r, p2, id2) == if p2 == ping && id2 == id {
                Option::Some(e)
            } else {
                lookup(s, p2, id2)
            } by {
            assert(r.last() == e);
            assert(r.drop_last() =~= s);
        }
    }
}

/// `s` without the entries of ping name `ping` whose lifetime is `lt`.
pub open spec fn clear_ping_spec(s: Seq<EntryModel>, ping: Seq<char>, lt: Lifetime) -> Seq<
    EntryModel,
>
    decreases s.len(),
{
    if s.len() == 0 {
        s
    } else {
        let r = clear_ping_spec(s.drop_last(), ping, lt);
        if s.last().ping_name == ping && s.last().lifetime == lt {
            r
        } else {
            r.push(s.last())
        }
    }
}

/// What a lookup sees after a scoped clear, and that the invariant is kept.
pub proof fn lemma_clear_ping(s: Seq<EntryModel>, ping: Seq<char>, lt: Lifetime)
    requires
        storage_wf(s),
    ensures
        storage_wf(clear_ping_spec(s, ping, lt)),
        forall|p2: Seq<char>, id2: Seq<char>|
            lookup(clear_ping_spec(s, ping, lt), p2, id2) == (match lookup(s, p2, id2) {
                Option::Some(e) => if p2 == ping && e.lifetime == lt {
                    Option::<EntryModel>::None
                } else {
                    Option::Some(e)
                },
                Option::None => Option::<EntryModel>::None,
            }),
    decreases s.len(),
{
    if s.len() > 0 {
        assert(forall|i: int| 0 <= i < s.len() - 1 ==> s.drop_last()[i] == s[i]);
        lemma_clear_ping(s.drop_last(), ping, lt);
        let r = clear_ping_spec(s, ping, lt);
        let rp = clear_ping_spec(s.drop_last(), ping, lt);
        let last = s.last();
        if last.ping_name == ping && last.lifetime == lt {
            assert forall|p2: Seq<char>, id2: Seq<char>|
                lookup(r, p2, id2) == (match lookup(s, p2, id2) {
                    Option::Some(e) => if p2 == ping && e.lifetime == lt {
                        Option::<EntryModel>::None
                    } else {
                        Option::Some(e)
                    },
                    Option::None => Option::<EntryModel>::None,
                }) by {
                if key_matches(last, p2, id2) {
                    lemma_lookup_none_iff(s.drop_last(), p2, id2);
                }
            }
        } else {
            assert(r == rp.push(last));
            assert(r.last() == last);
            // the appended entry's key is absent from the cleared prefix
            assert forall|i: int| 0 <= i < rp.len() implies !(rp[i].ping_name == last.ping_name
                && rp[i].metric_id == last.metric_id) by {
                if rp[i].ping_name == last.ping_name && rp[i].metric_id == last.metric_id {
                    lemma_lookup_none_iff(s.drop_last(), last.ping_name, last.metric_id);
                    lemma_lookup_none_iff(rp, last.ping_name, last.metric_id);
                }
            }
            assert forall|p2: Seq<char>, id2: Seq<char>|
                lookup(r, p2, id2) == (match lookup(s, p2, id2) {
                    Option::Some(e) => if p2 == ping && e.lifetime == lt {
                        Option::<EntryModel>::None
                    } else {
                        Option::Some(e)
                    },
                    Option::None => Option::<EntryModel>::None,
                }) by {
                assert(r.drop_last() =~= rp);
                assert(r.last() == last);
                if key_matches(last, p2, id2) {
                    assert(lookup(r, p2, id2) == Option::Some(last));
                    assert(lookup(s, p2, id2) == Option::Some(last));
                } else {
                    assert(lookup(r, p2, id2) == lookup(rp, p2, id2));
                    assert(lookup(s, p2, id2) == lookup(s.drop_last(), p2, id2));
                }
            }
        }
    }
}

/// `s` without the entries (of any ping name) whose lifetime is `lt`.
pub open spec fn clear_all_spec(s: Seq<EntryModel>, lt: Lifetime) -> Seq<EntryModel>
    decreases s.len(),
{
    if s.len() == 0 {
        s
    } else {
        let r = clear_all_spec(s.drop_last(), lt);
        if s.last().lifetime == lt {
            r
        } else {
            r.push(s.last())
        }
    }
}

/// What a lookup sees after a lifetime-wide clear, and that the invariant
/// is kept.
pub proof fn lemma_clear_all(s: Seq<EntryModel>, lt: Lifetime)
    requires
        storage_wf(s),
    ensures
        storage_wf(clear_all_spec(s, lt)),
        forall|p2: Seq<char>, id2: Seq<char>|
            lookup(clear_all_spec(s, lt), p2, id2) == (match lookup(s, p2, id2) {
                Option::Some(e) => if e.lifetime == lt {
                    Option::<EntryModel>::None
                } else {
                    Option::Some(e)
                },
                Option::None => Option::<EntryModel>::None,
            }),
    decreases s.len(),
{
    if s.len() > 0 {
        assert(forall|i: int| 0 <= i < s.len() - 1 ==> s.drop_last()[i] == s[i]);
        lemma_clear_all(s.drop_last(), lt);
        let r = clear_all_spec(s, lt);
        let rp = clear_all_spec(s.drop_last(), lt);
        let last = s.last();
        if last.lifetime == lt {
            assert forall|p2: Seq<char>, id2: Seq<char>|
                lookup(r, p2, id2) == (match lookup(s, p2, id2) {
                    Option::Some(e) => if e.lifetime == lt {
                        Option::<EntryModel>::None
                    } else {
                        Option::Some(e)
                    },
                    Option::None => Option::<EntryModel>::None,
                }) by {
                if key_matches(last, p2, id2) {
                    lemma_lookup_none_iff(s.drop_last(), p2, id2);
                }
            }
        } else {
            assert(r == rp.push(last));
            assert(r.last() == last);
            assert forall|i: int| 0 <= i < rp.len() implies !(rp[i].ping_name == last.ping_name
                && rp[i].metric_id == last.metric_id) by {
                if rp[i].ping_name == last.ping_name && rp[i].metric_id == last.metric_id {
                    lemma_lookup_none_iff(s.drop_last(), last.ping_name, last.metric_id);
                    lemma_lookup_none_iff(rp, last.ping_name, last.metric_id);
                }
            }
            assert forall|p2: Seq<char>, id2: Seq<char>|
                lookup(r, p2, id2) == (match lookup(s, p2, id2) {
                    Option::Some(e) => if e.lifetime == lt {
                        Option::<EntryModel>::None
                    } else {
                        Option::Some(e)
                    },
                    Option::None => Option::<EntryModel>::None,
                }) by {
                assert(r.drop_last() =~= rp);
                assert(r.last() == last);
                if key_matches(last, p2, id2) {
                    assert(lookup(r, p2, id2) == Option::Some(last));
                    assert(lookup(s, p2, id2) == Option::Some(last));
                } else {
                    assert(lookup(r, p2, id2) == lookup(rp, p2, id2));
                    assert(lookup(s, p2, id2) == lookup(s.drop_last(), p2, id2));
                }
            }
        }
    }
}

/// The entries of ping name `ping`, in storage order.
pub open spec fn snapshot_spec(s: Seq<EntryModel>, ping: Seq<char>) -> Seq<EntryModel>
    decreases s.len(),
{
    if s.len() == 0 {
        s
    } else {
        let r = snapshot_spec(s.drop_last(), ping);
        if s.last().ping_name == ping {
            r.push(s.last())
        } else {
            r
        }
    }
}

/// `s` after recording `(v, policy)` under `id` for every ping name of
/// `pings`, front to back.
pub open spec fn record_spec(
    s: Seq<EntryModel>,
    pings: Seq<Seq<char>>,
    id: Seq<char>,
    lifetime: Lifetime,
    v: MetricModel,
    policy: MergePolicy,
) -> Seq<EntryModel>
    decreases pings.len(),
{
    if pings.len() == 0 {
        s
    } else {
        record_spec(
            upsert_spec(s, pings[0], id, lifetime, v, policy),
            pings.skip(1),
            id,
            lifetime,
            v,
            policy,
        )
    }
}

/// Whether any of the accumulations of [`record_spec`] overflowed.
pub open spec fn record_overflow_spec(
    s: Seq<EntryModel>,
    pings: Seq<Seq<char>>,
    id: Seq<char>,
    lifetime: Lifetime,
    v: MetricModel,
    policy: MergePolicy,
) -> bool
    decreases pings.len(),
{
    if pings.len() == 0 {
        false
    } else {
        crate::metric::merge_overflows(lookup_value(s, pings[0], id), v, policy)
            || record_overflow_spec(
            upsert_spec(s, pings[0], id, lifetime, v, policy),
            pings.skip(1),
            id,
            lifetime,
            v,
            policy,
        )
    }
}

/// Membership in a sequence splits into its head and its tail.
pub proof fn lemma_contains_split<T>(s: Seq<T>, x: T)
    requires
        s.len() > 0,
    ensures
        s.contains(x) <==> (s[0] == x || s.skip(1).contains(x)),
{
    if s.contains(x) {
        let i = choose|i: int| 0 <= i < s.len() && s[i] == x;
        if i > 0 {
            assert(s.skip(1)[i - 1] == x);
        }
    }
    if s.skip(1).contains(x) {
        let i = choose|i: int| 0 <= i < s.skip(1).len() && s.skip(1)[i] == x;
        assert(s[i + 1] == x);
    }
}

/// What a lookup sees after recording under several distinct ping names:
/// each receives the value merged with what it held before, every other
/// slot is untouched.
pub proof fn lemma_record(
    s: Seq<EntryModel>,
    pings: Seq<Seq<char>>,
    id: Seq<char>,
    lifetime: Lifetime,
    v: MetricModel,
    policy: MergePolicy,
)
    requires
        storage_wf(s),
        forall|i: int, j: int| 0 <= i < j < pings.len() ==> pings[i] != pings[j],
    ensures
        storage_wf(record_spec(s, pings, id, lifetime, v, policy)),
        forall|p2: Seq<char>, id2: Seq<char>|
            lookup(record_spec(s, pings, id, lifetime, v, policy), p2, id2) == if pings.contains(
                p2,
            ) && id2 == id {
                Option::Some(upserted_entry(s, p2, id, lifetime, v, policy))
            } else {
                lookup(s, p2, id2)
            },
    decreases pings.len(),
{
    if pings.len() > 0 {
        let s1 = upsert_spec(s, pings[0], id, lifetime, v, policy);
        lemma_upsert(s, pings[0], id, lifetime, v, policy);
        assert(forall|i: int, j: int|
            0 <= i < j < pings.skip(1).len() ==> pings.skip(1)[i] != pings.skip(1)[j]);
        lemma_record(s1, pings.skip(1), id, lifetime, v, policy);
        let r = record_spec(s, pings, id, lifetime, v, policy);
        assert(r == record_spec(s1, pings.skip(1), id, lifetime, v, policy));
        assert forall|p2: Seq<char>, id2: Seq<char>|
            lookup(r, p2, id2) == if pings.contains(p2) && id2 == id {
                Option::Some(upserted_entry(s, p2, id, lifetime, v, policy))
            } else {
                lookup(s, p2, id2)
            } by {
            lemma_contains_split(pings, p2);
            if pings.skip(1).contains(p2) && id2 == id {
                // a later ping name: its prior value was not touched by the
                // first upsert, so the merged entry agrees
                assert(pings[0] != p2);
                assert(lookup(s1, p2, id) == lookup(s, p2, id));
                assert(upserted_entry(s1, p2, id, lifetime, v, policy) == upserted_entry(
                    s,
                    p2,
                    id,
                    lifetime,
                    v,
                    policy,
                ));
            }
        }
    }
}

/// Recording under several distinct ping names overflows exactly when one
/// of the per-ping merges against the prior store overflows.
pub proof fn lemma_record_overflow(
    s: Seq<EntryModel>,
    pings: Seq<Seq<char>>,
    id: Seq<char>,
    lifetime: Lifetime,
    v: MetricModel,
    policy: MergePolicy,
)
    requires
        storage_wf(s),
        forall|i: int, j: int| 0 <= i < j < pings.len() ==> pings[i] != pings[j],
    ensures
        record_overflow_spec(s, pings, id, lifetime, v, policy) <==> exists|i: int|
            0 <= i < pings.len() && crate::metric::merge_overflows(
                lookup_value(s, pings[i], id),
                v,
                policy,
            ),
    decreases pings.len(),
{
    if pings.len() > 0 {
        let s1 = upsert_spec(s, pings[0], id, lifetime, v, policy);
        lemma_upsert(s, pings[0], id, lifetime, v, policy);
        assert(forall|i: int, j: int|
            0 <= i < j < pings.skip(1).len() ==> pings.skip(1)[i] != pings.skip(1)[j]);
        lemma_record_overflow(s1, pings.skip(1), id, lifetime, v, policy);
        assert(forall|i: int|
            0 <= i < pings.skip(1).len() ==> lookup_value(s1, pings.skip(1)[i], id)
                == lookup_value(s, pings.skip(1)[i], id));
        if record_overflow_spec(s, pings, id, lifetime, v, policy) {
            if !crate::metric::merge_overflows(lookup_value(s, pings[0], id), v, policy) {
                let i = choose|i: int|
                    0 <= i < pings.skip(1).len() && crate::metric::merge_overflows(
                        lookup_value(s1, pings.skip(1)[i], id),
                        v,
                        policy,
                    );
                assert(pings[i + 1] == pings.skip(1)[i]);
                assert(crate::metric::merge_overflows(lookup_value(s, pings[i + 1], id), v, policy));
            }
        }
        if exists|i: int|
            0 <= i < pings.len() && crate::metric::merge_overflows(
                lookup_value(s, pings[i], id),
                v,
                policy,
            ) {
            let i = choose|i: int|
                0 <= i < pings.len() && crate::metric::merge_overflows(
                    lookup_value(s, pings[i], id),
                    v,
                    policy,
                );
            if i > 0 {
                assert(pings.skip(1)[i - 1] == pings[i]);
                assert(crate::metric::merge_overflows(
                    lookup_value(s1, pings.skip(1)[i - 1], id),
                    v,
                    policy,
                ));
            }
        }
    }
}

/// What loading persisted entries keeps: the first entry seen for each key;
/// later entries for an already-loaded key are corrupt duplicates and are
/// dropped.
pub open spec fn load_spec(s: Seq<EntryModel>) -> Seq<EntryModel>
    decreases s.len(),
{
    if s.len() == 0 {
        s
    } else {
        let r = load_spec(s.drop_last());
        if lookup(s.drop_last(), s.last().ping_name, s.last().metric_id) is Some {
            r
        } else {
            r.push(s.last())
        }
    }
}

/// Loading establishes the invariant and keeps exactly the keys present in
/// the persisted input.
pub proof fn lemma_load(s: Seq<EntryModel>)
    ensures
        storage_wf(load_spec(s)),
        load_spec(s).len() <= s.len(),
        forall|p2: Seq<char>, id2: Seq<char>|
            lookup(load_spec(s), p2, id2) is Some <==> lookup(s, p2, id2) is Some,
    decreases s.len(),
{
    if s.len() > 0 {
        lemma_load(s.drop_last());
        let r = load_spec(s);
        let rp = load_spec(s.drop_last());
        let last = s.last();
        if lookup(s.drop_last(), last.ping_name, last.metric_id) is Some {
            assert forall|p2: Seq<char>, id2: Seq<char>|
                lookup(r, p2, id2) is Some <==> lookup(s, p2, id2) is Some by {
                if key_matches(last, p2, id2) {
                    assert(lookup(s.drop_last(), p2, id2) is Some);
                }
                assert(lookup(s, p2, id2) is Some ==> (key_matches(last, p2, id2) || lookup(
                    s.drop_last(),
                    p2,
                    id2,
                ) is Some));
            }
        } else {
            assert(r == rp.push(last));
            assert forall|i: int| 0 <= i < rp.len() implies !(rp[i].ping_name == last.ping_name
                && rp[i].metric_id == last.metric_id) by {
                if rp[i].ping_name == last.ping_name && rp[i].metric_id == last.metric_id {
                    lemma_lookup_none_iff(rp, last.ping_name, last.metric_id);
                }
            }
            assert forall|p2: Seq<char>, id2: Seq<char>|
                lookup(r, p2, id2) is Some <==> lookup(s, p2, id2) is Some by {
                assert(r.drop_last() =~= rp);
                assert(r.last() == last);
                if !key_matches(last, p2, id2) {
                    assert(lookup(r, p2, id2) == lookup(rp, p2, id2));
                    assert(lookup(s, p2, id2) == lookup(s.drop_last(), p2, id2));
                }
            }
        }
    }
}

/// The persistent, lifetime-aware store.  The invariant [`storage_wf`] is
/// required and re-established by every mutating operation.
#[derive(Debug)]
pub struct StorageEngine {
    entries: Vec<StorageEntry>,
}

impl View for StorageEngine {
    type V = Seq<EntryModel>;

    closed spec fn view(&self) -> Seq<EntryModel> {
        self.entries.deep_view()
    }
}

/// The index of the entry holding `(ping, id)`, scanning from the end so
/// that the result agrees with [`lookup`].
fn find_index(entries: &Vec<StorageEntry>, ping: &String, id: &String) -> (r: Option<usize>)
    ensures
        match r {
            Option::Some(i) => i < entries.len() && key_matches(
                entries.deep_view()[i as int],
                ping@,
                id@,
            ) && lookup(entries.deep_view(), ping@, id@) == Option::Some(
                entries.deep_view()[i as int],
            ) && forall|j: int|
                i < j < entries.len() ==> !key_matches(entries.deep_view()[j], ping@, id@),
            Option::None => lookup(entries.deep_view(), ping@, id@) is None,
        },
{
    let ghost dv = entries.deep_view();
    let mut i: usize = entries.len();
    proof {
        assert(dv.take(entries.len() as int) =~= dv);
    }
    while i > 0
        invariant
            i <= entries.len(),
            dv == entries.deep_view(),
            lookup(dv, ping@, id@) == lookup(dv.take(i as int), ping@, id@),
            forall|j: int| i <= j < entries.len() ==> !key_matches(dv[j], ping@, id@),
        decreases i,
    {
        i -= 1;
        if entries[i].ping_name == *ping && entries[i].metric_id == *id {
            proof {
                assert(dv.take(i + 1).last() == dv[i as int]);
                assert(key_matches(dv[i as int], ping@, id@));
            }
            return Option::Some(i);
        }
        proof {
            assert(dv.take(i + 1).drop_last() =~= dv.take(i as int));
            assert(dv.take(i + 1).last() == dv[i as int]);
        }
    }
    proof {
        assert(dv.take(0) =~= Seq::<EntryModel>::empty());
    }
    Option::None
}

/// [`replace_spec`] at the last matching index is a pointwise update.
proof fn lemma_replace_is_update(
    s: Seq<EntryModel>,
    ping: Seq<char>,
    id: Seq<char>,
    e: EntryModel,
    i: int,
)
    requires
        0 <= i < s.len(),
        key_matches(s[i], ping, id),
        forall|j: int| i < j < s.len() ==> !key_matches(s[j], ping, id),
    ensures
        replace_spec(s, ping, id, e) == s.update(i, e),
    decreases s.len(),
{
    if i == s.len() - 1 {
        assert(key_matches(s.last(), ping, id));
        assert(s.drop_last().push(e) =~= s.update(i, e));
    } else {
        assert(!key_matches(s.last(), ping, id));
        assert(forall|j: int| i < j < s.len() - 1 ==> s.drop_last()[j] == s[j]);
        lemma_replace_is_update(s.drop_last(), ping, id, e, i);
        assert(replace_spec(s, ping, id, e) == s.drop_last().update(i, e).push(s.last()));
        assert(s.drop_last().update(i, e).push(s.last()) =~= s.update(i, e));
    }
}

impl StorageEngine {
    /// An empty store.
    pub fn new() -> (r: Self)
        ensures
            r@ == Seq::<EntryModel>::empty(),
            storage_wf(r@),
    {
        let r = StorageEngine { entries: Vec::new() };
        proof {
            assert(r@ =~= Seq::<EntryModel>::empty());
        }
        r
    }

    /// Loads persisted entries, dropping corrupt duplicates instead of
    /// failing; the second result counts what was dropped.
    pub fn load(entries: Vec<StorageEntry>) -> (r: (Self, usize))
        ensures
            r.0@ == load_spec(entries.deep_view()),
            storage_wf(r.0@),
            r.1 == entries.deep_view().len() - load_spec(entries.deep_view()).len(),
    {
        let ghost dv = entries.deep_view();
        let mut kept = StorageEngine::new();
        let mut dropped: usize = 0;
        let n = entries.len();
        let mut i: usize = 0;
        while i < n
            invariant
                n == entries.len(),
                i <= n,
                dv == entries.deep_view(),
                kept@ == load_spec(dv.take(i as int)),
                dropped == i - load_spec(dv.take(i as int)).len(),
                i >= load_spec(dv.take(i as int)).len(),
            decreases n - i,
        {
            proof {
                assert(dv.take(i + 1).drop_last() =~= dv.take(i as int));
                assert(dv.take(i + 1).last() == dv[i as int]);
                lemma_load(dv.take(i as int));
            }
            match find_index(&kept.entries, &entries[i].ping_name, &entries[i].metric_id) {
                Option::Some(_) => {
                    proof {
                        assert(lookup(dv.take(i as int), dv[i as int].ping_name,
                            dv[i as int].metric_id) is Some);
                    }
                    dropped += 1;
                },
                Option::None => {
                    proof {
                        assert(lookup(dv.take(i as int), dv[i as int].ping_name,
                            dv[i as int].metric_id) is None);
                    }
                    let e = entries[i].clone();
                    kept.entries.push(e);
                    proof {
                        assert(kept@ =~= load_spec(dv.take(i + 1)));
                    }
                },
            }
            i += 1;
        }
        proof {
            assert(dv.take(n as int) =~= dv);
            lemma_load(dv);
        }
        (kept, dropped)
    }

    /// Records `(value, policy)` under `id` for a single ping name.
    fn upsert(
        &mut self,
        ping: &String,
        id: &String,
        lifetime: Lifetime,
        value: Metric,
        policy: MergePolicy,
    ) -> (overflowed: bool)
        requires
            storage_wf(old(self)@),
        ensures
            final(self)@ == upsert_spec(old(self)@, ping@, id@, lifetime, value@, policy),
            storage_wf(final(self)@),
            overflowed == crate::metric::merge_overflows(
                lookup_value(old(self)@, ping@, id@),
                value@,
                policy,
            ),
    {
        let ghost s0 = self@;
        proof {
            lemma_upsert(s0, ping@, id@, lifetime, value@, policy);
        }
        match find_index(&self.entries, ping, id) {
            Option::Some(i) => {
                let (merged, overflowed) = crate::metric::merge_metric(
                    Option::Some(&self.entries[i].value),
                    value,
                    policy,
                );
                let e = StorageEntry {
                    ping_name: ping.clone(),
                    metric_id: id.clone(),
                    lifetime: lifetime,
                    value: merged,
                };
                proof {
                    lemma_replace_is_update(
                        s0,
                        ping@,
                        id@,
                        upserted_entry(s0, ping@, id@, lifetime, value@, policy),
                        i as int,
                    );
                }
                vstd::pervasive::VecAdditionalExecFns::set(&mut self.entries, i, e);
                proof {
                    assert(self@ =~= s0.update(
                        i as int,
                        upserted_entry(s0, ping@, id@, lifetime, value@, policy),
                    ));
                }
                overflowed
            },
            Option::None => {
                let (merged, overflowed) = crate::metric::merge_metric(
                    Option::None,
                    value,
                    policy,
                );
                let e = StorageEntry {
                    ping_name: ping.clone(),
                    metric_id: id.clone(),
                    lifetime: lifetime,
                    value: merged,
                };
                self.entries.push(e);
                proof {
                    assert(self@ =~= s0.push(
                        upserted_entry(s0, ping@, id@, lifetime, value@, policy),
                    ));
                }
                overflowed
            },
        }
    }

    /// Records `(value, policy)` under `id` for every ping name of `pings`,
    /// reporting whether any accumulation overflowed.
    pub fn record(
        &mut self,
        pings: &Vec<String>,
        id: &String,
        lifetime: Lifetime,
        value: &Metric,
        policy: MergePolicy,
    ) -> (overflowed: bool)
        requires
            storage_wf(old(self)@),
        ensures
            final(self)@ == record_spec(
                old(self)@,
                pings.deep_view(),
                id@,
                lifetime,
                value@,
                policy,
            ),
            storage_wf(final(self)@),
            overflowed == record_overflow_spec(
                old(self)@,
                pings.deep_view(),
                id@,
                lifetime,
                value@,
                policy,
            ),
    {
        let ghost s0 = self@;
        let ghost pv = pings.deep_view();
        let mut overflowed = false;
        let n = pings.len();
        let mut i: usize = 0;
        proof {
            assert(pv.skip(0) =~= pv);
        }
        while i < n
            invariant
                n == pings.len(),
                i <= n,
                pv == pings.deep_view(),
                storage_wf(self@),
                record_spec(s0, pv, id@, lifetime, value@, policy) == record_spec(
                    self@,
                    pv.skip(i as int),
                    id@,
                    lifetime,
                    value@,
                    policy,
                ),
                (overflowed || record_overflow_spec(
                    self@,
                    pv.skip(i as int),
                    id@,
                    lifetime,
                    value@,
                    policy,
                )) == record_overflow_spec(s0, pv, id@, lifetime, value@, policy),
            decreases n - i,
        {
            let ghost s_cur = self@;
            let ov = self.upsert(&pings[i], id, lifetime, value.clone(), policy);
            overflowed = overflowed || ov;
            proof {
                assert(pv.skip(i as int)[0] == pv[i as int]);
                assert(pv.skip(i as int).skip(1) =~= pv.skip(i + 1));
            }
            i += 1;
        }
        proof {
            assert(pv.skip(n as int) =~= Seq::<Seq<char>>::empty());
            assert(record_spec(self@, pv.skip(n as int), id@, lifetime, value@, policy) == self@);
        }
        overflowed
    }

    /// The value stored under `(ping, id)`, if any.
    pub fn get(&self, ping: &String, id: &String) -> (r: Option<Metric>)
        ensures
            match r {
                Option::Some(v) => lookup_value(self@, ping@, id@) == Option::Some(v@),
                Option::None => lookup_value(self@, ping@, id@) is None,
            },
    {
        match find_index(&self.entries, ping, id) {
            Option::Some(i) => Option::Some(self.entries[i].value.clone()),
            Option::None => Option::None,
        }
    }

    /// An immutable copy of all entries for `ping`, in storage order.
    pub fn snapshot(&self, ping: &String) -> (r: Vec<StorageEntry>)
        ensures
            r.deep_view() == snapshot_spec(self@, ping@),
    {
        let ghost dv = self@;
        let mut r: Vec<StorageEntry> = Vec::new();
        let n = self.entries.len();
        let mut i: usize = 0;
        while i < n
            invariant
                n == self.entries.len(),
                dv == self@,
                i <= n,
                r.deep_view() == snapshot_spec(dv.take(i as int), ping@),
            decreases n - i,
        {
            proof {
                assert(dv.take(i + 1).drop_last() =~= dv.take(i as int));
                assert(dv.take(i + 1).last() == dv[i as int]);
            }
            if self.entries[i].ping_name == *ping {
                let e = self.entries[i].clone();
                r.push(e);
                proof {
                    assert(r.deep_view() =~= snapshot_spec(dv.take(i + 1), ping@));
                }
            }
            i += 1;
        }
        proof {
            assert(dv.take(n as int) =~= dv);
        }
        r
    }

    /// Removes every entry of `ping` whose lifetime is `lt`.
    pub fn clear(&mut self, ping: &String, lt: Lifetime)
        requires
            storage_wf(old(self)@),
        ensures
            final(self)@ == clear_ping_spec(old(self)@, ping@, lt),
            storage_wf(final(self)@),
    {
        let ghost dv = self@;
        let mut kept: Vec<StorageEntry> = Vec::new();
        let n = self.entries.len();
        let mut i: usize = 0;
        while i < n
            invariant
                n == self.entries.len(),
                dv == self@,
                i <= n,
                kept.deep_view() == clear_ping_spec(dv.take(i as int), ping@, lt),
            decreases n - i,
        {
            proof {
                assert(dv.take(i + 1).drop_last() =~= dv.take(i as int));
                assert(dv.take(i + 1).last() == dv[i as int]);
            }
            let matches_scope = self.entries[i].ping_name == *ping && matches!(
                (self.entries[i].lifetime, lt),
                (Lifetime::Ping, Lifetime::Ping) | (Lifetime::Application, Lifetime::Application)
                    | (Lifetime::User, Lifetime::User)
            );
            if !matches_scope {
                let e = self.entries[i].clone();
                kept.push(e);
                proof {
                    assert(kept.deep_view() =~= clear_ping_spec(dv.take(i + 1), ping@, lt));
                }
            }
            i += 1;
        }
        proof {
            assert(dv.take(n as int) =~= dv);
            lemma_clear_ping(dv, ping@, lt);
        }
        self.entries = kept;
    }

    /// Removes every entry (of any ping name) whose lifetime is `lt`:
    /// process-start housekeeping for `Application`, profile reset for
    /// `User`.
    pub fn clear_all(&mut self, lt: Lifetime)
        requires
            storage_wf(old(self)@),
        ensures
            final(self)@ == clear_all_spec(old(self)@, lt),
            storage_wf(final(self)@),
    {
        let ghost dv = self@;
        let mut kept: Vec<StorageEntry> = Vec::new();
        let n = self.entries.len();
        let mut i: usize = 0;
        while i < n
            invariant
                n == self.entries.len(),
                dv == self@,
                i <= n,
                kept.deep_view() == clear_all_spec(dv.take(i as int), lt),
            decreases n - i,
        {
            proof {
                assert(dv.take(i + 1).drop_last() =~= dv.take(i as int));
                assert(dv.take(i + 1).last() == dv[i as int]);
            }
            let matches_scope = matches!(
                (self.entries[i].lifetime, lt),
                (Lifetime::Ping, Lifetime::Ping) | (Lifetime::Application, Lifetime::Application)
                    | (Lifetime::User, Lifetime::User)
            );
            if !matches_scope {
                let e = self.entries[i].clone();
                kept.push(e);
                proof {
                    assert(kept.deep_view() =~= clear_all_spec(dv.take(i + 1), lt));
                }
            }
            i += 1;
        }
        proof {
            assert(dv.take(n as int) =~= dv);
            lemma_clear_all(dv, lt);
        }
        self.entries = kept;
    }

    /// The persisted entries, for the host to write out durably.
    pub fn entries(&self) -> (r: &Vec<StorageEntry>)
        ensures
            r.deep_view() == self@,
    {
        &self.entries
    }
}

} // verus!

