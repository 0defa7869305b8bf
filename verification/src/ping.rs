//! The ping assembler: turns a storage snapshot plus bookkeeping into the
//! structured document and target URL of one upload.

use vstd::prelude::*;
use vstd::string::StrSliceExecFns;
use vstd::string::StringExecFns;
use crate::metric::{Metric, MetricModel};
use crate::storage::{EntryModel, StorageEntry};
use crate::text::{append_dec, append_dec_i32, append_quoted, dec_of, dec_of_i32, quoted_of};
use crate::upload::{Header, HeaderModel, PingRequest, PingRequestModel};

verus! {

/// Build/version/channel/locale metadata supplied at configuration time
/// and echoed into every ping's `client_info` block.
#[derive(Debug)]
pub struct ClientInfo {
    pub app_build: String,
    pub app_display_version: String,
    pub app_channel: String,
    pub locale: String,
}

/// Model of a [`ClientInfo`].
#[verifier::ext_equal]
pub struct ClientInfoModel {
    pub app_build: Seq<char>,
    pub app_display_version: Seq<char>,
    pub app_channel: Seq<char>,
    pub locale: Seq<char>,
}

impl View for ClientInfo {
    type V = ClientInfoModel;

    open spec fn view(&self) -> ClientInfoModel {
        ClientInfoModel {
            app_build: self.app_build@,
            app_display_version: self.app_display_version@,
            app_channel: self.app_channel@,
            locale: self.locale@,
        }
    }
}

/// How a stored value appears inside the ping document.  A structured
/// payload is already canonical JSON and is inlined as it stands.
pub open spec fn value_json_of(v: MetricModel) -> Seq<char> {
    match v {
        MetricModel::Boolean(b) => if b {
            "true"@
        } else {
            "false"@
        },
        MetricModel::Counter(c) => dec_of_i32(c),
        MetricModel::Text(s) => quoted_of(s),
        MetricModel::Object(s) => s,
    }
}

/// One `"identifier":value` member of the metrics block.
pub open spec fn entry_json_of(e: EntryModel) -> Seq<char> {
    quoted_of(e.metric_id) + ":"@ + value_json_of(e.value)
}

/// The members of the metrics block, comma-separated, in snapshot order.
pub open spec fn entries_json_of(s: Seq<EntryModel>) -> Seq<char>
    decreases s.len(),
{
    if s.len() == 0 {
        Seq::<char>::empty()
    } else if s.len() == 1 {
        entry_json_of(s[0])
    } else {
        entries_json_of(s.drop_last()) + ","@ + entry_json_of(s.last())
    }
}

/// The `ping_info` block: sequence number, reason, collection timestamp
/// and document id.
pub open spec fn ping_info_json_of(r: PingRequestModel) -> Seq<char> {
    "{\"seq\":"@ + dec_of(r.seqno as nat) + ",\"reason\":"@ + quoted_of(r.reason)
        + ",\"collection_time\":"@ + dec_of(r.collection_time as nat) + ",\"document_id\":"@
        + quoted_of(r.document_id) + "}"@
}

/// The `client_info` block.
pub open spec fn client_info_json_of(ci: ClientInfoModel) -> Seq<char> {
    "{\"app_build\":"@ + quoted_of(ci.app_build) + ",\"app_display_version\":"@ + quoted_of(
        ci.app_display_version,
    ) + ",\"app_channel\":"@ + quoted_of(ci.app_channel) + ",\"locale\":"@ + quoted_of(ci.locale)
        + "}"@
}

/// The whole ping document.
pub open spec fn body_of(r: PingRequestModel, ci: ClientInfoModel) -> Seq<char> {
    "{\"ping_info\":"@ + ping_info_json_of(r) + ",\"client_info\":"@ + client_info_json_of(ci)
        + ",\"metrics\":{"@ + entries_json_of(r.entries) + "}}"@
}

/// The document id minted for submission number `counter`.
pub open spec fn doc_id_of(counter: u64) -> Seq<char> {
    "doc-"@ + dec_of(counter as nat)
}

/// The upload target: `endpoint/submit/app_id/ping_name/document_id`.
pub open spec fn url_of(
    endpoint: Seq<char>,
    app_id: Seq<char>,
    ping_name: Seq<char>,
    doc_id: Seq<char>,
) -> Seq<char> {
    endpoint + "/submit/"@ + app_id + "/"@ + ping_name + "/"@ + doc_id
}

/// Appends the document rendering of one stored value.
fn append_value_json(out: &mut String, v: &Metric)
    ensures
        final(out)@ == old(out)@ + value_json_of(v@),
{
    match v {
        Metric::Boolean(b) => {
            if *b {
                out.append("true");
            } else {
                out.append("false");
            }
        },
        Metric::Counter(c) => {
            append_dec_i32(out, *c);
        },
        Metric::Text(s) => {
            append_quoted(out, s.as_str());
        },
        Metric::Object(s) => {
            out.append(s.as_str());
        },
    }
}

/// Appends the comma-separated metrics members for a snapshot.
fn append_entries_json(out: &mut String, entries: &Vec<StorageEntry>)
    ensures
        final(out)@ == old(out)@ + entries_json_of(entries.deep_view()),
{
    let ghost dv = entries.deep_view();
    let n = entries.len();
    let mut i: usize = 0;
    while i < n
        invariant
            n == entries.len(),
            i <= n,
            dv == entries.deep_view(),
            out@ == old(out)@ + entries_json_of(dv.take(i as int)),
        decreases n - i,
    {
        proof {
            assert(dv.take(i + 1).drop_last() =~= dv.take(i as int));
            assert(dv.take(i + 1).last() == dv[i as int]);
            assert(dv.take(i + 1)[0] == dv[0]);
        }
        let ghost before = out@;
        if i > 0 {
            out.append(",");
        }
        append_quoted(out, entries[i].metric_id.as_str());
        out.append(":");
        append_value_json(out, &entries[i].value);
        proof {
            if i == 0 {
                assert(out@ =~= before + entry_json_of(dv[0]));
                assert(out@ =~= old(out)@ + entries_json_of(dv.take(1)));
            } else {
                assert(out@ =~= before + (","@ + entry_json_of(dv[i as int])));
                assert(out@ =~= old(out)@ + entries_json_of(dv.take(i + 1)));
            }
        }
        i += 1;
    }
    proof {
        assert(dv.take(n as int) =~= dv);
        if n == 0 {
            assert(out@ =~= old(out)@ + entries_json_of(dv));
        }
    }
}

/// Assembles the complete document for one ping request.
pub fn assemble_body(request: &PingRequest, ci: &ClientInfo) -> (r: String)
    ensures
        r@ == body_of(request@, ci@),
{
    let mut out = String::new();
    out.append("{\"ping_info\":");
    out.append("{\"seq\":");
    append_dec(&mut out, request.seqno);
    out.append(",\"reason\":");
    append_quoted(&mut out, request.reason.as_str());
    out.append(",\"collection_time\":");
    append_dec(&mut out, request.collection_time);
    out.append(",\"document_id\":");
    append_quoted(&mut out, request.document_id.as_str());
    out.append("}");
    proof {
        assert(out@ =~= "{\"ping_info\":"@ + ping_info_json_of(request@));
    }
    let ghost after_info = out@;
    out.append(",\"client_info\":");
    out.append("{\"app_build\":");
    append_quoted(&mut out, ci.app_build.as_str());
    out.append(",\"app_display_version\":");
    append_quoted(&mut out, ci.app_display_version.as_str());
    out.append(",\"app_channel\":");
    append_quoted(&mut out, ci.app_channel.as_str());
    out.append(",\"locale\":");
    append_quoted(&mut out, ci.locale.as_str());
    out.append("}");
    proof {
        assert(out@ =~= after_info + (",\"client_info\":"@ + client_info_json_of(ci@)));
    }
    let ghost after_ci = out@;
    out.append(",\"metrics\":{");
    append_entries_json(&mut out, &request.entries);
    out.append("}}");
    proof {
        assert(out@ =~= after_ci + (",\"metrics\":{"@ + entries_json_of(request@.entries) + "}}"@));
        assert(out@ =~= body_of(request@, ci@));
    }
    out
}

/// Mints the document id for submission number `counter`.
pub fn make_document_id(counter: u64) -> (r: String)
    ensures
        r@ == doc_id_of(counter),
{
    let mut out = String::new();
    out.append("doc-");
    append_dec(&mut out, counter);
    proof {
        assert(out@ =~= doc_id_of(counter));
    }
    out
}

/// Builds the upload target URL.
pub fn build_url(endpoint: &String, app_id: &String, ping_name: &String, doc_id: &String) -> (r:
    String)
    ensures
        r@ == url_of(endpoint@, app_id@, ping_name@, doc_id@),
{
    let mut out = endpoint.clone();
    out.append("/submit/");
    out.append(app_id.as_str());
    out.append("/");
    out.append(ping_name.as_str());
    out.append("/");
    out.append(doc_id.as_str());
    proof {
        assert(out@ =~= url_of(endpoint@, app_id@, ping_name@, doc_id@));
    }
    out
}

/// The headers attached to every upload.
pub open spec fn default_headers_model() -> Seq<HeaderModel> {
    seq![HeaderModel { name: "content-type"@, value: "application/json"@ }]
}

/// Builds the headers attached to every upload.
pub fn default_headers() -> (r: Vec<Header>)
    ensures
        r.deep_view() == default_headers_model(),
{
    let mut r: Vec<Header> = Vec::new();
    r.push(
        Header {
            name: String::from_str("content-type"),
            value: String::from_str("application/json"),
        },
    );
    proof {
        assert(r.deep_view() =~= default_headers_model());
    }
    r
}

/// The identifier prefix reserved for internal error-counter metrics:
/// the characters of `glean.error.`.
pub open spec fn internal_prefix() -> Seq<char> {
    seq!['g', 'l', 'e', 'a', 'n', '.', 'e', 'r', 'r', 'o', 'r', '.']
}

/// Whether an identifier names an internal error-counter metric rather
/// than an application metric.
pub open spec fn is_internal_id(id: Seq<char>) -> bool {
    id.len() >= 12 && id.take(12) == internal_prefix()
}

/// Whether a snapshot holds at least one non-internal metric: an empty or
/// all-internal ping is not worth sending.
pub open spec fn worth_sending(s: Seq<EntryModel>) -> bool {
    exists|i: int| 0 <= i < s.len() && !is_internal_id(s[i].metric_id)
}

fn internal_prefix_char(j: usize) -> (c: char)
    requires
        j < 12,
    ensures
        c == internal_prefix()[j as int],
{
    match j {
        0 => 'g',
        1 => 'l',
        2 => 'e',
        3 => 'a',
        4 => 'n',
        5 => '.',
        6 => 'e',
        7 => 'r',
        8 => 'r',
        9 => 'o',
        10 => 'r',
        _ => '.',
    }
}

/// Tests whether `id` names an internal error-counter metric.
pub fn id_is_internal(id: &String) -> (r: bool)
    ensures
        r == is_internal_id(id@),
{
    let n = id.as_str().unicode_len();
    if n < 12 {
        return false;
    }
    let mut j: usize = 0;
    while j < 12
        invariant
            12 <= n == id@.len(),
            j <= 12,
            forall|k: int| 0 <= k < j ==> id@[k] == internal_prefix()[k],
        decreases 12 - j,
    {
        let c = id.as_str().get_char(j);
        let p = internal_prefix_char(j);
        if c != p {
            proof {
                assert(id@.take(12)[j as int] != internal_prefix()[j as int]);
            }
            return false;
        }
        j += 1;
    }
    proof {
        assert(id@.take(12) =~= internal_prefix());
    }
    true
}

/// Tests whether a snapshot holds a non-internal metric.
pub fn snapshot_worth_sending(entries: &Vec<StorageEntry>) -> (r: bool)
    ensures
        r == worth_sending(entries.deep_view()),
{
    let ghost dv = entries.deep_view();
    let n = entries.len();
    let mut i: usize = 0;
    while i < n
        invariant
            n == entries.len(),
            dv == entries.deep_view(),
            i <= n,
            forall|k: int| 0 <= k < i ==> is_internal_id(dv[k].metric_id),
        decreases n - i,
    {
        if !id_is_internal(&entries[i].metric_id) {
            proof {
                assert(!is_internal_id(dv[i as int].metric_id));
            }
            return true;
        }
        i += 1;
    }
    false
}

} // verus!
