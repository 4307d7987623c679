//! Metrics in the Prometheus text format.
//!
//! Values are derived from the stored records: transfer records accumulate, so the `*_total`
//! series behave as counters until records are purged.

use crate::cluster::{is_before, law_text_order, text_before};
use crate::io::capped;
use crate::node::json::{count_member, count_members, text_member, text_members};
use crate::text::{dec, lower, push_decimal, same, to_lower};
use vstd::prelude::*;
use vstd::string::StringExecFns;

verus! {

/// Status of a record in lower case; `unknown` where it has none.
pub open spec fn spec_status_of(v: serde_json::Value) -> Seq<char> {
    if text_members(v).contains_key("status"@) {
        lower(text_members(v)["status"@])
    } else {
        lower("unknown"@)
    }
}

/// Status of a record in lower case; `unknown` where it has none.
#[must_use]
pub fn status_of(v: &serde_json::Value) -> (r: String)
    ensures
        r@ == spec_status_of(*v),
{
    match text_member(v, "status") {
        Some(t) => to_lower(t.as_str()),
        None => to_lower("unknown"),
    }
}

/// Bytes that a record counts for: those it transferred, where it is completed.
pub open spec fn bytes_counted(status: Seq<char>, bytes: Option<u64>) -> u64 {
    if status == "completed"@ && bytes is Some {
        bytes->0
    } else {
        0
    }
}

/// Bytes of the completed records, up to the largest machine number.
pub open spec fn spec_completed_bytes(list: Seq<serde_json::Value>) -> u64
    decreases list.len(),
{
    if list.len() == 0 {
        0
    } else {
        let v = list.last();
        capped(
            spec_completed_bytes(list.drop_last()),
            bytes_counted(
                spec_status_of(v),
                if count_members(v).contains_key("bytesTransferred"@) {
                    Some(count_members(v)["bytesTransferred"@])
                } else {
                    None
                },
            ) as nat,
        )
    }
}

/// Bytes that a record counts for.
#[must_use]
pub fn count_bytes(status: &str, bytes: Option<u64>) -> (r: u64)
    ensures
        r == bytes_counted(status@, bytes),
{
    if same(status, "completed") {
        bytes.unwrap_or(0)
    } else {
        0
    }
}

/// Bytes of the completed records.
#[must_use]
pub fn completed_bytes(list: &[serde_json::Value]) -> (r: u64)
    ensures
        r == spec_completed_bytes(list@),
{
    let mut total: u64 = 0;
    let mut i: usize = 0;
    proof {
        assert(list@.take(0) =~= Seq::empty());
    }
    while i < list.len()
        invariant
            i <= list.len(),
            total == spec_completed_bytes(list@.take(i as int)),
        decreases list.len() - i,
    {
        proof {
            assert(list@.take(i + 1).drop_last() =~= list@.take(i as int));
            assert(list@.take(i + 1).last() == list@[i as int]);
        }
        let status = status_of(&list[i]);
        let n: u64 = count_bytes(status.as_str(), count_member(&list[i], "bytesTransferred"));
        total = total.saturating_add(n);
        i += 1;
    }
    proof {
        assert(list@.take(i as int) =~= list@);
    }
    total
}

// ---- counts by status ----

/// Counts by status, in the order of the names.
pub type Counts = Seq<(Seq<char>, u64)>;

/// Counts with one more record of a status.
pub open spec fn counted_in(counts: Counts, status: Seq<char>) -> Counts
    decreases counts.len(),
{
    if counts.len() == 0 {
        seq![(status, 1u64)]
    } else if counts[0].0 == status {
        seq![(status, capped(counts[0].1, 1))] + counts.skip(1)
    } else if text_before(status, counts[0].0) {
        seq![(status, 1u64)] + counts
    } else {
        seq![counts[0]] + counted_in(counts.skip(1), status)
    }
}

/// Counts of a list of statuses.
pub open spec fn counts_of(list: Seq<Seq<char>>) -> Counts
    decreases list.len(),
{
    if list.len() == 0 {
        Seq::empty()
    } else {
        counted_in(counts_of(list.drop_last()), list.last())
    }
}

/// Value of counts.
pub open spec fn counts_view(v: Seq<(String, u64)>) -> Counts {
    v.map_values(|e: (String, u64)| (e.0@, e.1))
}

fn count_in(counts: &mut Vec<(String, u64)>, status: String)
    ensures
        counts_view(final(counts)@) == counted_in(counts_view(old(counts)@), status@),
{
    let ghost cv = counts_view(counts@);
    let mut i: usize = 0;
    proof {
        assert(cv.skip(0) =~= cv);
        assert(cv.take(0) + counted_in(cv, status@) =~= counted_in(cv, status@));
    }
    while i < counts.len()
        invariant
            i <= counts.len(),
            counts@ == old(counts)@,
            cv == counts_view(counts@),
            counted_in(cv, status@) == cv.take(i as int) + counted_in(cv.skip(i as int), status@),
        decreases counts.len() - i,
    {
        let ghost rest = cv.skip(i as int);
        proof {
            assert(rest[0] == cv[i as int]);
            assert(rest.skip(1) =~= cv.skip(i + 1));
        }
        if same(counts[i].0.as_str(), status.as_str()) {
            let n: u64 = counts[i].1.saturating_add(1);
            counts[i].1 = n;
            proof {
                assert(counts_view(counts@) =~= cv.take(i as int) + (seq![
                    (status@, capped(cv[i as int].1, 1)),
                ] + rest.skip(1)));
            }
            return ;
        }
        if is_before(status.as_str(), counts[i].0.as_str()) {
            let ghost name = status@;
            counts.insert(i, (status, 1));
            proof {
                assert(counts_view(counts@) =~= cv.take(i as int) + (seq![(name, 1u64)] + rest));
            }
            return ;
        }
        proof {
            assert(cv.take(i as int) + (seq![rest[0]] + counted_in(rest.skip(1), status@))
                =~= cv.take(i + 1) + counted_in(cv.skip(i + 1), status@));
        }
        i += 1;
    }
    let ghost name = status@;
    counts.push((status, 1));
    proof {
        assert(cv.skip(i as int) =~= Seq::<(Seq<char>, u64)>::empty());
        assert(counts_view(counts@) =~= cv.take(i as int) + seq![(name, 1u64)]);
    }
}

/// Statuses of records.
pub open spec fn statuses(list: Seq<serde_json::Value>) -> Seq<Seq<char>> {
    list.map_values(|v: serde_json::Value| spec_status_of(v))
}

/// Count records by status.
#[must_use]
pub fn by_status(list: &[serde_json::Value]) -> (r: Vec<(String, u64)>)
    ensures
        counts_view(r@) == counts_of(statuses(list@)),
{
    let ghost sv = statuses(list@);
    let mut counts: Vec<(String, u64)> = Vec::new();
    let mut i: usize = 0;
    proof {
        assert(sv.take(0) =~= Seq::empty());
        assert(counts_view(counts@) =~= Seq::empty());
    }
    while i < list.len()
        invariant
            i <= list.len(),
            sv == statuses(list@),
            counts_view(counts@) == counts_of(sv.take(i as int)),
        decreases list.len() - i,
    {
        proof {
            assert(sv.take(i + 1).drop_last() =~= sv.take(i as int));
            assert(sv.take(i + 1).last() == sv[i as int]);
        }
        let status = status_of(&list[i]);
        count_in(&mut counts, status);
        i += 1;
    }
    proof {
        assert(sv.take(i as int) =~= sv);
    }
    counts
}

// ---- exposition ----

/// Help and type of a metric.
pub open spec fn head_text(name: Seq<char>, help: Seq<char>, kind: Seq<char>) -> Seq<char> {
    "# HELP "@ + name + " "@ + help + "\n# TYPE "@ + name + " "@ + kind + "\n"@
}

fn push_head(out: &mut String, name: &str, help: &str, kind: &str)
    ensures
        final(out)@ == old(out)@ + head_text(name@, help@, kind@),
{
    let mut text = "# HELP ".to_owned();
    text.append(name);
    text.append(" ");
    text.append(help);
    text.append("\n# TYPE ");
    text.append(name);
    text.append(" ");
    text.append(kind);
    text.append("\n");
    out.append(text.as_str());
}

/// A gauge.
pub open spec fn gauge_text(name: Seq<char>, help: Seq<char>, val: nat) -> Seq<char> {
    head_text(name, help, "gauge"@) + name + " "@ + dec(val) + "\n"@
}

/// Write a gauge.
pub fn gauge(out: &mut String, name: &str, help: &str, val: usize)
    ensures
        final(out)@ == old(out)@ + gauge_text(name@, help@, val as nat),
{
    let mut text = String::new();
    push_head(&mut text, name, help, "gauge");
    proof {
        assert(text@ =~= head_text(name@, help@, "gauge"@));
    }
    text.append(name);
    text.append(" ");
    push_decimal(&mut text, val as u64);
    text.append("\n");
    out.append(text.as_str());
}

/// One line of the transfers by kind and status.
pub open spec fn transfers_line(kind: Seq<char>, status: Seq<char>, n: u64) -> Seq<char> {
    "pesitwizard_transfers_total{kind=\""@ + kind + "\",status=\""@ + status + "\"} "@ + dec(
        n as nat,
    ) + "\n"@
}

/// The transfers of a kind by status.
pub open spec fn transfers_text(kind: Seq<char>, counts: Counts) -> Seq<char>
    decreases counts.len(),
{
    if counts.len() == 0 {
        Seq::empty()
    } else {
        transfers_text(kind, counts.drop_last()) + transfers_line(
            kind,
            counts.last().0,
            counts.last().1,
        )
    }
}

fn push_transfers(out: &mut String, kind: &str, counts: &Vec<(String, u64)>)
    ensures
        final(out)@ == old(out)@ + transfers_text(kind@, counts_view(counts@)),
{
    let ghost cv = counts_view(counts@);
    let ghost start = out@;
    let mut i: usize = 0;
    proof {
        assert(cv.take(0) =~= Seq::empty());
        assert(start + transfers_text(kind@, cv.take(0)) =~= start);
    }
    while i < counts.len()
        invariant
            i <= counts.len(),
            cv == counts_view(counts@),
            start == old(out)@,
            out@ == start + transfers_text(kind@, cv.take(i as int)),
        decreases counts.len() - i,
    {
        let mut line = "pesitwizard_transfers_total{kind=\"".to_owned();
        line.append(kind);
        line.append("\",status=\"");
        line.append(counts[i].0.as_str());
        line.append("\"} ");
        push_decimal(&mut line, counts[i].1);
        line.append("\n");
        proof {
            assert(cv.take(i + 1).drop_last() =~= cv.take(i as int));
            assert(cv.take(i + 1).last() == cv[i as int]);
            assert(start + transfers_text(kind@, cv.take(i as int)) + line@ =~= start
                + transfers_text(kind@, cv.take(i + 1)));
        }
        out.append(line.as_str());
        i += 1;
    }
    proof {
        assert(cv.take(i as int) =~= cv);
    }
}

/// One line of the bytes by kind.
pub open spec fn bytes_line(kind: Seq<char>, n: u64) -> Seq<char> {
    "pesitwizard_bytes_transferred_total{kind=\""@ + kind + "\"} "@ + dec(n as nat) + "\n"@
}

fn push_bytes(out: &mut String, kind: &str, n: u64)
    ensures
        final(out)@ == old(out)@ + bytes_line(kind@, n),
{
    let mut line = "pesitwizard_bytes_transferred_total{kind=\"".to_owned();
    line.append(kind);
    line.append("\"} ");
    push_decimal(&mut line, n);
    line.append("\n");
    out.append(line.as_str());
}

/// Numbers of configured things.
#[derive(Debug, Clone, Copy, PartialEq, Eq, Structural)]
pub struct Configured {
    /// Partners.
    pub partners: usize,
    /// Virtual files.
    pub files: usize,
    /// Listeners.
    pub listeners: usize,
    /// Listeners that run.
    pub up: usize,
}

/// What is told about transfers.
#[derive(Debug, PartialEq, Eq)]
pub struct TransferCounts {
    /// Counts by status.
    pub by_status: Vec<(String, u64)>,
    /// Bytes of the completed transfers.
    pub bytes: u64,
}

/// The metrics.
pub open spec fn metrics_text(
    version: Seq<char>,
    inbound: TransferCounts,
    outbound: TransferCounts,
    n: Configured,
) -> Seq<char> {
    head_text("pesitwizard_build_info"@, "Build information."@, "gauge"@)
        + "pesitwizard_build_info{version=\""@ + version + "\"} 1\n"@ + head_text(
        "pesitwizard_transfers_total"@,
        "Transfers by kind (inbound = served, outbound = initiated) and status."@,
        "counter"@,
    ) + transfers_text("inbound"@, counts_view(inbound.by_status@)) + transfers_text(
        "outbound"@,
        counts_view(outbound.by_status@),
    ) + head_text(
        "pesitwizard_bytes_transferred_total"@,
        "Bytes transferred by completed transfers, by kind."@,
        "counter"@,
    ) + bytes_line("inbound"@, inbound.bytes) + bytes_line("outbound"@, outbound.bytes)
        + gauge_text("pesitwizard_partners"@, "Configured partners."@, n.partners as nat)
        + gauge_text("pesitwizard_virtual_files"@, "Configured virtual files."@, n.files as nat)
        + gauge_text("pesitwizard_listeners"@, "Configured listeners."@, n.listeners as nat)
        + gauge_text("pesitwizard_listeners_up"@, "Running listeners."@, n.up as nat)
}

/// Write the metrics.
#[must_use]
pub fn exposition(
    version: &str,
    inbound: &TransferCounts,
    outbound: &TransferCounts,
    n: Configured,
) -> (r: String)
    ensures
        r@ == metrics_text(version@, *inbound, *outbound, n),
{
    let mut out = String::new();
    push_head(&mut out, "pesitwizard_build_info", "Build information.", "gauge");
    proof {
        assert(out@ =~= head_text("pesitwizard_build_info"@, "Build information."@, "gauge"@));
    }
    out.append("pesitwizard_build_info{version=\"");
    out.append(version);
    out.append("\"} 1\n");
    push_head(
        &mut out,
        "pesitwizard_transfers_total",
        "Transfers by kind (inbound = served, outbound = initiated) and status.",
        "counter",
    );
    push_transfers(&mut out, "inbound", &inbound.by_status);
    push_transfers(&mut out, "outbound", &outbound.by_status);
    push_head(
        &mut out,
        "pesitwizard_bytes_transferred_total",
        "Bytes transferred by completed transfers, by kind.",
        "counter",
    );
    push_bytes(&mut out, "inbound", inbound.bytes);
    push_bytes(&mut out, "outbound", outbound.bytes);
    gauge(&mut out, "pesitwizard_partners", "Configured partners.", n.partners);
    gauge(&mut out, "pesitwizard_virtual_files", "Configured virtual files.", n.files);
    gauge(&mut out, "pesitwizard_listeners", "Configured listeners.", n.listeners);
    gauge(&mut out, "pesitwizard_listeners_up", "Running listeners.", n.up);
    out
}

// ---- laws ----

/// Whether counts stand in the strict order of their names.
pub open spec fn counts_ordered(c: Counts) -> bool {
    forall|i: int, j: int|
        0 <= i < j < c.len() ==> text_before((#[trigger] c[i]).0, (#[trigger] c[j]).0)
}

/// Count of a status.
pub open spec fn count_for(c: Counts, status: Seq<char>) -> u64
    decreases c.len(),
{
    if c.len() == 0 {
        0
    } else if c[0].0 == status {
        c[0].1
    } else {
        count_for(c.skip(1), status)
    }
}

/// One more record of a status counts for that status alone, and the order of the names is kept:
/// every status is listed once.
pub proof fn law_counting_is_exact(c: Counts, status: Seq<char>, other: Seq<char>)
    requires
        counts_ordered(c),
    ensures
        counts_ordered(counted_in(c, status)),
        count_for(counted_in(c, status), status) == capped(count_for(c, status), 1),
        other != status ==> count_for(counted_in(c, status), other) == count_for(c, other),
    decreases c.len(),
{
    let d = counted_in(c, status);
    if c.len() == 0 {
        assert(d.skip(1) =~= Seq::<(Seq<char>, u64)>::empty());
        assert(count_for(d.skip(1), other) == 0);
    } else {
        let rest = c.skip(1);
        assert forall|i: int, j: int| 0 <= i < j < rest.len() implies text_before(
            (#[trigger] rest[i]).0,
            (#[trigger] rest[j]).0,
        ) by {
            assert(rest[i] == c[i + 1] && rest[j] == c[j + 1]);
        }
        if c[0].0 == status {
            assert(d.skip(1) =~= rest);
            assert forall|i: int, j: int| 0 <= i < j < d.len() implies text_before(
                (#[trigger] d[i]).0,
                (#[trigger] d[j]).0,
            ) by {
                assert(d[i].0 == c[i].0 && d[j].0 == c[j].0);
            }
        } else if text_before(status, c[0].0) {
            assert(d.skip(1) =~= c);
            assert forall|i: int, j: int| 0 <= i < j < d.len() implies text_before(
                (#[trigger] d[i]).0,
                (#[trigger] d[j]).0,
            ) by {
                assert(d[j] == c[j - 1]);
                if i > 0 {
                    assert(d[i] == c[i - 1]);
                } else if j > 1 {
                    law_text_order(status, c[0].0, c[j - 1].0);
                }
            }
            lemma_absent(c, status);
        } else {
            law_counting_is_exact(rest, status, other);
            law_text_order(status, c[0].0, status);
            let e = counted_in(rest, status);
            assert(d.skip(1) =~= e);
            assert forall|i: int, j: int| 0 <= i < j < d.len() implies text_before(
                (#[trigger] d[i]).0,
                (#[trigger] d[j]).0,
            ) by {
                assert(d[j] == e[j - 1]);
                if i > 0 {
                    assert(d[i] == e[i - 1]);
                } else {
                    lemma_names(rest, status, j - 1);
                    if e[j - 1].0 != status {
                        let k = choose|k: int| 0 <= k < rest.len() && rest[k].0 == e[j - 1].0;
                        assert(rest[k] == c[k + 1]);
                    }
                }
            }
        }
    }
}

proof fn lemma_absent(c: Counts, status: Seq<char>)
    requires
        counts_ordered(c),
        c.len() > 0,
        text_before(status, c[0].0),
    ensures
        count_for(c, status) == 0,
    decreases c.len(),
{
    law_text_order(status, c[0].0, status);
    if c.len() > 1 {
        let rest = c.skip(1);
        assert forall|i: int, j: int| 0 <= i < j < rest.len() implies text_before(
            (#[trigger] rest[i]).0,
            (#[trigger] rest[j]).0,
        ) by {
            assert(rest[i] == c[i + 1] && rest[j] == c[j + 1]);
        }
        assert(rest[0] == c[1]);
        law_text_order(status, c[0].0, c[1].0);
        lemma_absent(rest, status);
    } else {
        assert(c.skip(1) =~= Seq::<(Seq<char>, u64)>::empty());
        assert(count_for(c.skip(1), status) == 0);
    }
}

proof fn lemma_names(c: Counts, status: Seq<char>, i: int)
    requires
        0 <= i < counted_in(c, status).len(),
    ensures
        counted_in(c, status)[i].0 == status || exists|k: int|
            0 <= k < c.len() && (#[trigger] c[k]).0 == counted_in(c, status)[i].0,
    decreases c.len(),
{
    let d = counted_in(c, status);
    if c.len() > 0 {
        if c[0].0 == status {
            if i > 0 {
                assert(d[i] == c.skip(1)[i - 1]);
                assert(c[i].0 == d[i].0);
            }
        } else if text_before(status, c[0].0) {
            if i > 0 {
                assert(d[i] == c[i - 1]);
            }
        } else if i > 0 {
            let rest = c.skip(1);
            assert(d[i] == counted_in(rest, status)[i - 1]);
            lemma_names(rest, status, i - 1);
            if d[i].0 != status {
                let k = choose|k: int| 0 <= k < rest.len() && (#[trigger] rest[k]).0 == d[i].0;
                assert(c[k + 1].0 == d[i].0);
            }
        } else {
            assert(c[0].0 == d[0].0);
        }
    }
}

} // verus!
