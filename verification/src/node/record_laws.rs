//! What holds of the records that a node keeps: which of them a query finds, what is due, what is
//! revoked, and what is counted.

use crate::cluster::{
    members_of, members_ordered, replicated, text_before, ChangeStep, ConfigChange, MemberInfo,
};
use crate::connector::{
    configured, no_leading_slash, no_trailing_slash, Connector, ConnectorConfig,
};
use crate::node::api::{
    completed_bytes, listener_fault, port_taken, ActiveTransfers, OfStatus, QueriedTransfers,
    TransferQuery,
};
use crate::node::backup::{carried, signature_fault, spec_backup_key, BundleSignature};
use crate::node::config::{header_text, spec_min_tls};
use crate::node::handler::{percent, reserved_bytes, shortened, InterruptedTransfer};
use crate::node::json::{count_of, member_of, members, number_value, string_value, text_of};
use crate::node::material::{keystores_in, truststores_in};
use crate::node::metrics::{
    bytes_counted, count_for, counts_of, counts_ordered, law_counting_is_exact,
    spec_completed_bytes, spec_status_of, statuses, transfers_line, transfers_text,
};
use crate::node::model::{PesitServerConfig, TransferRecord, TransferStatus, VirtualFile};
use crate::node::pki::{
    common_name, crl_entries, is_revoked, serial_bytes, strings_in, whole_seconds, ExpiringBy,
    KeystoreExpiry, OfSerial, RevokedEntry,
};
use crate::node::schedule::{at_least_one, plannable, schedule_fault, ScheduledTransfer};
use crate::service::select::Criterion;
use crate::service::time::{rfc2822_instant, rfc3339_millis};
use crate::text::{lower, trimmed, upper};
use crate::tls::TlsVersion;
use vstd::prelude::*;

verus! {

// ---- transfers ----

/// A query finds exactly the transfers that have all it asks for: the direction and the status by
/// name, whatever their case, the partner and the listener by identifier.
pub proof fn law_queries_find_what_they_ask_for(query: &TransferQuery, t: TransferRecord)
    ensures
        (QueriedTransfers { query }).passes(t) <==> {
            &&& query.direction is None || (t.direction is Some && t.direction->0.spec_name()
                == upper(query.direction->0@))
            &&& query.status is None || t.status.spec_name() == upper(query.status->0@)
            &&& query.partner_id is None || (t.partner_id is Some && t.partner_id->0@
                == query.partner_id->0@)
            &&& query.server_id is None || (t.server_id is Some && t.server_id->0@
                == query.server_id->0@)
        },
        (ActiveTransfers {  }).passes(t) <==> t.status == TransferStatus::Initiated || t.status
            == TransferStatus::InProgress || t.status == TransferStatus::Paused,
        (OfStatus { status: t.status }).passes(t),
{
}

/// A transfer goes on with an interrupted one only where both are the same: of one partner, one
/// file, one identifier and one listener.
pub proof fn law_only_the_same_transfer_goes_on(c: InterruptedTransfer<'_>, r: TransferRecord)
    ensures
        c.passes(r) <==> {
            &&& r.status == TransferStatus::Interrupted
            &&& r.pesit_transfer_id == c.tid
            &&& r.partner_id is Some && r.partner_id->0@ == c.partner@
            &&& r.filename is Some && r.filename->0@ == c.file@
            &&& r.server_id is Some && r.server_id->0@ == c.server_id@
        },
{
}

/// The bytes of the completed transfers are counted, and those of no other.
pub proof fn law_only_completed_records_count(all: Seq<TransferRecord>, r: TransferRecord)
    requires
        completed_bytes(all) + r.bytes_transferred <= u64::MAX,
    ensures
        completed_bytes(all.push(r)) == completed_bytes(all) + if r.status
            == TransferStatus::Completed {
            r.bytes_transferred as int
        } else {
            0
        },
        completed_bytes(Seq::empty()) == 0,
        bytes_counted("completed"@, Some(r.bytes_transferred)) == r.bytes_transferred,
        bytes_counted("failed"@, Some(r.bytes_transferred)) == 0,
{
    assert(all.push(r).drop_last() =~= all);
    reveal_strlit("completed");
    reveal_strlit("failed");
    assert("completed"@.len() != "failed"@.len());
}

/// The percentage of a total is the largest whole one that the bytes reach, and at most one hundred.
pub proof fn law_percentages_are_reached(bytes: u64, total: u64)
    requires
        total > 0,
        bytes * 100 <= u64::MAX,
        bytes <= total,
    ensures
        percent(bytes, total) * total <= bytes * 100 < (percent(bytes, total) + 1) * total,
{
    let p = (bytes * 100) / (total as int);
    vstd::arithmetic::div_mod::lemma_fundamental_div_mod(bytes * 100, total as int);
    assert(p <= 100) by (nonlinear_arith)
        requires
            p == (bytes * 100) / (total as int),
            bytes <= total,
            total > 0,
    ;
    assert(p >= 0) by (nonlinear_arith)
        requires
            p == (bytes * 100) / (total as int),
            total > 0,
    ;
    assert(p * total <= bytes * 100 < (p + 1) * total) by (nonlinear_arith)
        requires
            bytes * 100 == total * p + (bytes * 100) % (total as int),
            0 <= (bytes * 100) % (total as int) < total,
    ;
}

/// A reservation in kilobytes is its number of bytes; a text is shortened at its end alone.
pub proof fn law_sizes_and_texts_are_kept(kb: u64, t: Seq<char>, n: nat)
    ensures
        kb * 1024 <= u64::MAX ==> reserved_bytes(kb) == kb * 1024,
        shortened(t, n).is_prefix_of(t),
        t.len() <= n ==> shortened(t, n) == t,
        t.len() > n ==> shortened(t, n).len() == n,
{
    if t.len() > n {
        assert(t.take(n as int) =~= t.subrange(0, n as int));
    } else {
        assert(t.subrange(0, t.len() as int) =~= t);
    }
}

// ---- listeners and jobs ----

/// A listener is accepted exactly where it has an identifier and a port, entities of 64 bytes or
/// more, and a window of 16 points or less.
pub proof fn law_listeners_are_complete(cfg: PesitServerConfig)
    ensures
        listener_fault(cfg) is None <==> trimmed(cfg.server_id@).len() > 0 && cfg.port != 0
            && cfg.max_entity_size >= 64 && cfg.sync_window <= 16,
{
}

/// A port is taken exactly where a listener has it on the same address.
pub proof fn law_ports_are_taken_once(
    others: Seq<PesitServerConfig>,
    cfg: PesitServerConfig,
    port: u16,
    address: Seq<char>,
)
    ensures
        !port_taken(Seq::empty(), port, address),
        port_taken(others.push(cfg), port, address) <==> port_taken(others, port, address) || (
        cfg.port == port && cfg.bind_address@ == address),
{
    let all = others.push(cfg);
    if port_taken(all, port, address) {
        let i = choose|i: int|
            0 <= i < all.len() && (#[trigger] all[i]).port == port && all[i].bind_address@
                == address;
        if i < others.len() {
            assert(others[i] == all[i]);
        }
    }
    if port_taken(others, port, address) {
        let i = choose|i: int|
            0 <= i < others.len() && (#[trigger] others[i]).port == port
                && others[i].bind_address@ == address;
        assert(all[i] == others[i]);
    }
    if cfg.port == port && cfg.bind_address@ == address {
        assert(all[others.len() as int] == cfg);
    }
}

/// A job is accepted exactly where it has a name and an interval, and is due exactly where it is
/// enabled and its time has come.
pub proof fn law_jobs_are_complete_and_due(s: ScheduledTransfer, now: i64)
    ensures
        schedule_fault(s) is None <==> trimmed(s.name@).len() > 0 && s.interval_seconds > 0,
        s.spec_due(now) <==> s.enabled && now >= s.next_run_ms,
{
}

/// A run is planned an interval ahead, of a second at least, where a machine number can hold it.
pub proof fn law_runs_are_planned_ahead(now: i64, seconds: u64)
    ensures
        plannable(now, seconds) <==> seconds * 1000 <= i64::MAX && now + seconds * 1000 <= i64::MAX,
        at_least_one(seconds) >= 1,
        seconds >= 1 ==> at_least_one(seconds) == seconds,
        seconds == 0 ==> at_least_one(seconds) == 1,
{
}

// ---- replication and backup ----

/// A change of another node is applied where its table is replicated: it deletes its row, or writes
/// the document that it carries. Any other change is ignored.
pub proof fn law_changes_are_applied(c: ConfigChange, node_id: Seq<char>)
    ensures
        ({
            let foreign = c.origin@ != node_id && (c.table@ == "partners"@ || c.table@
                == "virtual_files"@ || c.table@ == "remote_partners"@ || c.table@ == "schedules"@);
            &&& foreign && c.op@ == "delete"@ ==> c.spec_step(node_id) == ChangeStep::Delete
            &&& foreign && c.op@ != "delete"@ && c.doc is Some ==> c.spec_step(node_id)
                == ChangeStep::Put
            &&& !foreign || (c.op@ != "delete"@ && c.doc is None) ==> c.spec_step(node_id)
                == ChangeStep::Ignore
            &&& replicated(c.table@) ==> carried(c.table@)
        }),
{
    if replicated(c.table@) {
        crate::node::backup::law_replicated_tables_are_carried(c.table@);
    }
}

/// Members are in order exactly where none stands behind one that it should stand before; those of
/// one identifier are listed in the order in which they are there.
pub proof fn law_members_are_listed_in_order(
    list: Seq<MemberInfo>,
    m: MemberInfo,
    node_id: Seq<char>,
)
    ensures
        members_ordered(Seq::empty()),
        members_ordered(list.push(m)) <==> members_ordered(list) && forall|i: int|
            0 <= i < list.len() ==> !text_before(m.node_id@, (#[trigger] list[i]).node_id@),
        members_of(Seq::empty(), node_id).len() == 0,
        members_of(list.push(m), node_id) == if m.node_id@ == node_id {
            members_of(list, node_id).push(m)
        } else {
            members_of(list, node_id)
        },
{
    let more = list.push(m);
    let n = list.len() as int;
    assert(more.drop_last() =~= list);
    assert(more[n] == m);
    if members_ordered(more) {
        assert forall|i: int, j: int| 0 <= i < j < list.len() implies !text_before(
            (#[trigger] list[j]).node_id@,
            (#[trigger] list[i]).node_id@,
        ) by {
            assert(more[i] == list[i] && more[j] == list[j]);
        }
        assert forall|i: int| 0 <= i < list.len() implies !text_before(
            m.node_id@,
            (#[trigger] list[i]).node_id@,
        ) by {
            assert(more[i] == list[i]);
            assert(!text_before(more[n].node_id@, more[i].node_id@));
        }
    }
    if members_ordered(list) && forall|i: int|
        0 <= i < list.len() ==> !text_before(m.node_id@, (#[trigger] list[i]).node_id@) {
        assert forall|i: int, j: int| 0 <= i < j < more.len() implies !text_before(
            (#[trigger] more[j]).node_id@,
            (#[trigger] more[i]).node_id@,
        ) by {
            assert(more[i] == list[i]);
            if j < n {
                assert(more[j] == list[j]);
            }
        }
    }
}

/// A row is restored under the identifier that it carries: listeners under theirs, the vault under
/// its one key, and every other row under its `id`.
pub proof fn law_rows_are_restored_under_their_key(
    table: Seq<char>,
    members: Map<Seq<char>, Seq<char>>,
)
    ensures
        table == "pki"@ ==> spec_backup_key(table, members) == Some("vault"@),
        table == "servers"@ ==> (spec_backup_key(table, members) is Some <==> members.contains_key(
            "serverId"@,
        )) && (members.contains_key("serverId"@) ==> spec_backup_key(table, members) == Some(
            members["serverId"@],
        )),
        table != "pki"@ && table != "servers"@ ==> (spec_backup_key(table, members) is Some
            <==> members.contains_key("id"@)) && (members.contains_key("id"@) ==> spec_backup_key(
            table,
            members,
        ) == Some(members["id"@])),
{
    reveal_strlit("pki");
    reveal_strlit("servers");
    assert("pki"@.len() != "servers"@.len());
}

/// A signature can be looked at exactly where it has a value that can be read and a certificate to
/// hold it against.
pub proof fn law_signatures_are_complete(s: BundleSignature, decoded: Option<Seq<u8>>)
    ensures
        signature_fault(s, decoded) is None <==> s.value is Some && decoded is Some
            && s.certificate is Some,
        s.value is None ==> signature_fault(s, decoded) == Some("signature has no value"@),
        s.value is Some && decoded is None ==> signature_fault(s, decoded) == Some(
            "signature is not valid base64"@,
        ),
{
}

// ---- certificates ----

/// A serial number is revoked exactly where it is on the list, and stays so whatever else is added.
pub proof fn law_revocations_stay(list: Seq<RevokedEntry>, e: RevokedEntry, serial: &str)
    ensures
        !is_revoked(Seq::empty(), serial@),
        is_revoked(list.push(e), serial@) <==> is_revoked(list, serial@) || e.serial@ == serial@,
        (OfSerial { serial }).passes(e) <==> e.serial@ == serial@,
{
    let all = list.push(e);
    if is_revoked(all, serial@) {
        let i = choose|i: int| 0 <= i < all.len() && (#[trigger] all[i]).serial@ == serial@;
        if i < list.len() {
            assert(list[i] == all[i]);
        }
    }
    if is_revoked(list, serial@) {
        let i = choose|i: int| 0 <= i < list.len() && (#[trigger] list[i]).serial@ == serial@;
        assert(all[i] == list[i]);
    }
    if e.serial@ == serial@ {
        assert(all[list.len() as int] == e);
    }
}

/// Every revocation with a legible serial number is published, in the order of the list and with its
/// time; one without is left out, and nothing else is published.
pub proof fn law_revocations_are_published(list: Seq<RevokedEntry>, e: RevokedEntry)
    ensures
        crl_entries(Seq::empty()).len() == 0,
        serial_bytes(e.serial@) is None ==> crl_entries(list.push(e)) == crl_entries(list),
        serial_bytes(e.serial@) matches Some(b) ==> {
            let all = crl_entries(list.push(e));
            &&& all.drop_last() == crl_entries(list)
            &&& all.len() == crl_entries(list).len() + 1
            &&& all.last().0 == b
            &&& rfc3339_millis(e.revoked_at@) matches Some(ms) ==> all.last().1 == whole_seconds(ms)
            &&& rfc3339_millis(e.revoked_at@) is None ==> all.last().1 == 0
        },
{
    assert(list.push(e).drop_last() =~= list);
    if let Some(b) = serial_bytes(e.serial@) {
        assert(crl_entries(list.push(e)).drop_last() =~= crl_entries(list));
    }
}

/// Whole seconds are cut towards zero.
pub proof fn law_seconds_are_cut(ms: i64)
    requires
        ms > i64::MIN,
    ensures
        ms >= 0 ==> whole_seconds(ms) * 1000 <= ms < (whole_seconds(ms) + 1) * 1000,
        ms < 0 ==> (whole_seconds(ms) - 1) * 1000 < ms <= whole_seconds(ms) * 1000,
{
}

/// A certificate is about to expire exactly where its end can be read and lies within the horizon.
pub proof fn law_expiry_is_found(c: ExpiringBy, k: KeystoreExpiry)
    ensures
        c.passes(k) <==> rfc2822_instant(k.not_after@) is Some && rfc2822_instant(k.not_after@)->0
            <= c.horizon,
{
}

/// The common name of a subject is what stands behind `CN=` in the first of its parts that begins
/// so, blanks around the part left out.
pub proof fn law_common_names_are_found(part: Seq<char>, rest: Seq<char>)
    requires
        forall|i: int| 0 <= i < part.len() ==> part[i] != ',',
    ensures
        ({
            let t = trimmed(part);
            let named = t.len() >= 3 && t[0] == 'C' && t[1] == 'N' && t[2] == '=';
            &&& named ==> common_name(part) == Some(t.skip(3)) && common_name(
                part + seq![','] + rest,
            ) == Some(t.skip(3))
            &&& !named ==> common_name(part) is None && common_name(part + seq![','] + rest)
                == common_name(rest)
        }),
{
    crate::node::policy_laws::lemma_comma_of(part, rest);
    let all = part + seq![','] + rest;
    assert(part.take(part.len() as int) =~= part);
    assert(all.take(part.len() as int) =~= part);
    assert(all.skip(part.len() as int + 1) =~= rest);
}

/// The keystores and truststores of a backup are those of its documents that have all their parts,
/// in their order.
pub proof fn law_backups_hold_complete_stores(
    list: Seq<serde_json::Value>,
    v: serde_json::Value,
)
    ensures
        keystores_in(Seq::empty()).len() == 0,
        truststores_in(Seq::empty()).len() == 0,
        ({
            let all = Some(v);
            let name = text_of(all, "name"@);
            let cert = text_of(all, "certificate"@);
            let key = text_of(all, "privateKey"@);
            keystores_in(list.push(v)) == if name is Some && cert is Some && key is Some {
                keystores_in(list).push((name->0, (cert->0, key->0)))
            } else {
                keystores_in(list)
            }
        }),
        ({
            let all = Some(v);
            let name = text_of(all, "name"@);
            let certs = text_of(all, "certificates"@);
            truststores_in(list.push(v)) == if name is Some && certs is Some {
                truststores_in(list).push((name->0, certs->0))
            } else {
                truststores_in(list)
            }
        }),
        strings_in(list.push(v)) == match string_value(v) {
            Some(t) => strings_in(list).push(t),
            None => strings_in(list),
        },
        strings_in(Seq::empty()).len() == 0,
{
    assert(list.push(v).drop_last() =~= list);
}

/// A member of a document is read as what it is: a text where it is a string, a number where it is
/// one, and nothing where it is missing or of another kind.
pub proof fn law_members_are_read(v: serde_json::Value, name: Seq<char>)
    ensures
        member_of(Some(v), name) is Some <==> members(v).contains_key(name),
        members(v).contains_key(name) ==> {
            &&& member_of(Some(v), name) == Some(members(v)[name])
            &&& text_of(Some(v), name) == string_value(members(v)[name])
            &&& count_of(Some(v), name) == number_value(members(v)[name])
        },
        !members(v).contains_key(name) ==> text_of(Some(v), name) is None && count_of(
            Some(v),
            name,
        ) is None,
        member_of(None, name) is None && text_of(None, name) is None && count_of(None, name)
            is None,
{
}

// ---- metrics ----

/// Number of times a status occurs.
pub open spec fn times(list: Seq<Seq<char>>, status: Seq<char>) -> nat
    decreases list.len(),
{
    if list.len() == 0 {
        0
    } else {
        times(list.drop_last(), status) + if list.last() == status {
            1nat
        } else {
            0
        }
    }
}

/// The metrics count every record under its status, once.
pub proof fn law_every_record_is_counted(list: Seq<Seq<char>>, status: Seq<char>)
    requires
        list.len() < u64::MAX,
    ensures
        counts_ordered(counts_of(list)),
        count_for(counts_of(list), status) == times(list, status),
        times(list, status) <= list.len(),
    decreases list.len(),
{
    if list.len() > 0 {
        let d = list.drop_last();
        law_every_record_is_counted(d, status);
        law_counting_is_exact(counts_of(d), list.last(), status);
    }
}

/// The status of a record is the one it carries, in lower case, and `unknown` where it carries none;
/// its bytes count where that status is `completed`.
pub proof fn law_records_have_a_status(list: Seq<serde_json::Value>, v: serde_json::Value)
    ensures
        text_of(Some(v), "status"@) matches Some(t) ==> spec_status_of(v) == lower(t),
        text_of(Some(v), "status"@) is None ==> spec_status_of(v) == lower("unknown"@),
        ({
            let bytes = count_of(Some(v), "bytesTransferred"@);
            let counts = spec_status_of(v) == "completed"@ && bytes is Some;
            &&& counts && spec_completed_bytes(list) + bytes->0 <= u64::MAX ==> spec_completed_bytes(
                list.push(v),
            ) == spec_completed_bytes(list) + bytes->0
            &&& !counts ==> spec_completed_bytes(list.push(v)) == spec_completed_bytes(list)
        }),
        spec_completed_bytes(Seq::empty()) == 0,
        statuses(list.push(v)) == statuses(list).push(spec_status_of(v)),
{
    assert(list.push(v).drop_last() =~= list);
    assert(statuses(list.push(v)) =~= statuses(list).push(spec_status_of(v)));
}

/// The metrics hold one line for every status, in the order of the counts.
pub proof fn law_every_status_has_a_line(
    kind: Seq<char>,
    counts: crate::node::metrics::Counts,
    status: Seq<char>,
    n: u64,
)
    ensures
        transfers_text(kind, Seq::empty()).len() == 0,
        transfers_text(kind, counts.push((status, n))) == transfers_text(kind, counts)
            + transfers_line(kind, status, n),
{
    assert(counts.push((status, n)).drop_last() =~= counts);
}

// ---- settings ----

/// TLS 1.3 is asked for by one of its names, whatever its case; every other name means 1.2.
pub proof fn law_tls_versions_have_names(protocol: Seq<char>)
    ensures
        spec_min_tls(protocol) == TlsVersion::V1_3 <==> upper(protocol) == "TLSV1.3"@ || upper(
            protocol,
        ) == "TLS1.3"@ || upper(protocol) == "1.3"@,
        spec_min_tls(protocol) == TlsVersion::V1_3 || spec_min_tls(protocol) == TlsVersion::V1_2,
{
}

/// A header holds a text exactly where it has no control character but tabulators.
pub proof fn law_headers_hold_printable_text(t: Seq<char>)
    ensures
        header_text(t) <==> forall|i: int|
            0 <= i < t.len() ==> (#[trigger] t[i] == '\t' || (t[i] as u32 >= 32 && t[i] as u32
                != 127)),
{
    if forall|i: int|
        0 <= i < t.len() ==> (#[trigger] t[i] == '\t' || (t[i] as u32 >= 32 && t[i] as u32 != 127)) {
        assert(header_text(t));
    } else {
        let i = choose|i: int|
            0 <= i < t.len() && !(#[trigger] t[i] == '\t' || (t[i] as u32 >= 32 && t[i] as u32
                != 127));
        assert(!crate::node::config::header_char(t[i]));
    }
}

/// The records of a file vary in length exactly where bit 7 of its format is set.
pub proof fn law_variable_records(vf: VirtualFile)
    ensures
        vf.spec_variable() <==> (vf.record_format / 128) % 2 == 1,
{
    let f = vf.record_format;
    assert(f & 0x80 != 0 <==> (f / 128) % 2 == 1) by (bit_vector);
}

/// A connector is of the kind that its configuration names, and anything else is local.
pub proof fn law_connectors_are_of_their_kind(c: Connector, cfg: ConnectorConfig)
    requires
        configured(c, cfg),
    ensures
        cfg.kind@ == "s3"@ <==> c.spec_backend() is S3,
        cfg.kind@ == "sftp"@ <==> c.spec_backend() is Sftp,
        c.spec_backend() is S3 || c.spec_backend() is Sftp || c.spec_backend() is Local,
        c.spec_max_attempts() == crate::connector::DEFAULT_MAX_ATTEMPTS,
{
    reveal_strlit("s3");
    reveal_strlit("sftp");
    assert("s3"@.len() != "sftp"@.len());
}

/// Slashes are cut off at one end alone, all of them, and nothing else is.
pub proof fn law_only_slashes_are_cut(t: Seq<char>)
    ensures
        no_leading_slash(t).len() > 0 ==> no_leading_slash(t)[0] != '/',
        no_trailing_slash(t).len() > 0 ==> no_trailing_slash(t).last() != '/',
        exists|n: int|
            0 <= n <= t.len() && no_leading_slash(t) == #[trigger] t.skip(n) && forall|i: int|
                0 <= i < n ==> t[i] == '/',
        exists|n: int|
            0 <= n <= t.len() && no_trailing_slash(t) == #[trigger] t.take(n) && forall|i: int|
                n <= i < t.len() ==> t[i] == '/',
{
    lemma_leading(t);
    lemma_trailing(t);
}

proof fn lemma_leading(t: Seq<char>)
    ensures
        no_leading_slash(t).len() > 0 ==> no_leading_slash(t)[0] != '/',
        exists|n: int|
            0 <= n <= t.len() && no_leading_slash(t) == #[trigger] t.skip(n) && forall|i: int|
                0 <= i < n ==> t[i] == '/',
    decreases t.len(),
{
    if t.len() > 0 && t[0] == '/' {
        let d = t.skip(1);
        lemma_leading(d);
        let n = choose|n: int|
            0 <= n <= d.len() && no_leading_slash(d) == #[trigger] d.skip(n) && forall|i: int|
                0 <= i < n ==> d[i] == '/';
        assert(t.skip(n + 1) =~= d.skip(n));
        assert forall|i: int| 0 <= i < n + 1 implies t[i] == '/' by {
            if i > 0 {
                assert(d[i - 1] == t[i]);
            }
        }
    } else {
        assert(t.skip(0) =~= t);
    }
}

proof fn lemma_trailing(t: Seq<char>)
    ensures
        no_trailing_slash(t).len() > 0 ==> no_trailing_slash(t).last() != '/',
        exists|n: int|
            0 <= n <= t.len() && no_trailing_slash(t) == #[trigger] t.take(n) && forall|i: int|
                n <= i < t.len() ==> t[i] == '/',
    decreases t.len(),
{
    if t.len() > 0 && t.last() == '/' {
        let d = t.drop_last();
        lemma_trailing(d);
        let n = choose|n: int|
            0 <= n <= d.len() && no_trailing_slash(d) == #[trigger] d.take(n) && forall|i: int|
                n <= i < d.len() ==> d[i] == '/';
        assert(t.take(n) =~= d.take(n));
        assert forall|i: int| n <= i < t.len() implies t[i] == '/' by {
            if i < d.len() {
                assert(d[i] == t[i]);
            }
        }
    } else {
        assert(t.take(t.len() as int) =~= t);
    }
}

} // verus!
