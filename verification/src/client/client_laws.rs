//! What the sending side promises its users: which server and which credentials a request uses, what
//! it announces of a file, and what is kept of a transfer that can be taken up again.

use crate::client::api::{
    completed_bytes, default_moved, name_taken, occurrences, partner_taken, server_fault,
    with_tls_flags, Correlated, ListQuery, ListedTransfers, Resumable,
};
use crate::client::engine::{
    article_length_of, at_least_a_second, first_text, kb_reserved, repeated, server_position,
    spec_identity, spec_password, stopping_diag, succeeded, takes_over, DefaultServer,
    EngineSettings, Finished, NamedServer, OfPartner,
};
use crate::client::model::{
    whole_kb, Partner, PesitServer, TransferHistory, TransferRequest, TransferStatus,
};
use crate::datapath::DataEnd;
use crate::diag::Diagnostic;
use crate::error::SessionError;
use crate::service::select::{first_passing, Criterion};
use crate::service::service_laws::law_the_first_is_found;
use crate::text::{opt_text, trimmed, upper};
use vstd::prelude::*;

verus! {

// ---- servers and credentials ----

/// A name stands for the first server that has it as its name or its identifier; no name, or an
/// empty one, for the first enabled default server. Where there is none, none is taken.
pub proof fn law_servers_are_resolved(servers: Seq<PesitServer>, name: Option<&str>)
    ensures
        ({
            let named = name is Some && name->0@.len() > 0;
            let fits = |s: PesitServer|
                if named {
                    s.name@ == name->0@ || s.id@ == name->0@
                } else {
                    s.default_server && s.enabled
                };
            &&& server_position(servers, name) matches Some(i) ==> 0 <= i < servers.len() && fits(
                servers[i],
            ) && forall|j: int| 0 <= j < i ==> !fits(#[trigger] servers[j])
            &&& server_position(servers, name) is None ==> forall|j: int|
                0 <= j < servers.len() ==> !fits(#[trigger] servers[j])
        }),
{
    if name is Some && name->0@.len() > 0 {
        law_the_first_is_found(NamedServer { name: name->0 }, servers);
    } else {
        law_the_first_is_found(DefaultServer {  }, servers);
    }
}

/// The password of a request is its own where it gives one; else that of the first credentials of
/// its identifier, where they have one.
pub proof fn law_passwords_are_resolved(
    partners: Seq<Partner>,
    partner_id: &str,
    explicit: Option<Seq<char>>,
)
    ensures
        explicit matches Some(p) && p.len() > 0 ==> spec_password(partners, partner_id, explicit)
            == explicit,
        explicit is None || explicit->0.len() == 0 ==> {
            &&& (forall|j: int|
                0 <= j < partners.len() ==> (#[trigger] partners[j]).partner_id@ != partner_id@)
                ==> spec_password(partners, partner_id, explicit) is None
            &&& forall|i: int|
                0 <= i < partners.len() && (#[trigger] partners[i]).partner_id@ == partner_id@ && (
                forall|j: int|
                    0 <= j < i ==> (#[trigger] partners[j]).partner_id@ != partner_id@)
                    ==> spec_password(partners, partner_id, explicit) == (
                if partners[i].password is Some && partners[i].password->0@.len() > 0 {
                    opt_text(partners[i].password)
                } else {
                    None
                })
        },
{
    let c = OfPartner { partner_id };
    law_the_first_is_found(c, partners);
    if explicit is None || explicit->0.len() == 0 {
        if forall|j: int|
            0 <= j < partners.len() ==> (#[trigger] partners[j]).partner_id@ != partner_id@ {
            assert forall|j: int| 0 <= j < partners.len() implies !c.passes(
                #[trigger] partners[j],
            ) by {}
        }
        assert forall|i: int|
            0 <= i < partners.len() && (#[trigger] partners[i]).partner_id@ == partner_id@ && (
            forall|j: int|
                0 <= j < i ==> (#[trigger] partners[j]).partner_id@ != partner_id@) implies spec_password(
            partners,
            partner_id,
            explicit,
        ) == (if partners[i].password is Some && partners[i].password->0@.len() > 0 {
            opt_text(partners[i].password)
        } else {
            None
        }) by {
            assert(c.passes(partners[i]));
            let k = first_passing(c, partners)->0;
            assert(c.passes(partners[k]));
            if i < k {
                assert(!c.passes(partners[i]));
            }
        }
    }
}

/// A request goes out under its own identifier, else under the default one.
pub proof fn law_identities_are_resolved(asked: Option<Seq<char>>, default_id: Seq<char>)
    ensures
        asked is Some && asked->0.len() > 0 ==> spec_identity(asked, default_id) == asked->0,
        asked is None || asked->0.len() == 0 ==> spec_identity(asked, default_id) == default_id,
{
}

/// A server is accepted exactly where it has a name, a host and a port.
pub proof fn law_servers_are_complete(s: PesitServer)
    ensures
        server_fault(s) is None <==> trimmed(s.name@).len() > 0 && trimmed(s.host@).len() > 0
            && s.port != 0,
        with_tls_flags(s).truststore_configured == s.ca_file is Some,
        with_tls_flags(s).keystore_configured == (s.cert_file is Some && s.key_file is Some),
{
}

/// Behind a change of the default server, the servers of the identifier are default and no other
/// one is; nothing else of a server changes but its time.
pub proof fn law_the_default_moves(
    before: Seq<PesitServer>,
    after: Seq<PesitServer>,
    id: Seq<char>,
    now: Seq<char>,
)
    requires
        default_moved(before, after, id, now),
    ensures
        after.len() == before.len(),
        forall|i: int|
            0 <= i < after.len() ==> {
                let b = #[trigger] after[i];
                &&& b.default_server <==> before[i].id@ == id
                &&& b.id == before[i].id && b.name == before[i].name && b.host == before[i].host
                &&& b.port == before[i].port && b.enabled == before[i].enabled
            },
{
    assert forall|i: int| 0 <= i < after.len() implies {
        let b = #[trigger] after[i];
        &&& b.default_server <==> before[i].id@ == id
        &&& b.id == before[i].id && b.name == before[i].name && b.host == before[i].host
        &&& b.port == before[i].port && b.enabled == before[i].enabled
    } by {
        assert(crate::client::api::default_moved_at(before[i], after[i], id, now));
    }
}

/// A name, or an identifier, is taken exactly where one of the list has it.
pub proof fn law_names_are_taken_once(
    all: Seq<PesitServer>,
    s: PesitServer,
    name: Seq<char>,
    partners: Seq<Partner>,
    p: Partner,
)
    ensures
        !name_taken(Seq::empty(), name),
        !partner_taken(Seq::empty(), name),
        name_taken(all.push(s), name) <==> name_taken(all, name) || s.name@ == name,
        partner_taken(partners.push(p), name) <==> partner_taken(partners, name) || p.partner_id@
            == name,
{
    let more = all.push(s);
    if name_taken(more, name) {
        let i = choose|i: int| 0 <= i < more.len() && (#[trigger] more[i]).name@ == name;
        if i < all.len() {
            assert(all[i] == more[i]);
        }
    }
    if name_taken(all, name) {
        let i = choose|i: int| 0 <= i < all.len() && (#[trigger] all[i]).name@ == name;
        assert(more[i] == all[i]);
    }
    if s.name@ == name {
        assert(more[all.len() as int] == s);
    }
    let others = partners.push(p);
    if partner_taken(others, name) {
        let i = choose|i: int| 0 <= i < others.len() && (#[trigger] others[i]).partner_id@ == name;
        if i < partners.len() {
            assert(partners[i] == others[i]);
        }
    }
    if partner_taken(partners, name) {
        let i = choose|i: int|
            0 <= i < partners.len() && (#[trigger] partners[i]).partner_id@ == name;
        assert(others[i] == partners[i]);
    }
    if p.partner_id@ == name {
        assert(others[partners.len() as int] == p);
    }
}

/// A word occurs in a file exactly where it stands at some place of it, and every such place counts.
pub proof fn law_words_are_counted(data: Seq<u8>, word: Seq<u8>)
    requires
        word.len() > 0,
    ensures
        occurrences(data, word) > 0 <==> exists|i: int|
            0 <= i <= data.len() && word.is_prefix_of(#[trigger] data.skip(i)),
        data.len() > 0 ==> occurrences(data, word) == occurrences(data.skip(1), word) + if word
            .is_prefix_of(data) {
            1nat
        } else {
            0
        },
    decreases data.len(),
{
    assert(data.skip(0) =~= data);
    if data.len() > 0 {
        let d = data.skip(1);
        law_words_are_counted(d, word);
        if occurrences(data, word) > 0 && !word.is_prefix_of(data) {
            let i = choose|i: int| 0 <= i <= d.len() && word.is_prefix_of(#[trigger] d.skip(i));
            assert(d.skip(i) =~= data.skip(i + 1));
        }
        if exists|i: int| 0 <= i <= data.len() && word.is_prefix_of(#[trigger] data.skip(i)) {
            let i = choose|i: int|
                0 <= i <= data.len() && word.is_prefix_of(#[trigger] data.skip(i));
            if i > 0 {
                assert(data.skip(i) =~= d.skip(i - 1));
            }
        }
    }
}

/// Of two texts the first that is there is taken.
pub proof fn law_the_first_text_is_taken(a: Option<String>, b: Option<String>)
    ensures
        a matches Some(t) ==> first_text(a, b) == Some(t@),
        a is None ==> first_text(a, b) == opt_text(b),
{
}

// ---- files ----

/// The space that is reserved holds the file, and is less than a kilobyte too large.
pub proof fn law_reservations_hold_the_file(size: u64)
    ensures
        kb_reserved(size) * 1024 >= size,
        kb_reserved(size) * 1024 < size + 1024,
{
}

/// An article is as long as a record, as far as PI 32 can say it, and never empty.
pub proof fn law_articles_have_the_record_length(record_length: u32)
    ensures
        1 <= article_length_of(record_length) <= 0xFFFF,
        1 <= record_length <= 0xFFFF ==> article_length_of(record_length) == record_length,
        record_length > 0xFFFF ==> article_length_of(record_length) == 0xFFFF,
        record_length == 0 ==> article_length_of(record_length) == 1,
{
}

/// An interval in bytes is rounded down to whole kilobytes, within what the protocol can say.
pub proof fn law_intervals_are_whole_kilobytes(bytes: u64)
    ensures
        1 <= whole_kb(bytes) <= 0xFFFE,
        1024 <= bytes < 0xFFFF * 1024 ==> whole_kb(bytes) * 1024 <= bytes < (whole_kb(bytes) + 1)
            * 1024,
{
}

/// A wait is never shorter than a second, and a longer one stays as it is.
pub proof fn law_waits_last_a_second(ms: u64)
    ensures
        at_least_a_second(ms) >= 1000,
        ms >= 1000 ==> at_least_a_second(ms) == ms,
        ms < 1000 ==> at_least_a_second(ms) == 1000,
{
}

/// The remote name of a request is the name it gives for the remote file, else its virtual file;
/// an empty name is none.
pub proof fn law_remote_names(q: TransferRequest)
    ensures
        q.remote_filename is Some && q.remote_filename->0@.len() > 0 ==> q.spec_virtual_file()
            == opt_text(q.remote_filename),
        q.remote_filename matches Some(f) && f@.len() == 0 ==> q.spec_virtual_file() is None,
        q.remote_filename is None ==> q.spec_virtual_file() == if q.virtual_file is Some
            && q.virtual_file->0@.len() > 0 {
            opt_text(q.virtual_file)
        } else {
            None
        },
{
}

/// The interval of a request is the one it gives in bytes, else the one it gives in kilobytes (or,
/// where that is too large, in bytes), else the default.
pub proof fn law_intervals_are_resolved(q: TransferRequest, default_kb: u16)
    ensures
        q.sync_point_interval_bytes matches Some(b) ==> q.spec_sync_interval_kb(default_kb)
            == whole_kb(b),
        q.sync_point_interval_bytes is None ==> {
            &&& q.sync_point_interval is None || q.sync_point_interval == Some(0u64)
                ==> q.spec_sync_interval_kb(default_kb) == default_kb
            &&& q.sync_point_interval matches Some(v) ==> {
                &&& 0 < v < 0xFFFF ==> q.spec_sync_interval_kb(default_kb) == v
                &&& v == 0xFFFF ==> q.spec_sync_interval_kb(default_kb) == 0xFFFE
                &&& v > 0xFFFF ==> q.spec_sync_interval_kb(default_kb) == whole_kb(v)
            }
        },
{
}

// ---- outcomes ----

/// A transfer succeeded exactly where its data phase completed and its closing phase reported
/// success. Where it did not, the diagnostic of the failure is that of the interruption or of the
/// end of the data, and where the data completed, that of the closing phase.
pub proof fn law_outcomes_are_judged(
    outcome: Result<Finished, SessionError>,
    end: DataEnd,
    diag: Diagnostic,
)
    ensures
        outcome is Err ==> !succeeded(outcome),
        outcome matches Ok((_, e, d, _)) ==> (succeeded(outcome) <==> e is Completed && d.kind == 0
            && d.code == 0),
        end matches DataEnd::Interrupted { diag: d, .. } ==> stopping_diag(end, diag) == d,
        end matches DataEnd::EndedWithError(d) ==> stopping_diag(end, diag) == d,
        end is Completed ==> stopping_diag(end, diag) == diag,
{
}

/// A transfer is repeated as it was: to the same server, the same files, under the same identity,
/// with everything else that was asked for.
pub proof fn law_transfers_are_repeated_as_they_were(
    prev: TransferHistory,
    resume: Option<String>,
)
    ensures
        ({
            let q = repeated(prev, resume);
            &&& q.filename == prev.local_filename && q.remote_filename == prev.remote_filename
            &&& q.partner_id == prev.partner_id && q.resume_from_transfer_id == resume
            &&& prev.server_id is Some ==> q.server == prev.server_id
            &&& prev.request matches Some(base) ==> {
                &&& prev.server_id is None ==> q.server == base.server
                &&& q == TransferRequest {
                    server: q.server,
                    filename: q.filename,
                    remote_filename: q.remote_filename,
                    partner_id: q.partner_id,
                    resume_from_transfer_id: q.resume_from_transfer_id,
                    ..base
                }
            }
        }),
{
}

/// A transfer that goes on with another one takes over its identifier and where it stood; one that
/// begins has neither.
pub proof fn law_resumed_transfers_take_over(h: TransferHistory, prev: TransferHistory)
    ensures
        takes_over(h, Some(&prev)) <==> h.pesit_transfer_id == prev.pesit_transfer_id
            && h.last_sync_point == prev.last_sync_point && h.bytes_at_last_sync_point
            == prev.bytes_at_last_sync_point,
        takes_over(h, None) <==> h.pesit_transfer_id == 0 && h.last_sync_point == 0
            && h.bytes_at_last_sync_point == 0,
{
}

/// A transfer may be resumed exactly where it stopped before its end, behind a synchronisation
/// point; a query lists the transfers of its status and its direction; a correlation identifier
/// finds the transfers that carry it.
pub proof fn law_transfers_are_found(
    h: TransferHistory,
    query: &ListQuery,
    id: &str,
)
    ensures
        (Resumable {  }).passes(h) <==> h.last_sync_point > 0 && (h.status
            == TransferStatus::Interrupted || h.status == TransferStatus::Failed || h.status
            == TransferStatus::Cancelled),
        (ListedTransfers { query }).passes(h) <==> (query.status is None || h.status.spec_name()
            == upper(query.status->0@)) && (query.direction is None || (h.direction is Some
            && h.direction->0.spec_name() == upper(query.direction->0@))),
        (Correlated { id }).passes(h) <==> h.correlation_id is Some && h.correlation_id->0@ == id@,
{
}

/// The bytes of the completed transfers are counted, and those of no other: a completed transfer
/// adds its bytes, any other one nothing.
pub proof fn law_only_completed_bytes_count(all: Seq<TransferHistory>, h: TransferHistory)
    requires
        completed_bytes(all) + h.bytes_transferred <= u64::MAX,
    ensures
        completed_bytes(all.push(h)) == completed_bytes(all) + if h.status
            == TransferStatus::Completed {
            h.bytes_transferred as int
        } else {
            0
        },
        completed_bytes(Seq::empty()) == 0,
{
    assert(all.push(h).drop_last() =~= all);
}

/// A file is announced as it is asked for: by its remote name and its identifier, as a restart
/// exactly where one is resumed, in EBCDIC exactly where that is asked for, with its articles and
/// with room for all of it where its size is known.
pub proof fn law_files_are_announced_as_asked(
    settings: EngineSettings,
    req: TransferRequest,
    remote: Seq<char>,
    size: Option<u64>,
    pesit_id: u32,
    resume: bool,
    creation_date: Seq<char>,
)
    ensures
        ({
            let f = settings.asked_file(req, remote, size, pesit_id, resume, creation_date);
            &&& f.file_name == remote && f.transfer_id == pesit_id && f.restarted == resume
            &&& f.data_code == if req.ebcdic == Some(true) {
                Some(1u8)
            } else {
                None
            }
            &&& req.max_entity_size matches Some(n) ==> f.max_entity_size == n
            &&& req.max_entity_size is None ==> f.max_entity_size == settings.max_entity_size
            &&& req.priority matches Some(n) ==> f.priority == n
            &&& req.file_type matches Some(n) ==> f.file_type == n
            &&& f.article_length == article_length_of(
                match req.record_length {
                    Some(n) => n,
                    None => settings.record_length,
                },
            )
            &&& size matches Some(n) ==> f.max_reservation * 1024 >= n
            &&& size is None ==> f.max_reservation == 0
            &&& f.creation_date == Some(creation_date)
        }),
{
    if let Some(n) = size {
        law_reservations_hold_the_file(n);
    }
}

} // verus!
