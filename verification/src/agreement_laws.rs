//! What the two ends of a session hold against each other: how a connection is asked for, granted
//! and refused, what is settled between them, and how answers and aborts are understood.

use crate::builder::diag_fpdu;
use crate::datapath::received_step;
use crate::diag::Diagnostic;
use crate::error::SessionErrorV;
use crate::exchange::{answer_step, awaited_step, receive_fault};
use crate::fpdu::{FpduV, MAX_FPDU_LEN};
use crate::fpdu_laws::{law_decode_inverts_encode, law_get_after_set, well_formed};
use crate::frame::{encodings, entity_of, framed, law_split_undoes_concatenation};
use crate::kind::FpduKind;
use crate::link::readable_prefix;
use crate::message::{segmented_answer_step, IncomingMessageV};
use crate::params::{Compression, SyncOption};
use crate::pi::Pi;
use crate::requester::{FileTransferV, RequesterConfig, RequesterV};
use crate::responder::{ConnectAccept, ConnectRequestV, ResponderV};
use crate::state::State;
use vstd::prelude::*;

verus! {

// ---- negotiation ----

/// Synchronisation is settled as the weaker of two proposals: none where either wants none; else the
/// shorter interval, where an undefined one yields, and the smaller window.
pub proof fn law_sync_is_the_weaker_proposal(a: SyncOption, b: SyncOption)
    ensures
        ({
            let r = SyncOption::spec_negotiate(a, b);
            &&& a.interval_kb == 0 || b.interval_kb == 0 ==> r.interval_kb == 0 && r.window == 0
            &&& a.interval_kb != 0 && b.interval_kb != 0 ==> {
                &&& r.interval_kb == a.interval_kb || r.interval_kb == b.interval_kb
                &&& r.interval_kb <= a.interval_kb && r.interval_kb <= b.interval_kb
                &&& r.window == a.window || r.window == b.window
                &&& r.window <= a.window && r.window <= b.window
            }
        }),
{
}

/// Compression is settled as what both ends can do: a kind of string is used exactly where both
/// have it.
pub proof fn law_compression_is_the_common_part(a: Compression, b: Compression)
    ensures
        ({
            let r = Compression::spec_negotiate(a, b);
            let h = |c: Compression| c == Compression::Horizontal || c == Compression::Mixed;
            let v = |c: Compression| c == Compression::Vertical || c == Compression::Mixed;
            &&& h(r) <==> h(a) && h(b)
            &&& v(r) <==> v(a) && v(b)
        }),
{
}

/// What the server settles with a requester: the version that is asked for, synchronisation as both
/// want it, resynchronisation exactly where both want it, and the check bytes of the connection.
pub proof fn law_the_server_settles(s: ResponderV, asked: ConnectRequestV, accept: ConnectAccept)
    ensures
        ({
            let n = s.settled(asked, accept);
            &&& n.version == asked.version
            &&& n.resync <==> asked.resync && accept.resync
            &&& n.crc == s.negotiated.crc
            &&& n.sync == SyncOption::spec_negotiate(asked.sync, accept.sync)
        }),
{
}

/// The data phase runs as the session was settled: with its synchronisation, its resynchronisation
/// and its check bytes, at both ends alike.
pub proof fn law_the_data_phase_follows_the_session(
    t: FileTransferV,
    s: RequesterV,
    r: ResponderV,
    max_article: usize,
)
    ensures
        ({
            let p = t.data_params(s);
            let q = r.data_params(t.compression, t.max_entity, max_article);
            &&& p.sync == s.negotiated.sync && p.resync == s.negotiated.resync && p.crc
                == s.negotiated.crc && p.peer_id == s.peer_id
            &&& q.sync == r.negotiated.sync && q.resync == r.negotiated.resync && q.crc
                == r.negotiated.crc && q.peer_id == r.peer_id
            &&& p.compression == t.compression && q.compression == t.compression
            &&& p.max_entity == t.max_entity && q.max_entity == t.max_entity
            &&& q.max_article == max_article
            &&& p.max_article >= t.file.article_length
            &&& t.sending ==> p.max_article == t.file.article_length
            &&& !t.sending ==> p.max_article >= t.remote.article_length && (p.max_article
                == t.file.article_length || p.max_article == t.remote.article_length)
            &&& p.multi_article == s.config.multi_article && q.multi_article == r.multi_article
        }),
{
}

// ---- connections ----

proof fn lemma_diag_read(kind: FpduKind, id_dst: u8, diag: Diagnostic)
    ensures
        diag_fpdu(kind, id_dst, 0, diag).diagnostic() == Some(diag),
        diag_fpdu(kind, id_dst, 0, diag).kind == kind,
{
    law_get_after_set(FpduV::between(kind, id_dst, 0), Pi::Diag, diag.spec_bytes());
    crate::diag::law_diagnostic_bytes_round_trip(diag);
}

/// A requester takes the answer to its CONNECT as it is meant: a refusal with its diagnostic, an
/// abort with its own, and anything that is not an acceptance never as one.
pub proof fn law_connections_are_answered(
    cfg: RequesterConfig,
    st: State,
    id_dst: u8,
    diag: Diagnostic,
    reply: FpduV,
)
    ensures
        cfg.connect_step(st, diag_fpdu(FpduKind::Rconnect, id_dst, 0, diag)) matches Err(
            SessionErrorV::Refused(k, d, _),
        ) && k == FpduKind::Connect && d == diag,
        cfg.connect_step(st, diag_fpdu(FpduKind::Abort, id_dst, 0, diag)) matches Err(
            SessionErrorV::Aborted(d, _),
        ) && d == diag,
        cfg.connect_step(st, reply) matches Ok(n) ==> reply.kind == FpduKind::Aconnect && n
            == cfg.spec_negotiated(reply) && n.crc == cfg.crc && (n.resync ==> cfg.resync),
        reply.kind == FpduKind::Aconnect && st == State::Cn02A ==> cfg.connect_step(
            st,
            reply,
        ) is Ok,
{
    lemma_diag_read(FpduKind::Rconnect, id_dst, diag);
    lemma_diag_read(FpduKind::Abort, id_dst, diag);
}

/// A server understands the CONNECT that reaches it, with or without check bytes: it learns what is
/// asked for, by whom, and whether the connection carries check bytes. A CONNECT that says otherwise
/// of its check bytes than it carries is not accepted.
pub proof fn law_connects_are_understood(s: ResponderV, f: FpduV, crc: bool)
    requires
        s.state == State::INITIAL,
        f.kind == FpduKind::Connect,
        well_formed(f, true),
        f.wire_len() <= MAX_FPDU_LEN,
    ensures
        ({
            let (t, asked) = s.connect_step(entity_of(seq![f], crc));
            &&& t.negotiated.crc == crc
            &&& t.peer_id == f.id_src
            &&& t.access == ConnectRequestV::of(f).access
            &&& ConnectRequestV::of(f).crc == crc ==> asked == Ok::<ConnectRequestV, SessionErrorV>(
                ConnectRequestV::of(f),
            )
            &&& ConnectRequestV::of(f).crc != crc ==> asked is Err
        }),
{
    let one = seq![f];
    let entity = entity_of(one, crc);
    assert(one.drop_last() =~= Seq::<FpduV>::empty());
    assert(entity_of(one.drop_last(), crc) =~= Seq::<u8>::empty());
    assert(entity =~= framed(f.encoding(), crc));
    law_split_undoes_concatenation(one, crc);
    law_decode_inverts_encode(f, true);
    assert(encodings(one)[0] == f.encoding());
    let enc = f.encoding();
    assert(enc.len() == f.wire_len());
    assert(entity[0] == enc[0] && entity[1] == enc[1]);
    assert(!f.negative());
}

// ---- answers ----

/// Only what was waited for is taken for the answer, and as it came.
pub proof fn law_only_the_awaited_answer_is_taken(
    st: State,
    request: FpduKind,
    expect: FpduKind,
    f: FpduV,
)
    ensures
        awaited_step(st, expect, f) matches Ok(Some(a)) ==> a == f && f.kind == expect
            && receive_fault(st, f) is None,
        answer_step(st, request, expect, f) matches Ok(Some(a)) ==> a == f && f.kind == expect
            && !f.negative(),
        answer_step(st, request, expect, f) matches Ok(None) ==> crate::exchange::dropped(st, f),
        receive_fault(st, f) is Some ==> awaited_step(st, expect, f) is Err && answer_step(
            st,
            request,
            expect,
            f,
        ) is Err,
{
}

/// An ABORT ends whatever is under way, in every state, with the diagnostic that it carries.
pub proof fn law_aborts_are_understood(
    st: State,
    expect: FpduKind,
    m: IncomingMessageV,
    id_dst: u8,
    diag: Diagnostic,
)
    ensures
        ({
            let f = diag_fpdu(FpduKind::Abort, id_dst, 0, diag);
            &&& received_step(st, f) matches Err(SessionErrorV::Aborted(d, _)) && d == diag
            &&& awaited_step(st, expect, f) matches Err(SessionErrorV::Aborted(d, _)) && d == diag
            &&& segmented_answer_step(st, f) matches Err(SessionErrorV::Aborted(d, _)) && d == diag
            &&& m.segment_step(st, f) matches Err(SessionErrorV::Aborted(d, _)) && d == diag
        }),
{
    lemma_diag_read(FpduKind::Abort, id_dst, diag);
}

/// The answer to a message that was sent in segments is judged like any other: success is taken, any
/// other diagnostic is a refusal that carries it.
pub proof fn law_segmented_messages_are_answered(st: State, f: FpduV, diag: Diagnostic)
    requires
        f.kind == FpduKind::AckMsg,
        f.diagnostic() == Some(diag),
        receive_fault(st, f) is None,
    ensures
        diag.kind == 0 && diag.code == 0 ==> segmented_answer_step(st, f) == Ok::<
            FpduV,
            SessionErrorV,
        >(f),
        !(diag.kind == 0 && diag.code == 0) ==> (segmented_answer_step(st, f) matches Err(
            SessionErrorV::Refused(k, d, _),
        ) && k == FpduKind::Msg && d == diag),
{
}

// ---- entities ----

/// The FPDUs of an entity are handed out one by one as they were sent.
pub proof fn law_links_hand_out_what_was_sent(fpdus: Seq<FpduV>)
    requires
        forall|i: int|
            0 <= i < fpdus.len() ==> well_formed(#[trigger] fpdus[i], true) && fpdus[i].wire_len()
                <= MAX_FPDU_LEN,
    ensures
        readable_prefix(encodings(fpdus)) == (fpdus, None::<crate::fpdu::Fault>),
    decreases fpdus.len(),
{
    if fpdus.len() > 0 {
        let d = fpdus.drop_last();
        assert forall|i: int| 0 <= i < d.len() implies well_formed(#[trigger] d[i], true)
            && d[i].wire_len() <= MAX_FPDU_LEN by {
            assert(d[i] == fpdus[i]);
        }
        law_links_hand_out_what_was_sent(d);
        assert(encodings(fpdus).drop_last() =~= encodings(d));
        let last = fpdus[fpdus.len() - 1];
        assert(encodings(fpdus).last() == last.encoding());
        law_decode_inverts_encode(last, true);
        assert(d.push(last) =~= fpdus);
    } else {
        assert(encodings(fpdus) =~= Seq::<Seq<u8>>::empty());
        assert(fpdus =~= Seq::<FpduV>::empty());
    }
}

} // verus!
