//! What a file transfer owes its user: where it resumes, what it tells the peer, and when it counts
//! as complete.

use crate::builder::{diag_fpdu, spec_ack_trans_end, spec_trans_end, FileSpecV};
use crate::checkpoint::{Checkpoint, CheckpointsV};
use crate::datapath::{count_fault, local_step, DataEnd, DataResult};
use crate::diag::Diagnostic;
use crate::error::SessionErrorV;
use crate::exchange::answer_step;
use crate::fpdu::{canonical, law_number_round_trip, num_bytes, FpduV};
use crate::fpdu_laws::{
    law_get_after_set, law_set_keeps_canonical_order, law_set_leaves_other_parameters,
};
use crate::kind::FpduKind;
use crate::params::Compression;
use crate::pi::Pi;
use crate::requester::{FileTransferV, Stage};
use crate::responder::{IndicationV, ResponderV};
use crate::state::{LocalEvent, State};
use vstd::prelude::*;

verus! {

// ---- FPDUs, read back ----

proof fn lemma_diag_read(kind: FpduKind, id_dst: u8, diag: Diagnostic)
    ensures
        diag_fpdu(kind, id_dst, 0, diag).diagnostic() == Some(diag),
        diag_fpdu(kind, id_dst, 0, diag).kind == kind,
        canonical(diag_fpdu(kind, id_dst, 0, diag).params),
        diag_fpdu(kind, id_dst, 0, diag).value(Pi::ByteCount) is None,
        diag_fpdu(kind, id_dst, 0, diag).value(Pi::ArticleCount) is None,
{
    let f0 = FpduV::between(kind, id_dst, 0);
    law_get_after_set(f0, Pi::Diag, diag.spec_bytes());
    law_set_leaves_other_parameters(f0, Pi::Diag, diag.spec_bytes(), Pi::ByteCount);
    law_set_leaves_other_parameters(f0, Pi::Diag, diag.spec_bytes(), Pi::ArticleCount);
    assert(f0.value(Pi::ByteCount) is None);
    assert(f0.value(Pi::ArticleCount) is None);
    crate::diag::law_diagnostic_bytes_round_trip(diag);
    law_set_keeps_canonical_order(
        f0.params,
        crate::fpdu::ParamV::Pi { pi: Pi::Diag, value: diag.spec_bytes() },
    );
}

/// Counters that a FPDU carries, behind those of its other parameters.
proof fn lemma_counts_read(f: FpduV, bytes: Option<u64>, articles: Option<u64>)
    requires
        canonical(f.params),
        f.value(Pi::ByteCount) is None,
        f.value(Pi::ArticleCount) is None,
    ensures
        ({
            let g = f.with_opt_number(Pi::ByteCount, bytes).with_opt_number(
                Pi::ArticleCount,
                articles,
            );
            &&& g.kind == f.kind
            &&& g.number(Pi::ByteCount) == bytes
            &&& g.number(Pi::ArticleCount) == articles
            &&& g.value(Pi::Diag) == f.value(Pi::Diag)
        }),
{
    let g = f.with_opt_number(Pi::ByteCount, bytes);
    if let Some(n) = bytes {
        let v = num_bytes(n as nat);
        law_get_after_set(f, Pi::ByteCount, v);
        law_number_round_trip(n as nat);
        law_set_leaves_other_parameters(f, Pi::ByteCount, v, Pi::ArticleCount);
        law_set_leaves_other_parameters(f, Pi::ByteCount, v, Pi::Diag);
        law_set_keeps_canonical_order(
            f.params,
            crate::fpdu::ParamV::Pi { pi: Pi::ByteCount, value: v },
        );
    }
    if let Some(n) = articles {
        let v = num_bytes(n as nat);
        law_get_after_set(g, Pi::ArticleCount, v);
        law_number_round_trip(n as nat);
        law_set_leaves_other_parameters(g, Pi::ArticleCount, v, Pi::ByteCount);
        law_set_leaves_other_parameters(g, Pi::ArticleCount, v, Pi::Diag);
    }
}

proof fn lemma_point_read(id_dst: u8, n: u32)
    ensures
        FpduV::between(FpduKind::Read, id_dst, 0).with_number(
            Pi::RestartPoint,
            n as nat,
        ).number32(Pi::RestartPoint) == Some(n),
{
    law_get_after_set(FpduV::between(FpduKind::Read, id_dst, 0), Pi::RestartPoint, num_bytes(n as nat));
    law_number_round_trip(n as nat);
}

// ---- where a transfer resumes ----

/// A transfer is what it was asked to be: it goes the way that was asked for, announces a restart
/// exactly where it has a checkpoint to restart from, and begins with nothing moved and nothing
/// gone wrong.
pub proof fn law_transfers_begin_as_asked(
    max_entity: u16,
    file: FileSpecV,
    restart: Option<Checkpoint>,
    sending: bool,
)
    ensures
        ({
            let t = FileTransferV::starting(max_entity, file, restart, sending);
            &&& t.sending == sending && t.restart == restart && t.stage == Stage::Select
            &&& t.file.restarted == (restart is Some)
            &&& t.file.max_entity_size == t.max_entity
            &&& file.max_entity_size > 0 ==> t.max_entity == file.max_entity_size
            &&& file.max_entity_size == 0 ==> t.max_entity == max_entity
            &&& t.file == FileSpecV {
                restarted: t.file.restarted,
                max_entity_size: t.file.max_entity_size,
                ..file
            }
            &&& t.start == Checkpoint { sync: 0, file_offset: 0, data_bytes: 0, articles: 0 }
            &&& t.diag == Diagnostic { kind: 0, code: 0 }
            &&& t.data.data_bytes == 0 && t.data.articles == 0
        }),
{
}

/// An interrupted read resumes at its checkpoint: behind the ACK(ORF) the transfer starts from the
/// checkpoint that it was given, where the store holds it, and asks for exactly that point. Behind
/// the ACK(READ) it still starts there, and the checkpoints are kept.
pub proof fn law_reads_resume_at_their_checkpoint(
    t: FileTransferV,
    ack: FpduV,
    ack_read: FpduV,
    wanted: Compression,
    store: CheckpointsV,
    cp: Checkpoint,
    peer_id: u8,
)
    requires
        t.stage == Stage::Open,
        !t.sending,
        t.restart == Some(cp),
        cp.sync != 0,
        store.points.contains_key(cp.sync),
        store.points[cp.sync] == cp,
    ensures
        t.answered(Ok(ack), wanted, store) matches Ok(u) && {
            &&& u.stage == Stage::Start
            &&& u.start == cp
            &&& u.checkpoints_behind(store) == store
            &&& u.request(peer_id, wanted) matches Some(q) && q.fpdu.kind == FpduKind::Read
                && q.fpdu.number32(Pi::RestartPoint) == Some(cp.sync) && q.fpdu.id_dst == peer_id
            &&& u.answered(Ok(ack_read), wanted, store) matches Ok(v) && v.stage == Stage::Data
                && v.start == cp && v.checkpoints_behind(store) == store
        },
{
    lemma_point_read(peer_id, cp.sync);
}

/// A read with nothing to resume starts at the beginning of the file, asks for point 0, and forgets
/// the checkpoints of an earlier one.
pub proof fn law_fresh_reads_start_at_the_beginning(
    t: FileTransferV,
    ack: FpduV,
    ack_read: FpduV,
    wanted: Compression,
    store: CheckpointsV,
    peer_id: u8,
)
    requires
        t.stage == Stage::Open,
        !t.sending,
        t.restart is None,
    ensures
        t.answered(Ok(ack), wanted, store) matches Ok(u) && {
            &&& u.stage == Stage::Start
            &&& u.start == Checkpoint { sync: 0, file_offset: 0, data_bytes: 0, articles: 0 }
            &&& u.request(peer_id, wanted) matches Some(q) && q.fpdu.kind == FpduKind::Read
                && q.fpdu.number32(Pi::RestartPoint) == Some(0u32)
            &&& u.answered(Ok(ack_read), wanted, store) matches Ok(v) && v.stage == Stage::Data
                && v.start == u.start && v.checkpoints_behind(store).points.dom().is_empty()
                && v.checkpoints_behind(store).acknowledged == 0
        },
{
    lemma_point_read(peer_id, 0);
}

/// A read whose checkpoint the store does not hold is not started, from nowhere else either.
pub proof fn law_unknown_reads_are_not_started(
    t: FileTransferV,
    ack: FpduV,
    wanted: Compression,
    store: CheckpointsV,
    cp: Checkpoint,
)
    requires
        t.stage == Stage::Open,
        !t.sending,
        t.restart == Some(cp),
        cp.sync != 0,
        !store.points.contains_key(cp.sync),
    ensures
        t.answered(Ok(ack), wanted, store) is Err,
{
}

/// A write starts where the server says: at the checkpoint of the point in the ACK(WRITE) where the
/// transfer is a restart, and else at the beginning of the file, whatever the answer says. A point
/// that the store does not hold is an error.
pub proof fn law_writes_start_where_the_server_says(
    t: FileTransferV,
    ack: FpduV,
    wanted: Compression,
    store: CheckpointsV,
    n: u32,
)
    requires
        t.stage == Stage::Start,
        t.sending,
        ack.number32(Pi::RestartPoint) == Some(n),
    ensures
        t.file.restarted && n != 0 && store.points.contains_key(n) ==> (t.answered(
            Ok(ack),
            wanted,
            store,
        ) matches Ok(u) && u.start == store.points[n] && u.stage == Stage::Data && (
        store.points[n].sync != 0 ==> u.checkpoints_behind(store) == store)),
        t.file.restarted && n != 0 && !store.points.contains_key(n) ==> t.answered(
            Ok(ack),
            wanted,
            store,
        ) is Err,
        !t.file.restarted || n == 0 ==> (t.answered(Ok(ack), wanted, store) matches Ok(u) && u.start
            == Checkpoint { sync: 0, file_offset: 0, data_bytes: 0, articles: 0 } && u.stage
            == Stage::Data && u.checkpoints_behind(store).points.dom().is_empty()),
{
}

// ---- when a transfer is complete ----

/// A refused closing request leaves its diagnostic, and an accepted one leaves what was there. The
/// closing phase goes on with the next request either way; any other failure ends it.
pub proof fn law_refused_closings_are_remembered(
    t: FileTransferV,
    wanted: Compression,
    store: CheckpointsV,
    kind: FpduKind,
    diag: Diagnostic,
    text: Option<Seq<char>>,
    ack: FpduV,
    other: SessionErrorV,
)
    requires
        t.stage == Stage::End || t.stage == Stage::Close || t.stage == Stage::Deselect,
    ensures
        ({
            let next = match t.stage {
                Stage::End => Stage::Close,
                Stage::Close => Stage::Deselect,
                _ => Stage::Done,
            };
            &&& t.answered(Err(SessionErrorV::Refused(kind, diag, text)), wanted, store) matches Ok(
                u,
            ) && u == FileTransferV { stage: next, diag, ..t }
            &&& t.answered(Ok(ack), wanted, store) matches Ok(u) ==> u == FileTransferV {
                stage: next,
                ..t
            }
            &&& other !is Refused ==> t.answered(Err(other), wanted, store) == Err::<
                FileTransferV,
                SessionErrorV,
            >(other)
        }),
{
}

/// Answers to the requests of the closing phase.
pub type Answers = Seq<Result<FpduV, SessionErrorV>>;

/// A transfer behind the answers to its requests, one after the other; `None` where one of them
/// ends it.
pub open spec fn answered_all(
    t: FileTransferV,
    answers: Answers,
    wanted: Compression,
    store: CheckpointsV,
) -> Option<FileTransferV>
    decreases answers.len(),
{
    if answers.len() == 0 {
        Some(t)
    } else {
        match answered_all(t, answers.drop_last(), wanted, store) {
            Some(u) => match u.answered(answers.last(), wanted, store) {
                Ok(v) => Some(v),
                Err(_) => None,
            },
            None => None,
        }
    }
}

/// Whether a transfer, at its end, counts as complete.
pub open spec fn complete(t: FileTransferV) -> bool {
    t.data.end == DataEnd::Completed && t.diag == Diagnostic { kind: 0, code: 0 }
}

proof fn lemma_closing(
    t: FileTransferV,
    answers: Answers,
    wanted: Compression,
    store: CheckpointsV,
)
    requires
        t.stage == Stage::End || t.stage == Stage::Close,
        answers.len() <= if t.stage == Stage::End {
            3int
        } else {
            2
        },
        answered_all(t, answers, wanted, store) is Some,
        forall|i: int|
            0 <= i < answers.len() ==> ((#[trigger] answers[i]) matches Err(
                SessionErrorV::Refused(_, d, _),
            ) ==> d != (Diagnostic { kind: 0, code: 0 })),
    ensures
        ({
            let u = answered_all(t, answers, wanted, store)->0;
            &&& u.data == t.data
            &&& crate::requester::stage_rank(u.stage) == crate::requester::stage_rank(t.stage)
                + answers.len()
            &&& u.diag == (Diagnostic { kind: 0, code: 0 }) <==> t.diag == (Diagnostic {
                kind: 0,
                code: 0,
            }) && forall|i: int| 0 <= i < answers.len() ==> (#[trigger] answers[i]) is Ok
        }),
    decreases answers.len(),
{
    if answers.len() > 0 {
        let front = answers.drop_last();
        assert forall|i: int| 0 <= i < front.len() implies ((#[trigger] front[i]) matches Err(
            SessionErrorV::Refused(_, d, _),
        ) ==> d != (Diagnostic { kind: 0, code: 0 })) by {
            assert(front[i] == answers[i]);
        }
        lemma_closing(t, front, wanted, store);
        let v = answered_all(t, front, wanted, store)->0;
        let u = answered_all(t, answers, wanted, store)->0;
        assert(u == v.answered(answers.last(), wanted, store)->Ok_0);
        assert(v.stage == Stage::End || v.stage == Stage::Close || v.stage == Stage::Deselect);
        if answers.last() is Ok {
            assert(u.diag == v.diag);
            if forall|i: int| 0 <= i < front.len() ==> (#[trigger] front[i]) is Ok {
                assert forall|i: int| 0 <= i < answers.len() implies (
                #[trigger] answers[i]) is Ok by {
                    if i < front.len() {
                        assert(front[i] == answers[i]);
                    }
                }
            }
            if forall|i: int| 0 <= i < answers.len() ==> (#[trigger] answers[i]) is Ok {
                assert forall|i: int| 0 <= i < front.len() implies (#[trigger] front[i]) is Ok by {
                    assert(front[i] == answers[i]);
                }
            }
        } else {
            assert(answers[answers.len() - 1] is Err);
        }
    }
}

/// A transfer is complete exactly where its data phase completed and every request of the closing
/// phase was accepted: no refusal is forgotten, and an interrupted transfer is never complete.
pub proof fn law_complete_means_accepted(
    t: FileTransferV,
    data: DataResult,
    answers: Answers,
    wanted: Compression,
    store: CheckpointsV,
)
    requires
        t.stage == Stage::Data,
        t.diag == (Diagnostic { kind: 0, code: 0 }),
        answered_all(t.with_data(data), answers, wanted, store) is Some,
        answers.len() <= if data.end is Interrupted {
            2int
        } else {
            3
        },
        forall|i: int|
            0 <= i < answers.len() ==> ((#[trigger] answers[i]) matches Err(
                SessionErrorV::Refused(_, d, _),
            ) ==> d != (Diagnostic { kind: 0, code: 0 })),
    ensures
        ({
            let u = answered_all(t.with_data(data), answers, wanted, store)->0;
            &&& complete(u) <==> data.end == DataEnd::Completed && forall|i: int|
                0 <= i < answers.len() ==> (#[trigger] answers[i]) is Ok
            &&& u.data == data
            &&& u.start == t.start && u.transfer_id == t.transfer_id && u.remote == t.remote
            &&& u.stage == Stage::Done <==> answers.len() == if data.end is Interrupted {
                2int
            } else {
                3
            }
        }),
{
    lemma_closing(t.with_data(data), answers, wanted, store);
    lemma_closing_keeps(t.with_data(data), answers, wanted, store);
}

proof fn lemma_closing_keeps(
    t: FileTransferV,
    answers: Answers,
    wanted: Compression,
    store: CheckpointsV,
)
    requires
        t.stage == Stage::End || t.stage == Stage::Close,
        answered_all(t, answers, wanted, store) is Some,
    ensures
        ({
            let u = answered_all(t, answers, wanted, store)->0;
            &&& u.start == t.start && u.transfer_id == t.transfer_id && u.remote == t.remote
            &&& u.stage == Stage::End || u.stage == Stage::Close || u.stage == Stage::Deselect
                || u.stage == Stage::Done
        }),
    decreases answers.len(),
{
    if answers.len() > 0 {
        lemma_closing_keeps(t, answers.drop_last(), wanted, store);
    }
}

/// Behind the data phase a transfer ends with its result: an interrupted one is closed at once,
/// any other one compares its counters first.
pub proof fn law_the_data_phase_is_followed_up(t: FileTransferV, data: DataResult)
    ensures
        t.with_data(data).data == data,
        t.with_data(data).stage == if data.end is Interrupted {
            Stage::Close
        } else {
            Stage::End
        },
        t.with_data(data) == (FileTransferV { data, stage: t.with_data(data).stage, ..t }),
{
}

/// An answer is a refusal exactly where it carries a diagnostic other than success, and the refusal
/// names the request and that diagnostic.
pub proof fn law_refusals_carry_their_diagnostic(
    st: State,
    request: FpduKind,
    f: FpduV,
    diag: Diagnostic,
)
    requires
        f.diagnostic() == Some(diag),
        f.kind.spec_is_ack(),
        crate::exchange::receive_fault(st, f) is None,
        !crate::exchange::dropped(st, f),
    ensures
        diag.kind == 0 && diag.code == 0 ==> answer_step(st, request, f.kind, f) == Ok::<
            Option<FpduV>,
            SessionErrorV,
        >(Some(f)),
        !(diag.kind == 0 && diag.code == 0) ==> (answer_step(st, request, f.kind, f) matches Err(
            SessionErrorV::Refused(k, d, _),
        ) && k == request && d == diag),
{
}

// ---- counters ----

/// A transfer tells its peer what it counted: the TRANS.END carries the bytes and the articles of
/// the data phase.
pub proof fn law_counters_are_told(t: FileTransferV, peer_id: u8, wanted: Compression)
    requires
        t.stage == Stage::End,
    ensures
        t.request(peer_id, wanted) matches Some(q) && q.fpdu.kind == FpduKind::TransEnd
            && q.fpdu.number(Pi::ByteCount) == Some(t.data.data_bytes) && q.fpdu.number(
            Pi::ArticleCount,
        ) == Some(t.data.articles) && q.fpdu.id_dst == peer_id,
{
    let f = FpduV::between(FpduKind::TransEnd, peer_id, 0);
    assert(f.value(Pi::ByteCount) is None && f.value(Pi::ArticleCount) is None);
    lemma_counts_read(f, Some(t.data.data_bytes), Some(t.data.articles));
}

/// The counters of both ends have to agree: an ACK(TRANS.END) is taken exactly where each counter
/// that it carries is the one of this side.
pub proof fn law_counters_have_to_agree(
    t: FileTransferV,
    peer_id: u8,
    bytes: Option<u64>,
    articles: Option<u64>,
    wanted: Compression,
    store: CheckpointsV,
)
    requires
        t.stage == Stage::End,
    ensures
        ({
            let ack = spec_ack_trans_end(
                peer_id,
                Diagnostic { kind: 0, code: 0 },
                bytes,
                articles,
            );
            let agreed = (bytes is None || bytes == Some(t.data.data_bytes)) && (articles is None
                || articles == Some(t.data.articles));
            &&& t.answered(Ok(ack), wanted, store) is Ok <==> agreed
            &&& !agreed ==> (t.answered(Ok(ack), wanted, store) matches Err(e) && e is Counts)
        }),
{
    let diag = Diagnostic { kind: 0, code: 0 };
    lemma_diag_read(FpduKind::AckTransEnd, peer_id, diag);
    lemma_counts_read(diag_fpdu(FpduKind::AckTransEnd, peer_id, 0, diag), bytes, articles);
}

/// The server holds the counters of a TRANS.END against its own: it answers with success and its own
/// counters where they agree, else with a diagnostic for the counters, which is also what it keeps
/// of the transfer. The end of the data that the requester announces is kept otherwise.
pub proof fn law_the_server_compares_counters(
    s: ResponderV,
    diag: Diagnostic,
    data: DataResult,
    peer_id: u8,
    bytes: Option<u64>,
    articles: Option<u64>,
)
    requires
        s.state == State::Tde07B || s.state == State::Tdl07B,
    ensures
        ({
            let f = spec_trans_end(peer_id, bytes, articles);
            let agreed = (bytes is None || bytes == Some(data.data_bytes)) && (articles is None
                || articles == Some(data.articles));
            let answer = if agreed {
                Diagnostic { kind: 0, code: 0 }
            } else {
                Diagnostic::invalid_counts()
            };
            s.close_step(diag, data, f) matches Ok((st, kept, Some(ack), over)) && {
                &&& kept == if agreed {
                    diag
                } else {
                    Diagnostic::invalid_counts()
                }
                &&& ack.kind == FpduKind::AckTransEnd && ack.id_dst == s.peer_id
                &&& ack.diagnostic() == Some(answer)
                &&& ack.number(Pi::ByteCount) == Some(data.data_bytes)
                &&& ack.number(Pi::ArticleCount) == Some(data.articles)
                &&& !over
            }
        }),
        Diagnostic::invalid_counts() != (Diagnostic { kind: 0, code: 0 }),
{
    let f0 = FpduV::between(FpduKind::TransEnd, peer_id, 0);
    let f = spec_trans_end(peer_id, bytes, articles);
    assert(f0.value(Pi::ByteCount) is None && f0.value(Pi::ArticleCount) is None);
    assert(f0.value(Pi::Diag) is None);
    lemma_counts_read(f0, bytes, articles);
    assert(f.diagnostic() is None);
    assert(!f.negative());
    let agreed = count_fault(f, data.data_bytes, data.articles) is None;
    let answer = if agreed {
        Diagnostic::ok()
    } else {
        Diagnostic::invalid_counts()
    };
    lemma_diag_read(FpduKind::AckTransEnd, s.peer_id, answer);
    lemma_counts_read(
        diag_fpdu(FpduKind::AckTransEnd, s.peer_id, 0, answer),
        Some(data.data_bytes),
        Some(data.articles),
    );
    crate::responder::law_closing_phase_ends(s, diag, data, f);
}

/// What goes wrong in the closing phase is kept: a CRF with a diagnostic other than success leaves
/// it behind, one with success changes nothing, and neither does a DESELECT. The transfer is over
/// with the DESELECT, and each request is answered with success.
pub proof fn law_the_server_keeps_what_went_wrong(
    s: ResponderV,
    diag: Diagnostic,
    data: DataResult,
    peer_id: u8,
    told: Diagnostic,
)
    ensures
        s.state == State::Of02 ==> (s.close_step(
            diag,
            data,
            diag_fpdu(FpduKind::Crf, peer_id, 0, told),
        ) matches Ok((st, kept, Some(ack), over)) && st == State::Sf03 && !over && kept == (
        if told.kind == 0 && told.code == 0 {
            diag
        } else {
            told
        }) && ack.kind == FpduKind::AckCrf && ack.diagnostic() == Some(
            Diagnostic { kind: 0, code: 0 },
        )),
        s.state == State::Sf03 ==> (s.close_step(
            diag,
            data,
            diag_fpdu(FpduKind::Deselect, peer_id, 0, told),
        ) matches Ok((st, kept, Some(ack), over)) && st == State::Cn03 && over && kept == diag
            && ack.kind == FpduKind::AckDeselect && ack.diagnostic() == Some(
            Diagnostic { kind: 0, code: 0 },
        )),
{
    lemma_diag_read(FpduKind::Crf, peer_id, told);
    lemma_diag_read(FpduKind::Deselect, peer_id, told);
    lemma_diag_read(FpduKind::AckCrf, s.peer_id, Diagnostic::ok());
    lemma_diag_read(FpduKind::AckDeselect, s.peer_id, Diagnostic::ok());
    if s.state == State::Of02 {
        crate::responder::law_closing_phase_ends(
            s,
            diag,
            data,
            diag_fpdu(FpduKind::Crf, peer_id, 0, told),
        );
    }
    if s.state == State::Sf03 {
        crate::responder::law_closing_phase_ends(
            s,
            diag,
            data,
            diag_fpdu(FpduKind::Deselect, peer_id, 0, told),
        );
    }
}

/// Between transfers the server hands every request on as what it is: a file to take, where the
/// requester may write; a file to give, where it may read; a message; the end of the session,
/// which is confirmed.
pub proof fn law_requests_are_handed_on(s: ResponderV, f: FpduV)
    requires
        s.state == State::Cn03,
        !f.negative(),
    ensures
        f.kind == FpduKind::Create && s.access.allows_write() ==> (s.indication_step(f) matches Ok(
            (_, i),
        ) && i == IndicationV::Create(FileSpecV::of(f))),
        f.kind == FpduKind::Select && s.access.allows_read() ==> (s.indication_step(f) matches Ok(
            (_, i),
        ) && i is Select && i->Select_0 == FileSpecV::of(f)),
        f.kind == FpduKind::Msg ==> (s.indication_step(f) matches Ok((_, i)) && i is Message
            && i->Message_1),
        f.kind == FpduKind::MsgDm ==> (s.indication_step(f) matches Ok((_, i)) && i is Message
            && !i->Message_1),
        f.kind == FpduKind::Release ==> (s.indication_step(f) matches Ok((_, i)) && i is Released
            && i->Released_0.kind == FpduKind::Relconf && i->Released_0.id_dst == s.peer_id
            && i->Released_0.id_src == s.conn_id),
{
}

/// Between transfers the state moves as the tables say: by the request, and, where the server answers
/// at once, by its answer. What the tables do not allow is an error. A request that the access of
/// the session does not cover is answered with the diagnostic for that.
pub proof fn law_requests_follow_the_tables(s: ResponderV, f: FpduV)
    ensures
        crate::exchange::receive_fault(s.state, f) matches Some(e) ==> s.indication_step(f) == Err::<
            (State, IndicationV),
            SessionErrorV,
        >(e),
        s.indication_step(f) matches Ok((st, i)) ==> {
            let behind = crate::exchange::state_behind(s.state, f);
            &&& i is Create || i is Select || i is Message || i is Nothing ==> st == behind
            &&& i is Refused ==> local_step(behind, LocalEvent::Reject) == Ok::<
                State,
                SessionErrorV,
            >(st)
            &&& i is Released ==> local_step(behind, LocalEvent::Accept) == Ok::<
                State,
                SessionErrorV,
            >(st)
            &&& i is Create <==> f.kind == FpduKind::Create && s.access.allows_write()
            &&& i is Select <==> f.kind == FpduKind::Select && s.access.allows_read()
            &&& i is Message <==> f.kind == FpduKind::Msg || f.kind == FpduKind::MsgDm
            &&& i is Released <==> f.kind == FpduKind::Release
            &&& i matches IndicationV::Refused(ack) ==> ack.id_dst == s.peer_id
                && ack.diagnostic() == Some(Diagnostic::select_negotiation()) && (ack.kind
                == FpduKind::AckCreate <==> f.kind == FpduKind::Create)
        },
        Diagnostic::select_negotiation() != (Diagnostic { kind: 0, code: 0 }),
{
    let d = Diagnostic::select_negotiation();
    lemma_diag_read(FpduKind::AckSelect, s.peer_id, d);
    crate::builder_laws::law_ack_create_is_read_back(
        s.peer_id,
        d,
        Some(crate::sender::point_or_zero(f.number32(Pi::TransferId))),
        0,
        None,
    );
}

// ---- what is asked for and answered ----

/// The requests of a transfer carry what is asked for: the file by its description, the compression
/// that is wanted, and success in the closing phase; each goes to the peer, and each names the
/// answer that it waits for.
pub proof fn law_requests_carry_what_is_asked_for(
    t: FileTransferV,
    peer_id: u8,
    wanted: Compression,
)
    requires
        crate::builder_laws::readable(t.file),
    ensures
        t.stage == Stage::Select && t.sending ==> (t.request(peer_id, wanted) matches Some(q)
            && q.fpdu.kind == FpduKind::Create && FileSpecV::of(q.fpdu) == t.file && q.expect
            == FpduKind::AckCreate),
        t.stage == Stage::Select && !t.sending ==> (t.request(peer_id, wanted) matches Some(q)
            && q.fpdu.kind == FpduKind::Select && FileSpecV::of(q.fpdu).file_name
            == t.file.file_name && FileSpecV::of(q.fpdu).transfer_id == t.file.transfer_id
            && FileSpecV::of(q.fpdu).restarted == t.file.restarted && FileSpecV::of(
            q.fpdu,
        ).max_entity_size == t.file.max_entity_size && q.expect == FpduKind::AckSelect
            && crate::responder::asked_attributes(q.fpdu)
            == crate::params::RequestedAttributes::all()),
        t.stage == Stage::Open ==> (t.request(peer_id, wanted) matches Some(q) && q.fpdu.kind
            == FpduKind::Orf && q.fpdu.compression() == (if wanted == Compression::Off {
            None
        } else {
            Some(wanted)
        }) && q.expect == FpduKind::AckOrf),
        t.stage == Stage::Close ==> (t.request(peer_id, wanted) matches Some(q) && q.fpdu.kind
            == FpduKind::Crf && q.fpdu.diagnostic() == Some(Diagnostic { kind: 0, code: 0 })
            && q.expect == FpduKind::AckCrf),
        t.stage == Stage::Deselect ==> (t.request(peer_id, wanted) matches Some(q) && q.fpdu.kind
            == FpduKind::Deselect && q.fpdu.diagnostic() == Some(Diagnostic { kind: 0, code: 0 })
            && q.expect == FpduKind::AckDeselect),
        t.request(peer_id, wanted) is None <==> t.stage == Stage::Data || t.stage == Stage::Done,
        t.request(peer_id, wanted) is Some <==> t.asks(),
{
    let all = crate::params::RequestedAttributes::all();
    if t.stage == Stage::Select {
        crate::builder_laws::law_create_is_read_back(t.file, peer_id);
        crate::builder_laws::law_select_is_read_back(t.file, peer_id, all);
    }
    if t.stage == Stage::Open {
        let f = FpduV::between(FpduKind::Orf, peer_id, 0);
        crate::params::law_compression_round_trip(wanted);
        law_get_after_set(f, Pi::Compression, wanted.spec_bytes());
        assert(f.value(Pi::Compression) is None);
    }
    lemma_diag_read(FpduKind::Crf, peer_id, Diagnostic::ok());
    lemma_diag_read(FpduKind::Deselect, peer_id, Diagnostic::ok());
}

/// The answer to the selection settles the transfer: its identifier is the one that the server
/// gives, else the one that was asked for; its entities are as large as both ends allow; and what
/// the server says of the file is kept.
pub proof fn law_the_selection_settles_the_transfer(
    t: FileTransferV,
    ack: FpduV,
    wanted: Compression,
    store: CheckpointsV,
)
    requires
        t.stage == Stage::Select,
    ensures
        t.answered(Ok(ack), wanted, store) matches Ok(u) && {
            &&& u.stage == Stage::Open
            &&& ack.number32(Pi::TransferId) matches Some(n) ==> u.transfer_id == n
            &&& ack.number32(Pi::TransferId) is None ==> u.transfer_id == t.file.transfer_id
            &&& ack.max_entity_size() is None ==> u.max_entity == t.file.max_entity_size
            &&& ack.max_entity_size() matches Some(m) ==> u.max_entity <= m && u.max_entity
                <= t.file.max_entity_size && (u.max_entity == m || u.max_entity
                == t.file.max_entity_size)
            &&& u.remote == FileSpecV::of(ack)
            &&& u.start == t.start && u.diag == t.diag && u.data == t.data
        },
{
}

/// The answer to the opening settles the compression, whichever way the file goes: what was wanted
/// and what the server offers, and none where it offers none.
pub proof fn law_the_opening_settles_the_compression(
    t: FileTransferV,
    ack: FpduV,
    wanted: Compression,
    store: CheckpointsV,
)
    requires
        t.stage == Stage::Open,
        t.sending || t.restart is None,
    ensures
        t.answered(Ok(ack), wanted, store) matches Ok(u) && {
            &&& u.stage == Stage::Start
            &&& ack.compression() matches Some(c) ==> u.compression == Compression::spec_negotiate(
                wanted,
                c,
            )
            &&& ack.compression() is None ==> u.compression == Compression::Off
            &&& u.transfer_id == t.transfer_id && u.max_entity == t.max_entity && u.remote
                == t.remote && u.diag == t.diag
        },
{
}

/// A refusal before the data phase ends the transfer with that refusal, and leaves the checkpoints
/// for another try.
pub proof fn law_refused_starts_end_the_transfer(
    t: FileTransferV,
    e: SessionErrorV,
    wanted: Compression,
    store: CheckpointsV,
)
    requires
        t.stage == Stage::Select || t.stage == Stage::Open || t.stage == Stage::Start,
    ensures
        t.answered(Err(e), wanted, store) == Err::<FileTransferV, SessionErrorV>(e),
{
}

} // verus!
