//! What the two ends of the data phase owe each other: which points an acknowledgement covers, how
//! many may be under way, what goes out on the wire, and how the phase ends.

use crate::article::{fed, PackerV, ReassemblyError};
use crate::builder::{diag_fpdu, spec_ack_resyn, spec_ack_syn, spec_idt, spec_resyn, spec_syn};
use crate::checkpoint::{Checkpoint, CheckpointsV};
use crate::datapath::{local_step, received_step, DataEnd, DataParams, OutboxV};
use crate::diag::Diagnostic;
use crate::fpdu::{law_number_round_trip, num_bytes, FpduV};
use crate::fpdu_laws::law_get_after_set;
use crate::frame::{entity_of, framed};
use crate::io::Position;
use crate::kind::FpduKind;
use crate::params::EndCode;
use crate::pi::Pi;
use crate::receiver::{ReceiveStepV, ReceiverV};
use crate::sender::{still_unacked, SendStepV, SenderV};
use crate::state::{LocalEvent, State};
use crate::stream_laws::article_fpdus;
use crate::transfer_laws::{held, law_outbox_loses_nothing};
use vstd::prelude::*;

verus! {

// ---- FPDUs of the data phase, read back ----

proof fn lemma_diag_read(kind: FpduKind, id_dst: u8, diag: Diagnostic)
    ensures
        diag_fpdu(kind, id_dst, 0, diag).value(Pi::Diag) == Some(diag.spec_bytes()),
        diag_fpdu(kind, id_dst, 0, diag).diagnostic() == Some(diag),
        diag_fpdu(kind, id_dst, 0, diag).kind == kind,
        crate::fpdu::canonical(diag_fpdu(kind, id_dst, 0, diag).params),
{
    let f0 = FpduV::between(kind, id_dst, 0);
    law_get_after_set(f0, Pi::Diag, diag.spec_bytes());
    crate::diag::law_diagnostic_bytes_round_trip(diag);
    crate::fpdu_laws::law_set_keeps_canonical_order(
        f0.params,
        crate::fpdu::ParamV::Pi { pi: Pi::Diag, value: diag.spec_bytes() },
    );
}

proof fn lemma_number_read(kind: FpduKind, id_dst: u8, pi: Pi, n: u32)
    ensures
        FpduV::between(kind, id_dst, 0).with_number(pi, n as nat).number32(pi) == Some(n),
        FpduV::between(kind, id_dst, 0).with_number(pi, n as nat).kind == kind,
{
    law_get_after_set(FpduV::between(kind, id_dst, 0), pi, num_bytes(n as nat));
    law_number_round_trip(n as nat);
}

proof fn lemma_resyn_read(id_dst: u8, diag: Diagnostic, n: u32)
    ensures
        spec_resyn(id_dst, diag, n).number32(Pi::RestartPoint) == Some(n),
        spec_resyn(id_dst, diag, n).kind == FpduKind::Resyn,
{
    let f0 = diag_fpdu(FpduKind::Resyn, id_dst, 0, diag);
    lemma_diag_read(FpduKind::Resyn, id_dst, diag);
    law_get_after_set(f0, Pi::RestartPoint, num_bytes(n as nat));
    law_number_round_trip(n as nat);
}

proof fn lemma_idt_read(id_dst: u8, diag: Diagnostic, code: u8)
    ensures
        ({
            let f = spec_idt(id_dst, diag, EndCode::from_code(code));
            &&& f.kind == FpduKind::Idt
            &&& f.end_code() == Some(EndCode::from_code(code))
            &&& f.diagnostic() == Some(diag)
        }),
{
    crate::builder_laws::law_interruptions_are_valid(id_dst, diag, code);
}

// ---- acknowledgements ----

/// Whether synchronisation points stand in ascending order.
pub open spec fn in_order(points: Seq<u32>) -> bool {
    forall|i: int, j: int| 0 <= i < j < points.len() ==> points[i] <= points[j]
}

proof fn lemma_all_above(points: Seq<u32>, n: u32)
    requires
        forall|i: int| 0 <= i < points.len() ==> points[i] > n,
    ensures
        points.filter(|p: u32| p > n) == points,
    decreases points.len(),
{
    reveal(Seq::filter);
    if points.len() > 0 {
        lemma_all_above(points.drop_last(), n);
        assert(points.drop_last().push(points.last()) =~= points);
    }
}

proof fn lemma_later_points_stay(points: Seq<u32>, n: u32)
    requires
        in_order(points),
    ensures
        still_unacked(points, n) == points.filter(|p: u32| p > n),
    decreases points.len(),
{
    let above = |p: u32| p > n;
    if points.len() > 0 && points[0] <= n {
        let head = points.take(1);
        let tail = points.skip(1);
        assert(head + tail =~= points);
        assert forall|i: int, j: int| 0 <= i < j < tail.len() implies tail[i] <= tail[j] by {
            assert(tail[i] == points[i + 1] && tail[j] == points[j + 1]);
        }
        lemma_later_points_stay(tail, n);
        Seq::filter_distributes_over_add(head, tail, above);
        assert(head.filter(above) =~= Seq::empty()) by {
            reveal(Seq::filter);
            assert(head.drop_last() =~= Seq::<u32>::empty());
            assert(head.drop_last().filter(above) =~= Seq::<u32>::empty());
            assert(head.last() == points[0]);
        }
        assert(Seq::<u32>::empty() + tail.filter(above) =~= tail.filter(above));
    } else {
        assert forall|i: int| 0 <= i < points.len() implies points[i] > n by {
            if i > 0 {
                assert(points[0] <= points[i]);
            }
        }
        lemma_all_above(points, n);
    }
}

/// An acknowledgement covers its point and the earlier ones, and no other: of points in ascending
/// order exactly those beyond it still wait, in their order. Nothing else of the sender changes,
/// the checkpoints before it are forgotten, and the sender goes on.
pub proof fn law_later_points_still_wait(
    s: SenderV,
    st: State,
    store: CheckpointsV,
    id_dst: u8,
    n: u32,
)
    requires
        in_order(s.unacked),
        received_step(st, spec_ack_syn(id_dst, n)) is Ok,
    ensures
        s.fpdu_step(st, spec_ack_syn(id_dst, n), store) matches Ok((t, st1, cps, step)) && {
            &&& t.unacked == s.unacked.filter(|p: u32| p > n)
            &&& t == SenderV { unacked: t.unacked, ..s }
            &&& Ok::<State, crate::error::SessionErrorV>(st1) == received_step(
                st,
                spec_ack_syn(id_dst, n),
            )
            &&& step == SendStepV::Continue
            &&& cps.acknowledged >= n && cps.acknowledged >= store.acknowledged
            &&& cps.acknowledged == n || cps.acknowledged == store.acknowledged
            &&& forall|k: u32| #[trigger]
                cps.points.contains_key(k) <==> store.points.contains_key(k) && k
                    >= cps.acknowledged
            &&& forall|k: u32| #[trigger]
                cps.points.contains_key(k) ==> cps.points[k] == store.points[k]
        },
{
    lemma_number_read(FpduKind::AckSyn, id_dst, Pi::SyncNumber, n);
    lemma_later_points_stay(s.unacked, n);
}

/// Whether the points that wait are exactly those sent behind point `acked`.
pub open spec fn under_way(s: SenderV, acked: u32) -> bool {
    &&& acked <= s.sync_no
    &&& s.unacked.len() == s.sync_no - acked
    &&& forall|i: int| 0 <= i < s.unacked.len() ==> s.unacked[i] == acked + 1 + i
}

/// A sender counts its points from where it starts, or goes back to.
pub proof fn law_points_are_counted_from_the_start(
    s: SenderV,
    params: DataParams,
    cp: Checkpoint,
)
    ensures
        under_way(SenderV::starting(params, cp), cp.sync),
        SenderV::starting(params, cp).sync_no == cp.sync,
        under_way(s.rewound(cp), cp.sync),
        s.rewound(cp).sync_no == cp.sync,
{
}

/// Every point that is sent is counted until it, or a later one, is acknowledged. The sender holds
/// back exactly where as many points are under way as the window has room for, and so there are
/// never more.
pub proof fn law_points_under_way_fit_the_window(
    s: SenderV,
    acked: u32,
    st: State,
    article: Seq<u8>,
    offset: u64,
)
    requires
        s.params.sync.window > 0,
        s.sync_no < u32::MAX,
        under_way(s, acked),
    ensures
        s.window_full() <==> s.sync_no - acked >= s.params.sync.window,
        s.article_step(st, article, offset) matches Ok((t, _, cp)) ==> {
            &&& under_way(t, acked)
            &&& t.sync_no == s.sync_no + if cp is Some {
                1int
            } else {
                0
            }
            &&& !s.window_full() ==> t.sync_no - acked <= s.params.sync.window
        },
{
}

/// An acknowledged point moves the start of the window to it, never back.
pub proof fn law_acknowledged_points_leave_the_window(
    s: SenderV,
    acked: u32,
    st: State,
    store: CheckpointsV,
    id_dst: u8,
    n: u32,
)
    requires
        under_way(s, acked),
        n <= s.sync_no,
        received_step(st, spec_ack_syn(id_dst, n)) is Ok,
    ensures
        s.fpdu_step(st, spec_ack_syn(id_dst, n), store) matches Ok((t, _, _, _)) && under_way(
            t,
            if n > acked {
                n
            } else {
                acked
            },
        ) && t.sync_no == s.sync_no,
{
    lemma_number_read(FpduKind::AckSyn, id_dst, Pi::SyncNumber, n);
    lemma_counted(s.unacked, acked, n);
}

proof fn lemma_counted(points: Seq<u32>, acked: u32, n: u32)
    requires
        forall|i: int| 0 <= i < points.len() ==> points[i] == acked + 1 + i,
        n <= acked + points.len(),
    ensures
        ({
            let from = if n > acked {
                n
            } else {
                acked
            };
            let left = still_unacked(points, n);
            &&& left.len() == acked + points.len() - from
            &&& forall|i: int| 0 <= i < left.len() ==> left[i] == from + 1 + i
        }),
    decreases points.len(),
{
    if points.len() > 0 && points[0] <= n {
        assert(points[0] == acked + 1);
        assert forall|i: int| 0 <= i < points.skip(1).len() implies points.skip(1)[i] == points[0]
            + 1 + i by {
            assert(points.skip(1)[i] == points[i + 1]);
        }
        lemma_counted(points.skip(1), points[0], n);
    }
}

// ---- what goes out ----

proof fn lemma_queued_all(o: OutboxV, fs: Seq<FpduV>)
    ensures
        o.queued_all(fs) matches Ok(p) ==> held(p) == held(o) + entity_of(fs, o.entity.crc)
            && p.entity.crc == o.entity.crc,
    decreases fs.len(),
{
    if fs.len() == 0 {
        assert(held(o) + entity_of(fs, o.entity.crc) =~= held(o));
    } else {
        lemma_queued_all(o, fs.drop_last());
        if let Ok(p) = o.queued_all(fs.drop_last()) {
            law_outbox_loses_nothing(p, fs.last());
            assert(held(o) + entity_of(fs.drop_last(), o.entity.crc) + framed(
                fs.last().encoding(),
                o.entity.crc,
            ) =~= held(o) + entity_of(fs, o.entity.crc));
        }
    }
}

proof fn lemma_entity_joined(a: Seq<FpduV>, b: Seq<FpduV>, crc: bool)
    ensures
        entity_of(a + b, crc) == entity_of(a, crc) + entity_of(b, crc),
    decreases b.len(),
{
    if b.len() == 0 {
        assert(a + b =~= a);
        assert(entity_of(a, crc) + entity_of(b, crc) =~= entity_of(a, crc));
    } else {
        lemma_entity_joined(a, b.drop_last(), crc);
        assert((a + b).drop_last() =~= a + b.drop_last());
        assert(entity_of(a + b, crc) =~= entity_of(a, crc) + entity_of(b, crc));
    }
}

proof fn lemma_entity_one(f: FpduV, crc: bool)
    ensures
        entity_of(seq![f], crc) == framed(f.encoding(), crc),
{
    assert(seq![f].drop_last() =~= Seq::<FpduV>::empty());
    assert(entity_of(seq![f].drop_last(), crc) =~= Seq::<u8>::empty());
    assert(Seq::<u8>::empty() + framed(f.encoding(), crc) =~= framed(f.encoding(), crc));
}

proof fn lemma_sent_out(s: SenderV, wire: Seq<u8>, offset: u64)
    ensures
        s.sent(wire, offset) matches Ok(t) ==> held(t.out) == held(s.out) + entity_of(
            s.packer.pushed_out(wire),
            s.out.entity.crc,
        ),
{
    lemma_queued_all(s.out, s.packer.pushed_out(wire));
    if let Ok(o) = s.out.queued_all(s.packer.pushed_out(wire)) {
        law_outbox_loses_nothing(o, FpduV::empty(FpduKind::Dtf));
    }
}

/// What an article puts on the wire: behind everything that was there, exactly its FPDUs in their
/// order, and before them, where a synchronisation point is due, the articles that waited and the
/// SYN with its number.
pub proof fn law_articles_go_out(s: SenderV, st: State, article: Seq<u8>, offset: u64)
    ensures
        s.article_step(st, article, offset) matches Ok((t, _, _)) ==> held(t.out) == held(s.out)
            + entity_of(article_fpdus(s, article), s.out.entity.crc),
{
    let wire = crate::sender::wire_form(s.compressor, article);
    let s1 = SenderV { compressor: crate::sender::wire_behind(s.compressor, article), ..s };
    let crc = s.out.entity.crc;
    if s.article_step(st, article, offset) is Ok {
        if !s.sync_due(wire.len()) {
            lemma_sent_out(s1, wire, offset);
        } else {
            let f = spec_syn(s.params.peer_id, crate::sender::next_point(s.sync_no));
            let flushed = s.packer.flushed();
            let s2 = s1.synced()->Ok_0;
            let o1 = s.out.queued_all(flushed)->Ok_0;
            lemma_queued_all(s.out, flushed);
            law_outbox_loses_nothing(o1, f);
            let o2 = o1.queued(f)->Ok_0;
            law_outbox_loses_nothing(o2, f);
            let again = crate::sender::wire_form(s2.compressor, article);
            let s3 = SenderV {
                compressor: crate::sender::wire_behind(s2.compressor, article),
                ..s2
            };
            assert(s2.out.entity.crc == crc);
            lemma_sent_out(s3, again, offset);
            let out = s2.packer.pushed_out(again);
            lemma_entity_joined(flushed, seq![f], crc);
            lemma_entity_one(f, crc);
            lemma_entity_joined(flushed + seq![f], out, crc);
            assert(article_fpdus(s, article) == flushed + seq![f] + out);
            assert(held(s.out) + entity_of(flushed, crc) + framed(f.encoding(), crc) + entity_of(
                out,
                crc,
            ) =~= held(s.out) + entity_of(article_fpdus(s, article), crc));
        }
    }
}

/// At the end of a file everything that waited goes out, and behind it the end of the data with a
/// success diagnostic. Nothing is left in the sender, and its counters stay as they are.
pub proof fn law_the_end_goes_out(s: SenderV, st: State)
    ensures
        s.end_step(st) matches Ok((t, st1)) ==> {
            let end = diag_fpdu(
                FpduKind::DtfEnd,
                s.params.peer_id,
                0,
                Diagnostic { kind: 0, code: 0 },
            );
            &&& held(t.out) == held(s.out) + entity_of(
                s.packer.flushed().push(end),
                s.out.entity.crc,
            )
            &&& t.out.entity.bytes.len() == 0
            &&& t.packer.pending.len() == 0
            &&& t.data_bytes == s.data_bytes && t.articles == s.articles && t.sync_no == s.sync_no
            &&& Ok::<State, crate::error::SessionErrorV>(st1) == local_step(st, LocalEvent::DataEnd)
        },
{
    if s.end_step(st) is Ok {
        let end = diag_fpdu(FpduKind::DtfEnd, s.params.peer_id, 0, Diagnostic::ok());
        let flushed = s.packer.flushed();
        let crc = s.out.entity.crc;
        lemma_queued_all(s.out, flushed);
        let o1 = s.out.queued_all(flushed)->Ok_0;
        law_outbox_loses_nothing(o1, end);
        law_outbox_loses_nothing(o1.queued(end)->Ok_0, end);
        assert(flushed.push(end).drop_last() =~= flushed);
        assert(held(s.out) + entity_of(flushed, crc) + framed(end.encoding(), crc) =~= held(s.out)
            + entity_of(flushed.push(end), crc));
    }
}

/// Both counters grow with every article: by one, and by the bytes of its form on the wire.
pub proof fn law_articles_are_counted(s: SenderV, st: State, article: Seq<u8>, offset: u64)
    requires
        s.compressor is None,
        s.articles < u64::MAX,
        s.data_bytes + article.len() <= u64::MAX,
    ensures
        s.article_step(st, article, offset) matches Ok((t, _, _)) ==> t.articles == s.articles + 1
            && t.data_bytes == s.data_bytes + article.len() && t.offset == offset,
{
}

// ---- the end of the data phase ----

/// The data phase of a receiver ends as its sender says: complete where the end of the data carries
/// success, else with the very diagnostic it carries. Nothing of the receiver changes.
pub proof fn law_data_ends_as_the_sender_says(
    r: ReceiverV,
    st: State,
    store: CheckpointsV,
    id_dst: u8,
    diag: Diagnostic,
)
    requires
        received_step(st, diag_fpdu(FpduKind::DtfEnd, id_dst, 0, diag)) is Ok,
    ensures
        ({
            let f = diag_fpdu(FpduKind::DtfEnd, id_dst, 0, diag);
            let end = if diag.kind == 0 && diag.code == 0 {
                DataEnd::Completed
            } else {
                DataEnd::EndedWithError(diag)
            };
            r.fpdu_step(st, f, store) == Ok::<_, crate::error::SessionErrorV>(
                (r, received_step(st, f)->Ok_0, ReceiveStepV::Ended(end)),
            )
        }),
{
    lemma_diag_read(FpduKind::DtfEnd, id_dst, diag);
}

/// Nothing but the end of the data ends the data phase of a receiver without an interruption, and
/// only one that carries no diagnostic, or that of success, completes it.
pub proof fn law_only_a_clean_end_completes(
    r: ReceiverV,
    st: State,
    store: CheckpointsV,
    f: FpduV,
)
    ensures
        r.fpdu_step(st, f, store) matches Ok((_, _, ReceiveStepV::Ended(end))) ==> {
            &&& f.kind == FpduKind::DtfEnd
            &&& end !is Interrupted
            &&& end is Completed <==> (f.diagnostic() is None || f.diagnostic() == Some(
                Diagnostic { kind: 0, code: 0 },
            ))
            &&& end matches DataEnd::EndedWithError(d) ==> f.diagnostic() == Some(d)
        },
        f.kind == FpduKind::DtfEnd && received_step(st, f) is Ok ==> (r.fpdu_step(
            st,
            f,
            store,
        ) matches Ok((_, _, step)) && step is Ended),
{
}

/// An interruption reaches the other end as it was sent: with its diagnostic and its code, as one
/// of the peer, and is answered with an ACK(IDT). What the sender had begun is dropped, what was
/// ready still goes out.
pub proof fn law_interruptions_are_understood(
    s: SenderV,
    r: ReceiverV,
    st: State,
    store: CheckpointsV,
    id_dst: u8,
    diag: Diagnostic,
    code: u8,
)
    ensures
        ({
            let f = spec_idt(id_dst, diag, EndCode::from_code(code));
            let end = DataEnd::Interrupted { code: EndCode::from_code(code), diag, by_peer: true };
            let taken = received_step(st, f) is Ok && local_step(
                received_step(st, f)->Ok_0,
                LocalEvent::Accept,
            ) is Ok;
            &&& taken ==> (s.fpdu_step(st, f, store) matches Ok((t, _, cps, step)) && step
                == SendStepV::Interrupted(
                FpduV::between(FpduKind::AckIdt, s.params.peer_id, 0),
                end,
            ) && cps == store && t.out.ready == s.out.ready && t.out.entity.bytes.len() == 0
                && t.data_bytes == s.data_bytes && t.articles == s.articles && t.sync_no
                == s.sync_no)
            &&& taken ==> (r.fpdu_step(st, f, store) matches Ok((u, _, step)) && step
                == ReceiveStepV::Interrupted(
                FpduV::between(FpduKind::AckIdt, r.params.peer_id, 0),
                end,
            ) && u == r)
        }),
{
    lemma_idt_read(id_dst, diag, code);
}

// ---- synchronisation and resynchronisation ----

/// The receiver takes every synchronisation point under the number that the sender gave it.
pub proof fn law_points_keep_their_number(
    r: ReceiverV,
    st: State,
    store: CheckpointsV,
    id_dst: u8,
    n: u32,
)
    requires
        received_step(st, spec_syn(id_dst, n)) is Ok,
    ensures
        r.fpdu_step(st, spec_syn(id_dst, n), store) matches Ok((u, _, step)) && u == r && step
            == ReceiveStepV::Sync(n),
{
    lemma_number_read(FpduKind::Syn, id_dst, Pi::SyncNumber, n);
}

/// Where a sender goes back, it goes back to the very point that is asked for, where it is known,
/// and else to the beginning of the file: it answers with that point, takes its file there, and
/// counts from there. Without a negotiated resynchronisation it does not go back.
pub proof fn law_a_sender_goes_back_as_asked(
    s: SenderV,
    st: State,
    store: CheckpointsV,
    id_dst: u8,
    diag: Diagnostic,
    n: u32,
)
    requires
        received_step(st, spec_resyn(id_dst, diag, n)) is Ok,
        local_step(
            received_step(st, spec_resyn(id_dst, diag, n))->Ok_0,
            LocalEvent::Accept,
        ) is Ok,
    ensures
        !s.params.resync ==> s.fpdu_step(st, spec_resyn(id_dst, diag, n), store) is Err,
        s.params.resync ==> (s.fpdu_step(st, spec_resyn(id_dst, diag, n), store) matches Ok(
            (t, _, cps, step),
        ) && {
            let known = n != 0 && store.points.contains_key(n);
            let cp = if known {
                store.points[n]
            } else {
                Checkpoint { sync: 0, file_offset: 0, data_bytes: 0, articles: 0 }
            };
            &&& step == SendStepV::Rewind(
                spec_ack_resyn(s.params.peer_id, cp.sync),
                Position {
                    file_offset: cp.file_offset,
                    data_bytes: cp.data_bytes,
                    articles: cp.articles,
                },
            )
            &&& cps == store
            &&& t.data_bytes == cp.data_bytes && t.articles == cp.articles && t.sync_no == cp.sync
                && t.offset == cp.file_offset
            &&& t.since_sync == 0 && t.unacked.len() == 0 && t.packer.pending.len() == 0
            &&& t.out.ready == s.out.ready && t.out.entity.bytes.len() == 0
            &&& t.params == s.params
        }),
{
    lemma_resyn_read(id_dst, diag, n);
}

/// Where a receiver is asked to go back, it goes back to the very point that is asked for, where it
/// is known, and else to the beginning of the file.
pub proof fn law_a_receiver_goes_back_as_asked(
    r: ReceiverV,
    st: State,
    store: CheckpointsV,
    id_dst: u8,
    diag: Diagnostic,
    n: u32,
)
    requires
        received_step(st, spec_resyn(id_dst, diag, n)) is Ok,
        local_step(
            received_step(st, spec_resyn(id_dst, diag, n))->Ok_0,
            LocalEvent::Accept,
        ) is Ok,
    ensures
        r.fpdu_step(st, spec_resyn(id_dst, diag, n), store) matches Ok((u, _, step)) && {
            let known = n != 0 && store.points.contains_key(n);
            let cp = if known {
                store.points[n]
            } else {
                Checkpoint { sync: 0, file_offset: 0, data_bytes: 0, articles: 0 }
            };
            &&& step == ReceiveStepV::Rewind(
                spec_ack_resyn(r.params.peer_id, cp.sync),
                Position {
                    file_offset: cp.file_offset,
                    data_bytes: cp.data_bytes,
                    articles: cp.articles,
                },
            )
            &&& u.data_bytes == cp.data_bytes && u.articles == cp.articles && u.last_sync == cp.sync
            &&& u.partial is None && u.params == r.params && u.decompressor == r.decompressor
        },
{
    lemma_resyn_read(id_dst, diag, n);
}

/// A sender packs for the entities that were negotiated: a FPDU of it fits into one with its check
/// bytes, fills it where it can, and several articles share one exactly where that was agreed.
pub proof fn law_senders_pack_for_their_entities(params: DataParams, cp: Checkpoint)
    ensures
        ({
            let s = SenderV::starting(params, cp);
            let check = if params.crc {
                2int
            } else {
                0
            };
            &&& params.max_entity - check > 6 ==> s.packer.max_dtf_len + check == params.max_entity
            &&& params.max_entity - check <= 6 ==> s.packer.max_dtf_len == 7
            &&& s.packer.inv()
            &&& s.packer.multi_article == params.multi_article && s.packer.id_dst == params.peer_id
            &&& s.out.entity.max_len == params.max_entity && s.out.entity.crc == params.crc
            &&& s.out.ready.len() == 0 && s.out.entity.bytes.len() == 0
            &&& s.compressor is None <==> params.compression == crate::params::Compression::Off
        }),
{
}

/// The interval between points is the negotiated one in kilobytes; an undefined one is a megabyte,
/// and none means no points.
pub proof fn law_intervals_are_as_negotiated(params: DataParams)
    ensures
        params.sync.interval_kb == 0 ==> crate::sender::sync_interval(params) is None,
        params.sync.interval_kb == 0xFFFF ==> crate::sender::sync_interval(params) == Some(
            1_048_576u64,
        ),
        0 < params.sync.interval_kb < 0xFFFF ==> crate::sender::sync_interval(params) == Some(
            (params.sync.interval_kb * 1024) as u64,
        ),
{
}

/// Both ends start where they are told to: at the counters, the offset and the point of the
/// checkpoint, with nothing under way.
pub proof fn law_both_ends_start_at_the_checkpoint(params: DataParams, cp: Checkpoint)
    ensures
        ({
            let s = SenderV::starting(params, cp);
            let r = ReceiverV::starting(params, cp);
            &&& s.data_bytes == cp.data_bytes && s.articles == cp.articles && s.sync_no == cp.sync
            &&& s.offset == cp.file_offset && s.since_sync == 0 && s.unacked.len() == 0
            &&& s.packer == PackerV { pending: Seq::empty(), ..s.packer }
            &&& held(s.out).len() == 0
            &&& r.data_bytes == cp.data_bytes && r.articles == cp.articles && r.last_sync == cp.sync
            &&& r.partial is None
            &&& s.params == params && r.params == params
        }),
{
}

/// A FPDU that leaves out its number is taken for the least it can mean: an ACK(SYN) for the
/// acknowledgement of nothing, a RESYN for the beginning of the file, a SYN for the next point, and
/// an IDT for an interruption without a reason.
pub proof fn law_missing_numbers_mean_the_least(
    s: SenderV,
    r: ReceiverV,
    st: State,
    store: CheckpointsV,
    f: FpduV,
)
    requires
        f.number32(Pi::SyncNumber) is None,
        f.number32(Pi::RestartPoint) is None,
        received_step(st, f) is Ok,
    ensures
        f.kind == FpduKind::AckSyn && in_order(s.unacked) ==> (s.fpdu_step(st, f, store) matches Ok(
            (t, _, cps, _),
        ) && t.unacked == s.unacked.filter(|p: u32| p > 0) && cps.acknowledged
            == store.acknowledged),
        f.kind == FpduKind::Resyn && s.params.resync ==> (s.fpdu_step(st, f, store) matches Ok(
            (t, _, _, _),
        ) ==> t.sync_no == 0 && t.data_bytes == 0 && t.articles == 0 && t.offset == 0),
        f.kind == FpduKind::Resyn ==> (r.fpdu_step(st, f, store) matches Ok((u, _, _))
            ==> u.last_sync == 0 && u.data_bytes == 0 && u.articles == 0),
        f.kind == FpduKind::Syn && r.last_sync < u32::MAX ==> (r.fpdu_step(st, f, store) matches Ok(
            (_, _, step),
        ) && step == ReceiveStepV::Sync((r.last_sync + 1) as u32)),
        f.kind == FpduKind::Idt && f.value(Pi::EndCode) is None ==> (r.fpdu_step(
            st,
            f,
            store,
        ) matches Ok((_, _, step)) ==> step matches ReceiveStepV::Interrupted(_, end) && end
            matches DataEnd::Interrupted { code, by_peer, .. } && code == EndCode::Other(0)
            && by_peer),
{
    if in_order(s.unacked) {
        lemma_later_points_stay(s.unacked, 0);
    }
}

/// Every step of the data phase moves the state as the tables say, and a FPDU that they do not allow
/// is an error and changes nothing. A FPDU that asks for nothing changes nothing either.
pub proof fn law_the_tables_are_followed(
    s: SenderV,
    r: ReceiverV,
    st: State,
    store: CheckpointsV,
    f: FpduV,
)
    ensures
        received_step(st, f) matches Err(e) ==> {
            &&& s.fpdu_step(st, f, store) == Err::<
                (SenderV, State, CheckpointsV, SendStepV),
                crate::error::SessionErrorV,
            >(e)
            &&& r.fpdu_step(st, f, store) == Err::<
                (ReceiverV, State, ReceiveStepV),
                crate::error::SessionErrorV,
            >(e)
        },
        received_step(st, f) matches Ok(st1) ==> {
            let accepted = f.kind == FpduKind::Resyn || f.kind == FpduKind::Idt;
            &&& s.fpdu_step(st, f, store) matches Ok((_, st2, _, _)) ==> if accepted {
                local_step(st1, LocalEvent::Accept) == Ok::<State, crate::error::SessionErrorV>(st2)
            } else {
                st2 == st1
            }
            &&& r.fpdu_step(st, f, store) matches Ok((_, st2, _)) ==> if accepted {
                local_step(st1, LocalEvent::Accept) == Ok::<State, crate::error::SessionErrorV>(st2)
            } else {
                st2 == st1
            }
            &&& !accepted && f.kind != FpduKind::AckSyn ==> s.fpdu_step(st, f, store) == Ok::<
                _,
                crate::error::SessionErrorV,
            >((s, st1, store, SendStepV::Continue))
            &&& !accepted && !f.kind.spec_is_data() && f.kind != FpduKind::Syn && f.kind
                != FpduKind::DtfEnd ==> r.fpdu_step(st, f, store) == Ok::<
                _,
                crate::error::SessionErrorV,
            >((r, st1, ReceiveStepV::Continue))
        },
{
}

/// Sending an article moves the state as the tables say, by way of the synchronisation point where
/// one is set.
pub proof fn law_articles_follow_the_tables(s: SenderV, st: State, article: Seq<u8>, offset: u64)
    ensures
        s.article_step(st, article, offset) matches Ok((_, st2, cp)) ==> {
            let from = if cp is Some {
                local_step(st, LocalEvent::Sync)
            } else {
                Ok(st)
            };
            from matches Ok(st1) && local_step(st1, LocalEvent::SendData) == Ok::<
                State,
                crate::error::SessionErrorV,
            >(st2)
        },
{
}

/// What data FPDUs bring is handed on in the step that completes it, as it was restored, and the
/// receiver has counted it; an error of the decompression is told behind what came before it.
pub proof fn law_articles_are_handed_on(r: ReceiverV, st: State, store: CheckpointsV, f: FpduV)
    requires
        received_step(st, f) is Ok,
        f.kind.spec_is_data(),
    ensures
        ({
            let (partial, yields) = fed(r.partial, r.params.max_article as nat, f);
            &&& yields is Err ==> r.fpdu_step(st, f, store) is Err
            &&& yields matches Ok(wires) ==> (r.fpdu_step(st, f, store) matches Ok((u, _, step)) && {
                let (v, list, error) = crate::receiver::taken(ReceiverV { partial, ..r }, wires);
                u == v && step == ReceiveStepV::Articles(list, error)
            })
            &&& r.decompressor is None && r.partial is None && f.kind == FpduKind::Dtf && f.id_src
                == 0 ==> (r.fpdu_step(st, f, store) matches Ok((u, _, step)) && step
                == ReceiveStepV::Articles(seq![f.data], None) && (r.articles < u64::MAX
                ==> u.articles == r.articles + 1) && (r.data_bytes + f.data.len() <= u64::MAX
                ==> u.data_bytes == r.data_bytes + f.data.len()))
        }),
{
    let one = seq![f.data];
    assert(one.drop_last() =~= Seq::<Seq<u8>>::empty());
    assert(Seq::<Seq<u8>>::empty().push(f.data) =~= one);
    reveal_with_fuel(crate::receiver::taken, 2);
}

// ---- reassembly ----

/// Parts of an article are put together in their order, and nothing else is taken for one: a part
/// without a beginning, a beginning or a whole article within another one, and an article beyond
/// the limit are refused.
pub proof fn law_broken_articles_are_refused(partial: Option<Seq<u8>>, max_len: nat, f: FpduV)
    ensures
        partial is Some && (f.kind == FpduKind::Dtf || f.kind == FpduKind::DtfDa) ==> fed(
            partial,
            max_len,
            f,
        ) == (
            partial,
            Err::<Seq<Seq<u8>>, ReassemblyError>(ReassemblyError::Interleaved(f.kind)),
        ),
        partial is None && (f.kind == FpduKind::DtfMa || f.kind == FpduKind::DtfFa) ==> fed(
            partial,
            max_len,
            f,
        ) == (
            partial,
            Err::<Seq<Seq<u8>>, ReassemblyError>(ReassemblyError::NoStart(f.kind)),
        ),
        partial is None && f.kind == FpduKind::DtfDa ==> {
            &&& max_len > 0 && f.data.len() > max_len ==> fed(partial, max_len, f).1 is Err
            &&& max_len == 0 || f.data.len() <= max_len ==> fed(partial, max_len, f) == (
                Some(f.data),
                Ok::<Seq<Seq<u8>>, ReassemblyError>(Seq::empty()),
            )
        },
        partial matches Some(p) ==> {
            let over = max_len > 0 && p.len() + f.data.len() > max_len;
            &&& (f.kind == FpduKind::DtfMa || f.kind == FpduKind::DtfFa) && over ==> fed(
                partial,
                max_len,
                f,
            ).1 is Err && fed(partial, max_len, f).0 is None
            &&& f.kind == FpduKind::DtfMa && !over ==> fed(partial, max_len, f) == (
                Some(p + f.data),
                Ok::<Seq<Seq<u8>>, ReassemblyError>(Seq::empty()),
            )
            &&& f.kind == FpduKind::DtfFa && !over ==> fed(partial, max_len, f) == (
                None::<Seq<u8>>,
                Ok::<Seq<Seq<u8>>, ReassemblyError>(seq![p + f.data]),
            )
        },
        partial is None && f.kind == FpduKind::Dtf && f.id_src == 0 ==> fed(partial, max_len, f)
            == (None::<Seq<u8>>, Ok::<Seq<Seq<u8>>, ReassemblyError>(seq![f.data])),
{
}

/// A FPDU of several articles is taken as a whole or not at all: it has to hold as many as it says.
pub proof fn law_shared_fpdus_hold_what_they_say(f: FpduV)
    requires
        f.kind == FpduKind::Dtf,
        f.id_src > 0,
    ensures
        crate::article::articles(f) matches Ok(list) ==> list.len() == f.id_src
            && crate::article::parted(f.data, Seq::empty()) == Ok::<Seq<Seq<u8>>, Seq<char>>(list),
        crate::article::parted(f.data, Seq::empty()) matches Ok(list) ==> (
        crate::article::articles(f) is Ok <==> list.len() == f.id_src),
        fed(None, 0, f).1 is Ok <==> crate::article::articles(f) is Ok,
{
}

/// Where a FPDU cannot be taken, the receiver keeps everything but the article under way, and that
/// too where the FPDU carries no data.
pub proof fn law_receivers_survive_faults(r: ReceiverV, st: State, f: FpduV)
    ensures
        r.left_behind(st, f) == (ReceiverV { partial: r.left_behind(st, f).partial, ..r }),
        !f.kind.spec_is_data() || received_step(st, f) is Err ==> r.left_behind(st, f) == r,
{
}

// ---- the states of the data phase ----

/// A sender in the data phase takes acknowledgements, requests to go back and interruptions; a
/// receiver takes data, synchronisation points, the end of the data, requests to go back and
/// interruptions. Neither takes what only the other one may get.
pub proof fn law_each_side_takes_its_fpdus(f: FpduV)
    requires
        !f.negative(),
    ensures
        f.kind == FpduKind::AckSyn || f.kind == FpduKind::Resyn || f.kind == FpduKind::Idt
            ==> received_step(State::Tde02A, f) is Ok && received_step(State::Tdl02B, f) is Ok,
        f.kind == FpduKind::Dtf || f.kind == FpduKind::DtfDa || f.kind == FpduKind::DtfMa || f.kind
            == FpduKind::DtfFa || f.kind == FpduKind::Syn || f.kind == FpduKind::DtfEnd || f.kind
            == FpduKind::Resyn || f.kind == FpduKind::Idt ==> received_step(State::Tde02B, f) is Ok
            && received_step(State::Tdl02A, f) is Ok,
        f.kind == FpduKind::Dtf || f.kind == FpduKind::Syn || f.kind == FpduKind::DtfEnd
            ==> received_step(State::Tde02A, f) is Err && received_step(State::Tdl02B, f) is Err,
        f.kind == FpduKind::AckSyn ==> received_step(State::Tde02B, f) is Err && received_step(
            State::Tdl02A,
            f,
        ) is Err,
        f.kind == FpduKind::AckSyn ==> received_step(State::Tde02A, f) == Ok::<
            State,
            crate::error::SessionErrorV,
        >(State::Tde02A),
        f.kind == FpduKind::Dtf || f.kind == FpduKind::Syn ==> received_step(State::Tde02B, f)
            == Ok::<State, crate::error::SessionErrorV>(State::Tde02B),
        f.kind == FpduKind::DtfEnd ==> received_step(State::Tde02B, f) == Ok::<
            State,
            crate::error::SessionErrorV,
        >(State::Tde07B),
        f.kind == FpduKind::Resyn || f.kind == FpduKind::Idt ==> local_step(
            received_step(State::Tde02A, f)->Ok_0,
            LocalEvent::Accept,
        ) is Ok && local_step(received_step(State::Tde02B, f)->Ok_0, LocalEvent::Accept) is Ok,
{
}

// ---- packing ----

/// Articles share FPDUs as far as they fit: where several may share one, an article waits for the
/// next, unless the ones that wait leave no room for it; where they may not, each goes out at
/// once. Only an article that is too long for one FPDU is cut.
pub proof fn law_articles_share_fpdus(p: PackerV, article: Seq<u8>)
    ensures
        ({
            let fits = article.len() + crate::fpdu::HEADER_LEN <= p.max_dtf_len;
            let room = p.pending.len() == 0 || (p.pending.len() < 255 && crate::fpdu::HEADER_LEN
                + crate::article::joined(p.pending).len() + 2 + article.len() <= p.max_dtf_len);
            &&& p.multi_article && fits && room ==> p.pushed_out(article).len() == 0
                && p.pushed_pending(article) == p.pending.push(article)
            &&& p.multi_article && fits && !room ==> p.pushed_out(article) == p.flushed()
                && p.pushed_pending(article) == seq![article]
            &&& !p.multi_article && fits ==> p.pushed_out(article).len() == 1
                && p.pushed_pending(article) == p.pending
            &&& !fits && p.max_dtf_len >= crate::fpdu::HEADER_LEN ==> p.pushed_pending(article).len()
                == 0
        }),
{
}

/// FPDUs share entities as far as they fit: an entity is closed only where the next FPDU does not
/// fit into it, or where check bytes keep every FPDU in one of its own.
pub proof fn law_fpdus_share_entities(o: OutboxV, f: FpduV)
    requires
        f.encode_error() is None,
        f.wire_len() <= usize::MAX,
    ensures
        ({
            let alone = o.entity.crc && o.entity.count > 0;
            let cost = f.wire_len() + if o.entity.crc {
                2nat
            } else {
                0
            };
            let fits = !alone && o.entity.bytes.len() + cost <= o.entity.max_len;
            o.queued(f) matches Ok(p) && {
                &&& fits ==> p.ready == o.ready && p.entity.bytes == o.entity.bytes + framed(
                    f.encoding(),
                    o.entity.crc,
                )
                &&& !fits ==> p.ready == o.ready.push(o.entity.bytes) && p.entity.bytes == framed(
                    f.encoding(),
                    o.entity.crc,
                )
            }
        }),
{
    let empty = Seq::<u8>::empty();
    assert(empty + framed(f.encoding(), o.entity.crc) =~= framed(f.encoding(), o.entity.crc));
}

/// A synchronisation point is set exactly where synchronisation is in use, something was sent since
/// the last one, and the article would go beyond the interval. Its checkpoint holds its number and
/// what was sent before the article.
pub proof fn law_points_are_set_when_due(s: SenderV, st: State, article: Seq<u8>, offset: u64)
    requires
        s.compressor is None,
    ensures
        s.article_step(st, article, offset) matches Ok((t, _, cp)) ==> {
            let due = s.params.sync.interval_kb != 0 && s.since_sync > 0 && (
            s.params.sync.interval_kb != 0xFFFF ==> s.since_sync + article.len()
                > s.params.sync.interval_kb * 1024);
            &&& cp is Some ==> due
            &&& due && s.params.sync.interval_kb != 0xFFFF ==> cp is Some
            &&& cp matches Some(c) ==> c.data_bytes == s.data_bytes && c.articles == s.articles
                && c.file_offset == s.offset && c.sync == t.sync_no
            &&& cp is None ==> t.sync_no == s.sync_no
        },
{
}

/// An article, a synchronisation point or an end that cannot be written counts for nothing: the
/// counters, the points that wait and the offset stay as they were, and what was ready stays ready.
pub proof fn law_what_fails_is_not_counted(s: SenderV, wire: Seq<u8>, offset: u64)
    ensures
        same_counters(s, s.flush_left()),
        same_counters(s, s.sent_left(wire)),
        same_counters(s, s.end_left()),
        s.sync_left().data_bytes == s.data_bytes && s.sync_left().articles == s.articles
            && s.sync_left().unacked == s.unacked && s.sync_left().offset == s.offset,
        s.sent(wire, offset) is Err ==> same_counters(s, s.sent_or_left(wire, offset)),
        s.sent(wire, offset) matches Ok(t) ==> s.sent_or_left(wire, offset) == t,
{
}

/// Whether two states of a sender have counted the same.
pub open spec fn same_counters(s: SenderV, t: SenderV) -> bool {
    &&& t.data_bytes == s.data_bytes && t.articles == s.articles
    &&& t.sync_no == s.sync_no && t.since_sync == s.since_sync
    &&& t.unacked == s.unacked && t.offset == s.offset
    &&& t.params == s.params && t.compressor == s.compressor
}

} // verus!
