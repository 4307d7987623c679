//! What holds of a data transfer as a whole: nothing is lost or reordered on its way from one end
//! to the other, and both ends count alike.

use crate::article::{
    fed, fed_all, law_flushed_articles_are_received, law_packed_articles_are_received,
};
use crate::checkpoint::Checkpoint;
use crate::compress::{
    law_both_ends_stay_in_step, reference_after, reference_for, DecompressError, Mode,
};
use crate::datapath::OutboxV;
use crate::fpdu::FpduV;
use crate::frame::framed;
use crate::io::capped;
use crate::receiver::{restored, taken, ReceiverV};
use crate::sender::{still_unacked, sync_interval, wire_behind, wire_form, wire_synced, SenderV};
use crate::state::State;
use vstd::prelude::*;

verus! {

// ---- entities ----

/// Everything that an outbox holds, as one run of bytes.
pub open spec fn run_of(entities: Seq<Seq<u8>>) -> Seq<u8>
    decreases entities.len(),
{
    if entities.len() == 0 {
        Seq::empty()
    } else {
        run_of(entities.drop_last()) + entities.last()
    }
}

/// Everything that an outbox holds, as one run of bytes.
pub open spec fn held(o: OutboxV) -> Seq<u8> {
    run_of(o.ready) + o.entity.bytes
}

proof fn lemma_shipped_holds(o: OutboxV)
    ensures
        held(o.shipped()) == held(o),
{
    assert(o.ready.push(o.entity.bytes).drop_last() =~= o.ready);
    assert(held(o.shipped()) =~= held(o));
}

/// An outbox loses nothing: whatever entity a FPDU ends up in, it stands behind everything that
/// was there before.
pub proof fn law_outbox_loses_nothing(o: OutboxV, f: FpduV)
    ensures
        o.queued(f) matches Ok(p) ==> held(p) == held(o) + framed(f.encoding(), o.entity.crc),
        held(o.shipped()) == held(o),
{
    lemma_shipped_holds(o);
    if let Ok(p) = o.queued(f) {
        assert(held(p) =~= held(o) + framed(f.encoding(), o.entity.crc));
    }
}

/// Whether every entity of an outbox is within the negotiated size.
pub open spec fn bounded(o: OutboxV) -> bool {
    &&& o.entity.bytes.len() <= o.entity.max_len
    &&& forall|i: int| 0 <= i < o.ready.len() ==> (#[trigger] o.ready[i]).len() <= o.entity.max_len
}

/// Entities stay within the negotiated size, as long as every FPDU fits in an entity of its own.
pub proof fn law_entities_are_bounded(o: OutboxV, f: FpduV)
    requires
        bounded(o),
        o.entity.cost(f.wire_len()) <= o.entity.max_len,
    ensures
        o.queued(f) matches Ok(p) ==> bounded(p) && p.entity.max_len == o.entity.max_len,
        bounded(o.shipped()),
{
    let s = o.shipped();
    assert forall|i: int| 0 <= i < s.ready.len() implies (#[trigger] s.ready[i]).len()
        <= s.entity.max_len by {
        if i < o.ready.len() {
            assert(s.ready[i] == o.ready[i]);
        }
    }
    assert(bounded(s));
    if let Ok(p) = o.queued(f) {
        assert(f.encoding().len() == f.wire_len());
        assert(f.wire_len() <= crate::fpdu::MAX_FPDU_LEN);
        assert(framed(f.encoding(), o.entity.crc).len() == o.entity.cost(f.wire_len()));
    }
}

// ---- synchronisation ----

/// The acknowledgement window is respected: a sender that only sends while its window is open
/// never has more points without an acknowledgement than the window allows.
pub proof fn law_window_is_respected(
    s: SenderV,
    st: State,
    article: Seq<u8>,
    offset: u64,
)
    requires
        s.params.sync.window > 0,
        !s.window_full(),
    ensures
        s.article_step(st, article, offset) matches Ok((t, _, _)) ==> t.unacked.len()
            <= s.params.sync.window && t.params == s.params,
{
}

/// An acknowledgement of the oldest point, or of a later one, opens the window; no
/// acknowledgement closes it.
pub proof fn law_acknowledgement_opens_the_window(unacked: Seq<u32>, n: u32)
    ensures
        still_unacked(unacked, n).len() <= unacked.len(),
        unacked.len() > 0 && unacked[0] <= n ==> still_unacked(unacked, n).len() < unacked.len(),
    decreases unacked.len(),
{
    if unacked.len() > 0 && unacked[0] <= n {
        law_acknowledgement_opens_the_window(unacked.skip(1), n);
    }
}

/// The synchronisation interval is respected: between two points there is never more data than
/// the interval, except that an article longer than the interval travels on its own.
pub proof fn law_sync_interval_is_respected(
    s: SenderV,
    st: State,
    article: Seq<u8>,
    offset: u64,
)
    requires
        sync_interval(s.params) is Some,
    ensures
        s.article_step(st, article, offset) matches Ok((t, _, cp)) ==> {
            let len = if cp is Some {
                wire_form(
                    wire_synced(wire_behind(s.compressor, article)),
                    article,
                ).len()
            } else {
                wire_form(s.compressor, article).len()
            };
            t.since_sync <= sync_interval(s.params)->0 || t.since_sync == capped(0, len)
        },
{
}

/// A point is recorded with what was sent before it: its checkpoint takes the sender back to
/// exactly the counters and the offset it had there.
pub proof fn law_checkpoint_takes_back(s: SenderV, st: State, article: Seq<u8>, offset: u64)
    ensures
        s.article_step(st, article, offset) matches Ok((t, _, Some(cp))) ==> {
            &&& cp.sync == t.sync_no
            &&& t.rewound(cp).data_bytes == s.data_bytes
            &&& t.rewound(cp).articles == s.articles
            &&& t.rewound(cp).offset == s.offset
        },
{
}

/// A resynchronisation leaves both ends at the same place.
pub proof fn law_resynchronisation_agrees(s: SenderV, r: ReceiverV, cp: Checkpoint)
    ensures
        ({
            let t = s.rewound(cp);
            let u = r.rewound(cp);
            &&& t.data_bytes == u.data_bytes
            &&& t.articles == u.articles
            &&& t.sync_no == u.last_sync
            &&& t.packer.pending.len() == 0
            &&& u.partial is None
        }),
{
}

// ---- articles ----

/// Data FPDUs taken in: the receiving side behind them and the articles; `None` where one of them
/// is at fault.
pub open spec fn received_all(r: ReceiverV, fs: Seq<FpduV>) -> Option<
    (ReceiverV, Seq<Seq<u8>>),
>
    decreases fs.len(),
{
    if fs.len() == 0 {
        Some((r, Seq::empty()))
    } else {
        match fed(r.partial, r.params.max_article as nat, fs[0]) {
            (partial, Ok(wires)) => {
                let (r1, list, error) = taken(ReceiverV { partial, ..r }, wires);
                if error is Some {
                    None
                } else {
                    match received_all(r1, fs.skip(1)) {
                        Some((r2, more)) => Some((r2, list + more)),
                        None => None,
                    }
                }
            },
            (_, Err(_)) => None,
        }
    }
}

pub(crate) proof fn lemma_taken_keeps(r: ReceiverV, wires: Seq<Seq<u8>>, partial: Option<Seq<u8>>)
    ensures
        taken(r, wires).0.params == r.params,
        taken(r, wires).0.partial == r.partial,
        taken(ReceiverV { partial, ..r }, wires) == (
            ReceiverV { partial, ..taken(r, wires).0 },
            taken(r, wires).1,
            taken(r, wires).2,
        ),
    decreases wires.len(),
{
    if wires.len() > 0 {
        lemma_taken_keeps(r, wires.drop_last(), partial);
    }
}

proof fn lemma_taken_concat(r: ReceiverV, a: Seq<Seq<u8>>, b: Seq<Seq<u8>>)
    ensures
        taken(r, a).2 is None ==> taken(r, a + b) == ({
            let (r1, la, _) = taken(r, a);
            let (r2, lb, e) = taken(r1, b);
            (r2, la + lb, e)
        }),
        taken(r, a + b).2 is None ==> taken(r, a).2 is None,
    decreases b.len(),
{
    if b.len() == 0 {
        assert(a + b =~= a);
        let la = taken(r, a).1;
        assert(la + Seq::<Seq<u8>>::empty() =~= la);
    } else {
        lemma_taken_concat(r, a, b.drop_last());
        assert((a + b).drop_last() =~= a + b.drop_last());
        assert((a + b).last() == b.last());
        if taken(r, a).2 is None {
            let (r1, la, _) = taken(r, a);
            let (r2, lb, e) = taken(r1, b.drop_last());
            if e is None {
                match restored(r2.decompressor, b.last()) {
                    Ok((_, article)) => {
                        assert((la + lb).push(article) =~= la + lb.push(article));
                    },
                    Err(_) => {},
                }
            }
        }
    }
}

/// What the reassembly yields is what is taken.
proof fn lemma_received(r: ReceiverV, fs: Seq<FpduV>)
    requires
        fed_all(r.partial, r.params.max_article as nat, fs) is Some,
        taken(r, (fed_all(r.partial, r.params.max_article as nat, fs)->0).1).2 is None,
    ensures
        ({
            let (partial, wires) = fed_all(r.partial, r.params.max_article as nat, fs)->0;
            let (r1, list, _) = taken(r, wires);
            received_all(r, fs) == Some((ReceiverV { partial, ..r1 }, list))
        }),
    decreases fs.len(),
{
    let max = r.params.max_article as nat;
    let (partial, wires) = fed_all(r.partial, max, fs)->0;
    if fs.len() > 0 {
        let (p1, got) = fed(r.partial, max, fs[0]);
        let w1 = got->Ok_0;
        let (p2, w2) = fed_all(p1, max, fs.skip(1))->0;
        assert(wires == w1 + w2);
        lemma_taken_concat(r, w1, w2);
        lemma_taken_keeps(r, w1, p1);
        let r0 = taken(r, w1).0;
        let r1 = ReceiverV { partial: p1, ..r0 };
        assert(taken(ReceiverV { partial: p1, ..r }, w1) == (r1, taken(r, w1).1, None::<DecompressError>));
        lemma_taken_keeps(r0, w2, p1);
        assert(r1.params == r.params);
        lemma_received(r1, fs.skip(1));
        let (q, list2, _) = taken(r1, w2);
        assert(received_all(r1, fs.skip(1)) == Some((ReceiverV { partial: p2, ..q }, list2)));
    } else {
        assert(received_all(r, fs) == Some((r, Seq::<Seq<u8>>::empty())));
    }
}

/// Whether the compression of the sender and that of the receiver stand at the same place.
pub open spec fn compression_in_step(s: SenderV, r: ReceiverV) -> bool {
    match (s.compressor, r.decompressor) {
        (None, None) => true,
        (Some(c), Some(d)) => c.reference == d.reference && (d.reference.len() == d.max_article
            || d.max_article == usize::MAX),
        _ => false,
    }
}

/// Whether the two ends are in step: once the receiver has taken the articles that still wait for
/// their FPDU, it stands where the sender stands.
pub open spec fn in_step(s: SenderV, r: ReceiverV) -> bool {
    let (r1, _, error) = taken(r, s.packer.pending);
    &&& s.packer.inv()
    &&& s.packer.max_dtf_len <= 0xFFFF
    &&& r.partial is None
    &&& error is None
    &&& r1.data_bytes == s.data_bytes
    &&& r1.articles == s.articles
    &&& compression_in_step(s, r1)
}

/// Articles that have been sent but wait for their FPDU, as the receiver will see them.
pub open spec fn waiting(s: SenderV, r: ReceiverV) -> Seq<Seq<u8>> {
    taken(r, s.packer.pending).1
}

/// Whether an article is within the limits of a receiver. The limit on its wire form holds where
/// that form is cut into segments; in one FPDU it may have any length.
pub open spec fn acceptable(s: SenderV, r: ReceiverV, article: Seq<u8>) -> bool {
    let wire = wire_form(s.compressor, article);
    &&& r.params.max_article == 0 || wire.len() <= r.params.max_article || wire.len()
        <= s.packer.max_single()
    &&& r.decompressor matches Some(d) ==> article.len() <= d.max_article
}

/// Both ends start in step: with the same parameters and from the same checkpoint.
pub proof fn law_both_ends_start_in_step(
    s: SenderV,
    r: ReceiverV,
    start: Checkpoint,
)
    requires
        s == SenderV::starting(s.params, start),
        r == ReceiverV::starting(r.params, start),
        s.params.compression == r.params.compression,
        s.params.max_article == r.params.max_article,
        s.packer.max_dtf_len <= 0xFFFF,
    ensures
        in_step(s, r),
        waiting(s, r).len() == 0,
{
    if s.params.compression != crate::params::Compression::Off {
        assert(s.compressor->0.reference =~= r.decompressor->0.reference);
    }
}

/// Every article arrives, as it is and in its order: what the receiver gets from the FPDUs of an
/// article, and what still waits behind it, is what waited before and the article. Both ends
/// count alike, and their compressions stay in step.
pub proof fn law_articles_arrive(s: SenderV, r: ReceiverV, article: Seq<u8>, offset: u64)
    requires
        in_step(s, r),
        acceptable(s, r, article),
    ensures
        ({
            let wire = wire_form(s.compressor, article);
            let s1 = SenderV { compressor: wire_behind(s.compressor, article), ..s };
            let got = received_all(r, s.packer.pushed_out(wire));
            &&& got is Some
            &&& s1.sent(wire, offset) matches Ok(s2) ==> {
                let (r2, list) = got->0;
                &&& in_step(s2, r2)
                &&& list + waiting(s2, r2) == waiting(s, r).push(article)
            }
        }),
{
    let r1 = taken(r, s.packer.pending).0;
    lemma_taken_limit(r, s.packer.pending);
    lemma_restored(s, r1, article);
    lemma_arrival(s, r, article, offset);
}

/// Whether the first article behind a synchronisation point makes both compressions agree, whatever
/// they held before: it is as long as an article may be, and covers both references.
pub open spec fn begins_afresh(s: SenderV, r: ReceiverV, article: Seq<u8>) -> bool {
    match (s.compressor, r.decompressor) {
        (Some(c), Some(d)) => {
            &&& c.after_sync
            &&& c.reference.len() <= article.len()
            &&& d.reference.len() <= article.len() <= d.max_article
            &&& article.len() == d.max_article || d.max_article == usize::MAX
        },
        _ => false,
    }
}

/// A full article behind a synchronisation point brings compressions back in step that were not:
/// it arrives as it is, and both ends are in step behind it.
pub proof fn law_full_articles_begin_afresh(
    s: SenderV,
    r: ReceiverV,
    article: Seq<u8>,
    offset: u64,
)
    requires
        s.packer.inv(),
        s.packer.max_dtf_len <= 0xFFFF,
        s.packer.pending.len() == 0,
        r.partial is None,
        r.data_bytes == s.data_bytes,
        r.articles == s.articles,
        acceptable(s, r, article),
        begins_afresh(s, r, article),
    ensures
        ({
            let wire = wire_form(s.compressor, article);
            let s1 = SenderV { compressor: wire_behind(s.compressor, article), ..s };
            let got = received_all(r, s.packer.pushed_out(wire));
            &&& got is Some
            &&& s1.sent(wire, offset) matches Ok(s2) ==> {
                let (r2, list) = got->0;
                &&& in_step(s2, r2)
                &&& list + waiting(s2, r2) == waiting(s, r).push(article)
            }
        }),
{
    let c = s.compressor->0;
    let d = r.decompressor->0;
    crate::compress::law_literal_articles_need_no_reference(
        article,
        crate::compress::padded(c.reference, article.len()),
        reference_for(d.reference, d.max_article, wire_form(s.compressor, article)),
        d.max_article,
    );
    lemma_arrival(s, r, article, offset);
}

/// An article arrives where its wire form is restored.
proof fn lemma_arrival(s: SenderV, r: ReceiverV, article: Seq<u8>, offset: u64)
    requires
        s.packer.inv(),
        s.packer.max_dtf_len <= 0xFFFF,
        r.partial is None,
        acceptable(s, r, article),
        ({
            let (r1, _, error) = taken(r, s.packer.pending);
            let s1 = SenderV { compressor: wire_behind(s.compressor, article), ..s };
            &&& error is None
            &&& r1.data_bytes == s.data_bytes
            &&& r1.articles == s.articles
            &&& restored(r1.decompressor, wire_form(s.compressor, article)) matches Ok((d, a))
                && a == article && compression_in_step(s1, ReceiverV { decompressor: d, ..r1 })
        }),
    ensures
        ({
            let wire = wire_form(s.compressor, article);
            let s1 = SenderV { compressor: wire_behind(s.compressor, article), ..s };
            let got = received_all(r, s.packer.pushed_out(wire));
            &&& got is Some
            &&& s1.sent(wire, offset) matches Ok(s2) ==> {
                let (r2, list) = got->0;
                &&& in_step(s2, r2)
                &&& list + waiting(s2, r2) == waiting(s, r).push(article)
            }
        }),
{
    let wire = wire_form(s.compressor, article);
    let s1 = SenderV { compressor: wire_behind(s.compressor, article), ..s };
    let max = r.params.max_article as nat;
    let p = s.packer;
    law_packed_articles_are_received(p, wire, max);
    crate::article::law_packed_fpdus_fit(p, wire);
    let (partial, wires) = fed_all(None, max, p.pushed_out(wire))->0;
    let rest = p.pushed_pending(wire);
    assert(wires + rest == p.pending.push(wire));
    // the receiver, once it has everything
    let (r1, list1, e1) = taken(r, p.pending);
    assert(p.pending.push(wire).drop_last() =~= p.pending);
    assert(taken(r, p.pending.push(wire)).2 is None);
    // split at what has been sent
    lemma_taken_concat(r, wires, rest);
    lemma_taken_keeps(r, wires, None);
    lemma_received(r, p.pushed_out(wire));
    let (q, list, _) = taken(r, wires);
    assert(ReceiverV { partial: None, ..q } == q);
}

/// An article is restored from its wire form, and the compressions stay in step.
proof fn lemma_restored(s: SenderV, r: ReceiverV, article: Seq<u8>)
    requires
        compression_in_step(s, r),
        r.decompressor matches Some(d) ==> article.len() <= d.max_article,
    ensures
        ({
            let wire = wire_form(s.compressor, article);
            let s1 = SenderV { compressor: wire_behind(s.compressor, article), ..s };
            &&& restored(r.decompressor, wire) matches Ok((d, a)) && a == article
                && compression_in_step(s1, ReceiverV { decompressor: d, ..r })
        }),
{
    if let Some(c) = s.compressor {
        let d = r.decompressor->0;
        law_both_ends_stay_in_step(
            if c.after_sync {
                Mode::Literal
            } else {
                Mode::of(c.compression)
            },
            c.reference,
            d.reference,
            article,
            d.max_article,
        );
    }
}

/// At a synchronisation point, and at the end of the data, nothing is left behind: the FPDU that
/// is sent before it delivers all that waits, and both ends count exactly alike.
pub proof fn law_nothing_waits_behind_a_flush(s: SenderV, r: ReceiverV)
    requires
        in_step(s, r),
    ensures
        ({
            let got = received_all(r, s.packer.flushed());
            &&& got is Some
            &&& (got->0).1 == waiting(s, r)
            &&& (got->0).0.data_bytes == s.data_bytes
            &&& (got->0).0.articles == s.articles
            &&& (got->0).0.partial is None
            &&& compression_in_step(s, (got->0).0)
        }),
{
    let max = r.params.max_article as nat;
    law_flushed_articles_are_received(s.packer, max);
    lemma_taken_keeps(r, s.packer.pending, None);
    lemma_received(r, s.packer.flushed());
    let (q, list, _) = taken(r, s.packer.pending);
    assert(ReceiverV { partial: None, ..q } == q);
}

/// A synchronisation point keeps both ends in step, and the article behind it, which is sent
/// again in its literal form, is restored like any other.
pub proof fn law_sync_points_keep_in_step(s: SenderV, r: ReceiverV, article: Seq<u8>)
    requires
        in_step(s, r),
        r.decompressor matches Some(d) ==> article.len() <= d.max_article,
    ensures
        ({
            let ahead = SenderV { compressor: wire_behind(s.compressor, article), ..s };
            let r1 = (received_all(r, s.packer.flushed())->0).0;
            ahead.synced() matches Ok(t) ==> {
                let wire = wire_form(t.compressor, article);
                &&& t.data_bytes == r1.data_bytes
                &&& t.articles == r1.articles
                &&& t.packer.pending.len() == 0
                &&& restored(r1.decompressor, wire) matches Ok((d, a)) && a == article
                    && compression_in_step(
                    SenderV { compressor: wire_behind(t.compressor, article), ..t },
                    ReceiverV { decompressor: d, ..r1 },
                )
            }
        }),
{
    law_nothing_waits_behind_a_flush(s, r);
    let ahead = SenderV { compressor: wire_behind(s.compressor, article), ..s };
    let r1 = (received_all(r, s.packer.flushed())->0).0;
    if let Ok(t) = ahead.synced() {
        if let Some(c) = t.compressor {
            let d = r1.decompressor->0;
            let old_reference = s.compressor->0.reference;
            assert(c.reference == reference_after(old_reference, article));
            assert(c.after_sync);
            lemma_taken_limit(r, s.packer.pending);
            lemma_same_limit(r, s.packer.flushed());
            crate::compress::law_literal_articles_need_no_reference(
                article,
                c.reference,
                reference_for(d.reference, d.max_article, wire_form(t.compressor, article)),
                d.max_article,
            );
            assert(crate::compress::padded(c.reference, article.len()) == c.reference);
            assert(reference_after(c.reference, article) =~= reference_after(
                d.reference,
                article,
            ));
        }
    }
}

pub(crate) proof fn lemma_taken_limit(r: ReceiverV, wires: Seq<Seq<u8>>)
    ensures
        r.decompressor is None <==> taken(r, wires).0.decompressor is None,
        r.decompressor matches Some(d) ==> taken(r, wires).0.decompressor->0.max_article
            == d.max_article,
    decreases wires.len(),
{
    if wires.len() > 0 {
        lemma_taken_limit(r, wires.drop_last());
    }
}

pub(crate) proof fn lemma_same_limit(r: ReceiverV, fs: Seq<FpduV>)
    ensures
        received_all(r, fs) matches Some((q, _)) ==> {
            &&& r.decompressor is None <==> q.decompressor is None
            &&& r.decompressor matches Some(d) ==> q.decompressor->0.max_article == d.max_article
        },
    decreases fs.len(),
{
    if fs.len() > 0 && received_all(r, fs) is Some {
        let (partial, got) = fed(r.partial, r.params.max_article as nat, fs[0]);
        let r0 = ReceiverV { partial, ..r };
        lemma_taken_limit(r0, got->Ok_0);
        lemma_same_limit(taken(r0, got->Ok_0).0, fs.skip(1));
    }
}

/// What data FPDUs do not change in the receiver.
pub(crate) proof fn lemma_received_keeps(r: ReceiverV, fs: Seq<FpduV>)
    ensures
        received_all(r, fs) matches Some((q, _)) ==> q.params == r.params && q.last_sync
            == r.last_sync,
    decreases fs.len(),
{
    if fs.len() > 0 && received_all(r, fs) is Some {
        let (partial, got) = fed(r.partial, r.params.max_article as nat, fs[0]);
        let r0 = ReceiverV { partial, ..r };
        lemma_taken_sync(r0, got->Ok_0);
        lemma_taken_keeps(r0, got->Ok_0, partial);
        lemma_received_keeps(taken(r0, got->Ok_0).0, fs.skip(1));
    }
}

proof fn lemma_taken_sync(r: ReceiverV, wires: Seq<Seq<u8>>)
    ensures
        taken(r, wires).0.last_sync == r.last_sync,
    decreases wires.len(),
{
    if wires.len() > 0 {
        lemma_taken_sync(r, wires.drop_last());
    }
}

} // verus!
