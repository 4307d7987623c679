//! What holds of a run of articles with synchronisation points between them: the receiver gets
//! every article, as it is and in its order, and both ends count and synchronise alike.

use crate::article::{fed, law_packed_fpdus_fit, segments, PackerV};
use crate::builder::spec_syn;
use crate::checkpoint::Checkpoint;
use crate::compress::{compressed, padded, reference_after, Mode, CHUNK};
use crate::fpdu::{law_number_round_trip, num_bytes, FpduV};
use crate::fpdu_laws::law_get_after_set;
use crate::kind::FpduKind;
use crate::pi::Pi;
use crate::receiver::{taken, ReceiverV};
use crate::sender::{next_point, wire_behind, wire_form, wire_synced, CompressorV, SenderV};
use crate::state::State;
use crate::transfer_laws::{
    acceptable, begins_afresh, compression_in_step, in_step, law_articles_arrive,
    law_both_ends_start_in_step, law_full_articles_begin_afresh, law_nothing_waits_behind_a_flush,
    received_all, waiting,
};
use vstd::prelude::*;

verus! {

// ---- the receiver ----

/// The receiving side behind a synchronisation point.
pub open spec fn at_point(r: ReceiverV, f: FpduV) -> ReceiverV {
    ReceiverV {
        last_sync: match f.number32(Pi::SyncNumber) {
            Some(n) => n,
            None => next_point(r.last_sync),
        },
        ..r
    }
}

/// Data FPDUs and synchronisation points taken in: the receiving side behind them and the
/// articles; `None` where one of them is at fault.
pub open spec fn streamed(r: ReceiverV, fs: Seq<FpduV>) -> Option<(ReceiverV, Seq<Seq<u8>>)>
    decreases fs.len(),
{
    if fs.len() == 0 {
        Some((r, Seq::empty()))
    } else if fs[0].kind == FpduKind::Syn {
        streamed(at_point(r, fs[0]), fs.skip(1))
    } else if !fs[0].kind.spec_is_data() {
        None
    } else {
        match fed(r.partial, r.params.max_article as nat, fs[0]) {
            (partial, Ok(wires)) => {
                let (r1, list, error) = taken(ReceiverV { partial, ..r }, wires);
                if error is Some {
                    None
                } else {
                    match streamed(r1, fs.skip(1)) {
                        Some((r2, more)) => Some((r2, list + more)),
                        None => None,
                    }
                }
            },
            (_, Err(_)) => None,
        }
    }
}

/// Whether every FPDU carries data.
pub open spec fn all_data(fs: Seq<FpduV>) -> bool {
    forall|i: int| 0 <= i < fs.len() ==> (#[trigger] fs[i]).kind.spec_is_data()
}

proof fn lemma_data_streamed(r: ReceiverV, fs: Seq<FpduV>)
    requires
        all_data(fs),
    ensures
        streamed(r, fs) == received_all(r, fs),
    decreases fs.len(),
{
    if fs.len() > 0 {
        assert(fs[0].kind.spec_is_data());
        assert(fs[0].kind != FpduKind::Syn);
        assert forall|i: int| 0 <= i < fs.skip(1).len() implies (
        #[trigger] fs.skip(1)[i]).kind.spec_is_data() by {
            assert(fs.skip(1)[i] == fs[i + 1]);
        }
        if let (partial, Ok(wires)) = fed(r.partial, r.params.max_article as nat, fs[0]) {
            lemma_data_streamed(taken(ReceiverV { partial, ..r }, wires).0, fs.skip(1));
        }
    }
}

proof fn lemma_streamed_concat(r: ReceiverV, a: Seq<FpduV>, b: Seq<FpduV>)
    requires
        streamed(r, a) is Some,
    ensures
        streamed(r, a + b) == ({
            let (r1, la) = streamed(r, a)->0;
            match streamed(r1, b) {
                Some((r2, lb)) => Some((r2, la + lb)),
                None => None,
            }
        }),
    decreases a.len(),
{
    if a.len() == 0 {
        assert(a + b =~= b);
        if let Some((_, lb)) = streamed(r, b) {
            assert(Seq::<Seq<u8>>::empty() + lb =~= lb);
        }
    } else {
        let all = a + b;
        assert(all[0] == a[0]);
        assert(all.skip(1) =~= a.skip(1) + b);
        if a[0].kind == FpduKind::Syn {
            lemma_streamed_concat(at_point(r, a[0]), a.skip(1), b);
        } else {
            let (partial, wires) = fed(r.partial, r.params.max_article as nat, a[0]);
            let (r1, list, _) = taken(ReceiverV { partial, ..r }, wires->Ok_0);
            lemma_streamed_concat(r1, a.skip(1), b);
            let (r2, la) = streamed(r1, a.skip(1))->0;
            if let Some((_, lb)) = streamed(r2, b) {
                assert(list + (la + lb) =~= (list + la) + lb);
            }
        }
    }
}

proof fn lemma_segments_are_data(id_dst: u8, article: Seq<u8>, m: nat, first: bool)
    ensures
        all_data(segments(id_dst, article, m, first)),
    decreases article.len(),
{
    let fs = segments(id_dst, article, m, first);
    if article.len() > m && m > 0 {
        let tail = segments(id_dst, article.skip(m as int), m, false);
        lemma_segments_are_data(id_dst, article.skip(m as int), m, false);
        assert forall|i: int| 0 <= i < fs.len() implies (#[trigger] fs[i]).kind.spec_is_data() by {
            if i > 0 {
                assert(fs[i] == tail[i - 1]);
            }
        }
    }
}

proof fn lemma_packed_is_data(p: PackerV, article: Seq<u8>)
    ensures
        all_data(p.flushed()),
        all_data(p.pushed_out(article)),
{
    lemma_segments_are_data(p.id_dst, article, p.max_single(), true);
    let segs = segments(p.id_dst, article, p.max_single(), true);
    let out = p.pushed_out(article);
    assert forall|i: int| 0 <= i < out.len() implies (#[trigger] out[i]).kind.spec_is_data() by {
        if article.len() > p.max_single() {
            let k = p.flushed().len();
            if i < k {
                assert(out[i] == p.flushed()[i]);
            } else {
                assert(out[i] == segs[i - k]);
            }
        }
    }
}

// ---- the sender ----

/// The sending side behind the synchronisation point before an article.
pub open spec fn behind_point(s: SenderV, article: Seq<u8>) -> SenderV {
    (SenderV { compressor: wire_behind(s.compressor, article), ..s }).synced()->Ok_0
}

/// FPDUs that an article sends, with the synchronisation point before it where one is due.
pub open spec fn article_fpdus(s: SenderV, article: Seq<u8>) -> Seq<FpduV> {
    let wire = wire_form(s.compressor, article);
    if !s.sync_due(wire.len()) {
        s.packer.pushed_out(wire)
    } else {
        let t = behind_point(s, article);
        s.packer.flushed() + seq![spec_syn(s.params.peer_id, next_point(s.sync_no))]
            + t.packer.pushed_out(wire_form(t.compressor, article))
    }
}

/// Whether the two ends are in step, and stand behind the same synchronisation point.
pub open spec fn together(s: SenderV, r: ReceiverV) -> bool {
    in_step(s, r) && s.sync_no == r.last_sync
}

/// Whether an article is within the limits of a receiver, be it behind a synchronisation point or
/// not.
pub open spec fn always_acceptable(s: SenderV, r: ReceiverV, article: Seq<u8>) -> bool {
    &&& acceptable(s, r, article)
    &&& acceptable(SenderV { compressor: wire_synced(s.compressor), ..s }, r, article)
}

/// The literal form of an article does not depend on the reference.
proof fn lemma_literal_form(article: Seq<u8>, a: Seq<u8>, b: Seq<u8>)
    ensures
        compressed(Mode::Literal, article, a) == compressed(Mode::Literal, article, b),
    decreases article.len(),
{
    if article.len() > 0 {
        let n = if article.len() < CHUNK {
            article.len() as int
        } else {
            CHUNK as int
        };
        lemma_literal_form(article.skip(n), a.skip(n), b.skip(n));
    }
}

/// An article has the same literal form, and leaves the same state, whether or not it has been
/// compressed before the synchronisation point.
proof fn lemma_sent_again(c: Option<CompressorV>, article: Seq<u8>)
    ensures
        wire_form(wire_synced(wire_behind(c, article)), article) == wire_form(
            wire_synced(c),
            article,
        ),
        wire_behind(wire_synced(wire_behind(c, article)), article) == wire_behind(
            wire_synced(c),
            article,
        ),
{
    if let Some(c) = c {
        let once = reference_after(c.reference, article);
        lemma_literal_form(
            article,
            padded(once, article.len()),
            padded(c.reference, article.len()),
        );
        assert(reference_after(once, article) =~= once);
    }
}

proof fn lemma_point_number(peer_id: u8, n: u32)
    ensures
        spec_syn(peer_id, n).kind == FpduKind::Syn,
        spec_syn(peer_id, n).number32(Pi::SyncNumber) == Some(n),
{
    let base = FpduV::between(FpduKind::Syn, peer_id, 0);
    law_get_after_set(base, Pi::SyncNumber, num_bytes(n as nat));
    law_number_round_trip(n as nat);
}

/// The receiver takes the synchronisation point before an article: both ends stand behind it, and
/// nothing waits.
proof fn lemma_point_taken(s: SenderV, r: ReceiverV) -> (r1: ReceiverV)
    requires
        together(s, r),
        s.synced() is Ok,
    ensures
        streamed(
            r,
            s.packer.flushed() + seq![spec_syn(s.params.peer_id, next_point(s.sync_no))],
        ) == Some((r1, waiting(s, r))),
        together(s.synced()->Ok_0, r1),
        waiting(s.synced()->Ok_0, r1).len() == 0,
        r1.params == r.params,
        r.decompressor is None <==> r1.decompressor is None,
        r.decompressor matches Some(d) ==> r1.decompressor->0.max_article == d.max_article,
{
    let t = s.synced()->Ok_0;
    let fs = s.packer.flushed();
    let f = spec_syn(s.params.peer_id, next_point(s.sync_no));
    law_nothing_waits_behind_a_flush(s, r);
    lemma_packed_is_data(s.packer, Seq::empty());
    lemma_data_streamed(r, fs);
    crate::transfer_laws::lemma_same_limit(r, fs);
    crate::transfer_laws::lemma_received_keeps(r, fs);
    let (q, list) = received_all(r, fs)->0;
    lemma_point_number(s.params.peer_id, next_point(s.sync_no));
    let r1 = at_point(q, f);
    let one = seq![f];
    assert(one.skip(1) =~= Seq::<FpduV>::empty());
    assert(streamed(r1, one.skip(1)) == Some((r1, Seq::<Seq<u8>>::empty())));
    assert(streamed(q, one) == Some((r1, Seq::<Seq<u8>>::empty())));
    lemma_streamed_concat(r, fs, one);
    assert(list + Seq::<Seq<u8>>::empty() =~= list);
    law_packed_fpdus_fit(s.packer, Seq::empty());
    assert(taken(r1, t.packer.pending) == (
        r1,
        Seq::<Seq<u8>>::empty(),
        None::<crate::compress::DecompressError>,
    ));
    r1
}

/// An article arrives, with the synchronisation point before it where one is due: what the
/// receiver gets from its FPDUs, and what still waits behind it, is what waited before and the
/// article, and both ends are together again.
pub proof fn law_steps_arrive(s: SenderV, r: ReceiverV, st: State, article: Seq<u8>, offset: u64)
    requires
        together(s, r),
        always_acceptable(s, r, article),
        s.article_step(st, article, offset) is Ok,
    ensures
        ({
            let s2 = s.article_step(st, article, offset)->Ok_0.0;
            &&& streamed(r, article_fpdus(s, article)) matches Some((r2, list)) && together(s2, r2)
                && list + waiting(s2, r2) == waiting(s, r).push(article) && r2.params == r.params
        }),
{
    let wire = wire_form(s.compressor, article);
    lemma_packed_is_data(s.packer, wire);
    if !s.sync_due(wire.len()) {
        law_articles_arrive(s, r, article, offset);
        lemma_data_streamed(r, s.packer.pushed_out(wire));
        crate::transfer_laws::lemma_received_keeps(r, s.packer.pushed_out(wire));
    } else {
        let ahead = SenderV { compressor: wire_behind(s.compressor, article), ..s };
        let t = ahead.synced()->Ok_0;
        assert(t == behind_point(s, article));
        // the same point, had the article not been compressed before it
        assert(s.synced() is Ok);
        let u = s.synced()->Ok_0;
        assert(u == SenderV { compressor: wire_synced(s.compressor), ..t });
        lemma_sent_again(s.compressor, article);
        let again = wire_form(t.compressor, article);
        assert(again == wire_form(u.compressor, article));
        let r1 = lemma_point_taken(s, r);
        assert(acceptable(u, r1, article));
        law_articles_arrive(u, r1, article, offset);
        let u1 = SenderV { compressor: wire_behind(u.compressor, article), ..u };
        let t1 = SenderV { compressor: wire_behind(t.compressor, article), ..t };
        assert(u1 == t1);
        lemma_packed_is_data(t.packer, again);
        lemma_data_streamed(r1, t.packer.pushed_out(again));
        crate::transfer_laws::lemma_received_keeps(r1, t.packer.pushed_out(again));
        let before = s.packer.flushed() + seq![
            spec_syn(s.params.peer_id, next_point(s.sync_no)),
        ];
        lemma_streamed_concat(r, before, t.packer.pushed_out(again));
        let (r2, list) = received_all(r1, t.packer.pushed_out(again))->0;
        let s2 = s.article_step(st, article, offset)->Ok_0.0;
        assert(waiting(u, r1).push(article) =~= seq![article]);
        assert((waiting(s, r) + list) + waiting(s2, r2) =~= waiting(s, r) + (list + waiting(
            s2,
            r2,
        )));
        assert(waiting(s, r) + seq![article] =~= waiting(s, r).push(article));
    }
}

// ---- a whole file ----

/// Articles of a file with the offsets at which they end.
pub type Articles = Seq<(Seq<u8>, u64)>;

/// A run of articles sent: the sending side and the protocol state behind it, and its FPDUs;
/// `None` where one of the articles cannot be sent.
pub open spec fn sent_all(s: SenderV, st: State, file: Articles) -> Option<
    (SenderV, State, Seq<FpduV>),
>
    decreases file.len(),
{
    if file.len() == 0 {
        Some((s, st, Seq::empty()))
    } else {
        match s.article_step(st, file[0].0, file[0].1) {
            Err(_) => None,
            Ok((s1, st1, _)) => match sent_all(s1, st1, file.skip(1)) {
                None => None,
                Some((s2, st2, fs)) => Some((s2, st2, article_fpdus(s, file[0].0) + fs)),
            },
        }
    }
}

/// Whether every article of a run is within the limits of a receiver.
pub open spec fn all_acceptable(s: SenderV, st: State, r: ReceiverV, file: Articles) -> bool
    decreases file.len(),
{
    file.len() == 0 || {
        &&& always_acceptable(s, r, file[0].0)
        &&& s.article_step(st, file[0].0, file[0].1) matches Ok((s1, st1, _)) ==> all_acceptable(
            s1,
            st1,
            r,
            file.skip(1),
        )
    }
}

/// The articles of a run.
pub open spec fn contents(file: Articles) -> Seq<Seq<u8>> {
    file.map_values(|a: (Seq<u8>, u64)| a.0)
}

/// The limits of a receiver do not change on the way.
proof fn lemma_same_limits(s: SenderV, st: State, r: ReceiverV, q: ReceiverV, file: Articles)
    requires
        all_acceptable(s, st, r, file),
        q.params == r.params,
        r.decompressor is None <==> q.decompressor is None,
        r.decompressor matches Some(d) ==> q.decompressor->0.max_article == d.max_article,
    ensures
        all_acceptable(s, st, q, file),
    decreases file.len(),
{
    if file.len() > 0 {
        if let Ok((s1, st1, _)) = s.article_step(st, file[0].0, file[0].1) {
            lemma_same_limits(s1, st1, r, q, file.skip(1));
        }
    }
}

/// A run of articles arrives, with all the synchronisation points that fall into it: what the
/// receiver gets, and what still waits behind it, is what waited before and the articles of the
/// run in their order, and both ends are together again.
#[verifier::rlimit(60)]
pub proof fn law_runs_arrive(s: SenderV, r: ReceiverV, st: State, file: Articles)
    requires
        together(s, r),
        all_acceptable(s, st, r, file),
        sent_all(s, st, file) is Some,
    ensures
        ({
            let (s2, _, fs) = sent_all(s, st, file)->0;
            &&& streamed(r, fs) matches Some((r2, list)) && together(s2, r2) && list + waiting(
                s2,
                r2,
            ) == waiting(s, r) + contents(file)
        }),
    decreases file.len(),
{
    if file.len() == 0 {
        assert(contents(file) =~= Seq::<Seq<u8>>::empty());
        assert(Seq::<Seq<u8>>::empty() + waiting(s, r) =~= waiting(s, r) + contents(file));
    } else {
        let (article, offset) = file[0];
        let (s1, st1, _) = s.article_step(st, article, offset)->Ok_0;
        law_steps_arrive(s, r, st, article, offset);
        let head = article_fpdus(s, article);
        let (r1, first) = streamed(r, head)->0;
        lemma_streamed_limits(r, head);
        lemma_same_limits(s1, st1, r, r1, file.skip(1));
        law_runs_arrive(s1, r1, st1, file.skip(1));
        lemma_run_grows(s, r, st, file, waiting(s, r));
    }
}

/// A run arrives where its first article does, and the rest behind it.
proof fn lemma_run_grows(s: SenderV, r: ReceiverV, st: State, file: Articles, w: Seq<Seq<u8>>)
    requires
        file.len() > 0,
        sent_all(s, st, file) is Some,
        streamed(r, article_fpdus(s, file[0].0)) is Some,
        ({
            let (s1, st1, _) = s.article_step(st, file[0].0, file[0].1)->Ok_0;
            let (r1, first) = streamed(r, article_fpdus(s, file[0].0))->0;
            let (s2, _, fs) = sent_all(s1, st1, file.skip(1))->0;
            &&& first + waiting(s1, r1) == w.push(file[0].0)
            &&& streamed(r1, fs) matches Some((r2, rest)) && together(s2, r2) && rest + waiting(
                s2,
                r2,
            ) == waiting(s1, r1) + contents(file.skip(1))
        }),
    ensures
        ({
            let (s2, _, fs) = sent_all(s, st, file)->0;
            &&& streamed(r, fs) matches Some((r2, list)) && together(s2, r2) && list + waiting(
                s2,
                r2,
            ) == w + contents(file)
        }),
{
    let (article, offset) = file[0];
    let (s1, st1, _) = s.article_step(st, article, offset)->Ok_0;
    let head = article_fpdus(s, article);
    let (r1, first) = streamed(r, head)->0;
    let (s2, _, fs) = sent_all(s1, st1, file.skip(1))->0;
    let (r2, rest) = streamed(r1, fs)->0;
    lemma_streamed_concat(r, head, fs);
    assert(contents(file) =~= seq![article] + contents(file.skip(1)));
    lemma_joined(
        first,
        rest,
        w,
        waiting(s1, r1),
        waiting(s2, r2),
        article,
        contents(file.skip(1)),
    );
}

proof fn lemma_joined(
    first: Seq<Seq<u8>>,
    rest: Seq<Seq<u8>>,
    w0: Seq<Seq<u8>>,
    w1: Seq<Seq<u8>>,
    w2: Seq<Seq<u8>>,
    article: Seq<u8>,
    tail: Seq<Seq<u8>>,
)
    requires
        first + w1 == w0.push(article),
        rest + w2 == w1 + tail,
    ensures
        (first + rest) + w2 == w0 + (seq![article] + tail),
{
    assert((first + rest) + w2 =~= first + (rest + w2));
    assert(first + (w1 + tail) =~= (first + w1) + tail);
    assert(w0.push(article) + tail =~= w0 + (seq![article] + tail));
}

proof fn lemma_streamed_limits(r: ReceiverV, fs: Seq<FpduV>)
    ensures
        streamed(r, fs) matches Some((q, _)) ==> {
            &&& q.params == r.params
            &&& r.decompressor is None <==> q.decompressor is None
            &&& r.decompressor matches Some(d) ==> q.decompressor->0.max_article == d.max_article
        },
    decreases fs.len(),
{
    if fs.len() > 0 && streamed(r, fs) is Some {
        if fs[0].kind == FpduKind::Syn {
            lemma_streamed_limits(at_point(r, fs[0]), fs.skip(1));
        } else {
            let (partial, got) = fed(r.partial, r.params.max_article as nat, fs[0]);
            let r0 = ReceiverV { partial, ..r };
            crate::transfer_laws::lemma_taken_limit(r0, got->Ok_0);
            crate::transfer_laws::lemma_taken_keeps(r0, got->Ok_0, partial);
            lemma_streamed_limits(taken(r0, got->Ok_0).0, fs.skip(1));
        }
    }
}

/// The last flush behind a run: nothing waits any more, and both ends have counted alike.
proof fn lemma_run_ends(s: SenderV, r: ReceiverV, fs: Seq<FpduV>, s2: SenderV, file: Articles)
    requires
        streamed(r, fs) matches Some((r1, list)) && together(s2, r1) && list + waiting(s2, r1)
            == contents(file),
    ensures
        streamed(r, fs + s2.packer.flushed()) matches Some((r2, list)) && list == contents(file)
            && r2.articles == s2.articles && r2.data_bytes == s2.data_bytes && r2.last_sync
            == s2.sync_no,
{
    let (r1, list) = streamed(r, fs)->0;
    law_nothing_waits_behind_a_flush(s2, r1);
    lemma_packed_is_data(s2.packer, Seq::empty());
    lemma_data_streamed(r1, s2.packer.flushed());
    crate::transfer_laws::lemma_received_keeps(r1, s2.packer.flushed());
    lemma_streamed_concat(r, fs, s2.packer.flushed());
}

/// A file arrives: from the same checkpoint and with the same limits, the receiver gets from all
/// the FPDUs of the file, down to the last flush, exactly its articles in their order. Both ends
/// have then counted the same articles and the same bytes, behind the same synchronisation point.
pub proof fn law_files_arrive(
    s: SenderV,
    r: ReceiverV,
    start: Checkpoint,
    st: State,
    file: Articles,
)
    requires
        s == SenderV::starting(s.params, start),
        r == ReceiverV::starting(r.params, start),
        s.params.compression == r.params.compression,
        s.params.max_article == r.params.max_article,
        s.packer.max_dtf_len <= 0xFFFF,
        all_acceptable(s, st, r, file),
        sent_all(s, st, file) is Some,
    ensures
        ({
            let (s2, _, fs) = sent_all(s, st, file)->0;
            &&& streamed(r, fs + s2.packer.flushed()) matches Some((r2, list)) && list == contents(
                file,
            ) && r2.articles == s2.articles && r2.data_bytes == s2.data_bytes && r2.last_sync
                == s2.sync_no
        }),
{
    law_both_ends_start_in_step(s, r, start);
    law_runs_arrive(s, r, st, file);
    let (s2, _, fs) = sent_all(s, st, file)->0;
    assert(waiting(s, r) + contents(file) =~= contents(file));
    lemma_run_ends(s, r, fs, s2, file);
}

/// A resynchronisation brings both ends together again, whatever was under way at either of them:
/// they stand behind the same point, and nothing waits.
pub proof fn law_resynchronised_ends_are_together(s: SenderV, r: ReceiverV, cp: Checkpoint)
    requires
        s.packer.inv(),
        s.packer.max_dtf_len <= 0xFFFF,
        compression_in_step(s, r),
    ensures
        together(s.rewound(cp), r.rewound(cp)),
        waiting(s.rewound(cp), r.rewound(cp)).len() == 0,
{
}

/// The articles behind a resynchronisation arrive where the first one is a full one.
proof fn lemma_run_begins_afresh(t: SenderV, u: ReceiverV, st: State, file: Articles)
    requires
        t.packer.inv(),
        t.packer.max_dtf_len <= 0xFFFF,
        t.packer.pending.len() == 0,
        t.since_sync == 0,
        t.sync_no == u.last_sync,
        u.partial is None,
        u.data_bytes == t.data_bytes,
        u.articles == t.articles,
        file.len() > 0,
        begins_afresh(t, u, file[0].0),
        all_acceptable(t, st, u, file),
        sent_all(t, st, file) is Some,
    ensures
        ({
            let (s2, _, fs) = sent_all(t, st, file)->0;
            &&& streamed(u, fs) matches Some((r2, list)) && together(s2, r2) && list + waiting(
                s2,
                r2,
            ) == contents(file)
        }),
{
    let (article, offset) = file[0];
    let (s1, st1, _) = t.article_step(st, article, offset)->Ok_0;
    let head = article_fpdus(t, article);
    lemma_step_begins_afresh(t, u, st, article, offset);
    let (u1, first) = streamed(u, head)->0;
    lemma_streamed_limits(u, head);
    lemma_same_limits(s1, st1, u, u1, file.skip(1));
    law_runs_arrive(s1, u1, st1, file.skip(1));
    lemma_run_grows(t, u, st, file, Seq::empty());
    assert(Seq::<Seq<u8>>::empty() + contents(file) =~= contents(file));
}

proof fn lemma_step_begins_afresh(
    t: SenderV,
    u: ReceiverV,
    st: State,
    article: Seq<u8>,
    offset: u64,
)
    requires
        t.packer.inv(),
        t.packer.max_dtf_len <= 0xFFFF,
        t.packer.pending.len() == 0,
        t.since_sync == 0,
        t.sync_no == u.last_sync,
        u.partial is None,
        u.data_bytes == t.data_bytes,
        u.articles == t.articles,
        begins_afresh(t, u, article),
        acceptable(t, u, article),
        t.article_step(st, article, offset) is Ok,
    ensures
        ({
            let s1 = t.article_step(st, article, offset)->Ok_0.0;
            &&& streamed(u, article_fpdus(t, article)) matches Some((u1, first)) && together(s1, u1)
                && first + waiting(s1, u1) == Seq::<Seq<u8>>::empty().push(article)
        }),
{
    let wire = wire_form(t.compressor, article);
    let head = t.packer.pushed_out(wire);
    law_full_articles_begin_afresh(t, u, article, offset);
    lemma_packed_is_data(t.packer, wire);
    lemma_data_streamed(u, head);
    crate::transfer_laws::lemma_received_keeps(u, head);
    assert(waiting(t, u) =~= Seq::<Seq<u8>>::empty());
}

/// The rest of a file arrives behind a resynchronisation: from the checkpoint that both ends went
/// back to, the receiver gets exactly the articles that are sent from there, in their order, and
/// both ends count and synchronise alike. Without compression this always holds; with it, where
/// the references agree, or where the first article is a full one.
pub proof fn law_resynchronised_files_arrive(
    s: SenderV,
    r: ReceiverV,
    cp: Checkpoint,
    st: State,
    file: Articles,
)
    requires
        s.packer.inv(),
        s.packer.max_dtf_len <= 0xFFFF,
        compression_in_step(s, r) || file.len() > 0 && begins_afresh(
            s.rewound(cp),
            r.rewound(cp),
            file[0].0,
        ),
        all_acceptable(s.rewound(cp), st, r.rewound(cp), file),
        sent_all(s.rewound(cp), st, file) is Some,
    ensures
        ({
            let (s2, _, fs) = sent_all(s.rewound(cp), st, file)->0;
            &&& streamed(r.rewound(cp), fs + s2.packer.flushed()) matches Some((r2, list)) && list
                == contents(file) && r2.articles == s2.articles && r2.data_bytes == s2.data_bytes
                && r2.last_sync == s2.sync_no
        }),
{
    let t = s.rewound(cp);
    let u = r.rewound(cp);
    let (s2, _, fs) = sent_all(t, st, file)->0;
    if compression_in_step(s, r) {
        law_resynchronised_ends_are_together(s, r, cp);
        law_runs_arrive(t, u, st, file);
        assert(waiting(t, u) + contents(file) =~= contents(file));
    } else {
        lemma_run_begins_afresh(t, u, st, file);
    }
    lemma_run_ends(t, u, fs, s2, file);
}

} // verus!
