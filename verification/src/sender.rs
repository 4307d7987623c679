//! The sending side of the data phase: articles go out as DTF FPDUs with synchronisation points
//! between them, acknowledgements open the window, and the peer may ask to go back to an earlier
//! point or interrupt.

use crate::article::{ArticlePacker, PackerV};
use crate::builder;
use crate::builder::{diag_fpdu, spec_ack_resyn, spec_syn};
use crate::checkpoint::{Checkpoint, CheckpointStore, CheckpointsV, MemoryCheckpoints};
use crate::compress::{compressed, padded, reference_after, Compressor, Mode};
use crate::crc::CRC_LEN;
use crate::datapath::{
    apply_local, apply_received, local_step, received_step, DataEnd, DataParams, DataResult,
    Outbox, OutboxV, Progress, DEFAULT_SYNC_INTERVAL,
};
use crate::diag::Diagnostic;
use crate::error::{SessionError, SessionErrorV};
use crate::exchange::state_behind;
use crate::fpdu::{EncodeError, Fpdu, FpduV, HEADER_LEN};
use crate::frame::EntityV;
use crate::io::{capped, Position};
use crate::kind::FpduKind;
use crate::params::{Compression, EndCode, FpduExt};
use crate::pi::Pi;
use crate::state::{LocalEvent, Machine, State};
use std::collections::VecDeque;
use vstd::prelude::*;

verus! {

/// State of a compressor.
#[verifier::ext_equal]
pub struct CompressorV {
    /// Negotiated compression.
    pub compression: Compression,
    /// Reference article.
    pub reference: Seq<u8>,
    /// Whether the next article is sent literal.
    pub after_sync: bool,
}

impl CompressorV {
    /// Wire form of an article.
    pub open spec fn wire(self, article: Seq<u8>) -> Seq<u8> {
        compressed(
            if self.after_sync {
                Mode::Literal
            } else {
                Mode::of(self.compression)
            },
            article,
            padded(self.reference, article.len()),
        )
    }

    /// State behind an article.
    pub open spec fn behind(self, article: Seq<u8>) -> CompressorV {
        CompressorV {
            reference: reference_after(self.reference, article),
            after_sync: false,
            ..self
        }
    }
}

/// State of a compressor.
pub open spec fn compressor_view(c: Option<Compressor>) -> Option<CompressorV> {
    match c {
        Some(c) => Some(
            CompressorV {
                compression: c.spec_compression(),
                reference: c.spec_reference(),
                after_sync: c.spec_after_sync(),
            },
        ),
        None => None,
    }
}

/// Wire form of an article under an optional compression.
pub open spec fn wire_form(c: Option<CompressorV>, article: Seq<u8>) -> Seq<u8> {
    match c {
        Some(c) => c.wire(article),
        None => article,
    }
}

/// State of an optional compression behind an article.
pub open spec fn wire_behind(c: Option<CompressorV>, article: Seq<u8>) -> Option<CompressorV> {
    match c {
        Some(c) => Some(c.behind(article)),
        None => None,
    }
}

/// State of an optional compression behind a synchronisation point.
pub open spec fn wire_synced(c: Option<CompressorV>) -> Option<CompressorV> {
    match c {
        Some(c) => Some(CompressorV { after_sync: true, ..c }),
        None => None,
    }
}

/// Unacknowledged points once point `n` was acknowledged: all points up to `n` at the front leave.
pub open spec fn still_unacked(unacked: Seq<u32>, n: u32) -> Seq<u32>
    decreases unacked.len(),
{
    if unacked.len() > 0 && unacked[0] <= n {
        still_unacked(unacked.skip(1), n)
    } else {
        unacked
    }
}

/// State of the sending side.
#[verifier::ext_equal]
pub struct SenderV {
    /// Negotiated parameters.
    pub params: DataParams,
    /// Articles that wait for a FPDU.
    pub packer: PackerV,
    /// Entities.
    pub out: OutboxV,
    /// Compression in use.
    pub compressor: Option<CompressorV>,
    /// Data bytes sent.
    pub data_bytes: u64,
    /// Articles sent.
    pub articles: u64,
    /// Last synchronisation point.
    pub sync_no: u32,
    /// Data bytes since the last synchronisation point.
    pub since_sync: u64,
    /// Synchronisation points without an acknowledgement.
    pub unacked: Seq<u32>,
    /// Offset in the file behind the last article.
    pub offset: u64,
}

/// Interval between synchronisation points in bytes, where there are any.
pub open spec fn sync_interval(params: DataParams) -> Option<u64> {
    if !params.sync.enabled() {
        None
    } else {
        match params.sync.interval_bytes() {
            Some(n) => Some(n),
            None => Some(DEFAULT_SYNC_INTERVAL),
        }
    }
}

/// Largest DTF: the entity size less the check bytes, with room for one byte at least.
pub open spec fn largest_dtf(params: DataParams) -> nat {
    let cost = if params.crc {
        CRC_LEN as int
    } else {
        0
    };
    let n = params.max_entity - cost;
    if n <= HEADER_LEN {
        HEADER_LEN as nat + 1
    } else {
        n as nat
    }
}

/// Number of the synchronisation point behind `n`.
pub open spec fn next_point(n: u32) -> u32 {
    if n < u32::MAX {
        (n + 1) as u32
    } else {
        n
    }
}

impl SenderV {
    /// The sending side at the start of a transfer, or of its restart from a checkpoint.
    pub open spec fn starting(params: DataParams, start: Checkpoint) -> SenderV {
        SenderV {
            params,
            packer: PackerV {
                id_dst: params.peer_id,
                max_dtf_len: largest_dtf(params),
                multi_article: params.multi_article,
                pending: Seq::empty(),
            },
            out: OutboxV {
                entity: EntityV {
                    bytes: Seq::empty(),
                    max_len: params.max_entity as nat,
                    crc: params.crc,
                    count: 0,
                },
                ready: Seq::empty(),
            },
            compressor: if params.compression == Compression::Off {
                None
            } else {
                Some(
                    CompressorV {
                        compression: params.compression,
                        reference: Seq::new(
                            (if params.max_article == 0 {
                                1
                            } else {
                                params.max_article
                            }) as nat,
                            |i: int| 0u8,
                        ),
                        after_sync: true,
                    },
                )
            },
            data_bytes: start.data_bytes,
            articles: start.articles,
            sync_no: start.sync,
            since_sync: 0,
            unacked: Seq::empty(),
            offset: start.file_offset,
        }
    }

    /// Whether nothing may be sent before the peer acknowledges a synchronisation point.
    pub open spec fn window_full(self) -> bool {
        self.params.sync.window > 0 && self.unacked.len() >= self.params.sync.window
    }

    /// Whether a synchronisation point is due before an article of `n` bytes on the wire.
    pub open spec fn sync_due(self, n: nat) -> bool {
        sync_interval(self.params) matches Some(iv) && self.since_sync > 0 && self.since_sync + n
            > iv
    }

    /// The sending side behind a synchronisation point, with its entity ready.
    pub open spec fn synced(self) -> Result<SenderV, EncodeError> {
        let n = next_point(self.sync_no);
        match self.out.queued_all(self.packer.flushed()) {
            Err(e) => Err(e),
            Ok(o1) => match o1.queued(spec_syn(self.params.peer_id, n)) {
                Err(e) => Err(e),
                Ok(o2) => Ok(
                    SenderV {
                        packer: PackerV { pending: Seq::empty(), ..self.packer },
                        out: o2.shipped(),
                        compressor: wire_synced(self.compressor),
                        sync_no: n,
                        since_sync: 0,
                        unacked: if self.params.sync.window > 0 {
                            self.unacked.push(n)
                        } else {
                            self.unacked
                        },
                        ..self
                    },
                ),
            },
        }
    }

    /// Checkpoint that a synchronisation point stands for.
    pub open spec fn sync_checkpoint(self) -> Checkpoint {
        Checkpoint {
            sync: next_point(self.sync_no),
            file_offset: self.offset,
            data_bytes: self.data_bytes,
            articles: self.articles,
        }
    }

    /// The sending side behind the wire form of an article which ends at `offset` in the file.
    pub open spec fn sent(self, wire: Seq<u8>, offset: u64) -> Result<SenderV, EncodeError> {
        match self.out.queued_all(self.packer.pushed_out(wire)) {
            Err(e) => Err(e),
            Ok(o) => Ok(
                SenderV {
                    packer: PackerV { pending: self.packer.pushed_pending(wire), ..self.packer },
                    out: if o.entity.fits(HEADER_LEN as nat + 1) {
                        o
                    } else {
                        o.shipped()
                    },
                    data_bytes: capped(self.data_bytes, wire.len()),
                    articles: capped(self.articles, 1),
                    since_sync: capped(self.since_sync, wire.len()),
                    offset,
                    ..self
                },
            ),
        }
    }

    /// Behind an article: the sending side, the protocol state and the checkpoint to record.
    pub open spec fn article_step(self, st: State, article: Seq<u8>, offset: u64) -> Result<
        (SenderV, State, Option<Checkpoint>),
        SessionErrorV,
    > {
        let wire = wire_form(self.compressor, article);
        let s1 = SenderV { compressor: wire_behind(self.compressor, article), ..self };
        if !self.sync_due(wire.len()) {
            finished_article(s1, st, wire, offset, None)
        } else {
            match s1.synced() {
                Err(e) => Err(SessionErrorV::Negotiation(e.spec_text())),
                Ok(s2) => match local_step(st, LocalEvent::Sync) {
                    Err(e) => Err(e),
                    Ok(st2) => finished_article(
                        SenderV { compressor: wire_behind(s2.compressor, article), ..s2 },
                        st2,
                        wire_form(s2.compressor, article),
                        offset,
                        Some(s1.sync_checkpoint()),
                    ),
                },
            }
        }
    }

    /// Where an article ends in an error: the protocol state, and the checkpoint that was recorded
    /// before.
    pub open spec fn article_fault(self, st: State, article: Seq<u8>) -> (
        State,
        Option<Checkpoint>,
    ) {
        let wire = wire_form(self.compressor, article);
        let s1 = SenderV { compressor: wire_behind(self.compressor, article), ..self };
        if self.sync_due(wire.len()) && s1.synced() is Ok {
            match local_step(st, LocalEvent::Sync) {
                Ok(st2) => (st2, Some(s1.sync_checkpoint())),
                Err(_) => (st, None),
            }
        } else {
            (st, None)
        }
    }

    /// The sending side where a FPDU of the waiting articles has no wire form.
    pub open spec fn flush_left(self) -> SenderV {
        SenderV {
            packer: PackerV { pending: Seq::empty(), ..self.packer },
            out: self.out.left_all(self.packer.flushed()),
            ..self
        }
    }

    /// The sending side where a synchronisation point fails.
    pub open spec fn sync_left(self) -> SenderV {
        let n = next_point(self.sync_no);
        match self.out.queued_all(self.packer.flushed()) {
            Err(_) => self.flush_left(),
            Ok(o) => SenderV {
                packer: PackerV { pending: Seq::empty(), ..self.packer },
                out: o.left(spec_syn(self.params.peer_id, n)),
                sync_no: n,
                ..self
            },
        }
    }

    /// The sending side where a FPDU of an article has no wire form.
    pub open spec fn sent_left(self, wire: Seq<u8>) -> SenderV {
        SenderV {
            packer: PackerV { pending: self.packer.pushed_pending(wire), ..self.packer },
            out: self.out.left_all(self.packer.pushed_out(wire)),
            ..self
        }
    }

    /// The sending side behind an article on the wire, be it sent or not.
    pub open spec fn sent_or_left(self, wire: Seq<u8>, offset: u64) -> SenderV {
        match self.sent(wire, offset) {
            Ok(s) => s,
            Err(_) => self.sent_left(wire),
        }
    }

    /// The sending side that an article leaves where it ends in an error.
    pub open spec fn article_left(self, st: State, article: Seq<u8>, offset: u64) -> SenderV {
        let wire = wire_form(self.compressor, article);
        let s1 = SenderV { compressor: wire_behind(self.compressor, article), ..self };
        if !self.sync_due(wire.len()) {
            s1.sent_or_left(wire, offset)
        } else {
            match s1.synced() {
                Err(_) => s1.sync_left(),
                Ok(s2) => if local_step(st, LocalEvent::Sync) is Err {
                    s2
                } else {
                    (SenderV { compressor: wire_behind(s2.compressor, article), ..s2 }).sent_or_left(
                        wire_form(s2.compressor, article),
                        offset,
                    )
                },
            }
        }
    }

    /// The sending side at the end of the file, be everything out or not.
    pub open spec fn end_left(self) -> SenderV {
        let end = diag_fpdu(FpduKind::DtfEnd, self.params.peer_id, 0, Diagnostic::ok());
        match self.out.queued_all(self.packer.flushed()) {
            Err(_) => self.flush_left(),
            Ok(o) => SenderV {
                packer: PackerV { pending: Seq::empty(), ..self.packer },
                out: match o.queued(end) {
                    Ok(o2) => o2.shipped(),
                    Err(_) => o.left(end),
                },
                ..self
            },
        }
    }

    /// At the end of the file: the sending side and the protocol state.
    pub open spec fn end_step(self, st: State) -> Result<(SenderV, State), SessionErrorV> {
        match self.out.queued_all(self.packer.flushed()) {
            Err(e) => Err(SessionErrorV::Negotiation(e.spec_text())),
            Ok(o1) => match o1.queued(
                diag_fpdu(FpduKind::DtfEnd, self.params.peer_id, 0, Diagnostic::ok()),
            ) {
                Err(e) => Err(SessionErrorV::Negotiation(e.spec_text())),
                Ok(o2) => match local_step(st, LocalEvent::DataEnd) {
                    Err(e) => Err(e),
                    Ok(st2) => Ok(
                        (
                            SenderV {
                                packer: PackerV { pending: Seq::empty(), ..self.packer },
                                out: o2.shipped(),
                                ..self
                            },
                            st2,
                        ),
                    ),
                },
            },
        }
    }

    /// The sending side taken back to a checkpoint: everything not yet written is dropped.
    pub open spec fn rewound(self, cp: Checkpoint) -> SenderV {
        SenderV {
            packer: PackerV { pending: Seq::empty(), ..self.packer },
            out: OutboxV {
                entity: EntityV { bytes: Seq::empty(), count: 0, ..self.out.entity },
                ready: self.out.ready,
            },
            compressor: wire_synced(self.compressor),
            data_bytes: cp.data_bytes,
            articles: cp.articles,
            sync_no: cp.sync,
            since_sync: 0,
            unacked: Seq::empty(),
            offset: cp.file_offset,
            ..self
        }
    }

    /// Outcome of the data phase.
    pub open spec fn result(self, end: DataEnd) -> DataResult {
        DataResult {
            end,
            data_bytes: self.data_bytes,
            articles: self.articles,
            last_sync: self.sync_no,
        }
    }
}

/// The last part of an article step.
pub open spec fn finished_article(
    s: SenderV,
    st: State,
    wire: Seq<u8>,
    offset: u64,
    cp: Option<Checkpoint>,
) -> Result<(SenderV, State, Option<Checkpoint>), SessionErrorV> {
    match s.sent(wire, offset) {
        Err(e) => Err(SessionErrorV::Negotiation(e.spec_text())),
        Ok(s2) => match local_step(st, LocalEvent::SendData) {
            Err(e) => Err(e),
            Ok(st2) => Ok((s2, st2, cp)),
        },
    }
}

/// What to do with a FPDU received while sending.
#[derive(Debug, PartialEq, Eq)]
pub enum SendStep {
    /// Go on.
    Continue,
    /// Send this ACK(RESYN), take the source back to this position, and go on.
    Rewind(Fpdu, Position),
    /// Send this ACK(IDT); the data phase is over.
    Interrupted(Fpdu, DataEnd),
}

/// What a FPDU received while sending asks for.
#[verifier::ext_equal]
pub enum SendStepV {
    /// Go on.
    Continue,
    /// Acknowledge and take the source back.
    Rewind(FpduV, Position),
    /// Acknowledge and stop.
    Interrupted(FpduV, DataEnd),
}

impl View for SendStep {
    type V = SendStepV;

    open spec fn view(&self) -> SendStepV {
        match self {
            SendStep::Continue => SendStepV::Continue,
            SendStep::Rewind(f, p) => SendStepV::Rewind(f@, *p),
            SendStep::Interrupted(f, e) => SendStepV::Interrupted(f@, *e),
        }
    }
}

/// Number of a parameter, or zero.
pub open spec fn point_or_zero(n: Option<u32>) -> u32 {
    match n {
        Some(x) => x,
        None => 0,
    }
}

/// End of a data phase that the peer interrupted.
pub open spec fn interrupted_by(f: FpduV) -> DataEnd {
    DataEnd::Interrupted {
        code: match f.end_code() {
            Some(c) => c,
            None => EndCode::Other(0),
        },
        diag: f.diag_or_ok(),
        by_peer: true,
    }
}

impl SenderV {
    /// Behind a FPDU of the peer: the sending side, the protocol state, the checkpoints, and what
    /// is asked for.
    pub open spec fn fpdu_step(self, st: State, f: FpduV, store: CheckpointsV) -> Result<
        (SenderV, State, CheckpointsV, SendStepV),
        SessionErrorV,
    > {
        match received_step(st, f) {
            Err(e) => Err(e),
            Ok(st1) => match f.kind {
                FpduKind::AckSyn => {
                    let n = point_or_zero(f.number32(Pi::SyncNumber));
                    Ok(
                        (
                            SenderV { unacked: still_unacked(self.unacked, n), ..self },
                            st1,
                            store.after_acknowledge(n),
                            SendStepV::Continue,
                        ),
                    )
                },
                FpduKind::Resyn => if !self.params.resync {
                    Err(
                        SessionErrorV::Negotiation(
                            "RESYN received but resynchronisation was not negotiated"@,
                        ),
                    )
                } else {
                    let cp = store.at_or_beginning(
                        point_or_zero(f.number32(Pi::RestartPoint)),
                    );
                    match local_step(st1, LocalEvent::Accept) {
                        Err(e) => Err(e),
                        Ok(st2) => Ok(
                            (
                                self.rewound(cp),
                                st2,
                                store,
                                SendStepV::Rewind(
                                    spec_ack_resyn(self.params.peer_id, cp.sync),
                                    Position::spec_of(cp),
                                ),
                            ),
                        ),
                    }
                },
                FpduKind::Idt => match local_step(st1, LocalEvent::Accept) {
                    Err(e) => Err(e),
                    Ok(st2) => Ok(
                        (
                            SenderV {
                                out: OutboxV {
                                    entity: EntityV {
                                        bytes: Seq::empty(),
                                        count: 0,
                                        ..self.out.entity
                                    },
                                    ready: self.out.ready,
                                },
                                ..self
                            },
                            st2,
                            store,
                            SendStepV::Interrupted(
                                FpduV::between(FpduKind::AckIdt, self.params.peer_id, 0),
                                interrupted_by(f),
                            ),
                        ),
                    ),
                },
                _ => Ok((self, st1, store, SendStepV::Continue)),
            },
        }
    }
}

/// What the sending side does next.
#[derive(Debug, Clone, Copy, PartialEq, Eq, Structural)]
pub enum SendNeed {
    /// Interrupt the transfer: it was cancelled.
    Stop,
    /// The next article of the file.
    Article,
    /// A FPDU of the peer: the acknowledgement window is full.
    Acknowledgement,
}

/// The sending side of a data transfer.
#[derive(Debug)]
pub struct DataSender {
    params: DataParams,
    packer: ArticlePacker,
    out: Outbox,
    compressor: Option<Compressor>,
    data_bytes: u64,
    articles: u64,
    sync_no: u32,
    since_sync: u64,
    unacked: VecDeque<u32>,
    offset: u64,
}

impl View for DataSender {
    type V = SenderV;

    closed spec fn view(&self) -> SenderV {
        SenderV {
            params: self.params,
            packer: self.packer@,
            out: self.out@,
            compressor: compressor_view(self.compressor),
            data_bytes: self.data_bytes,
            articles: self.articles,
            sync_no: self.sync_no,
            since_sync: self.since_sync,
            unacked: self.unacked@,
            offset: self.offset,
        }
    }
}

fn negotiation<T>(r: Result<T, EncodeError>) -> (s: Result<T, SessionError>)
    ensures
        match r {
            Ok(t) => s == Ok::<T, SessionError>(t),
            Err(e) => s is Err && s->Err_0@ == SessionErrorV::Negotiation(e.spec_text()),
        },
{
    match r {
        Ok(t) => Ok(t),
        Err(e) => Err(SessionError::Negotiation(e.text())),
    }
}

impl DataSender {
    /// Start sending behind the checkpoint `start`; the source is to be taken to its position.
    #[must_use]
    pub fn new(params: DataParams, start: Checkpoint) -> (r: Self)
        ensures
            r@ == SenderV::starting(params, start),
    {
        let cost: usize = if params.crc {
            CRC_LEN
        } else {
            0
        };
        let compressor = if params.compression == Compression::Off {
            None
        } else {
            Some(Compressor::new(params.compression, params.max_article))
        };
        let r = DataSender {
            params,
            packer: ArticlePacker::new(
                params.peer_id,
                params.max_entity.saturating_sub(cost),
                params.multi_article,
            ),
            out: Outbox::new(params.max_entity, params.crc),
            compressor,
            data_bytes: start.data_bytes,
            articles: start.articles,
            sync_no: start.sync,
            since_sync: 0,
            unacked: VecDeque::new(),
            offset: start.file_offset,
        };
        proof {
            assert(r@ =~= SenderV::starting(params, start));
        }
        r
    }

    /// What the sending side does next, once the FPDUs that have arrived are dealt with: a
    /// cancellation comes before anything else, and no article is sent while the window is full.
    #[must_use]
    pub fn need(&self, cancelled: bool) -> (r: SendNeed)
        ensures
            r == if cancelled {
                SendNeed::Stop
            } else if self@.window_full() {
                SendNeed::Acknowledgement
            } else {
                SendNeed::Article
            },
    {
        if cancelled {
            SendNeed::Stop
        } else if self.params.sync.window > 0 && self.unacked.len() >= self.params.sync.window as usize {
            SendNeed::Acknowledgement
        } else {
            SendNeed::Article
        }
    }

    /// Wire form of an article.
    fn compress(&mut self, article: &[u8]) -> (r: Vec<u8>)
        ensures
            r@ == wire_form(old(self)@.compressor, article@),
            final(self)@ == (SenderV {
                compressor: wire_behind(old(self)@.compressor, article@),
                ..old(self)@
            }),
    {
        match &mut self.compressor {
            Some(c) => c.compress(article),
            None => crate::fpdu::bytes_to_vec(article),
        }
    }

    /// Note a synchronisation point in the compressor.
    fn mark_sync(&mut self)
        ensures
            final(self)@ == (SenderV {
                compressor: wire_synced(old(self)@.compressor),
                ..old(self)@
            }),
    {
        match &mut self.compressor {
            Some(c) => {
                c.sync_point();
            },
            None => {},
        }
    }

    /// Queue the FPDU of the waiting articles.
    fn flush_packer(&mut self) -> (r: Result<(), EncodeError>)
        ensures
            match old(self)@.out.queued_all(old(self)@.packer.flushed()) {
                Ok(o) => r is Ok && final(self)@ == (SenderV {
                    packer: PackerV { pending: Seq::empty(), ..old(self)@.packer },
                    out: o,
                    ..old(self)@
                }),
                Err(e) => r == Err::<(), EncodeError>(e) && final(self)@ == old(self)@.flush_left(),
            },
    {
        match self.packer.flush() {
            None => {
                proof {
                    assert(old(self)@.packer.pending =~= Seq::empty());
                }
                Ok(())
            },
            Some(f) => {
                proof {
                    let fs = seq![f@];
                    assert(fs.drop_last() =~= Seq::empty());
                    assert(self.out@.queued_all(fs.drop_last()) == Ok::<_, EncodeError>(self.out@));
                }
                self.out.queue(&f)
            },
        }
    }

    /// Emit a synchronisation point.
    fn sync_point(&mut self) -> (r: Result<(), EncodeError>)
        ensures
            match old(self)@.synced() {
                Ok(s) => r is Ok && final(self)@ == s,
                Err(e) => r == Err::<(), EncodeError>(e) && final(self)@ == old(self)@.sync_left(),
            },
    {
        match self.flush_packer() {
            Ok(()) => {},
            Err(e) => {
                return Err(e);
            },
        }
        self.sync_no = self.sync_no.saturating_add(1);
        let syn = builder::syn(self.params.peer_id, self.sync_no);
        match self.out.queue(&syn) {
            Ok(()) => {},
            Err(e) => {
                return Err(e);
            },
        }
        self.out.ship();
        if self.params.sync.window > 0 {
            self.unacked.push_back(self.sync_no);
        }
        self.since_sync = 0;
        self.mark_sync();
        Ok(())
    }

    /// Send one article on the wire.
    fn send_wire(&mut self, wire: &[u8], offset: u64) -> (r: Result<(), EncodeError>)
        ensures
            match old(self)@.sent(wire@, offset) {
                Ok(s) => r is Ok && final(self)@ == s,
                Err(e) => r == Err::<(), EncodeError>(e) && final(self)@ == old(self)@.sent_left(
                    wire@,
                ),
            },
    {
        let fpdus = self.packer.push(wire);
        match self.out.queue_all(&fpdus) {
            Ok(()) => {},
            Err(e) => {
                return Err(e);
            },
        }
        self.out.ship_if_full();
        self.data_bytes = self.data_bytes.saturating_add(wire.len() as u64);
        self.articles = self.articles.saturating_add(1);
        self.since_sync = self.since_sync.saturating_add(wire.len() as u64);
        self.offset = offset;
        Ok(())
    }

    /// Take the next article of the file, which ends at `offset`. The entities that became ready
    /// are to be written; where a synchronisation point went out before the article, its
    /// checkpoint is recorded.
    pub fn on_article(
        &mut self,
        machine: &mut Machine,
        article: &[u8],
        offset: u64,
        store: &mut MemoryCheckpoints,
    ) -> (r: Result<(), SessionError>)
        ensures
            final(machine).spec_role() == old(machine).spec_role(),
            match old(self)@.article_step(old(machine).spec_state(), article@, offset) {
                Ok((s, st, cp)) => {
                    &&& r is Ok
                    &&& final(self)@ == s
                    &&& final(machine).spec_state() == st
                    &&& final(store)@ == match cp {
                        Some(c) => old(store)@.recorded(c),
                        None => old(store)@,
                    }
                },
                Err(e) => {
                    let (st, cp) = old(self)@.article_fault(old(machine).spec_state(), article@);
                    &&& r is Err
                    &&& r->Err_0@ == e
                    &&& final(self)@ == old(self)@.article_left(
                        old(machine).spec_state(),
                        article@,
                        offset,
                    )
                    &&& final(machine).spec_state() == st
                    &&& final(store)@ == match cp {
                        Some(c) => old(store)@.recorded(c),
                        None => old(store)@,
                    }
                },
            },
    {
        let mut wire = self.compress(article);
        let due: bool = if self.params.sync.enabled() && self.since_sync > 0 {
            let iv: u64 = match self.params.sync.interval_bytes() {
                Some(n) => n,
                None => DEFAULT_SYNC_INTERVAL,
            };
            self.since_sync > iv || wire.len() as u64 > iv - self.since_sync
        } else {
            false
        };
        if due {
            let cp = Checkpoint {
                sync: self.sync_no.saturating_add(1),
                file_offset: self.offset,
                data_bytes: self.data_bytes,
                articles: self.articles,
            };
            match negotiation(self.sync_point()) {
                Ok(()) => {},
                Err(e) => {
                    return Err(e);
                },
            }
            match apply_local(machine, LocalEvent::Sync) {
                Ok(()) => {},
                Err(e) => {
                    return Err(e);
                },
            }
            store.record(cp);
            wire = self.compress(article);
        }
        match negotiation(self.send_wire(wire.as_slice(), offset)) {
            Ok(()) => {},
            Err(e) => {
                return Err(e);
            },
        }
        apply_local(machine, LocalEvent::SendData)
    }

    /// End of the file: everything left goes out, behind it a DTF.END.
    pub fn on_end(&mut self, machine: &mut Machine) -> (r: Result<DataResult, SessionError>)
        ensures
            final(machine).spec_role() == old(machine).spec_role(),
            match old(self)@.end_step(old(machine).spec_state()) {
                Ok((s, st)) => {
                    &&& r == Ok::<DataResult, SessionError>(s.result(DataEnd::Completed))
                    &&& final(self)@ == s
                    &&& final(machine).spec_state() == st
                },
                Err(e) => {
                    &&& r is Err
                    &&& r->Err_0@ == e
                    &&& final(self)@ == old(self)@.end_left()
                    &&& final(machine).spec_state() == old(machine).spec_state()
                },
            },
    {
        match negotiation(self.flush_packer()) {
            Ok(()) => {},
            Err(e) => {
                return Err(e);
            },
        }
        let end = builder::dtf_end(self.params.peer_id, Diagnostic::ok());
        match negotiation(self.out.queue(&end)) {
            Ok(()) => {},
            Err(e) => {
                return Err(e);
            },
        }
        self.out.ship();
        match apply_local(machine, LocalEvent::DataEnd) {
            Ok(()) => {},
            Err(e) => {
                return Err(e);
            },
        }
        Ok(self.result(DataEnd::Completed))
    }

    /// Take a FPDU of the peer.
    pub fn on_fpdu(
        &mut self,
        machine: &mut Machine,
        f: &Fpdu,
        store: &mut MemoryCheckpoints,
    ) -> (r: Result<SendStep, SessionError>)
        ensures
            final(machine).spec_role() == old(machine).spec_role(),
            match old(self)@.fpdu_step(old(machine).spec_state(), f@, old(store)@) {
                Ok((s, st, cps, step)) => {
                    &&& r is Ok
                    &&& r->Ok_0@ == step
                    &&& final(self)@ == s
                    &&& final(machine).spec_state() == st
                    &&& final(store)@ == cps
                },
                Err(e) => {
                    &&& r is Err
                    &&& r->Err_0@ == e
                    &&& final(self)@ == old(self)@
                    &&& final(machine).spec_state() == state_behind(
                        old(machine).spec_state(),
                        f@,
                    )
                    &&& final(store)@ == old(store)@
                },
            },
    {
        match apply_received(machine, f) {
            Ok(_) => {},
            Err(e) => {
                return Err(e);
            },
        }
        match f.kind {
            FpduKind::AckSyn => {
                let n: u32 = f.sync_number().unwrap_or(0);
                self.acknowledge(n);
                store.acknowledge(n);
                Ok(SendStep::Continue)
            },
            FpduKind::Resyn => {
                if !self.params.resync {
                    return Err(
                        SessionError::Negotiation(
                            "RESYN received but resynchronisation was not negotiated".to_owned(),
                        ),
                    );
                }
                let requested: u32 = f.restart_point().unwrap_or(0);
                let cp = match store.get(requested) {
                    Some(cp) => cp,
                    None => Checkpoint::default(),
                };
                match apply_local(machine, LocalEvent::Accept) {
                    Ok(()) => {},
                    Err(e) => {
                        return Err(e);
                    },
                }
                self.rewind(cp);
                Ok(
                    SendStep::Rewind(
                        builder::ack_resyn(self.params.peer_id, cp.sync),
                        Position::of(cp),
                    ),
                )
            },
            FpduKind::Idt => {
                match apply_local(machine, LocalEvent::Accept) {
                    Ok(()) => {},
                    Err(e) => {
                        return Err(e);
                    },
                }
                self.out.drop_entity();
                let code = match f.end_code() {
                    Some(c) => c,
                    None => EndCode::Other(0),
                };
                Ok(
                    SendStep::Interrupted(
                        builder::ack_idt(self.params.peer_id),
                        DataEnd::Interrupted { code, diag: f.diag_or_ok(), by_peer: true },
                    ),
                )
            },
            _ => Ok(SendStep::Continue),
        }
    }

    fn acknowledge(&mut self, n: u32)
        ensures
            final(self)@ == (SenderV {
                unacked: still_unacked(old(self)@.unacked, n),
                ..old(self)@
            }),
    {
        while self.unacked.len() > 0 && self.unacked[0] <= n
            invariant
                still_unacked(self.unacked@, n) == still_unacked(old(self)@.unacked, n),
                self@ == (SenderV { unacked: self.unacked@, ..old(self)@ }),
            decreases self.unacked.len(),
        {
            let ghost before = self.unacked@;
            let _ = self.unacked.pop_front();
            proof {
                assert(self.unacked@ =~= before.skip(1));
            }
        }
    }

    fn rewind(&mut self, cp: Checkpoint)
        ensures
            final(self)@ == old(self)@.rewound(cp),
    {
        let _ = self.packer.flush();
        self.out.drop_entity();
        self.mark_sync();
        self.data_bytes = cp.data_bytes;
        self.articles = cp.articles;
        self.sync_no = cp.sync;
        self.since_sync = 0;
        self.unacked.clear();
        self.offset = cp.file_offset;
        proof {
            assert(self@.unacked =~= Seq::empty());
        }
    }

    /// Close the entity under construction, if it holds anything, before an interruption.
    pub fn on_cancel(&mut self)
        ensures
            final(self)@ == (SenderV {
                out: if old(self)@.out.entity.count > 0 {
                    old(self)@.out.shipped()
                } else {
                    old(self)@.out
                },
                ..old(self)@
            }),
    {
        if !self.out.is_empty() {
            self.out.ship();
        }
    }

    /// Take the entities that are ready to be written.
    pub fn take_ready(&mut self) -> (r: Vec<Vec<u8>>)
        ensures
            crate::article::byte_strings(r@) == old(self)@.out.ready,
            final(self)@ == (SenderV {
                out: OutboxV { ready: Seq::empty(), ..old(self)@.out },
                ..old(self)@
            }),
    {
        self.out.take_ready()
    }

    /// Outcome of the data phase.
    #[must_use]
    pub fn result(&self, end: DataEnd) -> (r: DataResult)
        ensures
            r == self@.result(end),
    {
        DataResult {
            end,
            data_bytes: self.data_bytes,
            articles: self.articles,
            last_sync: self.sync_no,
        }
    }

    /// Progress so far.
    #[must_use]
    pub fn progress(&self, total_hint: Option<u64>) -> (r: Progress)
        ensures
            r == (Progress {
                data_bytes: self@.data_bytes,
                articles: self@.articles,
                sync: self@.sync_no,
                total_hint,
            }),
    {
        Progress {
            data_bytes: self.data_bytes,
            articles: self.articles,
            sync: self.sync_no,
            total_hint,
        }
    }
}

} // verus!
