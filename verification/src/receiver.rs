//! The receiving side of the data phase: DTF FPDUs become articles, synchronisation points become
//! checkpoints, and a resynchronisation takes everything back to one of them.

use crate::article::{byte_strings, fed, Reassembler};
use crate::builder;
use crate::builder::{spec_ack_resyn, spec_ack_syn, spec_resyn};
use crate::checkpoint::{Checkpoint, CheckpointStore, CheckpointsV, MemoryCheckpoints};
use crate::compress::{
    article_limit, decompressed, reference_after, reference_for, DecompressError, Decompressor,
};
use crate::datapath::{
    apply_local, apply_received, local_step, received_step, DataEnd, DataParams, DataResult,
    Progress,
};
use crate::diag::Diagnostic;
use crate::error::{SessionError, SessionErrorV};
use crate::exchange::state_behind;
use crate::fpdu::{bytes_to_vec, Fpdu, FpduV};
use crate::io::{capped, Position};
use crate::kind::FpduKind;
use crate::params::{Compression, EndCode, FpduExt};
use crate::pi::Pi;
use crate::sender::{interrupted_by, next_point, point_or_zero};
use crate::state::{LocalEvent, Machine, State};
use crate::text::{dec, push_decimal};
use vstd::prelude::*;
use vstd::string::StringExecFns;

verus! {

/// State of a decompressor.
#[verifier::ext_equal]
pub struct DecompressorV {
    /// Reference article.
    pub reference: Seq<u8>,
    /// Longest article accepted.
    pub max_article: nat,
}

/// State of a decompressor.
pub open spec fn decompressor_view(d: Option<Decompressor>) -> Option<DecompressorV> {
    match d {
        Some(d) => Some(
            DecompressorV { reference: d.spec_reference(), max_article: d.spec_max_article() },
        ),
        None => None,
    }
}

/// An article of the wire restored: the state behind it and the article, or what is wrong.
pub open spec fn restored(d: Option<DecompressorV>, wire: Seq<u8>) -> Result<
    (Option<DecompressorV>, Seq<u8>),
    DecompressError,
> {
    match d {
        None => Ok((d, wire)),
        Some(d) => {
            let (bytes, error) = decompressed(
                wire,
                reference_for(d.reference, d.max_article, wire),
                d.max_article,
                Seq::empty(),
            );
            match error {
                Some(e) => Err(e),
                None => Ok(
                    (
                        Some(
                            DecompressorV { reference: reference_after(d.reference, bytes), ..d },
                        ),
                        bytes,
                    ),
                ),
            }
        },
    }
}

/// State of the receiving side.
#[verifier::ext_equal]
pub struct ReceiverV {
    /// Negotiated parameters.
    pub params: DataParams,
    /// Segmented article under way.
    pub partial: Option<Seq<u8>>,
    /// Compression in use.
    pub decompressor: Option<DecompressorV>,
    /// Data bytes received.
    pub data_bytes: u64,
    /// Articles received.
    pub articles: u64,
    /// Last synchronisation point.
    pub last_sync: u32,
}

/// Articles of the wire taken in: the receiving side behind them, the articles restored, and the
/// error that stopped it, if any.
pub open spec fn taken(r: ReceiverV, wires: Seq<Seq<u8>>) -> (
    ReceiverV,
    Seq<Seq<u8>>,
    Option<DecompressError>,
)
    decreases wires.len(),
{
    if wires.len() == 0 {
        (r, Seq::empty(), None)
    } else {
        let (r1, list, error) = taken(r, wires.drop_last());
        if error is Some {
            (r1, list, error)
        } else {
            let wire = wires.last();
            match restored(r1.decompressor, wire) {
                Err(e) => (r1, list, Some(e)),
                Ok((d, article)) => (
                    ReceiverV {
                        decompressor: d,
                        data_bytes: capped(r1.data_bytes, wire.len()),
                        articles: capped(r1.articles, 1),
                        ..r1
                    },
                    list.push(article),
                    None,
                ),
            }
        }
    }
}

proof fn lemma_taken_stable(r: ReceiverV, wires: Seq<Seq<u8>>, n: int)
    requires
        0 <= n <= wires.len(),
        taken(r, wires.take(n)).2 is Some,
    ensures
        taken(r, wires) == taken(r, wires.take(n)),
    decreases wires.len() - n,
{
    if n == wires.len() {
        assert(wires.take(n) =~= wires);
    } else {
        assert(wires.take(n + 1).drop_last() =~= wires.take(n));
        lemma_taken_stable(r, wires, n + 1);
    }
}

impl ReceiverV {
    /// The receiving side at the start of a transfer, or of its restart from a checkpoint.
    pub open spec fn starting(params: DataParams, start: Checkpoint) -> ReceiverV {
        ReceiverV {
            params,
            partial: None,
            decompressor: if params.compression == Compression::Off {
                None
            } else {
                Some(
                    DecompressorV {
                        reference: Seq::new(
                            (if params.max_article == 0 {
                                1
                            } else {
                                params.max_article
                            }) as nat,
                            |i: int| 0u8,
                        ),
                        max_article: article_limit(params.max_article),
                    },
                )
            },
            data_bytes: start.data_bytes,
            articles: start.articles,
            last_sync: start.sync,
        }
    }

    /// The receiving side taken back to a checkpoint.
    pub open spec fn rewound(self, cp: Checkpoint) -> ReceiverV {
        ReceiverV {
            partial: None,
            data_bytes: cp.data_bytes,
            articles: cp.articles,
            last_sync: cp.sync,
            ..self
        }
    }

    /// Outcome of the data phase.
    pub open spec fn result(self, end: DataEnd) -> DataResult {
        DataResult {
            end,
            data_bytes: self.data_bytes,
            articles: self.articles,
            last_sync: self.last_sync,
        }
    }

    /// The receiving side behind a FPDU of the peer that ends in an error: only the segment under
    /// construction changes, where the FPDU carries data.
    pub open spec fn left_behind(self, st: State, f: FpduV) -> ReceiverV {
        if received_step(st, f) is Ok && f.kind.spec_is_data() {
            ReceiverV { partial: fed(self.partial, self.params.max_article as nat, f).0, ..self }
        } else {
            self
        }
    }

    /// Behind a FPDU of the peer: the receiving side, the protocol state and what is asked for.
    pub open spec fn fpdu_step(self, st: State, f: FpduV, store: CheckpointsV) -> Result<
        (ReceiverV, State, ReceiveStepV),
        SessionErrorV,
    > {
        match received_step(st, f) {
            Err(e) => Err(e),
            Ok(st1) => if f.kind.spec_is_data() {
                let (partial, yields) = fed(self.partial, self.params.max_article as nat, f);
                match yields {
                    Err(e) => Err(SessionErrorV::Reassembly(e)),
                    Ok(wires) => {
                        let (r, list, error) = taken(ReceiverV { partial, ..self }, wires);
                        Ok((r, st1, ReceiveStepV::Articles(list, error)))
                    },
                }
            } else {
                match f.kind {
                    FpduKind::Syn => Ok(
                        (
                            self,
                            st1,
                            ReceiveStepV::Sync(
                                match f.number32(Pi::SyncNumber) {
                                    Some(n) => n,
                                    None => next_point(self.last_sync),
                                },
                            ),
                        ),
                    ),
                    FpduKind::DtfEnd => Ok(
                        (
                            self,
                            st1,
                            ReceiveStepV::Ended(
                                if f.diag_or_ok().spec_is_ok() {
                                    DataEnd::Completed
                                } else {
                                    DataEnd::EndedWithError(f.diag_or_ok())
                                },
                            ),
                        ),
                    ),
                    FpduKind::Resyn => {
                        let cp = store.at_or_beginning(
                            point_or_zero(f.number32(Pi::RestartPoint)),
                        );
                        match local_step(st1, LocalEvent::Accept) {
                            Err(e) => Err(e),
                            Ok(st2) => Ok(
                                (
                                    self.rewound(cp),
                                    st2,
                                    ReceiveStepV::Rewind(
                                        spec_ack_resyn(self.params.peer_id, cp.sync),
                                        Position::spec_of(cp),
                                    ),
                                ),
                            ),
                        }
                    },
                    FpduKind::Idt => match local_step(st1, LocalEvent::Accept) {
                        Err(e) => Err(e),
                        Ok(st2) => Ok(
                            (
                                self,
                                st2,
                                ReceiveStepV::Interrupted(
                                    FpduV::between(FpduKind::AckIdt, self.params.peer_id, 0),
                                    interrupted_by(f),
                                ),
                            ),
                        ),
                    },
                    _ => Ok((self, st1, ReceiveStepV::Continue)),
                }
            },
        }
    }
}

/// What to do with a FPDU received in the data phase.
#[derive(Debug, PartialEq, Eq)]
pub enum ReceiveStep {
    /// Go on.
    Continue,
    /// Write these articles; then fail with the error, if there is one.
    Articles(Vec<Vec<u8>>, Option<DecompressError>),
    /// Make what was written safe, and report the offset for this synchronisation point.
    Sync(u32),
    /// Take the sink back to this position, send this ACK(RESYN), and go on.
    Rewind(Fpdu, Position),
    /// Send this ACK(IDT); the data phase is over.
    Interrupted(Fpdu, DataEnd),
    /// All data has arrived; the data phase is over.
    Ended(DataEnd),
}

/// What a FPDU received in the data phase asks for.
#[verifier::ext_equal]
pub enum ReceiveStepV {
    /// Go on.
    Continue,
    /// Write articles, then perhaps fail.
    Articles(Seq<Seq<u8>>, Option<DecompressError>),
    /// A synchronisation point.
    Sync(u32),
    /// Take the sink back and acknowledge.
    Rewind(FpduV, Position),
    /// Acknowledge and stop.
    Interrupted(FpduV, DataEnd),
    /// Stop.
    Ended(DataEnd),
}

impl View for ReceiveStep {
    type V = ReceiveStepV;

    open spec fn view(&self) -> ReceiveStepV {
        match self {
            ReceiveStep::Continue => ReceiveStepV::Continue,
            ReceiveStep::Articles(a, e) => ReceiveStepV::Articles(byte_strings(a@), *e),
            ReceiveStep::Sync(n) => ReceiveStepV::Sync(*n),
            ReceiveStep::Rewind(f, p) => ReceiveStepV::Rewind(f@, *p),
            ReceiveStep::Interrupted(f, e) => ReceiveStepV::Interrupted(f@, *e),
            ReceiveStep::Ended(e) => ReceiveStepV::Ended(*e),
        }
    }
}

/// The receiving side of a data transfer.
#[derive(Debug)]
pub struct DataReceiver {
    params: DataParams,
    reassembler: Reassembler,
    decompressor: Option<Decompressor>,
    data_bytes: u64,
    articles: u64,
    last_sync: u32,
}

impl View for DataReceiver {
    type V = ReceiverV;

    closed spec fn view(&self) -> ReceiverV {
        ReceiverV {
            params: self.params,
            partial: self.reassembler.spec_partial(),
            decompressor: decompressor_view(self.decompressor),
            data_bytes: self.data_bytes,
            articles: self.articles,
            last_sync: self.last_sync,
        }
    }
}

impl DataReceiver {
    /// The reassembler bounds articles as negotiated.
    pub closed spec fn steady(self) -> bool {
        self.reassembler.spec_max_len() == self.params.max_article
    }

    /// Start receiving behind the checkpoint `start`; the sink stands at its position.
    #[must_use]
    pub fn new(params: DataParams, start: Checkpoint) -> (r: Self)
        ensures
            r@ == ReceiverV::starting(params, start),
            r.steady(),
    {
        let decompressor = if params.compression == Compression::Off {
            None
        } else {
            Some(Decompressor::new(params.max_article))
        };
        let r = DataReceiver {
            params,
            reassembler: Reassembler::new(params.max_article),
            decompressor,
            data_bytes: start.data_bytes,
            articles: start.articles,
            last_sync: start.sync,
        };
        proof {
            assert(r@ =~= ReceiverV::starting(params, start));
        }
        r
    }

    /// Restore one article of the wire.
    fn restore(&mut self, wire: &[u8]) -> (r: Result<Vec<u8>, DecompressError>)
        ensures
            final(self).steady() == old(self).steady(),
            match restored(old(self)@.decompressor, wire@) {
                Ok((d, article)) => r is Ok && r->Ok_0@ == article && final(self)@ == (ReceiverV {
                    decompressor: d,
                    ..old(self)@
                }),
                Err(e) => r == Err::<Vec<u8>, DecompressError>(e) && final(self)@ == old(self)@,
            },
    {
        match &mut self.decompressor {
            Some(d) => d.decompress(wire),
            None => Ok(bytes_to_vec(wire)),
        }
    }

    /// Take articles of the wire in, up to the first that cannot be restored.
    fn take(&mut self, wires: &Vec<Vec<u8>>) -> (r: (Vec<Vec<u8>>, Option<DecompressError>))
        ensures
            final(self).steady() == old(self).steady(),
            ({
                let (s, list, error) = taken(old(self)@, byte_strings(wires@));
                &&& final(self)@ == s
                &&& byte_strings(r.0@) == list
                &&& r.1 == error
            }),
    {
        let ghost list = byte_strings(wires@);
        let ghost start = self@;
        let mut out: Vec<Vec<u8>> = Vec::new();
        let mut i: usize = 0;
        proof {
            assert(list.take(0) =~= Seq::empty());
            assert(byte_strings(out@) =~= Seq::empty());
        }
        while i < wires.len()
            invariant
                i <= wires.len(),
                list == byte_strings(wires@),
                start == old(self)@,
                self.steady() == old(self).steady(),
                taken(start, list.take(i as int)) == (
                    self@,
                    byte_strings(out@),
                    None::<DecompressError>,
                ),
            decreases wires.len() - i,
        {
            let ghost before = byte_strings(out@);
            proof {
                assert(list.take(i + 1).drop_last() =~= list.take(i as int));
                assert(list.take(i + 1).last() == wires@[i as int]@);
            }
            let n: usize = wires[i].len();
            match self.restore(wires[i].as_slice()) {
                Ok(a) => {
                    let ghost av = a@;
                    out.push(a);
                    self.data_bytes = self.data_bytes.saturating_add(n as u64);
                    self.articles = self.articles.saturating_add(1);
                    proof {
                        assert(byte_strings(out@) =~= before.push(av));
                    }
                },
                Err(e) => {
                    proof {
                        lemma_taken_stable(start, list, i + 1);
                    }
                    return (out, Some(e));
                },
            }
            i += 1;
        }
        proof {
            assert(list.take(i as int) =~= list);
        }
        (out, None)
    }

    /// Take a FPDU of the peer.
    pub fn on_fpdu(&mut self, machine: &mut Machine, f: &Fpdu, store: &MemoryCheckpoints) -> (r:
        Result<ReceiveStep, SessionError>)
        requires
            old(self).steady(),
        ensures
            final(machine).spec_role() == old(machine).spec_role(),
            final(self).steady(),
            match old(self)@.fpdu_step(old(machine).spec_state(), f@, store@) {
                Ok((s, st, step)) => {
                    &&& r is Ok
                    &&& r->Ok_0@ == step
                    &&& final(self)@ == s
                    &&& final(machine).spec_state() == st
                },
                Err(e) => {
                    &&& r is Err
                    &&& r->Err_0@ == e
                    &&& final(self)@ == old(self)@.left_behind(old(machine).spec_state(), f@)
                    &&& final(machine).spec_state() == state_behind(
                        old(machine).spec_state(),
                        f@,
                    )
                },
            },
    {
        match apply_received(machine, f) {
            Ok(_) => {},
            Err(e) => {
                return Err(e);
            },
        }
        if f.kind.is_data() {
            let wires = match self.reassembler.feed(f) {
                Ok(w) => w,
                Err(e) => {
                    return Err(SessionError::Reassembly(e));
                },
            };
            let (list, error) = self.take(&wires);
            return Ok(ReceiveStep::Articles(list, error));
        }
        match f.kind {
            FpduKind::Syn => {
                let n: u32 = match f.sync_number() {
                    Some(n) => n,
                    None => self.last_sync.saturating_add(1),
                };
                Ok(ReceiveStep::Sync(n))
            },
            FpduKind::DtfEnd => {
                let diag = f.diag_or_ok();
                let end = if diag.is_ok() {
                    DataEnd::Completed
                } else {
                    DataEnd::EndedWithError(diag)
                };
                Ok(ReceiveStep::Ended(end))
            },
            FpduKind::Resyn => {
                let requested: u32 = f.restart_point().unwrap_or(0);
                // An unknown point stands for the beginning of the file.
                let cp = match store.get(requested) {
                    Some(cp) => cp,
                    None => Checkpoint::default(),
                };
                match apply_local(machine, LocalEvent::Accept) {
                    Ok(()) => {},
                    Err(e) => {
                        return Err(e);
                    },
                }
                self.rewind(cp);
                Ok(
                    ReceiveStep::Rewind(
                        builder::ack_resyn(self.params.peer_id, cp.sync),
                        Position::of(cp),
                    ),
                )
            },
            FpduKind::Idt => {
                match apply_local(machine, LocalEvent::Accept) {
                    Ok(()) => {},
                    Err(e) => {
                        return Err(e);
                    },
                }
                let code = match f.end_code() {
                    Some(c) => c,
                    None => EndCode::Other(0),
                };
                Ok(
                    ReceiveStep::Interrupted(
                        builder::ack_idt(self.params.peer_id),
                        DataEnd::Interrupted { code, diag: f.diag_or_ok(), by_peer: true },
                    ),
                )
            },
            _ => Ok(ReceiveStep::Continue),
        }
    }

    fn rewind(&mut self, cp: Checkpoint)
        ensures
            final(self)@ == old(self)@.rewound(cp),
            final(self).steady(),
    {
        self.data_bytes = cp.data_bytes;
        self.articles = cp.articles;
        self.last_sync = cp.sync;
        self.reassembler = Reassembler::new(self.params.max_article);
    }

    /// What was written up to a synchronisation point is safe, `file_offset` bytes into the file:
    /// its checkpoint is recorded, and acknowledged where the sender waits for that (or where no
    /// synchronisation was negotiated).
    pub fn on_checkpoint(
        &mut self,
        machine: &mut Machine,
        sync: u32,
        file_offset: u64,
        store: &mut MemoryCheckpoints,
    ) -> (r: Result<Option<Fpdu>, SessionError>)
        ensures
            final(machine).spec_role() == old(machine).spec_role(),
            final(self).steady() == old(self).steady(),
            final(self)@ == (ReceiverV { last_sync: sync, ..old(self)@ }),
            final(store)@ == old(store)@.recorded(
                Checkpoint {
                    sync,
                    file_offset,
                    data_bytes: old(self)@.data_bytes,
                    articles: old(self)@.articles,
                },
            ),
            ({
                let p = old(self)@.params;
                if p.sync.window != 0 || !p.sync.enabled() {
                    match local_step(old(machine).spec_state(), LocalEvent::Accept) {
                        Ok(st) => r is Ok && r->Ok_0 is Some && r->Ok_0->0@ == spec_ack_syn(
                            p.peer_id,
                            sync,
                        ) && final(machine).spec_state() == st,
                        Err(e) => r is Err && r->Err_0@ == e && final(machine).spec_state() == old(
                            machine,
                        ).spec_state(),
                    }
                } else {
                    r is Ok && r->Ok_0 is None && final(machine).spec_state() == old(
                        machine,
                    ).spec_state()
                }
            }),
    {
        store.record(
            Checkpoint {
                sync,
                file_offset,
                data_bytes: self.data_bytes,
                articles: self.articles,
            },
        );
        self.last_sync = sync;
        if self.params.sync.window != 0 || !self.params.sync.enabled() {
            match apply_local(machine, LocalEvent::Accept) {
                Ok(()) => {},
                Err(e) => {
                    return Err(e);
                },
            }
            Ok(Some(builder::ack_syn(self.params.peer_id, sync)))
        } else {
            Ok(None)
        }
    }

    /// Whether an error of the reception is answered by a resynchronisation: a CRC error, where
    /// resynchronisation was negotiated.
    #[must_use]
    pub fn recovers_from(&self, e: &SessionError) -> (r: bool)
        ensures
            r == (self@.params.resync && e is Decode && e->Decode_0.diag
                == Diagnostic::transmission_error()),
    {
        match e {
            SessionError::Decode(d) => d.diag == Diagnostic::transmission_error()
                && self.params.resync,
            _ => false,
        }
    }

    /// Ask the peer to resume from the last synchronisation point.
    pub fn request_resync(&self, machine: &mut Machine) -> (r: Result<Fpdu, SessionError>)
        ensures
            final(machine).spec_role() == old(machine).spec_role(),
            match local_step(old(machine).spec_state(), LocalEvent::Resync) {
                Ok(st) => r is Ok && r->Ok_0@ == spec_resyn(
                    self@.params.peer_id,
                    Diagnostic::transmission_error(),
                    self@.last_sync,
                ) && final(machine).spec_state() == st,
                Err(e) => r is Err && r->Err_0@ == e && final(machine).spec_state() == old(
                    machine,
                ).spec_state(),
            },
    {
        match apply_local(machine, LocalEvent::Resync) {
            Ok(()) => Ok(
                builder::resyn(
                    self.params.peer_id,
                    Diagnostic::transmission_error(),
                    self.last_sync,
                ),
            ),
            Err(e) => Err(e),
        }
    }

    /// Take a FPDU while the answer to a RESYN is awaited: the position to go back to once the
    /// answer is there. Everything else than the answer and an ABORT is dropped.
    pub fn on_resync_answer(
        &mut self,
        machine: &mut Machine,
        f: &Fpdu,
        store: &MemoryCheckpoints,
    ) -> (r: Result<Option<Position>, SessionError>)
        ensures
            final(machine).spec_role() == old(machine).spec_role(),
            old(self).steady() ==> final(self).steady(),
            r is Err ==> final(self)@ == old(self)@ && final(machine).spec_state() == state_behind(
                old(machine).spec_state(),
                f@,
            ),
            if f@.kind != FpduKind::AckResyn && f@.kind != FpduKind::Abort {
                r == Ok::<Option<Position>, SessionError>(None) && final(self)@ == old(self)@
                    && final(machine).spec_state() == old(machine).spec_state()
            } else {
                match received_step(old(machine).spec_state(), f@) {
                    Err(e) => r is Err && r->Err_0@ == e,
                    Ok(st) => {
                        let point = point_or_zero(f@.number32(Pi::RestartPoint));
                        match store@.at(point) {
                            None => r is Err && r->Err_0@ == SessionErrorV::Negotiation(
                                "unknown restart point "@ + dec(point as nat)
                                    + " in ACK(RESYN)"@,
                            ),
                            Some(cp) => {
                                &&& r == Ok::<Option<Position>, SessionError>(
                                    Some(Position::spec_of(cp)),
                                )
                                &&& final(self)@ == old(self)@.rewound(cp)
                                &&& final(machine).spec_state() == st
                            },
                        }
                    },
                }
            },
    {
        if f.kind != FpduKind::AckResyn {
            if f.kind == FpduKind::Abort {
                match apply_received(machine, f) {
                    Ok(_) => {},
                    Err(e) => {
                        return Err(e);
                    },
                }
            }
            return Ok(None);
        }
        match apply_received(machine, f) {
            Ok(_) => {},
            Err(e) => {
                return Err(e);
            },
        }
        let point: u32 = f.restart_point().unwrap_or(0);
        match store.get(point) {
            Some(cp) => {
                self.rewind(cp);
                Ok(Some(Position::of(cp)))
            },
            None => {
                let mut text = "unknown restart point ".to_owned();
                push_decimal(&mut text, point as u64);
                text.append(" in ACK(RESYN)");
                Err(SessionError::Negotiation(text))
            },
        }
    }

    /// Outcome of the data phase.
    #[must_use]
    pub fn result(&self, end: DataEnd) -> (r: DataResult)
        ensures
            r == self@.result(end),
    {
        DataResult {
            end,
            data_bytes: self.data_bytes,
            articles: self.articles,
            last_sync: self.last_sync,
        }
    }

    /// Progress so far.
    #[must_use]
    pub fn progress(&self) -> (r: Progress)
        ensures
            r == (Progress {
                data_bytes: self@.data_bytes,
                articles: self@.articles,
                sync: self@.last_sync,
                total_hint: None,
            }),
    {
        Progress {
            data_bytes: self.data_bytes,
            articles: self.articles,
            sync: self.last_sync,
            total_hint: None,
        }
    }
}

} // verus!
