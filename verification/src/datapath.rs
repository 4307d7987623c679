//! The data transfer phase, shared by both roles: sending articles with synchronisation points,
//! receiving them, resynchronisation and interruption.
//!
//! The engines here decide; they neither read files nor wait for the network. A driver feeds them
//! articles and FPDUs, writes out the entities they produce, and moves its files to the positions
//! they ask for.

use crate::article::{byte_strings, fpdus_view};
use crate::builder;
use crate::builder::spec_idt;
use crate::diag::Diagnostic;
use crate::error::{SessionError, SessionErrorV};
use crate::fpdu::{
    clamp_usize, params_bytes_before_empty, EncodeError, Fpdu, FpduV, HEADER_LEN,
};
use crate::frame::{counted, framed, EntityBuilder, EntityV};
use crate::kind::FpduKind;
use crate::params::{Compression, EndCode, FpduExt, SyncOption};
use crate::pi::Pi;
use crate::state::{outcome, Event, LocalEvent, Machine, Outcome, Role, State, TransitionError};
use crate::text::{dec, opt_text, push_decimal};
use vstd::prelude::*;
use vstd::string::StringExecFns;

verus! {

/// Default synchronisation interval when the peer left it undefined (PI 7 = FFFF).
pub const DEFAULT_SYNC_INTERVAL: u64 = 1024 * 1024;

/// Negotiated parameters of a data transfer.
#[derive(Debug, Clone, Copy, PartialEq, Eq, Structural)]
pub struct DataParams {
    /// Connection id of the peer (octet 5 of the FPDUs we send).
    pub peer_id: u8,
    /// Negotiated synchronisation option.
    pub sync: SyncOption,
    /// Whether F.RESTART (RESYN) was negotiated.
    pub resync: bool,
    /// Negotiated compression.
    pub compression: Compression,
    /// Whether the CRC option is active.
    pub crc: bool,
    /// Negotiated maximum entity size (PI 25).
    pub max_entity: usize,
    /// Pack several articles per DTF.
    pub multi_article: bool,
    /// Maximum article length (PI 32), used to size buffers (0 = unbounded).
    pub max_article: usize,
    /// Watchdog timeout while waiting for the peer, in milliseconds.
    pub timeout_ms: u64,
    /// Local role (for the interruption code).
    pub role: Role,
}

/// Progress notification.
#[derive(Debug, Clone, Copy, PartialEq, Eq, Default)]
pub struct Progress {
    /// Data bytes transferred so far.
    pub data_bytes: u64,
    /// Articles transferred so far.
    pub articles: u64,
    /// Last synchronisation point number.
    pub sync: u32,
    /// Expected total size when known.
    pub total_hint: Option<u64>,
}

/// How the data phase ended.
#[derive(Debug, Clone, Copy, PartialEq, Eq, Structural)]
pub enum DataEnd {
    /// DTF.END with a success diagnostic.
    Completed,
    /// DTF.END carried an error diagnostic (sender side problem).
    EndedWithError(Diagnostic),
    /// The transfer was interrupted with IDT.
    Interrupted {
        /// End of transfer code (PI 19).
        code: EndCode,
        /// Diagnostic carried by IDT.
        diag: Diagnostic,
        /// Whether the peer initiated the interruption.
        by_peer: bool,
    },
}

/// Result of the data phase.
#[derive(Debug, Clone, Copy, PartialEq, Eq, Structural)]
pub struct DataResult {
    /// How it ended.
    pub end: DataEnd,
    /// Data bytes transferred (PI 27 semantics).
    pub data_bytes: u64,
    /// Articles transferred.
    pub articles: u64,
    /// Last synchronisation point number used.
    pub last_sync: u32,
}

// ---- events ----

/// Text that the peer sent along: PI 99, else PI 29.
pub open spec fn peer_text(f: FpduV) -> Option<Seq<char>> {
    match f.string(Pi::FreeMessage) {
        Some(t) => Some(t),
        None => f.string(Pi::DiagComplement),
    }
}

/// Text that the peer sent along: PI 99, else PI 29.
pub fn peer_message(f: &Fpdu) -> (r: Option<String>)
    ensures
        opt_text(r) == peer_text(f@),
{
    match f.get_text(Pi::FreeMessage) {
        Some(t) => Some(t),
        None => f.get_text(Pi::DiagComplement),
    }
}

/// State after a FPDU was received; an ABORT, or a FPDU that the state does not allow, is an
/// error.
pub open spec fn received_step(st: State, f: FpduV) -> Result<State, SessionErrorV> {
    if f.kind == FpduKind::Abort {
        Err(SessionErrorV::Aborted(f.diag_or_ok(), peer_text(f)))
    } else {
        match outcome(st, Event::Received { kind: f.kind, negative: f.negative() }) {
            Outcome::Next(s) => Ok(s),
            Outcome::Ignore => Ok(st),
            Outcome::Error => Err(SessionErrorV::Protocol(st, f.kind)),
        }
    }
}

/// State after a local event; one that the state does not allow is an error.
pub open spec fn local_step(st: State, l: LocalEvent) -> Result<State, SessionErrorV> {
    match outcome(st, Event::Local(l)) {
        Outcome::Next(s) => Ok(s),
        Outcome::Ignore => Ok(st),
        Outcome::Error => Err(
            SessionErrorV::Negotiation(
                (TransitionError { state: st, event: Event::Local(l) }).spec_text(),
            ),
        ),
    }
}

/// Apply a received FPDU to the machine, mapping ABORT to an error. Tells whether the FPDU is to
/// be ignored.
pub fn apply_received(machine: &mut Machine, f: &Fpdu) -> (r: Result<bool, SessionError>)
    ensures
        final(machine).spec_role() == old(machine).spec_role(),
        match received_step(old(machine).spec_state(), f@) {
            Ok(s) => {
                &&& final(machine).spec_state() == s
                &&& r == Ok::<bool, SessionError>(
                    outcome(
                        old(machine).spec_state(),
                        Event::Received { kind: f@.kind, negative: f@.negative() },
                    ) == Outcome::Ignore,
                )
            },
            Err(e) => {
                &&& r is Err
                &&& r->Err_0@ == e
                &&& final(machine).spec_state() == if f@.kind == FpduKind::Abort {
                    State::INITIAL
                } else {
                    old(machine).spec_state()
                }
            },
        },
{
    if f.kind == FpduKind::Abort {
        let _ = machine.apply(Event::received(FpduKind::Abort, false));
        return Err(SessionError::Aborted { diag: f.diag_or_ok(), message: peer_message(f) });
    }
    match machine.apply(Event::received(f.kind, f.is_negative())) {
        Ok(ignored) => Ok(ignored),
        Err(_) => Err(SessionError::Protocol { state: machine.state(), kind: f.kind }),
    }
}

/// Apply a local event to the machine.
pub fn apply_local(machine: &mut Machine, l: LocalEvent) -> (r: Result<(), SessionError>)
    ensures
        final(machine).spec_role() == old(machine).spec_role(),
        match local_step(old(machine).spec_state(), l) {
            Ok(s) => r is Ok && final(machine).spec_state() == s,
            Err(e) => r is Err && r->Err_0@ == e && final(machine).spec_state() == old(
                machine,
            ).spec_state(),
        },
{
    match machine.apply(Event::local(l)) {
        Ok(_) => Ok(()),
        Err(e) => Err(SessionError::Negotiation(e.text())),
    }
}

// ---- interruption ----

/// End code of a cancellation by this side.
#[verifier::allow_in_spec]
#[must_use]
pub fn cancel_code(role: Role) -> EndCode
    returns
        (if role == Role::Requester {
            EndCode::CancelByRequester
        } else {
            EndCode::CancelByServer
        }),
{
    if role == Role::Requester {
        EndCode::CancelByRequester
    } else {
        EndCode::CancelByServer
    }
}

/// End of a data phase that was cancelled by this side.
#[verifier::allow_in_spec]
#[must_use]
pub fn cancelled_end(role: Role) -> DataEnd
    returns
        (DataEnd::Interrupted {
            code: cancel_code(role),
            diag: Diagnostic::voluntary_stop(),
            by_peer: false,
        }),
{
    DataEnd::Interrupted {
        code: cancel_code(role),
        diag: Diagnostic::voluntary_stop(),
        by_peer: false,
    }
}

/// Start an interruption: the IDT to send.
pub fn interrupt(
    machine: &mut Machine,
    peer_id: u8,
    diag: Diagnostic,
    code: EndCode,
) -> (r: Result<Fpdu, SessionError>)
    ensures
        final(machine).spec_role() == old(machine).spec_role(),
        match local_step(old(machine).spec_state(), LocalEvent::Cancel) {
            Ok(s) => r is Ok && r->Ok_0@ == spec_idt(peer_id, diag, code)
                && final(machine).spec_state() == s,
            Err(e) => r is Err && r->Err_0@ == e && final(machine).spec_state() == old(
                machine,
            ).spec_state(),
        },
{
    match apply_local(machine, LocalEvent::Cancel) {
        Ok(()) => Ok(builder::idt(peer_id, diag, code)),
        Err(e) => Err(e),
    }
}

/// What to do with a FPDU received while an interruption is pending.
#[derive(Debug, PartialEq, Eq)]
pub enum InterruptStep {
    /// Still in flight: wait for the next FPDU.
    Wait,
    /// The interruption is acknowledged.
    Done,
    /// Both sides interrupted at the same time: send this acknowledgement, then it is over.
    Crossed(Fpdu),
}

/// Take a FPDU while an interruption is pending.
pub fn interrupt_step(machine: &mut Machine, peer_id: u8, f: &Fpdu) -> (r: Result<
    InterruptStep,
    SessionError,
>)
    ensures
        final(machine).spec_role() == old(machine).spec_role(),
        match received_step(old(machine).spec_state(), f@) {
            Err(e) => {
                &&& r is Err
                &&& r->Err_0@ == e
                &&& final(machine).spec_state() == if f@.kind == FpduKind::Abort {
                    State::INITIAL
                } else {
                    old(machine).spec_state()
                }
            },
            Ok(s) => {
                &&& r is Ok
                &&& match f@.kind {
                    FpduKind::AckIdt => r->Ok_0 is Done && final(machine).spec_state() == s,
                    FpduKind::Idt => {
                        &&& r->Ok_0 is Crossed
                        &&& r->Ok_0->Crossed_0@ == FpduV::between(FpduKind::AckIdt, peer_id, 0)
                        &&& final(machine).spec_state() == match local_step(s, LocalEvent::Accept) {
                            Ok(t) => t,
                            Err(_) => s,
                        }
                    },
                    _ => r->Ok_0 is Wait && final(machine).spec_state() == s,
                }
            },
        },
{
    match apply_received(machine, f) {
        Ok(_) => {},
        Err(e) => {
            return Err(e);
        },
    }
    match f.kind {
        FpduKind::AckIdt => Ok(InterruptStep::Done),
        FpduKind::Idt => {
            let _ = apply_local(machine, LocalEvent::Accept);
            Ok(InterruptStep::Crossed(builder::ack_idt(peer_id)))
        },
        _ => Ok(InterruptStep::Wait),
    }
}

/// An interruption always comes to its end at the open file: by its acknowledgement, or by the
/// crossing interruption of the peer once that is acknowledged.
pub proof fn law_interruption_ends_at_the_open_file(
    t: crate::state::Transfer,
    r: Role,
    f: FpduV,
    after: State,
)
    requires
        received_step(crate::state::data_state(t, r, 5), f) == Ok::<_, SessionErrorV>(after),
        !f.negative(),
    ensures
        f.kind == FpduKind::AckIdt ==> after == State::Of02,
        f.kind == FpduKind::Idt ==> local_step(after, LocalEvent::Accept) == Ok::<
            _,
            SessionErrorV,
        >(State::Of02),
        f.kind != FpduKind::AckIdt && f.kind != FpduKind::Idt ==> after
            == crate::state::data_state(t, r, 5),
{
}

// ---- outgoing entities ----

/// An entity under construction and the entities that are ready to be written.
#[verifier::ext_equal]
pub struct OutboxV {
    /// Entity under construction.
    pub entity: EntityV,
    /// Entities that are ready.
    pub ready: Seq<Seq<u8>>,
}

impl OutboxV {
    /// The entity under construction is closed.
    pub open spec fn shipped(self) -> OutboxV {
        OutboxV {
            entity: EntityV { bytes: Seq::empty(), count: 0, ..self.entity },
            ready: self.ready.push(self.entity.bytes),
        }
    }

    /// A FPDU is added, in a new entity where it does not fit any more.
    pub open spec fn queued(self, f: FpduV) -> Result<OutboxV, EncodeError> {
        let o = if self.entity.fits(clamp_usize(f.wire_len()) as nat) {
            self
        } else {
            self.shipped()
        };
        match f.encode_error() {
            Some(e) => Err(e),
            None => Ok(
                OutboxV {
                    entity: EntityV {
                        bytes: o.entity.bytes + framed(f.encoding(), o.entity.crc),
                        count: counted(o.entity.count),
                        ..o.entity
                    },
                    ready: o.ready,
                },
            ),
        }
    }

    /// What a FPDU leaves that has no wire form: where a parameter of it is empty, the header and
    /// the parameters before that one stay in the entity.
    pub open spec fn left(self, f: FpduV) -> OutboxV {
        let o = if self.entity.fits(clamp_usize(f.wire_len()) as nat) {
            self
        } else {
            self.shipped()
        };
        match f.encode_error() {
            Some(EncodeError::EmptyValue(_)) => OutboxV {
                entity: EntityV {
                    bytes: o.entity.bytes + f.header() + params_bytes_before_empty(f.params),
                    ..o.entity
                },
                ready: o.ready,
            },
            _ => o,
        }
    }

    /// What FPDUs leave where one of them has no wire form.
    pub open spec fn left_all(self, fs: Seq<FpduV>) -> OutboxV
        decreases fs.len(),
    {
        if fs.len() == 0 {
            self
        } else {
            match self.queued_all(fs.drop_last()) {
                Ok(o) => o.left(fs.last()),
                Err(_) => self.left_all(fs.drop_last()),
            }
        }
    }

    /// FPDUs are added one after the other.
    pub open spec fn queued_all(self, fs: Seq<FpduV>) -> Result<OutboxV, EncodeError>
        decreases fs.len(),
    {
        if fs.len() == 0 {
            Ok(self)
        } else {
            match self.queued_all(fs.drop_last()) {
                Ok(o) => o.queued(fs.last()),
                Err(e) => Err(e),
            }
        }
    }
}

/// An entity under construction and the entities that are ready to be written.
#[derive(Debug)]
pub struct Outbox {
    entity: EntityBuilder,
    ready: Vec<Vec<u8>>,
}

impl View for Outbox {
    type V = OutboxV;

    closed spec fn view(&self) -> OutboxV {
        OutboxV { entity: self.entity@, ready: byte_strings(self.ready@) }
    }
}

impl Outbox {
    /// An empty outbox for entities of at most `max_len` bytes.
    #[must_use]
    pub fn new(max_len: usize, crc: bool) -> (r: Self)
        ensures
            r@ == (OutboxV {
                entity: EntityV { bytes: Seq::empty(), max_len: max_len as nat, crc, count: 0 },
                ready: Seq::empty(),
            }),
    {
        let r = Outbox { entity: EntityBuilder::new(max_len, crc), ready: Vec::new() };
        proof {
            assert(r@.ready =~= Seq::empty());
        }
        r
    }

    /// Close the entity under construction.
    pub fn ship(&mut self)
        ensures
            final(self)@ == old(self)@.shipped(),
    {
        let ghost before = byte_strings(self.ready@);
        let e = self.entity.take();
        let ghost ev = e@;
        self.ready.push(e);
        proof {
            assert(byte_strings(self.ready@) =~= before.push(ev));
        }
    }

    /// Drop the entity under construction.
    pub fn drop_entity(&mut self)
        ensures
            final(self)@ == (OutboxV {
                entity: EntityV { bytes: Seq::empty(), count: 0, ..old(self)@.entity },
                ready: old(self)@.ready,
            }),
    {
        let _ = self.entity.take();
    }

    /// Add a FPDU, in a new entity where it does not fit any more.
    pub fn queue(&mut self, f: &Fpdu) -> (r: Result<(), EncodeError>)
        ensures
            match old(self)@.queued(f@) {
                Ok(o) => r is Ok && final(self)@ == o,
                Err(e) => r == Err::<(), EncodeError>(e) && final(self)@ == old(self)@.left(f@),
            },
    {
        if !self.entity.fits(f.encoded_len()) {
            self.ship();
        }
        self.entity.push(f)
    }

    /// Add FPDUs one after the other.
    pub fn queue_all(&mut self, fs: &Vec<Fpdu>) -> (r: Result<(), EncodeError>)
        ensures
            match old(self)@.queued_all(fpdus_view(fs@)) {
                Ok(o) => r is Ok && final(self)@ == o,
                Err(e) => r == Err::<(), EncodeError>(e) && final(self)@ == old(self)@.left_all(
                    fpdus_view(fs@),
                ),
            },
    {
        let ghost list = fpdus_view(fs@);
        let ghost start = self@;
        let mut i: usize = 0;
        proof {
            assert(list.take(0) =~= Seq::empty());
        }
        while i < fs.len()
            invariant
                i <= fs.len(),
                list == fpdus_view(fs@),
                start == old(self)@,
                start.queued_all(list.take(i as int)) == Ok::<OutboxV, EncodeError>(self@),
            decreases fs.len() - i,
        {
            proof {
                assert(list.take(i + 1).drop_last() =~= list.take(i as int));
                assert(list.take(i + 1).last() == fs@[i as int]@);
            }
            match self.queue(&fs[i]) {
                Ok(()) => {},
                Err(e) => {
                    proof {
                        lemma_queue_failure(start, list, i + 1);
                    }
                    return Err(e);
                },
            }
            i += 1;
        }
        proof {
            assert(list.take(i as int) =~= list);
        }
        Ok(())
    }

    /// Whether the entity under construction is empty.
    #[must_use]
    pub fn is_empty(&self) -> (r: bool)
        ensures
            r == (self@.entity.count == 0),
    {
        self.entity.is_empty()
    }

    /// Close the entity under construction if not even one data byte fits any more.
    pub fn ship_if_full(&mut self)
        ensures
            final(self)@ == if old(self)@.entity.fits(HEADER_LEN as nat + 1) {
                old(self)@
            } else {
                old(self)@.shipped()
            },
    {
        if self.entity.remaining() < HEADER_LEN + 1 {
            self.ship();
        }
    }

    /// Take the entities that are ready.
    pub fn take_ready(&mut self) -> (r: Vec<Vec<u8>>)
        ensures
            byte_strings(r@) == old(self)@.ready,
            final(self)@ == (OutboxV { entity: old(self)@.entity, ready: Seq::empty() }),
    {
        let mut out: Vec<Vec<u8>> = Vec::new();
        out.append(&mut self.ready);
        proof {
            assert(self@.ready =~= Seq::empty());
        }
        out
    }
}

proof fn lemma_queue_failure(o: OutboxV, fs: Seq<FpduV>, n: int)
    requires
        0 <= n <= fs.len(),
        o.queued_all(fs.take(n)) is Err,
    ensures
        o.queued_all(fs) == o.queued_all(fs.take(n)),
        o.left_all(fs) == o.left_all(fs.take(n)),
    decreases fs.len() - n,
{
    if n == fs.len() {
        assert(fs.take(n) =~= fs);
    } else {
        assert(fs.take(n + 1).drop_last() =~= fs.take(n));
        lemma_queue_failure(o, fs, n + 1);
    }
}

// ---- counters ----

/// Why the counters of a FPDU do not agree with the local ones, if they do not.
pub open spec fn count_fault(f: FpduV, data_bytes: u64, articles: u64) -> Option<Seq<char>> {
    if f.number(Pi::ByteCount) is Some && f.number(Pi::ByteCount) != Some(data_bytes) {
        Some(
            "peer counted "@ + dec(f.number(Pi::ByteCount)->0 as nat) + " data bytes, "@ + dec(
                data_bytes as nat,
            ) + " transferred"@,
        )
    } else if f.number(Pi::ArticleCount) is Some && f.number(Pi::ArticleCount) != Some(articles) {
        Some(
            "peer counted "@ + dec(f.number(Pi::ArticleCount)->0 as nat) + " articles, "@ + dec(
                articles as nat,
            ) + " transferred"@,
        )
    } else {
        None
    }
}

/// Validate the PI 27 / PI 28 counters of a TRANS.END or ACK(TRANS.END) against local counters.
pub fn check_counts(f: &Fpdu, data_bytes: u64, articles: u64) -> (r: Result<(), SessionError>)
    ensures
        match count_fault(f@, data_bytes, articles) {
            None => r is Ok,
            Some(text) => r is Err && r->Err_0@ == SessionErrorV::Counts(text),
        },
{
    match f.get_num(Pi::ByteCount) {
        Some(b) => {
            if b != data_bytes {
                let mut text = "peer counted ".to_owned();
                push_decimal(&mut text, b);
                text.append(" data bytes, ");
                push_decimal(&mut text, data_bytes);
                text.append(" transferred");
                return Err(SessionError::Counts(text));
            }
        },
        None => {},
    }
    match f.get_num(Pi::ArticleCount) {
        Some(a) => {
            if a != articles {
                let mut text = "peer counted ".to_owned();
                push_decimal(&mut text, a);
                text.append(" articles, ");
                push_decimal(&mut text, articles);
                text.append(" transferred");
                return Err(SessionError::Counts(text));
            }
        },
        None => {},
    }
    Ok(())
}

} // verus!
