//! Server side of a PeSIT session.
//!
//! The session decides what a FPDU of the requester asks for and how it is answered; moving the
//! bytes, and the files, are left to its user.

use crate::article::byte_slices;
use crate::builder;
use crate::builder::{
    diag_fpdu, spec_ack_create, spec_ack_msg, spec_ack_trans_end, spec_aconnect, FileSpec,
    FileSpecV,
};
use crate::checkpoint::{Checkpoint, CheckpointStore, CheckpointsV, MemoryCheckpoints};
use crate::crc::CRC_LEN;
use crate::datapath::{
    apply_local, check_counts, count_fault, local_step, DataParams, DataResult, Progress,
};
use crate::diag::Diagnostic;
use crate::error::{SessionError, SessionErrorV, TransportError};
use crate::exchange::{
    await_kind, awaited_step, dropped, opt_fpdu, receive_fault, state_behind, take_received,
};
use crate::fpdu::{DecodeError, Fpdu, FpduV, HEADER_LEN};
use crate::frame::{split, split_entity};
use crate::kind::FpduKind;
use crate::message::{IncomingMessage, IncomingMessageV};
use crate::params::{
    AccessType, Compression, FpduExt, RequestedAttributes, SyncOption, Version,
};
use crate::pi::Pi;
use crate::requester::Negotiated;
use crate::sender::point_or_zero;
use crate::state::{LocalEvent, Machine, Role, State};
use crate::text::{as_opt_str, dec, non_empty, opt_text, push_decimal};
use vstd::prelude::*;

verus! {

/// A refusal.
#[derive(Debug, PartialEq, Eq)]
pub struct Refusal {
    /// Diagnostic (PI 2).
    pub diag: Diagnostic,
    /// Optional explanation (PI 99 / PI 92).
    pub message: Option<String>,
}

/// Value of a refusal.
#[verifier::ext_equal]
pub struct RefusalV {
    /// Diagnostic.
    pub diag: Diagnostic,
    /// Explanation.
    pub message: Option<Seq<char>>,
}

impl View for Refusal {
    type V = RefusalV;

    open spec fn view(&self) -> RefusalV {
        RefusalV { diag: self.diag, message: opt_text(self.message) }
    }
}

impl RefusalV {
    /// Refusal with a diagnostic only.
    pub open spec fn bare(diag: Diagnostic) -> RefusalV {
        RefusalV { diag, message: None }
    }

    /// Refusal with an explanation.
    pub open spec fn told(diag: Diagnostic, message: Seq<char>) -> RefusalV {
        RefusalV { diag, message: Some(message) }
    }
}

impl Refusal {
    /// Refusal with a diagnostic only.
    #[must_use]
    pub fn new(diag: Diagnostic) -> (r: Self)
        ensures
            r@ == RefusalV::bare(diag),
    {
        Refusal { diag, message: None }
    }

    /// Refusal with an explanation.
    #[must_use]
    pub fn with_message(diag: Diagnostic, message: String) -> (r: Self)
        ensures
            r@ == RefusalV::told(diag, message@),
    {
        Refusal { diag, message: Some(message) }
    }
}

/// Content of a F.CONNECT indication.
#[derive(Debug, PartialEq, Eq)]
pub struct ConnectRequest {
    /// Requester identifier (PI 3).
    pub requester: String,
    /// Server identifier (PI 4).
    pub server: String,
    /// Password (PI 5).
    pub password: Option<String>,
    /// Requested version (PI 6).
    pub version: Version,
    /// Proposed synchronisation option (PI 7).
    pub sync: SyncOption,
    /// Access type (PI 22).
    pub access: AccessType,
    /// Resynchronisation proposed (PI 22).
    pub resync: bool,
    /// CRC option (PI 1).
    pub crc: bool,
    /// Free message (PI 99).
    pub free_message: Option<String>,
    /// Pre-connection identification when one was received.
    pub preconnect: Option<(String, String)>,
    /// Remote address.
    pub remote_addr: String,
}

/// What a CONNECT asks for.
#[verifier::ext_equal]
pub struct ConnectRequestV {
    /// Requester identifier.
    pub requester: Seq<char>,
    /// Server identifier.
    pub server: Seq<char>,
    /// Password.
    pub password: Option<Seq<char>>,
    /// Requested version.
    pub version: Version,
    /// Proposed synchronisation option.
    pub sync: SyncOption,
    /// Access type.
    pub access: AccessType,
    /// Resynchronisation proposed.
    pub resync: bool,
    /// CRC option.
    pub crc: bool,
    /// Free message.
    pub free_message: Option<Seq<char>>,
}

impl View for ConnectRequest {
    type V = ConnectRequestV;

    open spec fn view(&self) -> ConnectRequestV {
        ConnectRequestV {
            requester: self.requester@,
            server: self.server@,
            password: opt_text(self.password),
            version: self.version,
            sync: self.sync,
            access: self.access,
            resync: self.resync,
            crc: self.crc,
            free_message: opt_text(self.free_message),
        }
    }
}

/// A text, or the empty one.
pub open spec fn or_empty(t: Option<Seq<char>>) -> Seq<char> {
    match t {
        Some(t) => t,
        None => Seq::empty(),
    }
}

impl ConnectRequestV {
    /// What a CONNECT FPDU asks for.
    pub open spec fn of(f: FpduV) -> ConnectRequestV {
        ConnectRequestV {
            requester: or_empty(f.string(Pi::Requester)),
            server: or_empty(f.string(Pi::Server)),
            password: f.string(Pi::AccessControl),
            version: match f.version() {
                Some(v) => v,
                None => Version::E,
            },
            sync: match f.sync_option() {
                Some(s) => s,
                None => SyncOption::none(),
            },
            access: match f.access_type() {
                Some(a) => a,
                None => AccessType::Mixed,
            },
            resync: f.number(Pi::Resync) == Some(1u64),
            crc: f.number(Pi::Crc) == Some(1u64),
            free_message: f.string(Pi::FreeMessage),
        }
    }
}

fn text_or_empty(f: &Fpdu, pi: Pi) -> (r: String)
    ensures
        r@ == or_empty(f@.string(pi)),
{
    match f.get_text(pi) {
        Some(t) => t,
        None => String::new(),
    }
}

fn flag_set(f: &Fpdu, pi: Pi) -> (r: bool)
    ensures
        r == (f@.number(pi) == Some(1u64)),
{
    match f.get_num(pi) {
        Some(n) => n == 1,
        None => false,
    }
}

impl ConnectRequest {
    /// Read a CONNECT.
    #[must_use]
    pub fn from_fpdu(f: &Fpdu, preconnect: Option<(String, String)>, remote_addr: String) -> (r:
        Self)
        ensures
            r@ == ConnectRequestV::of(f@),
            r.preconnect == preconnect,
            r.remote_addr == remote_addr,
    {
        let version = match f.version() {
            Some(v) => v,
            None => Version::E,
        };
        let sync = match f.sync_option() {
            Some(s) => s,
            None => SyncOption::none(),
        };
        let access = match f.access_type() {
            Some(a) => a,
            None => AccessType::Mixed,
        };
        let r = ConnectRequest {
            requester: text_or_empty(f, Pi::Requester),
            server: text_or_empty(f, Pi::Server),
            password: f.get_text(Pi::AccessControl),
            version,
            sync,
            access,
            resync: flag_set(f, Pi::Resync),
            crc: flag_set(f, Pi::Crc),
            free_message: f.get_text(Pi::FreeMessage),
            preconnect,
            remote_addr,
        };
        proof {
            assert(r@ =~= ConnectRequestV::of(f@));
        }
        r
    }
}

/// Local capabilities accepted for a connection.
#[derive(Debug, PartialEq, Eq)]
pub struct ConnectAccept {
    /// Local synchronisation capability (negotiated with the proposal).
    pub sync: SyncOption,
    /// Accept resynchronisation.
    pub resync: bool,
    /// Compression capability (negotiated at ORF).
    pub compression: Compression,
    /// Multi-article DTFs when sending.
    pub multi_article: bool,
    /// Local maximum entity size (PI 25).
    pub max_entity: u16,
    /// Free message for ACONNECT (PI 99).
    pub free_message: Option<String>,
}

impl Default for ConnectAccept {
    fn default() -> (r: Self)
        ensures
            r.sync == (SyncOption { interval_kb: 32, window: 4 }),
            r.resync && r.multi_article,
            r.compression == Compression::Off,
            r.max_entity == 0xFFFF,
            r.free_message is None,
    {
        ConnectAccept {
            sync: SyncOption { interval_kb: 32, window: 4 },
            resync: true,
            compression: Compression::Off,
            multi_article: true,
            max_entity: 0xFFFF,
            free_message: None,
        }
    }
}

/// Information about the session.
#[derive(Debug, PartialEq, Eq)]
pub struct SessionInfo {
    /// Session identifier.
    pub id: String,
    /// Requester identifier.
    pub requester: String,
    /// Server identifier.
    pub server: String,
    /// Remote address.
    pub remote_addr: String,
    /// Negotiated parameters.
    pub negotiated: Negotiated,
}

/// How a file that the requester wants to write is accepted (F.CREATE).
#[derive(Debug, PartialEq, Eq)]
pub struct CreateAccept {
    /// Transfer identifier to return (PI 13); `None` keeps the requester's.
    pub transfer_id: Option<u32>,
    /// Restart point offered when the requester restarts an interrupted transfer.
    pub restart: Option<Checkpoint>,
    /// Maximum article length accepted (0 = unbounded).
    pub max_article: usize,
    /// Opaque transfer handle for events.
    pub handle: u64,
    /// Free message for ACK(CREATE) (PI 99).
    pub free_message: Option<String>,
}

/// How a file that the requester wants to read is accepted (F.SELECT).
#[derive(Debug, PartialEq, Eq)]
pub struct SelectAccept {
    /// Attributes of the file (returned in ACK(SELECT)).
    pub spec: FileSpec,
    /// Opaque transfer handle for events.
    pub handle: u64,
}

/// Transfer lifecycle events.
#[derive(Debug, PartialEq, Eq)]
pub enum TransferEvent {
    /// Data phase started from the given checkpoint.
    Started {
        /// Assigned transfer identifier.
        transfer_id: u32,
        /// Checkpoint the transfer starts from.
        from: Checkpoint,
    },
    /// Progress notification.
    Progress(Progress),
    /// Transfer ended (data phase result + closing diagnostic).
    Ended {
        /// Data phase result.
        data: DataResult,
        /// Diagnostic from the requester's TRANS.END / CRF.
        diag: Diagnostic,
    },
    /// Transfer failed with an error.
    Failed(String),
}

/// Server-side session configuration.
#[derive(Debug, PartialEq, Eq)]
pub struct ResponderConfig {
    /// Session identifier (for logs and events).
    pub session_id: String,
    /// Connection identifier assigned to this session (octet 6 of our FPDUs).
    pub conn_id: u8,
    /// Watchdog timeout during transfers, in milliseconds.
    pub timeout_ms: u64,
    /// Idle timeout between transfers, in milliseconds.
    pub idle_timeout_ms: u64,
    /// Remote address.
    pub remote_addr: String,
}

// ---- connection ----

/// Whether the entity of a CONNECT carries check bytes: it is longer than its FPDU by just those.
pub open spec fn carries_crc(entity: Seq<u8>) -> bool {
    let n = if entity.len() >= 2 {
        entity[0] as nat * 256 + entity[1] as nat
    } else {
        0
    };
    entity.len() == n + CRC_LEN
}

/// Whether the entity of a CONNECT carries check bytes.
#[must_use]
pub fn detect_crc(entity: &[u8]) -> (r: bool)
    ensures
        r == carries_crc(entity@),
{
    let n: usize = if entity.len() >= 2 {
        entity[0] as usize * 256 + entity[1] as usize
    } else {
        0
    };
    entity.len() == n + CRC_LEN
}

/// First FPDU of an entity.
pub open spec fn first_fpdu(entity: Seq<u8>, crc: bool) -> Result<FpduV, SessionErrorV> {
    match split(entity, crc) {
        Err(fault) => Err(SessionErrorV::Decode(fault)),
        Ok(parts) => if parts.len() == 0 {
            Err(
                SessionErrorV::Transport(
                    (TransportError::Invalid(entity.len() as usize)).spec_text(),
                ),
            )
        } else {
            match FpduV::decoded(parts[0], true) {
                Ok(f) => Ok(f),
                Err(fault) => Err(SessionErrorV::Decode(fault)),
            }
        },
    }
}

/// Read the first FPDU of an entity.
pub fn decode_first(entity: &[u8], crc: bool) -> (r: Result<Fpdu, SessionError>)
    ensures
        match first_fpdu(entity@, crc) {
            Ok(f) => r is Ok && r->Ok_0@ == f,
            Err(e) => r is Err && r->Err_0@ == e,
        },
{
    let parts = match split_entity(entity, crc) {
        Ok(p) => p,
        Err(e) => {
            return Err(SessionError::Decode(e));
        },
    };
    if parts.len() == 0 {
        return Err(SessionError::Transport(TransportError::Invalid(entity.len())));
    }
    proof {
        assert(byte_slices(parts@)[0] == parts@[0]@);
    }
    match Fpdu::decode(parts[0]) {
        Ok(f) => Ok(f),
        Err(e) => Err(SessionError::Decode(e)),
    }
}

/// State of a server session.
#[verifier::ext_equal]
pub struct ResponderV {
    /// Protocol state.
    pub state: State,
    /// Connection identifier of this session.
    pub conn_id: u8,
    /// Watchdog timeout during transfers, in milliseconds.
    pub timeout_ms: u64,
    /// Connection identifier of the requester.
    pub peer_id: u8,
    /// Access type of the session.
    pub access: AccessType,
    /// Negotiated parameters.
    pub negotiated: Negotiated,
    /// Local compression capability.
    pub compression: Compression,
    /// Multi-article DTFs when sending.
    pub multi_article: bool,
    /// Local maximum entity size.
    pub max_entity: u16,
}

/// Parameters of a session that has not been negotiated.
pub open spec fn not_negotiated() -> Negotiated {
    Negotiated { version: Version::E, sync: SyncOption::none(), resync: false, crc: false }
}

/// Detail of the fault of a CONNECT whose PI 1 is wrong.
pub open spec fn crc_mismatch() -> SessionErrorV {
    SessionErrorV::Decode(
        (Diagnostic::invalid_parameter(), "PI 1 does not match the presence of a CRC"@),
    )
}

impl ResponderV {
    /// A session that waits for its CONNECT.
    pub open spec fn waiting(conn_id: u8, timeout_ms: u64) -> ResponderV {
        ResponderV {
            state: State::INITIAL,
            conn_id,
            timeout_ms,
            peer_id: 0,
            access: AccessType::Mixed,
            negotiated: not_negotiated(),
            compression: Compression::Off,
            multi_article: true,
            max_entity: 0xFFFF,
        }
    }

    /// Behind the first entity: the session, and what the requester asks for.
    pub open spec fn connect_step(self, entity: Seq<u8>) -> (
        ResponderV,
        Result<ConnectRequestV, SessionErrorV>,
    ) {
        let crc = carries_crc(entity);
        let waiting = ResponderV { negotiated: Negotiated { crc, ..self.negotiated }, ..self };
        match first_fpdu(entity, crc) {
            Err(e) => (waiting, Err(e)),
            Ok(f) => if f.kind != FpduKind::Connect {
                (waiting, Err(SessionErrorV::Protocol(self.state, f.kind)))
            } else {
                let next = ResponderV { state: state_behind(self.state, f), ..waiting };
                match receive_fault(self.state, f) {
                    Some(e) => (next, Err(e)),
                    None => {
                        let asked = ConnectRequestV::of(f);
                        let next = ResponderV {
                            peer_id: f.id_src,
                            access: asked.access,
                            ..next
                        };
                        if asked.crc != crc {
                            (next, Err(crc_mismatch()))
                        } else {
                            (next, Ok(asked))
                        }
                    },
                }
            },
        }
    }

    /// What is settled with an accepted requester.
    pub open spec fn settled(self, asked: ConnectRequestV, accept: ConnectAccept) -> Negotiated {
        Negotiated {
            version: if asked.version == Version::D {
                Version::D
            } else {
                Version::E
            },
            sync: SyncOption::spec_negotiate(asked.sync, accept.sync),
            resync: asked.resync && accept.resync,
            crc: self.negotiated.crc,
        }
    }

    /// Entity size of a transfer: what the requester proposes, but room for more than a header,
    /// and no more than the local limit.
    pub open spec fn entity_size(self, proposed: u16) -> u16 {
        let wanted = if proposed <= HEADER_LEN {
            (HEADER_LEN + 1) as u16
        } else {
            proposed
        };
        if wanted <= self.max_entity {
            wanted
        } else {
            self.max_entity
        }
    }

    /// What a FPDU that arrives between transfers asks for.
    pub open spec fn indication_step(self, f: FpduV) -> Result<
        (State, IndicationV),
        SessionErrorV,
    > {
        match receive_fault(self.state, f) {
            Some(e) => Err(e),
            None => {
                let st = state_behind(self.state, f);
                match f.kind {
                    FpduKind::Create => if self.access.allows_write() {
                        Ok((st, IndicationV::Create(FileSpecV::of(f))))
                    } else {
                        match local_step(st, LocalEvent::Reject) {
                            Ok(s) => Ok(
                                (
                                    s,
                                    IndicationV::Refused(
                                        spec_ack_create(
                                            self.peer_id,
                                            Diagnostic::select_negotiation(),
                                            Some(point_or_zero(f.number32(Pi::TransferId))),
                                            0,
                                            None,
                                        ),
                                    ),
                                ),
                            ),
                            Err(e) => Err(e),
                        }
                    },
                    FpduKind::Select => if self.access.allows_read() {
                        Ok((st, IndicationV::Select(FileSpecV::of(f), asked_attributes(f))))
                    } else {
                        match local_step(st, LocalEvent::Reject) {
                            Ok(s) => Ok(
                                (
                                    s,
                                    IndicationV::Refused(
                                        diag_fpdu(
                                            FpduKind::AckSelect,
                                            self.peer_id,
                                            0,
                                            Diagnostic::select_negotiation(),
                                        ),
                                    ),
                                ),
                            ),
                            Err(e) => Err(e),
                        }
                    },
                    FpduKind::Msg | FpduKind::MsgDm => Ok(
                        (
                            st,
                            IndicationV::Message(
                                IncomingMessageV::of(f),
                                f.kind == FpduKind::Msg,
                            ),
                        ),
                    ),
                    FpduKind::Release => match local_step(st, LocalEvent::Accept) {
                        Ok(s) => Ok(
                            (
                                s,
                                IndicationV::Released(
                                    FpduV::between(FpduKind::Relconf, self.peer_id, self.conn_id),
                                ),
                            ),
                        ),
                        Err(e) => Err(e),
                    },
                    k => if dropped(self.state, f) {
                        Ok((st, IndicationV::Nothing))
                    } else {
                        Err(SessionErrorV::Protocol(st, k))
                    },
                }
            },
        }
    }

    /// What is known to have gone wrong behind a FPDU of the closing phase that is not answered.
    pub open spec fn diag_behind(self, diag: Diagnostic, data: DataResult, f: FpduV) -> Diagnostic {
        if receive_fault(self.state, f) is Some || dropped(self.state, f) {
            diag
        } else if f.kind == FpduKind::TransEnd && count_fault(f, data.data_bytes, data.articles)
            is Some {
            Diagnostic::invalid_counts()
        } else if (f.kind == FpduKind::TransEnd || f.kind == FpduKind::Crf)
            && !f.diag_or_ok().spec_is_ok() {
            f.diag_or_ok()
        } else {
            diag
        }
    }

    /// Behind a FPDU of the closing phase: the state, the closing diagnostic, the answer, and
    /// whether the transfer is over.
    pub open spec fn close_step(self, diag: Diagnostic, data: DataResult, f: FpduV) -> Result<
        (State, Diagnostic, Option<FpduV>, bool),
        SessionErrorV,
    > {
        match receive_fault(self.state, f) {
            Some(e) => Err(e),
            None => {
                let st = state_behind(self.state, f);
                let told = if f.diag_or_ok().spec_is_ok() {
                    diag
                } else {
                    f.diag_or_ok()
                };
                let accepted = local_step(st, LocalEvent::Accept);
                if dropped(self.state, f) {
                    Ok((st, diag, None, false))
                } else if f.kind == FpduKind::TransEnd {
                    let agreed = count_fault(f, data.data_bytes, data.articles) is None;
                    let answer = if agreed {
                        Diagnostic::ok()
                    } else {
                        Diagnostic::invalid_counts()
                    };
                    match accepted {
                        Ok(s) => Ok(
                            (
                                s,
                                if agreed {
                                    told
                                } else {
                                    Diagnostic::invalid_counts()
                                },
                                Some(
                                    spec_ack_trans_end(
                                        self.peer_id,
                                        answer,
                                        Some(data.data_bytes),
                                        Some(data.articles),
                                    ),
                                ),
                                false,
                            ),
                        ),
                        Err(e) => Err(e),
                    }
                } else if f.kind == FpduKind::Crf {
                    match accepted {
                        Ok(s) => Ok(
                            (
                                s,
                                told,
                                Some(
                                    diag_fpdu(FpduKind::AckCrf, self.peer_id, 0, Diagnostic::ok()),
                                ),
                                false,
                            ),
                        ),
                        Err(e) => Err(e),
                    }
                } else if f.kind == FpduKind::Deselect {
                    match accepted {
                        Ok(s) => Ok(
                            (
                                s,
                                diag,
                                Some(
                                    diag_fpdu(
                                        FpduKind::AckDeselect,
                                        self.peer_id,
                                        0,
                                        Diagnostic::ok(),
                                    ),
                                ),
                                true,
                            ),
                        ),
                        Err(e) => Err(e),
                    }
                } else {
                    Err(SessionErrorV::Protocol(st, f.kind))
                }
            },
        }
    }

    /// Parameters of a data phase.
    pub open spec fn data_params(
        self,
        compression: Compression,
        max_entity: u16,
        max_article: usize,
    ) -> DataParams {
        DataParams {
            peer_id: self.peer_id,
            sync: self.negotiated.sync,
            resync: self.negotiated.resync,
            compression,
            crc: self.negotiated.crc,
            max_entity: max_entity as usize,
            multi_article: self.multi_article,
            max_article,
            timeout_ms: self.timeout_ms,
            role: Role::Server,
        }
    }
}

/// Attributes that a SELECT asks for; all where it does not say.
pub open spec fn asked_attributes(f: FpduV) -> RequestedAttributes {
    match f.number(Pi::RequestedAttributes) {
        Some(n) => RequestedAttributes::spec_from_code(n as u8),
        None => RequestedAttributes::all(),
    }
}

/// What a FPDU between transfers asks for.
#[derive(Debug, PartialEq, Eq)]
pub enum Indication {
    /// The requester wants to send a file.
    Create(FileSpec),
    /// The requester wants to receive a file.
    Select(FileSpec, RequestedAttributes),
    /// A message, and whether it is complete.
    Message(IncomingMessage, bool),
    /// The session is over: send this RELCONF.
    Released(Fpdu),
    /// The request is refused: send this answer.
    Refused(Fpdu),
    /// Nothing to do.
    Nothing,
}

/// Value of an indication.
#[verifier::ext_equal]
pub enum IndicationV {
    /// The requester wants to send a file.
    Create(FileSpecV),
    /// The requester wants to receive a file.
    Select(FileSpecV, RequestedAttributes),
    /// A message, and whether it is complete.
    Message(IncomingMessageV, bool),
    /// The session is over.
    Released(FpduV),
    /// The request is refused.
    Refused(FpduV),
    /// Nothing to do.
    Nothing,
}

impl View for Indication {
    type V = IndicationV;

    open spec fn view(&self) -> IndicationV {
        match self {
            Indication::Create(s) => IndicationV::Create(s@),
            Indication::Select(s, a) => IndicationV::Select(s@, *a),
            Indication::Message(m, c) => IndicationV::Message(m@, *c),
            Indication::Released(f) => IndicationV::Released(f@),
            Indication::Refused(f) => IndicationV::Refused(f@),
            Indication::Nothing => IndicationV::Nothing,
        }
    }
}

/// Where a read starts, or how it is refused.
#[derive(Debug, PartialEq, Eq)]
pub enum ReadStart {
    /// Send this ACK(READ), then the data from this checkpoint.
    From(Checkpoint, Fpdu),
    /// Send this negative ACK(READ), then fail with the error.
    Refused(Fpdu, SessionError),
}

/// A server session.
#[derive(Debug)]
pub struct Responder {
    machine: Machine,
    conn_id: u8,
    timeout_ms: u64,
    peer_id: u8,
    access: AccessType,
    negotiated: Negotiated,
    compression: Compression,
    multi_article: bool,
    max_entity: u16,
}

impl View for Responder {
    type V = ResponderV;

    closed spec fn view(&self) -> ResponderV {
        ResponderV {
            state: self.machine.spec_state(),
            conn_id: self.conn_id,
            timeout_ms: self.timeout_ms,
            peer_id: self.peer_id,
            access: self.access,
            negotiated: self.negotiated,
            compression: self.compression,
            multi_article: self.multi_article,
            max_entity: self.max_entity,
        }
    }
}

impl Responder {
    /// A session that waits for its CONNECT.
    #[must_use]
    pub fn new(cfg: &ResponderConfig) -> (r: Self)
        ensures
            r@ == ResponderV::waiting(cfg.conn_id, cfg.timeout_ms),
    {
        Responder {
            machine: Machine::new(Role::Server),
            conn_id: cfg.conn_id,
            timeout_ms: cfg.timeout_ms,
            peer_id: 0,
            access: AccessType::Mixed,
            negotiated: Negotiated {
                version: Version::E,
                sync: SyncOption::none(),
                resync: false,
                crc: false,
            },
            compression: Compression::Off,
            multi_article: true,
            max_entity: 0xFFFF,
        }
    }

    /// The protocol machine, for the data phase and the segments of a message.
    #[must_use]
    pub fn machine(&mut self) -> (r: &mut Machine)
        ensures
            r.spec_state() == old(self)@.state,
            final(self)@ == (ResponderV { state: final(r).spec_state(), ..old(self)@ }),
    {
        &mut self.machine
    }

    /// Negotiated session parameters.
    #[must_use]
    pub fn negotiated(&self) -> (r: Negotiated)
        ensures
            r == self@.negotiated,
    {
        self.negotiated
    }

    /// Take the entity that opens the session: it has to hold a CONNECT whose CRC option agrees
    /// with the form of the entity.
    pub fn on_connect(
        &mut self,
        entity: &[u8],
        preconnect: Option<(String, String)>,
        remote_addr: String,
    ) -> (r: Result<ConnectRequest, SessionError>)
        ensures
            ({
                let (next, asked) = old(self)@.connect_step(entity@);
                &&& final(self)@ == next
                &&& match asked {
                    Ok(q) => r is Ok && r->Ok_0@ == q && r->Ok_0.preconnect == preconnect
                        && r->Ok_0.remote_addr == remote_addr,
                    Err(e) => r is Err && r->Err_0@ == e,
                }
            }),
    {
        let crc: bool = detect_crc(entity);
        self.negotiated.crc = crc;
        let connect = match decode_first(entity, crc) {
            Ok(f) => f,
            Err(e) => {
                return Err(e);
            },
        };
        if connect.kind != FpduKind::Connect {
            return Err(
                SessionError::Protocol { state: self.machine.state(), kind: connect.kind },
            );
        }
        match take_received(&mut self.machine, &connect) {
            Ok(_) => {},
            Err(e) => {
                return Err(e);
            },
        }
        let asked = ConnectRequest::from_fpdu(&connect, preconnect, remote_addr);
        self.peer_id = connect.id_src;
        self.access = asked.access;
        if asked.crc != crc {
            return Err(
                SessionError::Decode(
                    DecodeError {
                        diag: Diagnostic::invalid_parameter(),
                        detail: "PI 1 does not match the presence of a CRC".to_owned(),
                    },
                ),
            );
        }
        Ok(asked)
    }

    /// Refuse the connection: the RCONNECT to send, and the error that ends the session.
    pub fn refuse_connect(&mut self, refusal: Refusal) -> (r: Result<
        (Fpdu, SessionError),
        SessionError,
    >)
        ensures
            match local_step(old(self)@.state, LocalEvent::Reject) {
                Ok(s) => {
                    &&& r is Ok
                    &&& (r->Ok_0).0@ == diag_fpdu(
                        FpduKind::Rconnect,
                        old(self)@.peer_id,
                        0,
                        refusal@.diag,
                    ).with_opt_string(Pi::FreeMessage, non_empty(refusal@.message))
                    &&& (r->Ok_0).1@ == SessionErrorV::Refused(
                        FpduKind::Connect,
                        refusal@.diag,
                        refusal@.message,
                    )
                    &&& final(self)@ == (ResponderV { state: s, ..old(self)@ })
                },
                Err(e) => r is Err && r->Err_0@ == e && final(self)@ == old(self)@,
            },
    {
        match apply_local(&mut self.machine, LocalEvent::Reject) {
            Ok(()) => {},
            Err(e) => {
                return Err(e);
            },
        }
        let f = builder::rconnect(self.peer_id, refusal.diag, as_opt_str(&refusal.message));
        Ok(
            (
                f,
                SessionError::Refused {
                    request: FpduKind::Connect,
                    diag: refusal.diag,
                    message: refusal.message,
                },
            ),
        )
    }

    /// Accept the connection: the ACONNECT to send.
    pub fn accept_connect(&mut self, asked: &ConnectRequest, accept: &ConnectAccept) -> (r: Result<
        Fpdu,
        SessionError,
    >)
        ensures
            ({
                let n = old(self)@.settled(asked@, *accept);
                let next = ResponderV {
                    negotiated: n,
                    compression: accept.compression,
                    multi_article: accept.multi_article,
                    max_entity: accept.max_entity,
                    ..old(self)@
                };
                match local_step(old(self)@.state, LocalEvent::Accept) {
                    Ok(s) => {
                        &&& r is Ok
                        &&& r->Ok_0@ == spec_aconnect(
                            old(self)@.peer_id,
                            old(self)@.conn_id,
                            n.version,
                            n.sync,
                            n.resync,
                            opt_text(accept.free_message),
                        )
                        &&& final(self)@ == (ResponderV { state: s, ..next })
                    },
                    Err(e) => r is Err && r->Err_0@ == e && final(self)@ == next,
                }
            }),
    {
        let version = if asked.version == Version::D {
            Version::D
        } else {
            Version::E
        };
        let sync = SyncOption::negotiate(asked.sync, accept.sync);
        let resync = asked.resync && accept.resync;
        self.negotiated = Negotiated { version, sync, resync, crc: self.negotiated.crc };
        self.compression = accept.compression;
        self.multi_article = accept.multi_article;
        self.max_entity = accept.max_entity;
        match apply_local(&mut self.machine, LocalEvent::Accept) {
            Ok(()) => Ok(
                builder::aconnect(
                    self.peer_id,
                    self.conn_id,
                    version,
                    sync,
                    resync,
                    as_opt_str(&accept.free_message),
                ),
            ),
            Err(e) => Err(e),
        }
    }

    /// The ABORT to send for an error that ends the session, if one is due: none on a connection
    /// that is not established, that the peer aborted, or that broke.
    #[must_use]
    pub fn farewell(&self, e: &SessionError) -> (r: Option<Fpdu>)
        ensures
            if self@.state == State::INITIAL || e is Aborted || e is Transport {
                r is None
            } else {
                r is Some && r->0@ == diag_fpdu(
                    FpduKind::Abort,
                    self@.peer_id,
                    self@.conn_id,
                    e.spec_abort_diag(),
                )
            },
    {
        if self.machine.state() == State::INITIAL {
            return None;
        }
        match e {
            SessionError::Aborted { .. } => None,
            SessionError::Transport(_) => None,
            _ => Some(builder::abort(self.peer_id, self.conn_id, e.abort_diag())),
        }
    }

    // ---- between transfers ----

    /// Take a FPDU between transfers.
    pub fn on_fpdu(&mut self, f: &Fpdu) -> (r: Result<Indication, SessionError>)
        ensures
            match old(self)@.indication_step(f@) {
                Ok((s, i)) => r is Ok && r->Ok_0@ == i && final(self)@ == (ResponderV {
                    state: s,
                    ..old(self)@
                }),
                Err(e) => r is Err && r->Err_0@ == e && final(self)@ == (ResponderV {
                    state: state_behind(old(self)@.state, f@),
                    ..old(self)@
                }),
            },
    {
        let ignored: bool = match take_received(&mut self.machine, f) {
            Ok(i) => i,
            Err(e) => {
                return Err(e);
            },
        };
        match f.kind {
            FpduKind::Create => {
                if self.access.allows_write() {
                    return Ok(Indication::Create(FileSpec::from_fpdu(f)));
                }
                let refusal = Refusal::new(Diagnostic::select_negotiation());
                match self.refuse_create(&refusal, f.transfer_id().unwrap_or(0)) {
                    Ok(a) => Ok(Indication::Refused(a)),
                    Err(e) => Err(e),
                }
            },
            FpduKind::Select => {
                if self.access.allows_read() {
                    let attrs = match f.get_num(Pi::RequestedAttributes) {
                        Some(n) => RequestedAttributes::from_code(n as u8),
                        None => RequestedAttributes::all(),
                    };
                    return Ok(Indication::Select(FileSpec::from_fpdu(f), attrs));
                }
                let refusal = Refusal::new(Diagnostic::select_negotiation());
                match self.refuse_select(&refusal) {
                    Ok(a) => Ok(Indication::Refused(a)),
                    Err(e) => Err(e),
                }
            },
            FpduKind::Msg => Ok(Indication::Message(IncomingMessage::begin(f), true)),
            FpduKind::MsgDm => Ok(Indication::Message(IncomingMessage::begin(f), false)),
            FpduKind::Release => match apply_local(&mut self.machine, LocalEvent::Accept) {
                Ok(()) => Ok(Indication::Released(builder::relconf(self.peer_id, self.conn_id))),
                Err(e) => Err(e),
            },
            k => {
                if ignored {
                    Ok(Indication::Nothing)
                } else {
                    Err(SessionError::Protocol { state: self.machine.state(), kind: k })
                }
            },
        }
    }

    /// Refuse a CREATE: the ACK(CREATE) to send.
    pub fn refuse_create(&mut self, refusal: &Refusal, transfer_id: u32) -> (r: Result<
        Fpdu,
        SessionError,
    >)
        ensures
            match local_step(old(self)@.state, LocalEvent::Reject) {
                Ok(s) => {
                    &&& r is Ok
                    &&& r->Ok_0@ == spec_ack_create(
                        old(self)@.peer_id,
                        refusal@.diag,
                        Some(transfer_id),
                        0,
                        refusal@.message,
                    )
                    &&& final(self)@ == (ResponderV { state: s, ..old(self)@ })
                },
                Err(e) => r is Err && r->Err_0@ == e && final(self)@ == old(self)@,
            },
    {
        match apply_local(&mut self.machine, LocalEvent::Reject) {
            Ok(()) => Ok(
                builder::ack_create(
                    self.peer_id,
                    refusal.diag,
                    Some(transfer_id),
                    0,
                    as_opt_str(&refusal.message),
                ),
            ),
            Err(e) => Err(e),
        }
    }

    /// Refuse a SELECT: the ACK(SELECT) to send.
    pub fn refuse_select(&mut self, refusal: &Refusal) -> (r: Result<Fpdu, SessionError>)
        ensures
            match local_step(old(self)@.state, LocalEvent::Reject) {
                Ok(s) => {
                    &&& r is Ok
                    &&& r->Ok_0@ == diag_fpdu(
                        FpduKind::AckSelect,
                        old(self)@.peer_id,
                        0,
                        refusal@.diag,
                    ).with_opt_string(Pi::FreeMessage, non_empty(refusal@.message))
                    &&& final(self)@ == (ResponderV { state: s, ..old(self)@ })
                },
                Err(e) => r is Err && r->Err_0@ == e && final(self)@ == old(self)@,
            },
    {
        match apply_local(&mut self.machine, LocalEvent::Reject) {
            Ok(()) => Ok(
                builder::nack_select(self.peer_id, refusal.diag, as_opt_str(&refusal.message)),
            ),
            Err(e) => Err(e),
        }
    }

    /// Entity size of a transfer that proposes `proposed`.
    #[must_use]
    pub fn entity_size(&self, proposed: u16) -> (r: u16)
        ensures
            r == self@.entity_size(proposed),
    {
        let least: u16 = 7;
        let wanted: u16 = if proposed < least {
            least
        } else {
            proposed
        };
        if wanted <= self.max_entity {
            wanted
        } else {
            self.max_entity
        }
    }

    /// Accept a CREATE: the transfer identifier, the entity size and the ACK(CREATE) to send.
    pub fn accept_create(&mut self, spec: &FileSpec, accept: &CreateAccept) -> (r: Result<
        (u32, u16, Fpdu),
        SessionError,
    >)
        ensures
            ({
                let id = match accept.transfer_id {
                    Some(n) => n,
                    None => spec@.transfer_id,
                };
                let size = old(self)@.entity_size(spec@.max_entity_size);
                match local_step(old(self)@.state, LocalEvent::Accept) {
                    Ok(s) => {
                        &&& r is Ok
                        &&& (r->Ok_0).0 == id
                        &&& (r->Ok_0).1 == size
                        &&& (r->Ok_0).2@ == spec_ack_create(
                            old(self)@.peer_id,
                            Diagnostic::ok(),
                            Some(id),
                            size,
                            opt_text(accept.free_message),
                        )
                        &&& final(self)@ == (ResponderV { state: s, ..old(self)@ })
                    },
                    Err(e) => r is Err && r->Err_0@ == e && final(self)@ == old(self)@,
                }
            }),
    {
        let id: u32 = match accept.transfer_id {
            Some(n) => n,
            None => spec.transfer_id,
        };
        let size: u16 = self.entity_size(spec.max_entity_size);
        match apply_local(&mut self.machine, LocalEvent::Accept) {
            Ok(()) => Ok(
                (
                    id,
                    size,
                    builder::ack_create(
                        self.peer_id,
                        Diagnostic::ok(),
                        Some(id),
                        size,
                        as_opt_str(&accept.free_message),
                    ),
                ),
            ),
            Err(e) => Err(e),
        }
    }

    /// Accept a SELECT: the attributes as they are answered, and the ACK(SELECT) to send. An
    /// answer without a transfer identifier keeps that of the request.
    pub fn accept_select(
        &mut self,
        asked: &FileSpec,
        answer: FileSpec,
        attrs: RequestedAttributes,
    ) -> (r: Result<(FileSpec, Fpdu), SessionError>)
        ensures
            ({
                let told = FileSpecV {
                    max_entity_size: old(self)@.entity_size(asked@.max_entity_size),
                    transfer_id: if answer@.transfer_id == 0 {
                        asked@.transfer_id
                    } else {
                        answer@.transfer_id
                    },
                    ..answer@
                };
                match local_step(old(self)@.state, LocalEvent::Accept) {
                    Ok(s) => {
                        &&& r is Ok
                        &&& (r->Ok_0).0@ == told
                        &&& (r->Ok_0).1@ == told.ack_select(old(self)@.peer_id, attrs)
                        &&& final(self)@ == (ResponderV { state: s, ..old(self)@ })
                    },
                    Err(e) => r is Err && r->Err_0@ == e && final(self)@ == old(self)@,
                }
            }),
    {
        let mut told = answer;
        told.max_entity_size = self.entity_size(asked.max_entity_size);
        if told.transfer_id == 0 {
            told.transfer_id = asked.transfer_id;
        }
        match apply_local(&mut self.machine, LocalEvent::Accept) {
            Ok(()) => {
                let f = told.ack_select(self.peer_id, attrs);
                Ok((told, f))
            },
            Err(e) => Err(e),
        }
    }

    // ---- a transfer ----

    /// Take a FPDU while one of kind `expect` is awaited; `None` to wait on.
    pub fn expect(&mut self, expect: FpduKind, f: Fpdu) -> (r: Result<Option<Fpdu>, SessionError>)
        ensures
            final(self)@ == (ResponderV { state: state_behind(old(self)@.state, f@), ..old(self)@ }),
            match awaited_step(old(self)@.state, expect, f@) {
                Err(e) => r is Err && r->Err_0@ == e,
                Ok(answer) => r is Ok && opt_fpdu(r->Ok_0) == answer,
            },
    {
        await_kind(&mut self.machine, expect, f)
    }

    /// Open the file: the compression of the transfer, and the ACK(ORF) to send.
    pub fn on_open(&mut self, orf: &Fpdu) -> (r: Result<(Compression, Fpdu), SessionError>)
        ensures
            ({
                let c = Compression::spec_negotiate(
                    match orf@.compression() {
                        Some(c) => c,
                        None => Compression::Off,
                    },
                    old(self)@.compression,
                );
                match local_step(old(self)@.state, LocalEvent::Accept) {
                    Ok(s) => {
                        &&& r is Ok
                        &&& (r->Ok_0).0 == c
                        &&& (r->Ok_0).1@ == diag_fpdu(
                            FpduKind::AckOrf,
                            old(self)@.peer_id,
                            0,
                            Diagnostic::ok(),
                        ).with_compression(c)
                        &&& final(self)@ == (ResponderV { state: s, ..old(self)@ })
                    },
                    Err(e) => r is Err && r->Err_0@ == e && final(self)@ == old(self)@,
                }
            }),
    {
        let wanted = match orf.compression() {
            Some(c) => c,
            None => Compression::Off,
        };
        let c = Compression::negotiate(wanted, self.compression);
        match apply_local(&mut self.machine, LocalEvent::Accept) {
            Ok(()) => Ok((c, builder::ack_orf(self.peer_id, Diagnostic::ok(), c))),
            Err(e) => Err(e),
        }
    }

    /// Start a write: the checkpoint that the data starts from, and the ACK(WRITE) to send. Only
    /// a transfer that says it is a restart resumes at the offered checkpoint.
    pub fn on_write(
        &mut self,
        restarted: bool,
        restart: Option<Checkpoint>,
        store: &mut MemoryCheckpoints,
    ) -> (r: Result<(Checkpoint, Fpdu), SessionError>)
        ensures
            ({
                let start = if restarted && restart is Some {
                    restart->0
                } else {
                    Checkpoint::beginning()
                };
                match local_step(old(self)@.state, LocalEvent::Accept) {
                    Ok(s) => {
                        &&& r is Ok
                        &&& (r->Ok_0).0 == start
                        &&& (r->Ok_0).1@ == diag_fpdu(
                            FpduKind::AckWrite,
                            old(self)@.peer_id,
                            0,
                            Diagnostic::ok(),
                        ).with_number(Pi::RestartPoint, start.sync as nat)
                        &&& final(self)@ == (ResponderV { state: s, ..old(self)@ })
                        &&& final(store)@ == if start.sync == 0 {
                            CheckpointsV::empty()
                        } else {
                            old(store)@
                        }
                    },
                    Err(e) => r is Err && r->Err_0@ == e && final(self)@ == old(self)@
                        && final(store)@ == old(store)@,
                }
            }),
    {
        let start = match restart {
            Some(cp) => {
                if restarted {
                    cp
                } else {
                    Checkpoint::default()
                }
            },
            None => Checkpoint::default(),
        };
        match apply_local(&mut self.machine, LocalEvent::Accept) {
            Ok(()) => {},
            Err(e) => {
                return Err(e);
            },
        }
        if start.sync == 0 {
            store.clear();
        }
        Ok((start, builder::ack_write(self.peer_id, Diagnostic::ok(), start.sync)))
    }

    /// Start a read at the point that a READ asks for, which has to be known.
    pub fn on_read(&mut self, read: &Fpdu, store: &mut MemoryCheckpoints) -> (r: Result<
        ReadStart,
        SessionError,
    >)
        ensures
            ({
                let point = point_or_zero(read@.number32(Pi::RestartPoint));
                let event = if old(store)@.at(point) is Some {
                    LocalEvent::Accept
                } else {
                    LocalEvent::Reject
                };
                match local_step(old(self)@.state, event) {
                    Err(e) => r is Err && r->Err_0@ == e && final(self)@ == old(self)@
                        && final(store)@ == old(store)@,
                    Ok(s) => {
                        &&& r is Ok
                        &&& final(self)@ == (ResponderV { state: s, ..old(self)@ })
                        &&& match old(store)@.at(point) {
                            Some(cp) => {
                                &&& r->Ok_0 is From
                                &&& r->Ok_0->From_0 == cp
                                &&& r->Ok_0->From_1@ == diag_fpdu(
                                    FpduKind::AckRead,
                                    old(self)@.peer_id,
                                    0,
                                    Diagnostic::ok(),
                                )
                                &&& final(store)@ == if cp.sync == 0 {
                                    CheckpointsV::empty()
                                } else {
                                    old(store)@
                                }
                            },
                            None => {
                                &&& r->Ok_0 is Refused
                                &&& r->Ok_0->Refused_0@ == diag_fpdu(
                                    FpduKind::AckRead,
                                    old(self)@.peer_id,
                                    0,
                                    Diagnostic::restart_unknown_sync(),
                                )
                                &&& r->Ok_0->Refused_1@ == SessionErrorV::Negotiation(
                                    "requester asked to restart at unknown sync point "@ + dec(
                                        point as nat,
                                    ),
                                )
                                &&& final(store)@ == old(store)@
                            },
                        }
                    },
                }
            }),
    {
        let point: u32 = read.restart_point().unwrap_or(0);
        match store.get(point) {
            Some(cp) => {
                match apply_local(&mut self.machine, LocalEvent::Accept) {
                    Ok(()) => {},
                    Err(e) => {
                        return Err(e);
                    },
                }
                if cp.sync == 0 {
                    store.clear();
                }
                Ok(ReadStart::From(cp, builder::ack_read(self.peer_id, Diagnostic::ok())))
            },
            None => {
                match apply_local(&mut self.machine, LocalEvent::Reject) {
                    Ok(()) => {},
                    Err(e) => {
                        return Err(e);
                    },
                }
                let mut text = "requester asked to restart at unknown sync point ".to_owned();
                push_decimal(&mut text, point as u64);
                Ok(
                    ReadStart::Refused(
                        builder::ack_read(self.peer_id, Diagnostic::restart_unknown_sync()),
                        SessionError::Negotiation(text),
                    ),
                )
            },
        }
    }

    /// Parameters of a data phase. A transfer without a limit on its articles takes their
    /// announced length.
    #[must_use]
    pub fn data_params(
        &self,
        spec: &FileSpec,
        compression: Compression,
        max_entity: u16,
        max_article: usize,
    ) -> (r: DataParams)
        ensures
            r == self@.data_params(
                compression,
                max_entity,
                if max_article == 0 {
                    spec@.article_length as usize
                } else {
                    max_article
                },
            ),
    {
        DataParams {
            peer_id: self.peer_id,
            sync: self.negotiated.sync,
            resync: self.negotiated.resync,
            compression,
            crc: self.negotiated.crc,
            max_entity: max_entity as usize,
            multi_article: self.multi_article,
            max_article: if max_article == 0 {
                spec.article_length as usize
            } else {
                max_article
            },
            timeout_ms: self.timeout_ms,
            role: Role::Server,
        }
    }

    /// Take a FPDU of the closing phase (TRANS.END unless interrupted, CRF, DESELECT): the answer
    /// to send, and whether the transfer is over. `diag` collects what went wrong.
    pub fn on_close(&mut self, diag: &mut Diagnostic, data: &DataResult, f: &Fpdu) -> (r: Result<
        (Option<Fpdu>, bool),
        SessionError,
    >)
        ensures
            match old(self)@.close_step(*old(diag), *data, f@) {
                Ok((s, d, answer, over)) => {
                    &&& r is Ok
                    &&& opt_fpdu((r->Ok_0).0) == answer
                    &&& (r->Ok_0).1 == over
                    &&& *final(diag) == d
                    &&& final(self)@ == (ResponderV { state: s, ..old(self)@ })
                },
                Err(e) => {
                    &&& r is Err
                    &&& r->Err_0@ == e
                    &&& *final(diag) == old(self)@.diag_behind(*old(diag), *data, f@)
                    &&& final(self)@ == (ResponderV {
                        state: state_behind(old(self)@.state, f@),
                        ..old(self)@
                    })
                },
            },
    {
        match take_received(&mut self.machine, f) {
            Ok(false) => {},
            Ok(true) => {
                return Ok((None, false));
            },
            Err(e) => {
                return Err(e);
            },
        }
        let told = f.diag_or_ok();
        let answer = match f.kind {
            FpduKind::TransEnd => {
                if !told.is_ok() {
                    *diag = told;
                }
                match check_counts(f, data.data_bytes, data.articles) {
                    Ok(()) => builder::ack_trans_end(
                        self.peer_id,
                        Diagnostic::ok(),
                        Some(data.data_bytes),
                        Some(data.articles),
                    ),
                    Err(_) => {
                        *diag = Diagnostic::invalid_counts();
                        builder::ack_trans_end(
                            self.peer_id,
                            Diagnostic::invalid_counts(),
                            Some(data.data_bytes),
                            Some(data.articles),
                        )
                    },
                }
            },
            FpduKind::Crf => {
                if !told.is_ok() {
                    *diag = told;
                }
                builder::ack_crf(self.peer_id, Diagnostic::ok())
            },
            FpduKind::Deselect => builder::ack_deselect(self.peer_id, Diagnostic::ok()),
            k => {
                return Err(SessionError::Protocol { state: self.machine.state(), kind: k });
            },
        };
        match apply_local(&mut self.machine, LocalEvent::Accept) {
            Ok(()) => Ok((Some(answer), f.kind == FpduKind::Deselect)),
            Err(e) => Err(e),
        }
    }

    // ---- messages ----

    /// Answer a complete message, with a reply or with nothing: the ACK(MSG) to send.
    pub fn accept_message(&mut self, m: &IncomingMessage, reply: Option<&[u8]>) -> (r: Result<
        Fpdu,
        SessionError,
    >)
        ensures
            match local_step(old(self)@.state, LocalEvent::Accept) {
                Ok(s) => {
                    &&& r is Ok
                    &&& r->Ok_0@ == spec_ack_msg(
                        old(self)@.peer_id,
                        Diagnostic::ok(),
                        Some(m@.spec.transfer_id),
                        builder::opt_bytes(reply),
                    )
                    &&& final(self)@ == (ResponderV { state: s, ..old(self)@ })
                },
                Err(e) => r is Err && r->Err_0@ == e && final(self)@ == old(self)@,
            },
    {
        let f = builder::ack_msg(
            self.peer_id,
            Diagnostic::ok(),
            Some(m.spec.transfer_id),
            reply,
        );
        match apply_local(&mut self.machine, LocalEvent::Accept) {
            Ok(()) => Ok(f),
            Err(e) => Err(e),
        }
    }

    /// Refuse a complete message: the ACK(MSG) to send, which carries the explanation, given as
    /// its bytes.
    pub fn refuse_message(
        &mut self,
        m: &IncomingMessage,
        diag: Diagnostic,
        explanation: Option<&[u8]>,
    ) -> (r: Result<Fpdu, SessionError>)
        ensures
            match local_step(old(self)@.state, LocalEvent::Accept) {
                Ok(s) => {
                    &&& r is Ok
                    &&& r->Ok_0@ == spec_ack_msg(
                        old(self)@.peer_id,
                        diag,
                        Some(m@.spec.transfer_id),
                        builder::opt_bytes(explanation),
                    )
                    &&& final(self)@ == (ResponderV { state: s, ..old(self)@ })
                },
                Err(e) => r is Err && r->Err_0@ == e && final(self)@ == old(self)@,
            },
    {
        let f = builder::ack_msg(self.peer_id, diag, Some(m.spec.transfer_id), explanation);
        match apply_local(&mut self.machine, LocalEvent::Accept) {
            Ok(()) => Ok(f),
            Err(e) => Err(e),
        }
    }
}

// ---- laws ----

/// A requester that may not write is never asked for its file: its CREATE is refused, and the
/// session goes on. The same holds of one that may not read.
pub proof fn law_access_type_is_enforced(s: ResponderV, f: FpduV)
    requires
        s.state == State::Cn03,
        (f.kind == FpduKind::Create && !s.access.allows_write()) || (f.kind == FpduKind::Select
            && !s.access.allows_read()),
    ensures
        s.indication_step(f) is Ok,
        (s.indication_step(f)->Ok_0).0 == State::Cn03,
        (s.indication_step(f)->Ok_0).1 is Refused,
{
}

/// The entity size of an accepted transfer has room for more than a header wherever the local
/// limit has, and never exceeds that limit.
pub proof fn law_entity_size_is_bounded(s: ResponderV, proposed: u16)
    ensures
        s.entity_size(proposed) <= s.max_entity,
        s.max_entity > HEADER_LEN ==> s.entity_size(proposed) > HEADER_LEN,
        HEADER_LEN < proposed <= s.max_entity ==> s.entity_size(proposed) == proposed,
{
}

/// Both ends settle on the same synchronisation option: what the server settled on is, in the
/// eyes of the requester, settled.
pub proof fn law_both_ends_agree_on_sync(proposed: SyncOption, local: SyncOption)
    ensures
        ({
            let settled = SyncOption::spec_negotiate(proposed, local);
            SyncOption::spec_negotiate(proposed, settled) == settled
        }),
{
}

/// Both ends settle on the same compression.
pub proof fn law_both_ends_agree_on_compression(wanted: Compression, local: Compression)
    ensures
        ({
            let settled = Compression::spec_negotiate(wanted, local);
            Compression::spec_negotiate(wanted, settled) == settled
        }),
{
}

/// The closing phase goes back to between the transfers: each of its requests is answered and
/// leads on, whether or not the counters agree.
pub proof fn law_closing_phase_ends(
    s: ResponderV,
    diag: Diagnostic,
    data: DataResult,
    f: FpduV,
)
    requires
        f.kind == FpduKind::TransEnd ==> s.state == State::Tde07B || s.state == State::Tdl07B,
        f.kind == FpduKind::Crf ==> s.state == State::Of02,
        f.kind == FpduKind::Deselect ==> s.state == State::Sf03,
        f.kind == FpduKind::TransEnd || f.kind == FpduKind::Crf || f.kind == FpduKind::Deselect,
    ensures
        ({
            let r = s.close_step(diag, data, f);
            &&& r is Ok
            &&& (r->Ok_0).2 is Some
            &&& (r->Ok_0).0 == match f.kind {
                FpduKind::TransEnd => State::Of02,
                FpduKind::Crf => State::Sf03,
                _ => State::Cn03,
            }
            &&& (r->Ok_0).3 == (f.kind == FpduKind::Deselect)
        }),
{
    assert(!f.negative());
}

} // verus!
