//! Requester (client) side of a PeSIT session: connection, file transfers, messages.
//!
//! The session decides what is sent and what an answer means; moving the bytes is left to its
//! user.

use crate::builder;
use crate::builder::{diag_fpdu, spec_trans_end, ConnectParams, FileSpec, FileSpecV};
use crate::checkpoint::{Checkpoint, CheckpointStore, CheckpointsV, MemoryCheckpoints};
use crate::datapath::{
    apply_local, check_counts, count_fault, local_step, DataEnd, DataParams, DataResult,
};
use crate::diag::Diagnostic;
use crate::error::{SessionError, SessionErrorV};
use crate::exchange::{answer_step, await_answer, opt_fpdu, state_behind};
use crate::fpdu::{Fpdu, FpduV};
use crate::kind::FpduKind;
use crate::params::{
    AccessType, Compression, EndCode, FpduExt, RequestedAttributes, SyncOption, Version,
};
use crate::pi::Pi;
use crate::sender::point_or_zero;
use crate::state::{outcome, Event, LocalEvent, Machine, Outcome, Role, State};
use crate::text::{copy_opt, dec, opt_text, push_decimal, starts_with};
use vstd::prelude::*;

verus! {

/// Connection identifier of the requester.
pub const REQUESTER_ID: u8 = 1;

/// Pre-connection identification.
#[derive(Debug, PartialEq, Eq)]
pub struct Preconnect {
    /// Identifier (at most 8 characters).
    pub identifier: String,
    /// Password (at most 8 characters).
    pub password: String,
}

/// Whether the answer to a pre-connection accepts it: it starts with the marker `ack`.
#[must_use]
pub fn preconnect_accepted(reply: &[u8], ack: &[u8]) -> (r: bool)
    ensures
        r == ack@.is_prefix_of(reply@),
{
    starts_with(reply, ack)
}

/// Session parameters of a requester.
#[derive(Debug, PartialEq, Eq)]
pub struct RequesterConfig {
    /// Our identifier (PI 3).
    pub requester_id: String,
    /// Identifier of the server (PI 4).
    pub server_id: String,
    /// Connection password (PI 5).
    pub password: Option<String>,
    /// Protocol version to propose (PI 6).
    pub version: Version,
    /// Proposed synchronisation option (PI 7).
    pub sync: SyncOption,
    /// Propose resynchronisation (PI 22).
    pub resync: bool,
    /// Use the CRC option (PI 1).
    pub crc: bool,
    /// Desired compression (PI 21, negotiated at ORF).
    pub compression: Compression,
    /// Maximum entity size to propose (PI 25).
    pub max_entity: u16,
    /// Pack several articles per DTF (PI 25 permitting).
    pub multi_article: bool,
    /// Optional pre-connection message.
    pub preconnect: Option<Preconnect>,
    /// Watchdog timeout, in milliseconds.
    pub timeout_ms: u64,
    /// Free message sent in CONNECT (PI 99).
    pub free_message: Option<String>,
    /// Access type requested for the session (PI 22).
    pub access: AccessType,
}

impl Default for RequesterConfig {
    fn default() -> (r: Self)
        ensures
            r.requester_id@ == ""@,
            r.server_id@ == ""@,
            r.password is None,
            r.version == Version::E,
            r.sync == (SyncOption { interval_kb: 32, window: 4 }),
            r.resync && !r.crc && r.multi_article,
            r.compression == Compression::Off,
            r.max_entity == 0xFFFF,
            r.preconnect is None,
            r.timeout_ms == 60_000,
            r.free_message is None,
            r.access == AccessType::Mixed,
    {
        RequesterConfig {
            requester_id: "".to_owned(),
            server_id: "".to_owned(),
            password: None,
            version: Version::E,
            sync: SyncOption { interval_kb: 32, window: 4 },
            resync: true,
            crc: false,
            compression: Compression::Off,
            max_entity: 0xFFFF,
            multi_article: true,
            preconnect: None,
            timeout_ms: 60_000,
            free_message: None,
            access: AccessType::Mixed,
        }
    }
}

/// Parameters negotiated at connection.
#[derive(Debug, Clone, Copy, PartialEq, Eq, Structural)]
pub struct Negotiated {
    /// Protocol version.
    pub version: Version,
    /// Synchronisation option.
    pub sync: SyncOption,
    /// Resynchronisation allowed.
    pub resync: bool,
    /// CRC option active.
    pub crc: bool,
}

impl RequesterConfig {
    /// The CONNECT of a session.
    pub open spec fn spec_connect(self) -> FpduV {
        FpduV::between(FpduKind::Connect, 0, REQUESTER_ID).with_flag(
            Pi::Crc,
            self.crc,
        ).with_string(Pi::Requester, self.requester_id@).with_string(
            Pi::Server,
            self.server_id@,
        ).with_opt_string(
            Pi::AccessControl,
            crate::text::non_empty(opt_text(self.password)),
        ).with_number(Pi::Version, self.version.code() as nat).with_sync(self.sync).with_number(
            Pi::AccessType,
            self.access.code() as nat,
        ).with_flag(Pi::Resync, self.resync).with_opt_string(
            Pi::FreeMessage,
            crate::text::non_empty(opt_text(self.free_message)),
        )
    }

    /// What an ACONNECT settles: the version it names, the weaker of the two synchronisation
    /// options, and resynchronisation where both ends want it.
    pub open spec fn spec_negotiated(self, reply: FpduV) -> Negotiated {
        Negotiated {
            version: match reply.version() {
                Some(v) => v,
                None => self.version,
            },
            sync: SyncOption::spec_negotiate(
                self.sync,
                match reply.sync_option() {
                    Some(s) => s,
                    None => SyncOption::none(),
                },
            ),
            resync: self.resync && reply.number(Pi::Resync) == Some(1u64),
            crc: self.crc,
        }
    }

    /// Outcome of the answer to a CONNECT, which finds the machine in state `st`.
    pub open spec fn connect_step(self, st: State, reply: FpduV) -> Result<
        Negotiated,
        SessionErrorV,
    > {
        match reply.kind {
            FpduKind::Aconnect => match outcome(
                st,
                Event::Received { kind: FpduKind::Aconnect, negative: false },
            ) {
                Outcome::Error => Err(SessionErrorV::Protocol(st, reply.kind)),
                _ => Ok(self.spec_negotiated(reply)),
            },
            FpduKind::Rconnect => Err(
                SessionErrorV::Refused(
                    FpduKind::Connect,
                    reply.diag_or_ok(),
                    reply.string(Pi::FreeMessage),
                ),
            ),
            FpduKind::Abort => Err(
                SessionErrorV::Aborted(reply.diag_or_ok(), reply.string(Pi::FreeMessage)),
            ),
            k => Err(SessionErrorV::Protocol(st, k)),
        }
    }
}

/// State of a requester session.
pub struct RequesterV {
    /// Protocol state.
    pub state: State,
    /// Session parameters.
    pub config: RequesterConfig,
    /// Connection identifier of the server.
    pub peer_id: u8,
    /// Negotiated parameters.
    pub negotiated: Negotiated,
    /// Negotiated maximum entity size.
    pub max_entity: usize,
}

/// An established requester session.
#[derive(Debug)]
pub struct Requester {
    machine: Machine,
    cfg: RequesterConfig,
    peer_id: u8,
    negotiated: Negotiated,
    max_entity: usize,
}

impl View for Requester {
    type V = RequesterV;

    closed spec fn view(&self) -> RequesterV {
        RequesterV {
            state: self.machine.spec_state(),
            config: self.cfg,
            peer_id: self.peer_id,
            negotiated: self.negotiated,
            max_entity: self.max_entity,
        }
    }
}

impl Requester {
    /// Start a session: the machine, and the CONNECT to send.
    #[must_use]
    pub fn connect(cfg: &RequesterConfig) -> (r: (Machine, Fpdu))
        ensures
            r.0.spec_role() == Role::Requester,
            r.0.spec_state() == State::Cn02A,
            r.1@ == cfg.spec_connect(),
    {
        let mut machine = Machine::new(Role::Requester);
        let _ = machine.apply(Event::local(LocalEvent::Connect));
        let params = ConnectParams {
            requester: cfg.requester_id.clone(),
            server: cfg.server_id.clone(),
            password: copy_opt(&cfg.password),
            version: cfg.version,
            sync: cfg.sync,
            access: cfg.access,
            resync: cfg.resync,
            crc: cfg.crc,
            timeout: None,
            free_message: copy_opt(&cfg.free_message),
        };
        (machine, params.build(REQUESTER_ID))
    }

    /// Take the answer to the CONNECT.
    pub fn on_connect_reply(machine: Machine, cfg: RequesterConfig, reply: &Fpdu) -> (r: Result<
        Self,
        SessionError,
    >)
        ensures
            match cfg.connect_step(machine.spec_state(), reply@) {
                Ok(n) => {
                    &&& r is Ok
                    &&& r->Ok_0@ == (RequesterV {
                        state: match outcome(
                            machine.spec_state(),
                            Event::Received { kind: FpduKind::Aconnect, negative: false },
                        ) {
                            Outcome::Next(s) => s,
                            _ => machine.spec_state(),
                        },
                        config: cfg,
                        peer_id: reply@.id_src,
                        negotiated: n,
                        max_entity: cfg.max_entity as usize,
                    })
                },
                Err(e) => r is Err && r->Err_0@ == e,
            },
    {
        let mut machine = machine;
        match reply.kind {
            FpduKind::Aconnect => {
                match machine.apply(Event::received(FpduKind::Aconnect, false)) {
                    Ok(_) => {},
                    Err(_) => {
                        return Err(
                            SessionError::Protocol { state: machine.state(), kind: reply.kind },
                        );
                    },
                }
            },
            FpduKind::Rconnect => {
                return Err(
                    SessionError::Refused {
                        request: FpduKind::Connect,
                        diag: reply.diag_or_ok(),
                        message: reply.get_text(Pi::FreeMessage),
                    },
                );
            },
            FpduKind::Abort => {
                return Err(
                    SessionError::Aborted {
                        diag: reply.diag_or_ok(),
                        message: reply.get_text(Pi::FreeMessage),
                    },
                );
            },
            k => {
                return Err(SessionError::Protocol { state: machine.state(), kind: k });
            },
        }
        let version = match reply.version() {
            Some(v) => v,
            None => cfg.version,
        };
        let offered = match reply.sync_option() {
            Some(s) => s,
            None => SyncOption::none(),
        };
        let resync = cfg.resync && match reply.get_num(Pi::Resync) {
            Some(n) => n == 1,
            None => false,
        };
        let negotiated = Negotiated {
            version,
            sync: SyncOption::negotiate(cfg.sync, offered),
            resync,
            crc: cfg.crc,
        };
        let max_entity: usize = cfg.max_entity as usize;
        Ok(Requester { machine, peer_id: reply.id_src, negotiated, max_entity, cfg })
    }

    /// Negotiated session parameters.
    #[must_use]
    pub fn negotiated(&self) -> (r: Negotiated)
        ensures
            r == self@.negotiated,
    {
        self.negotiated
    }

    /// Our connection identifier.
    #[must_use]
    pub fn id(&self) -> (r: u8)
        ensures
            r == REQUESTER_ID,
    {
        REQUESTER_ID
    }

    /// Connection identifier of the server.
    #[must_use]
    pub fn peer_id(&self) -> (r: u8)
        ensures
            r == self@.peer_id,
    {
        self.peer_id
    }

    /// Maximum entity size in force: the one of the last transfer, or the configured one.
    #[must_use]
    pub fn max_entity(&self) -> (r: usize)
        ensures
            r == self@.max_entity,
    {
        self.max_entity
    }

    /// Session parameters.
    #[must_use]
    pub fn config(&self) -> (r: &RequesterConfig)
        ensures
            *r == self@.config,
    {
        &self.cfg
    }

    /// The protocol machine, for the data phase.
    #[must_use]
    pub fn machine(&mut self) -> (r: &mut Machine)
        ensures
            r.spec_state() == old(self)@.state,
            final(self)@ == (RequesterV { state: final(r).spec_state(), ..old(self)@ }),
    {
        &mut self.machine
    }

    /// Note that a request is about to be sent.
    pub fn start(&mut self, event: LocalEvent) -> (r: Result<(), SessionError>)
        ensures
            match local_step(old(self)@.state, event) {
                Ok(s) => r is Ok && final(self)@ == (RequesterV { state: s, ..old(self)@ }),
                Err(e) => r is Err && r->Err_0@ == e && final(self)@ == old(self)@,
            },
    {
        apply_local(&mut self.machine, event)
    }

    /// Take a FPDU while the answer to a request of kind `request` is awaited; `None` to wait on.
    pub fn on_reply(&mut self, request: FpduKind, expect: FpduKind, f: Fpdu) -> (r: Result<
        Option<Fpdu>,
        SessionError,
    >)
        ensures
            final(self)@ == (RequesterV { state: state_behind(old(self)@.state, f@), ..old(self)@ }),
            match answer_step(old(self)@.state, request, expect, f@) {
                Err(e) => r is Err && r->Err_0@ == e,
                Ok(answer) => r is Ok && opt_fpdu(r->Ok_0) == answer,
            },
    {
        await_answer(&mut self.machine, request, expect, f)
    }

    /// The RELEASE that ends the session.
    #[must_use]
    pub fn release(&self) -> (r: Request)
        ensures
            r@ == (RequestV {
                fpdu: diag_fpdu(FpduKind::Release, self@.peer_id, REQUESTER_ID, Diagnostic::ok()),
                event: LocalEvent::Release,
                expect: FpduKind::Relconf,
            }),
    {
        Request {
            fpdu: builder::release(self.peer_id, REQUESTER_ID, Diagnostic::ok()),
            event: LocalEvent::Release,
            expect: FpduKind::Relconf,
        }
    }

    /// Abort the session: the ABORT to send.
    pub fn abort(&mut self, diag: Diagnostic) -> (r: Fpdu)
        ensures
            final(self)@ == (RequesterV { state: State::INITIAL, ..old(self)@ }),
            r@ == diag_fpdu(FpduKind::Abort, old(self)@.peer_id, REQUESTER_ID, diag),
    {
        let _ = self.machine.apply(Event::local(LocalEvent::Abort));
        builder::abort(self.peer_id, REQUESTER_ID, diag)
    }

    /// Interrupt code used when the requester cancels.
    #[must_use]
    pub fn cancel_code() -> (r: EndCode)
        ensures
            r == EndCode::CancelByRequester,
    {
        EndCode::CancelByRequester
    }
}

/// A request to send: the FPDU, the local event that goes with it, and the kind of its answer.
#[derive(Debug, PartialEq, Eq)]
pub struct Request {
    /// The FPDU.
    pub fpdu: Fpdu,
    /// Local event.
    pub event: LocalEvent,
    /// Kind of the answer.
    pub expect: FpduKind,
}

/// Value of a request.
#[verifier::ext_equal]
pub struct RequestV {
    /// The FPDU.
    pub fpdu: FpduV,
    /// Local event.
    pub event: LocalEvent,
    /// Kind of the answer.
    pub expect: FpduKind,
}

impl View for Request {
    type V = RequestV;

    open spec fn view(&self) -> RequestV {
        RequestV { fpdu: self.fpdu@, event: self.event, expect: self.expect }
    }
}

/// Description of a file to send or receive.
#[derive(Debug, PartialEq, Eq)]
pub struct TransferSpec {
    /// File attributes for CREATE/SELECT.
    pub file: FileSpec,
    /// Restart an interrupted transfer from this checkpoint (the peer decides the actual point).
    pub restart: Option<Checkpoint>,
}

impl Default for TransferSpec {
    fn default() -> (r: Self)
        ensures
            r.file@ == FileSpecV::blank(),
            r.restart is None,
    {
        TransferSpec { file: FileSpec::default(), restart: None }
    }
}

/// Outcome of a file transfer.
#[derive(Debug, PartialEq, Eq)]
pub struct TransferOutcome {
    /// Transfer identifier (PI 13) as assigned by the server.
    pub transfer_id: u32,
    /// Data phase result.
    pub data: DataResult,
    /// Attributes returned by the server (ACK(SELECT) / ACK(CREATE)).
    pub remote: FileSpec,
    /// Checkpoint the transfer actually started from.
    pub started_from: Checkpoint,
    /// Diagnostic of the closing phase (CRF/ACK(TRANS.END)).
    pub diag: Diagnostic,
}

impl TransferOutcome {
    /// Whether the file was completely transferred.
    #[must_use]
    pub fn is_complete(&self) -> (r: bool)
        ensures
            r == (self.data.end == DataEnd::Completed && self.diag.spec_is_ok()),
    {
        self.data.end == DataEnd::Completed && self.diag.is_ok()
    }
}

/// Stage of a file transfer: the request that is next, or the data phase.
#[derive(Debug, Clone, Copy, PartialEq, Eq, Structural)]
pub enum Stage {
    /// CREATE or SELECT.
    Select,
    /// ORF.
    Open,
    /// WRITE or READ.
    Start,
    /// The data phase.
    Data,
    /// TRANS.END.
    End,
    /// CRF.
    Close,
    /// DESELECT.
    Deselect,
    /// Nothing is left to do.
    Done,
}

/// State of a file transfer.
#[verifier::ext_equal]
pub struct FileTransferV {
    /// The file goes to the server.
    pub sending: bool,
    /// File attributes.
    pub file: FileSpecV,
    /// Checkpoint to restart from.
    pub restart: Option<Checkpoint>,
    /// Stage.
    pub stage: Stage,
    /// Transfer identifier.
    pub transfer_id: u32,
    /// Negotiated maximum entity size.
    pub max_entity: u16,
    /// Attributes returned by the server.
    pub remote: FileSpecV,
    /// Negotiated compression.
    pub compression: Compression,
    /// Checkpoint that the data starts from.
    pub start: Checkpoint,
    /// Data phase result.
    pub data: DataResult,
    /// Closing diagnostic.
    pub diag: Diagnostic,
}

/// Result of a data phase that has not started.
pub open spec fn no_data() -> DataResult {
    DataResult { end: DataEnd::Completed, data_bytes: 0, articles: 0, last_sync: 0 }
}

/// The smaller of the entity sizes that the two ends propose.
pub open spec fn smaller_entity(ours: u16, theirs: Option<u16>) -> u16 {
    match theirs {
        Some(m) => if m < ours {
            m
        } else {
            ours
        },
        None => ours,
    }
}

impl FileTransferV {
    /// A transfer at its start. A file that names no entity size takes that of the session.
    pub open spec fn starting(
        max_entity: u16,
        file: FileSpecV,
        restart: Option<Checkpoint>,
        sending: bool,
    ) -> FileTransferV {
        let size = if file.max_entity_size == 0 {
            max_entity
        } else {
            file.max_entity_size
        };
        FileTransferV {
            sending,
            file: FileSpecV { restarted: restart is Some, max_entity_size: size, ..file },
            restart,
            stage: Stage::Select,
            transfer_id: file.transfer_id,
            max_entity: size,
            remote: FileSpecV::blank(),
            compression: Compression::Off,
            start: Checkpoint::beginning(),
            data: no_data(),
            diag: Diagnostic::ok(),
        }
    }

    /// The request of the stage.
    pub open spec fn request(self, peer_id: u8, wanted: Compression) -> Option<RequestV> {
        match self.stage {
            Stage::Select => if self.sending {
                Some(
                    RequestV {
                        fpdu: self.file.create(peer_id),
                        event: LocalEvent::Create,
                        expect: FpduKind::AckCreate,
                    },
                )
            } else {
                Some(
                    RequestV {
                        fpdu: self.file.select(peer_id, RequestedAttributes::all()),
                        event: LocalEvent::Select,
                        expect: FpduKind::AckSelect,
                    },
                )
            },
            Stage::Open => Some(
                RequestV {
                    fpdu: FpduV::between(FpduKind::Orf, peer_id, 0).with_compression(wanted),
                    event: LocalEvent::Open,
                    expect: FpduKind::AckOrf,
                },
            ),
            Stage::Start => if self.sending {
                Some(
                    RequestV {
                        fpdu: FpduV::between(FpduKind::Write, peer_id, 0),
                        event: LocalEvent::Write,
                        expect: FpduKind::AckWrite,
                    },
                )
            } else {
                Some(
                    RequestV {
                        fpdu: FpduV::between(FpduKind::Read, peer_id, 0).with_number(
                            Pi::RestartPoint,
                            self.start.sync as nat,
                        ),
                        event: LocalEvent::Read,
                        expect: FpduKind::AckRead,
                    },
                )
            },
            Stage::End => Some(
                RequestV {
                    fpdu: spec_trans_end(
                        peer_id,
                        Some(self.data.data_bytes),
                        Some(self.data.articles),
                    ),
                    event: LocalEvent::TransferEnd,
                    expect: FpduKind::AckTransEnd,
                },
            ),
            Stage::Close => Some(
                RequestV {
                    fpdu: diag_fpdu(FpduKind::Crf, peer_id, 0, Diagnostic::ok()),
                    event: LocalEvent::Close,
                    expect: FpduKind::AckCrf,
                },
            ),
            Stage::Deselect => Some(
                RequestV {
                    fpdu: diag_fpdu(FpduKind::Deselect, peer_id, 0, Diagnostic::ok()),
                    event: LocalEvent::Deselect,
                    expect: FpduKind::AckDeselect,
                },
            ),
            Stage::Data | Stage::Done => None,
        }
    }

    /// Whether the stage has a request.
    pub open spec fn asks(self) -> bool {
        self.stage != Stage::Data && self.stage != Stage::Done
    }

    /// A transfer whose file was created or selected.
    pub open spec fn selected(self, ack: FpduV) -> FileTransferV {
        FileTransferV {
            stage: Stage::Open,
            transfer_id: match ack.number32(Pi::TransferId) {
                Some(n) => n,
                None => self.file.transfer_id,
            },
            max_entity: smaller_entity(self.file.max_entity_size, ack.max_entity_size()),
            remote: FileSpecV::of(ack),
            ..self
        }
    }

    /// A transfer whose file was opened. A reader picks the checkpoint to restart from here.
    pub open spec fn opened(self, ack: FpduV, wanted: Compression, store: CheckpointsV) -> Result<
        FileTransferV,
        SessionErrorV,
    > {
        let next = FileTransferV {
            stage: Stage::Start,
            compression: Compression::spec_negotiate(
                wanted,
                match ack.compression() {
                    Some(c) => c,
                    None => Compression::Off,
                },
            ),
            ..self
        };
        if self.sending {
            Ok(next)
        } else {
            let point = match self.restart {
                Some(cp) => cp.sync,
                None => 0,
            };
            match store.at(point) {
                Some(cp) => Ok(FileTransferV { start: cp, ..next }),
                None => Err(
                    SessionErrorV::Negotiation(
                        "unknown local sync point "@ + dec(point as nat),
                    ),
                ),
            }
        }
    }

    /// A transfer whose data may start. The server picks the checkpoint that a writer restarts
    /// from.
    pub open spec fn started(self, ack: FpduV, store: CheckpointsV) -> Result<
        FileTransferV,
        SessionErrorV,
    > {
        let next = FileTransferV { stage: Stage::Data, ..self };
        let point = if self.file.restarted {
            point_or_zero(ack.number32(Pi::RestartPoint))
        } else {
            0
        };
        if !self.sending {
            Ok(next)
        } else {
            match store.at(point) {
                Some(cp) => Ok(FileTransferV { start: cp, ..next }),
                None => Err(
                    SessionErrorV::Negotiation(
                        "server requested restart at unknown sync point "@ + dec(point as nat),
                    ),
                ),
            }
        }
    }

    /// The stage that follows a closing stage.
    pub open spec fn closed_to(self) -> Stage {
        match self.stage {
            Stage::End => Stage::Close,
            Stage::Close => Stage::Deselect,
            _ => Stage::Done,
        }
    }

    /// A transfer behind the answer to the request of its stage. Once the data was moved, a
    /// refusal only leaves its diagnostic behind.
    pub open spec fn answered(
        self,
        answer: Result<FpduV, SessionErrorV>,
        wanted: Compression,
        store: CheckpointsV,
    ) -> Result<FileTransferV, SessionErrorV> {
        match self.stage {
            Stage::Select => match answer {
                Ok(ack) => Ok(self.selected(ack)),
                Err(e) => Err(e),
            },
            Stage::Open => match answer {
                Ok(ack) => self.opened(ack, wanted, store),
                Err(e) => Err(e),
            },
            Stage::Start => match answer {
                Ok(ack) => self.started(ack, store),
                Err(e) => Err(e),
            },
            _ => match answer {
                Ok(ack) => if self.stage == Stage::End && count_fault(
                    ack,
                    self.data.data_bytes,
                    self.data.articles,
                ) is Some {
                    Err(
                        SessionErrorV::Counts(
                            count_fault(ack, self.data.data_bytes, self.data.articles)->0,
                        ),
                    )
                } else {
                    Ok(FileTransferV { stage: self.closed_to(), ..self })
                },
                Err(SessionErrorV::Refused(_, diag, _)) => Ok(
                    FileTransferV { stage: self.closed_to(), diag, ..self },
                ),
                Err(e) => Err(e),
            },
        }
    }

    /// Checkpoints behind an answer: data that starts at the beginning forgets them all.
    pub open spec fn checkpoints_behind(self, store: CheckpointsV) -> CheckpointsV {
        if self.stage == Stage::Data && self.start.sync == 0 {
            CheckpointsV::empty()
        } else {
            store
        }
    }

    /// A transfer whose data phase is over. One that was interrupted is not ended, only closed.
    pub open spec fn with_data(self, data: DataResult) -> FileTransferV {
        FileTransferV {
            stage: if data.end is Interrupted {
                Stage::Close
            } else {
                Stage::End
            },
            data,
            ..self
        }
    }

    /// Parameters of the data phase.
    pub open spec fn data_params(self, s: RequesterV) -> DataParams {
        DataParams {
            peer_id: s.peer_id,
            sync: s.negotiated.sync,
            resync: s.negotiated.resync,
            compression: self.compression,
            crc: s.negotiated.crc,
            max_entity: self.max_entity as usize,
            multi_article: s.config.multi_article,
            max_article: if !self.sending && self.remote.article_length > self.file.article_length {
                self.remote.article_length as usize
            } else {
                self.file.article_length as usize
            },
            timeout_ms: s.config.timeout_ms,
            role: Role::Requester,
        }
    }
}

/// A file transfer under way.
#[derive(Debug)]
pub struct FileTransfer {
    sending: bool,
    file: FileSpec,
    restart: Option<Checkpoint>,
    stage: Stage,
    transfer_id: u32,
    max_entity: u16,
    remote: FileSpec,
    compression: Compression,
    start: Checkpoint,
    data: DataResult,
    diag: Diagnostic,
}

impl View for FileTransfer {
    type V = FileTransferV;

    closed spec fn view(&self) -> FileTransferV {
        FileTransferV {
            sending: self.sending,
            file: self.file@,
            restart: self.restart,
            stage: self.stage,
            transfer_id: self.transfer_id,
            max_entity: self.max_entity,
            remote: self.remote@,
            compression: self.compression,
            start: self.start,
            data: self.data,
            diag: self.diag,
        }
    }
}

/// Value of the answer to a request.
pub open spec fn answer_view(answer: Result<Fpdu, SessionError>) -> Result<FpduV, SessionErrorV> {
    match answer {
        Ok(f) => Ok(f@),
        Err(e) => Err(e@),
    }
}

impl FileTransfer {
    fn begin(session: &Requester, spec: &TransferSpec, sending: bool) -> (r: Self)
        ensures
            r@ == FileTransferV::starting(
                session@.config.max_entity,
                spec.file@,
                spec.restart,
                sending,
            ),
    {
        let mut file = spec.file.clone();
        file.restarted = spec.restart.is_some();
        if file.max_entity_size == 0 {
            file.max_entity_size = session.cfg.max_entity;
        }
        FileTransfer {
            sending,
            restart: spec.restart,
            stage: Stage::Select,
            transfer_id: file.transfer_id,
            max_entity: file.max_entity_size,
            file,
            remote: FileSpec::default(),
            compression: Compression::Off,
            start: Checkpoint::default(),
            data: DataResult { end: DataEnd::Completed, data_bytes: 0, articles: 0, last_sync: 0 },
            diag: Diagnostic::ok(),
        }
    }

    /// Send a file (F.CREATE / F.WRITE).
    #[must_use]
    pub fn send_file(session: &Requester, spec: &TransferSpec) -> (r: Self)
        ensures
            r@ == FileTransferV::starting(
                session@.config.max_entity,
                spec.file@,
                spec.restart,
                true,
            ),
    {
        FileTransfer::begin(session, spec, true)
    }

    /// Receive a file (F.SELECT / F.READ).
    #[must_use]
    pub fn receive_file(session: &Requester, spec: &TransferSpec) -> (r: Self)
        ensures
            r@ == FileTransferV::starting(
                session@.config.max_entity,
                spec.file@,
                spec.restart,
                false,
            ),
    {
        FileTransfer::begin(session, spec, false)
    }

    /// Stage of the transfer.
    #[must_use]
    pub fn stage(&self) -> (r: Stage)
        ensures
            r == self@.stage,
    {
        self.stage
    }

    /// Checkpoint that the data starts from.
    #[must_use]
    pub fn started_from(&self) -> (r: Checkpoint)
        ensures
            r == self@.start,
    {
        self.start
    }

    /// The request to send next, if the stage has one.
    #[must_use]
    pub fn request(&self, session: &Requester) -> (r: Option<Request>)
        ensures
            match self@.request(session@.peer_id, session@.config.compression) {
                Some(q) => r is Some && r->0@ == q,
                None => r is None,
            },
    {
        let peer: u8 = session.peer_id;
        match self.stage {
            Stage::Select => {
                if self.sending {
                    Some(
                        Request {
                            fpdu: self.file.create(peer),
                            event: LocalEvent::Create,
                            expect: FpduKind::AckCreate,
                        },
                    )
                } else {
                    Some(
                        Request {
                            fpdu: self.file.select(peer, RequestedAttributes::all()),
                            event: LocalEvent::Select,
                            expect: FpduKind::AckSelect,
                        },
                    )
                }
            },
            Stage::Open => Some(
                Request {
                    fpdu: builder::orf(peer, session.cfg.compression),
                    event: LocalEvent::Open,
                    expect: FpduKind::AckOrf,
                },
            ),
            Stage::Start => {
                if self.sending {
                    Some(
                        Request {
                            fpdu: builder::write(peer),
                            event: LocalEvent::Write,
                            expect: FpduKind::AckWrite,
                        },
                    )
                } else {
                    Some(
                        Request {
                            fpdu: builder::read(peer, self.start.sync),
                            event: LocalEvent::Read,
                            expect: FpduKind::AckRead,
                        },
                    )
                }
            },
            Stage::End => Some(
                Request {
                    fpdu: builder::trans_end(
                        peer,
                        Some(self.data.data_bytes),
                        Some(self.data.articles),
                    ),
                    event: LocalEvent::TransferEnd,
                    expect: FpduKind::AckTransEnd,
                },
            ),
            Stage::Close => Some(
                Request {
                    fpdu: builder::crf(peer, Diagnostic::ok()),
                    event: LocalEvent::Close,
                    expect: FpduKind::AckCrf,
                },
            ),
            Stage::Deselect => Some(
                Request {
                    fpdu: builder::deselect(peer, Diagnostic::ok()),
                    event: LocalEvent::Deselect,
                    expect: FpduKind::AckDeselect,
                },
            ),
            Stage::Data => None,
            Stage::Done => None,
        }
    }

    fn selected(&mut self, ack: &Fpdu)
        ensures
            final(self)@ == old(self)@.selected(ack@),
    {
        self.transfer_id = match ack.transfer_id() {
            Some(n) => n,
            None => self.file.transfer_id,
        };
        self.max_entity = match ack.max_entity_size() {
            Some(m) => {
                if m < self.file.max_entity_size {
                    m
                } else {
                    self.file.max_entity_size
                }
            },
            None => self.file.max_entity_size,
        };
        self.remote = FileSpec::from_fpdu(ack);
        self.stage = Stage::Open;
    }

    fn opened(&mut self, ack: &Fpdu, wanted: Compression, store: &MemoryCheckpoints) -> (r: Result<
        (),
        SessionError,
    >)
        ensures
            match old(self)@.opened(ack@, wanted, store@) {
                Ok(t) => r is Ok && final(self)@ == t,
                Err(e) => r is Err && r->Err_0@ == e && final(self)@ == old(self)@,
            },
    {
        let offered = match ack.compression() {
            Some(c) => c,
            None => Compression::Off,
        };
        if !self.sending {
            let point: u32 = match self.restart {
                Some(cp) => cp.sync,
                None => 0,
            };
            match store.get(point) {
                Some(cp) => {
                    self.start = cp;
                },
                None => {
                    let mut text = "unknown local sync point ".to_owned();
                    push_decimal(&mut text, point as u64);
                    return Err(SessionError::Negotiation(text));
                },
            }
        }
        self.compression = Compression::negotiate(wanted, offered);
        self.stage = Stage::Start;
        Ok(())
    }

    fn started(&mut self, ack: &Fpdu, store: &MemoryCheckpoints) -> (r: Result<(), SessionError>)
        ensures
            match old(self)@.started(ack@, store@) {
                Ok(t) => r is Ok && final(self)@ == t,
                Err(e) => r is Err && r->Err_0@ == e && final(self)@ == old(self)@,
            },
    {
        if self.sending {
            let point: u32 = if self.file.restarted {
                ack.restart_point().unwrap_or(0)
            } else {
                0
            };
            match store.get(point) {
                Some(cp) => {
                    self.start = cp;
                },
                None => {
                    let mut text = "server requested restart at unknown sync point ".to_owned();
                    push_decimal(&mut text, point as u64);
                    return Err(SessionError::Negotiation(text));
                },
            }
        }
        self.stage = Stage::Data;
        Ok(())
    }

    fn advance(
        &mut self,
        wanted: Compression,
        answer: Result<Fpdu, SessionError>,
        store: &MemoryCheckpoints,
    ) -> (r: Result<(), SessionError>)
        requires
            old(self)@.asks(),
        ensures
            match old(self)@.answered(answer_view(answer), wanted, store@) {
                Ok(t) => r is Ok && final(self)@ == t,
                Err(e) => r is Err && r->Err_0@ == e && final(self)@ == old(self)@,
            },
    {
        let stage = self.stage;
        match answer {
            Ok(ack) => match stage {
                Stage::Select => {
                    self.selected(&ack);
                    Ok(())
                },
                Stage::Open => self.opened(&ack, wanted, store),
                Stage::Start => self.started(&ack, store),
                _ => {
                    if stage == Stage::End {
                        match check_counts(&ack, self.data.data_bytes, self.data.articles) {
                            Ok(()) => {},
                            Err(e) => {
                                return Err(e);
                            },
                        }
                    }
                    self.close_stage();
                    Ok(())
                },
            },
            Err(e) => {
                if stage == Stage::Select || stage == Stage::Open || stage == Stage::Start {
                    return Err(e);
                }
                match e {
                    SessionError::Refused { diag, .. } => {
                        self.diag = diag;
                        self.close_stage();
                        Ok(())
                    },
                    e => Err(e),
                }
            },
        }
    }

    fn close_stage(&mut self)
        ensures
            final(self)@ == (FileTransferV { stage: old(self)@.closed_to(), ..old(self)@ }),
    {
        self.stage = match self.stage {
            Stage::End => Stage::Close,
            Stage::Close => Stage::Deselect,
            _ => Stage::Done,
        };
    }

    /// Take the answer to the request of the stage.
    pub fn on_answer(
        &mut self,
        session: &mut Requester,
        answer: Result<Fpdu, SessionError>,
        store: &mut MemoryCheckpoints,
    ) -> (r: Result<(), SessionError>)
        requires
            old(self)@.asks(),
        ensures
            match old(self)@.answered(
                answer_view(answer),
                old(session)@.config.compression,
                old(store)@,
            ) {
                Ok(t) => {
                    &&& r is Ok
                    &&& final(self)@ == t
                    &&& final(store)@ == t.checkpoints_behind(old(store)@)
                    &&& final(session)@ == (RequesterV {
                        max_entity: t.max_entity as usize,
                        ..old(session)@
                    })
                },
                Err(e) => {
                    &&& r is Err
                    &&& r->Err_0@ == e
                    &&& final(self)@ == old(self)@
                    &&& final(store)@ == old(store)@
                    &&& final(session)@ == old(session)@
                },
            },
    {
        match self.advance(session.cfg.compression, answer, store) {
            Ok(()) => {},
            Err(e) => {
                return Err(e);
            },
        }
        session.max_entity = self.max_entity as usize;
        if self.stage == Stage::Data && self.start.sync == 0 {
            store.clear();
        }
        Ok(())
    }

    /// Take the result of the data phase.
    pub fn on_data(&mut self, data: DataResult)
        ensures
            final(self)@ == old(self)@.with_data(data),
    {
        self.stage = match data.end {
            DataEnd::Interrupted { .. } => Stage::Close,
            _ => Stage::End,
        };
        self.data = data;
    }

    /// Parameters of the data phase.
    #[must_use]
    pub fn data_params(&self, session: &Requester) -> (r: DataParams)
        ensures
            r == self@.data_params(session@),
    {
        DataParams {
            peer_id: session.peer_id,
            sync: session.negotiated.sync,
            resync: session.negotiated.resync,
            compression: self.compression,
            crc: session.negotiated.crc,
            max_entity: self.max_entity as usize,
            multi_article: session.cfg.multi_article,
            max_article: if !self.sending && self.remote.article_length > self.file.article_length {
                self.remote.article_length as usize
            } else {
                self.file.article_length as usize
            },
            timeout_ms: session.cfg.timeout_ms,
            role: Role::Requester,
        }
    }

    /// Outcome of the transfer.
    #[must_use]
    pub fn outcome(self) -> (r: TransferOutcome)
        ensures
            r.transfer_id == self@.transfer_id,
            r.data == self@.data,
            r.remote@ == self@.remote,
            r.started_from == self@.start,
            r.diag == self@.diag,
    {
        TransferOutcome {
            transfer_id: self.transfer_id,
            data: self.data,
            remote: self.remote,
            started_from: self.start,
            diag: self.diag,
        }
    }
}

// ---- laws ----

/// The protocol state in which a transfer is at the start of a stage.
pub open spec fn stage_state(sending: bool, stage: Stage) -> State {
    match stage {
        Stage::Select | Stage::Done => State::Cn03,
        Stage::Open | Stage::Deselect => State::Sf03,
        Stage::Start | Stage::Close => State::Of02,
        Stage::Data => if sending {
            State::Tde02A
        } else {
            State::Tdl02A
        },
        Stage::End => if sending {
            State::Tde07A
        } else {
            State::Tdl07A
        },
    }
}

/// The requests of a transfer follow the state tables: the request of each stage is allowed, its
/// positive answer leads to the state of the next stage, and a refusal is taken too. A refused
/// closing stage is followed by the next one like an accepted one.
pub proof fn law_transfer_follows_the_state_tables(
    t: FileTransferV,
    peer_id: u8,
    wanted: Compression,
    store: CheckpointsV,
    f: FpduV,
)
    requires
        t.asks(),
        f.kind == t.request(peer_id, wanted)->0.expect,
    ensures
        ({
            let q = t.request(peer_id, wanted)->0;
            let pending = local_step(stage_state(t.sending, t.stage), q.event);
            let answer = answer_step(pending->Ok_0, q.fpdu.kind, q.expect, f);
            let next = match answer {
                Ok(a) => t.answered(Ok(a->0), wanted, store),
                Err(e) => t.answered(Err(e), wanted, store),
            };
            &&& pending is Ok
            &&& answer is Ok ==> answer == Ok::<Option<FpduV>, SessionErrorV>(Some(f))
            &&& answer is Err ==> f.negative() && answer->Err_0 is Refused
            &&& next is Ok ==> state_behind(pending->Ok_0, f) == stage_state(
                t.sending,
                next->Ok_0.stage,
            )
        }),
{
    let q = t.request(peer_id, wanted)->0;
    lemma_stage(t.sending, t.stage, f.negative());
    let pending = local_step(stage_state(t.sending, t.stage), q.event);
    assert(q.event == stage_event(t.sending, t.stage));
    assert(q.expect == stage_answer(t.sending, t.stage));
    let answer = answer_step(pending->Ok_0, q.fpdu.kind, q.expect, f);
    if f.negative() {
        assert(answer is Err && answer->Err_0 is Refused);
    } else {
        assert(answer == Ok::<Option<FpduV>, SessionErrorV>(Some(f)));
    }
}

/// Local event of the request of a stage.
pub open spec fn stage_event(sending: bool, stage: Stage) -> LocalEvent {
    match stage {
        Stage::Select => if sending {
            LocalEvent::Create
        } else {
            LocalEvent::Select
        },
        Stage::Open => LocalEvent::Open,
        Stage::Start => if sending {
            LocalEvent::Write
        } else {
            LocalEvent::Read
        },
        Stage::End => LocalEvent::TransferEnd,
        Stage::Close => LocalEvent::Close,
        _ => LocalEvent::Deselect,
    }
}

/// Kind of the answer to the request of a stage.
pub open spec fn stage_answer(sending: bool, stage: Stage) -> FpduKind {
    match stage {
        Stage::Select => if sending {
            FpduKind::AckCreate
        } else {
            FpduKind::AckSelect
        },
        Stage::Open => FpduKind::AckOrf,
        Stage::Start => if sending {
            FpduKind::AckWrite
        } else {
            FpduKind::AckRead
        },
        Stage::End => FpduKind::AckTransEnd,
        Stage::Close => FpduKind::AckCrf,
        _ => FpduKind::AckDeselect,
    }
}

/// The stage behind a stage.
pub open spec fn stage_behind(stage: Stage) -> Stage {
    match stage {
        Stage::Select => Stage::Open,
        Stage::Open => Stage::Start,
        Stage::Start => Stage::Data,
        Stage::Data => Stage::End,
        Stage::End => Stage::Close,
        Stage::Close => Stage::Deselect,
        _ => Stage::Done,
    }
}

proof fn lemma_stage(sending: bool, stage: Stage, negative: bool)
    requires
        stage != Stage::Data,
        stage != Stage::Done,
    ensures
        ({
            let p = local_step(stage_state(sending, stage), stage_event(sending, stage));
            let o = outcome(
                p->Ok_0,
                Event::Received { kind: stage_answer(sending, stage), negative },
            );
            &&& p is Ok
            &&& o is Next
            &&& !negative || stage_rank(stage) > 3 ==> o->Next_0 == stage_state(
                sending,
                stage_behind(stage),
            )
        }),
{
}

/// A transfer keeps what it was asked for, and only moves forward: every answer that does not end
/// it takes it to a later stage.
pub proof fn law_transfer_moves_forward(
    t: FileTransferV,
    answer: Result<FpduV, SessionErrorV>,
    wanted: Compression,
    store: CheckpointsV,
)
    requires
        t.asks(),
        t.answered(answer, wanted, store) is Ok,
    ensures
        ({
            let u = t.answered(answer, wanted, store)->Ok_0;
            &&& u.sending == t.sending
            &&& u.file == t.file
            &&& u.restart == t.restart
            &&& u.data == t.data
            &&& stage_rank(u.stage) == stage_rank(t.stage) + 1
        }),
{
}

/// Order of the stages.
pub open spec fn stage_rank(s: Stage) -> int {
    match s {
        Stage::Select => 0,
        Stage::Open => 1,
        Stage::Start => 2,
        Stage::Data => 3,
        Stage::End => 4,
        Stage::Close => 5,
        Stage::Deselect => 6,
        Stage::Done => 7,
    }
}

/// The entity size of a transfer never exceeds what either end proposed.
pub proof fn law_entity_size_respects_both_ends(t: FileTransferV, ack: FpduV)
    ensures
        t.selected(ack).max_entity <= t.file.max_entity_size,
        ack.max_entity_size() matches Some(m) ==> t.selected(ack).max_entity <= m,
{
}

} // verus!
