//! Protocol state tables.
//!
//! States are named `CNxx` connection phase, `SFxx` file selection, `OFxx` file open, `TDExx` data
//! transfer where the requester *writes*, `TDLxx` where it *reads*, `MGxx` message service. Suffix
//! `A` = requester side, `B` = server side.

use crate::kind::FpduKind;
use vstd::prelude::*;
use vstd::string::StringExecFns;

verus! {

/// Protocol role of the local entity for a connection.
#[derive(Debug, Clone, Copy, PartialEq, Eq, Hash, Structural)]
pub enum Role {
    /// Initiator of the connection (demandeur).
    Requester,
    /// Responder (serveur).
    Server,
}

/// Protocol state.
#[derive(Debug, Clone, Copy, PartialEq, Eq, Hash, Structural)]
pub enum State {
    /// Idle (not connected).
    Cn01,
    /// Connection pending (waiting for ACONNECT/RCONNECT).
    Cn02A,
    /// Connection pending (waiting for the local F.CONNECT response).
    Cn02B,
    /// Connected.
    Cn03,
    /// Release pending (waiting for RELCONF).
    Cn04A,
    /// Release pending (waiting for the local F.RELEASE response).
    Cn04B,
    /// File creation pending (waiting for ACK(CREATE)).
    Sf01A,
    /// File creation pending (waiting for the local F.CREATE response).
    Sf01B,
    /// File selection pending (waiting for ACK(SELECT)).
    Sf02A,
    /// File selection pending (waiting for the local F.SELECT response).
    Sf02B,
    /// File selected.
    Sf03,
    /// File deselection pending (waiting for ACK(DESELECT)).
    Sf04A,
    /// File deselection pending (waiting for the local F.DESELECT response).
    Sf04B,
    /// File open pending (waiting for ACK(ORF)).
    Of01A,
    /// File open pending (waiting for the local F.OPEN response).
    Of01B,
    /// Data transfer idle (file open).
    Of02,
    /// File close pending (waiting for ACK(CRF)).
    Of03A,
    /// File close pending (waiting for the local F.CLOSE response).
    Of03B,
    /// Write start pending (waiting for ACK(WRITE)).
    Tde01A,
    /// Writing: sending data.
    Tde02A,
    /// Writing: resynchronisation pending (waiting for ACK(RESYN)).
    Tde03A,
    /// Writing: resynchronisation pending (waiting for the local F.RESTART response).
    Tde04A,
    /// Writing: interruption pending (waiting for ACK(IDT)).
    Tde05A,
    /// Writing: interruption pending (waiting for the local F.CANCEL response).
    Tde06A,
    /// Writing: end of data sent.
    Tde07A,
    /// Writing: end of transfer pending (waiting for ACK(TRANS.END)).
    Tde08A,
    /// Write start pending (waiting for the local F.WRITE response).
    Tde01B,
    /// Writing: receiving data.
    Tde02B,
    /// Receiving: resynchronisation pending (waiting for ACK(RESYN)).
    Tde03B,
    /// Receiving: resynchronisation pending (waiting for the local F.RESTART response).
    Tde04B,
    /// Receiving: interruption pending (waiting for ACK(IDT)).
    Tde05B,
    /// Receiving: interruption pending (waiting for the local F.CANCEL response).
    Tde06B,
    /// Receiving: end of data received.
    Tde07B,
    /// Receiving: end of transfer pending (waiting for the local F.TRANSFER.END response).
    Tde08B,
    /// Read start pending (waiting for ACK(READ)).
    Tdl01A,
    /// Reading: receiving data.
    Tdl02A,
    /// Reading: resynchronisation pending (waiting for ACK(RESYN)).
    Tdl03A,
    /// Reading: resynchronisation pending (waiting for the local F.RESTART response).
    Tdl04A,
    /// Reading: interruption pending (waiting for ACK(IDT)).
    Tdl05A,
    /// Reading: interruption pending (waiting for the local F.CANCEL response).
    Tdl06A,
    /// Reading: end of data received.
    Tdl07A,
    /// Reading: end of transfer pending (waiting for ACK(TRANS.END)).
    Tdl08A,
    /// Read start pending (waiting for the local F.READ response).
    Tdl01B,
    /// Reading: sending data.
    Tdl02B,
    /// Sending: resynchronisation pending (waiting for ACK(RESYN)).
    Tdl03B,
    /// Sending: resynchronisation pending (waiting for the local F.RESTART response).
    Tdl04B,
    /// Sending: interruption pending (waiting for ACK(IDT)).
    Tdl05B,
    /// Sending: interruption pending (waiting for the local F.CANCEL response).
    Tdl06B,
    /// Sending: end of data sent.
    Tdl07B,
    /// Sending: end of transfer pending (waiting for the local F.TRANSFER.END response).
    Tdl08B,
    /// Message: sending segments.
    Mg01A,
    /// Message: receiving segments.
    Mg01B,
    /// Message sent (waiting for ACK(MSG)).
    Mg04A,
    /// Message received (waiting for the local F.MESSAGE response).
    Mg04B,
}

/// Local (service user / implementation) events.
#[derive(Debug, Clone, Copy, PartialEq, Eq, Hash, Structural)]
pub enum LocalEvent {
    /// F.ABORT request: send ABORT and return to idle.
    Abort,
    /// F.CONNECT request.
    Connect,
    /// F.RELEASE request.
    Release,
    /// F.CREATE request.
    Create,
    /// F.SELECT request.
    Select,
    /// F.DESELECT request.
    Deselect,
    /// F.OPEN request.
    Open,
    /// F.CLOSE request.
    Close,
    /// F.WRITE request.
    Write,
    /// F.READ request.
    Read,
    /// F.MESSAGE request.
    Message,
    /// F.CANCEL request (send IDT).
    Cancel,
    /// F.DATA request (send DTF).
    SendData,
    /// F.CHECK request (send SYN).
    Sync,
    /// F.DATA.END request (send DTF.END).
    DataEnd,
    /// F.TRANSFER.END request (send TRANS.END).
    TransferEnd,
    /// F.RESTART request (send RESYN).
    Resync,
    /// Positive local response to a pending indication (send the positive acknowledgement).
    Accept,
    /// Negative local response to a pending indication (send the negative acknowledgement).
    Reject,
}

/// An event applied to the state machine.
#[derive(Debug, Clone, Copy, PartialEq, Eq, Hash, Structural)]
pub enum Event {
    /// A FPDU received from the peer; `negative` is set for acknowledgements carrying a
    /// non-zero diagnostic.
    Received {
        /// Kind of the received FPDU.
        kind: FpduKind,
        /// Negative acknowledgement flag.
        negative: bool,
    },
    /// A local request or response.
    Local(LocalEvent),
}

impl Event {
    /// Received FPDU event.
    #[verifier::allow_in_spec]
    #[must_use]
    pub fn received(kind: FpduKind, negative: bool) -> Self
        returns
            (Event::Received { kind, negative }),
    {
        Event::Received { kind, negative }
    }

    /// Local event.
    #[verifier::allow_in_spec]
    #[must_use]
    pub fn local(e: LocalEvent) -> Self
        returns
            Event::Local(e),
    {
        Event::Local(e)
    }
}

impl LocalEvent {
    /// Name of the event.
    pub open spec fn spec_name(self) -> Seq<char> {
        match self {
            LocalEvent::Abort => "Abort"@,
            LocalEvent::Connect => "Connect"@,
            LocalEvent::Release => "Release"@,
            LocalEvent::Create => "Create"@,
            LocalEvent::Select => "Select"@,
            LocalEvent::Deselect => "Deselect"@,
            LocalEvent::Open => "Open"@,
            LocalEvent::Close => "Close"@,
            LocalEvent::Write => "Write"@,
            LocalEvent::Read => "Read"@,
            LocalEvent::Message => "Message"@,
            LocalEvent::Cancel => "Cancel"@,
            LocalEvent::SendData => "SendData"@,
            LocalEvent::Sync => "Sync"@,
            LocalEvent::DataEnd => "DataEnd"@,
            LocalEvent::TransferEnd => "TransferEnd"@,
            LocalEvent::Resync => "Resync"@,
            LocalEvent::Accept => "Accept"@,
            LocalEvent::Reject => "Reject"@,
        }
    }

    /// Name of the event.
    #[must_use]
    pub fn name(self) -> (r: &'static str)
        ensures
            r@ == self.spec_name(),
    {
        match self {
            LocalEvent::Abort => "Abort",
            LocalEvent::Connect => "Connect",
            LocalEvent::Release => "Release",
            LocalEvent::Create => "Create",
            LocalEvent::Select => "Select",
            LocalEvent::Deselect => "Deselect",
            LocalEvent::Open => "Open",
            LocalEvent::Close => "Close",
            LocalEvent::Write => "Write",
            LocalEvent::Read => "Read",
            LocalEvent::Message => "Message",
            LocalEvent::Cancel => "Cancel",
            LocalEvent::SendData => "SendData",
            LocalEvent::Sync => "Sync",
            LocalEvent::DataEnd => "DataEnd",
            LocalEvent::TransferEnd => "TransferEnd",
            LocalEvent::Resync => "Resync",
            LocalEvent::Accept => "Accept",
            LocalEvent::Reject => "Reject",
        }
    }
}

impl Event {
    /// Rendering of the event: `Received { kind: Dtf, negative: false }` or `Local(Accept)`.
    pub open spec fn spec_text(self) -> Seq<char> {
        match self {
            Event::Received { kind, negative } => "Received { kind: "@ + kind.spec_variant()
                + ", negative: "@ + (if negative {
                "true"@
            } else {
                "false"@
            }) + " }"@,
            Event::Local(e) => "Local("@ + e.spec_name() + ")"@,
        }
    }

    /// Rendering of the event: `Received { kind: Dtf, negative: false }` or `Local(Accept)`.
    #[must_use]
    pub fn text(self) -> (r: String)
        ensures
            r@ == self.spec_text(),
    {
        match self {
            Event::Received { kind, negative } => {
                let mut out = "Received { kind: ".to_owned();
                out.append(kind.variant());
                out.append(", negative: ");
                out.append(if negative { "true" } else { "false" });
                out.append(" }");
                out
            },
            Event::Local(e) => {
                let mut out = "Local(".to_owned();
                out.append(e.name());
                out.append(")");
                out
            },
        }
    }
}

/// Outcome of applying an event to a state.
#[derive(Debug, Clone, Copy, PartialEq, Eq, Structural)]
pub enum Outcome {
    /// Move to the given state.
    Next(State),
    /// The event is valid but ignored in this state (e.g. a late ACK(SYN)).
    Ignore,
    /// Protocol error: the event is not allowed in this state.
    Error,
}

// ---- the tables ----

/// Direction of a data transfer.
#[derive(Debug, Clone, Copy, PartialEq, Eq, Hash, Structural)]
pub enum Transfer {
    /// The requester writes to the server.
    Write,
    /// The requester reads from the server.
    Read,
}

/// The side of a transfer that a data state belongs to, and its step: 1 start pending, 2 data, 3
/// RESYN sent, 4 RESYN received, 5 IDT sent, 6 IDT received, 7 end of data, 8 end of transfer.
pub open spec fn data_step(s: State) -> Option<(Transfer, Role, int)> {
    match s {
        State::Tde01A => Some((Transfer::Write, Role::Requester, 1)),
        State::Tde02A => Some((Transfer::Write, Role::Requester, 2)),
        State::Tde03A => Some((Transfer::Write, Role::Requester, 3)),
        State::Tde04A => Some((Transfer::Write, Role::Requester, 4)),
        State::Tde05A => Some((Transfer::Write, Role::Requester, 5)),
        State::Tde06A => Some((Transfer::Write, Role::Requester, 6)),
        State::Tde07A => Some((Transfer::Write, Role::Requester, 7)),
        State::Tde08A => Some((Transfer::Write, Role::Requester, 8)),
        State::Tde01B => Some((Transfer::Write, Role::Server, 1)),
        State::Tde02B => Some((Transfer::Write, Role::Server, 2)),
        State::Tde03B => Some((Transfer::Write, Role::Server, 3)),
        State::Tde04B => Some((Transfer::Write, Role::Server, 4)),
        State::Tde05B => Some((Transfer::Write, Role::Server, 5)),
        State::Tde06B => Some((Transfer::Write, Role::Server, 6)),
        State::Tde07B => Some((Transfer::Write, Role::Server, 7)),
        State::Tde08B => Some((Transfer::Write, Role::Server, 8)),
        State::Tdl01A => Some((Transfer::Read, Role::Requester, 1)),
        State::Tdl02A => Some((Transfer::Read, Role::Requester, 2)),
        State::Tdl03A => Some((Transfer::Read, Role::Requester, 3)),
        State::Tdl04A => Some((Transfer::Read, Role::Requester, 4)),
        State::Tdl05A => Some((Transfer::Read, Role::Requester, 5)),
        State::Tdl06A => Some((Transfer::Read, Role::Requester, 6)),
        State::Tdl07A => Some((Transfer::Read, Role::Requester, 7)),
        State::Tdl08A => Some((Transfer::Read, Role::Requester, 8)),
        State::Tdl01B => Some((Transfer::Read, Role::Server, 1)),
        State::Tdl02B => Some((Transfer::Read, Role::Server, 2)),
        State::Tdl03B => Some((Transfer::Read, Role::Server, 3)),
        State::Tdl04B => Some((Transfer::Read, Role::Server, 4)),
        State::Tdl05B => Some((Transfer::Read, Role::Server, 5)),
        State::Tdl06B => Some((Transfer::Read, Role::Server, 6)),
        State::Tdl07B => Some((Transfer::Read, Role::Server, 7)),
        State::Tdl08B => Some((Transfer::Read, Role::Server, 8)),
        _ => None,
    }
}

/// The data state of a side and a step.
pub open spec fn data_state(t: Transfer, r: Role, step: int) -> State {
    match (t, r) {
        (Transfer::Write, Role::Requester) => if step == 1 {
            State::Tde01A
        } else if step == 2 {
            State::Tde02A
        } else if step == 3 {
            State::Tde03A
        } else if step == 4 {
            State::Tde04A
        } else if step == 5 {
            State::Tde05A
        } else if step == 6 {
            State::Tde06A
        } else if step == 7 {
            State::Tde07A
        } else {
            State::Tde08A
        },
        (Transfer::Write, Role::Server) => if step == 1 {
            State::Tde01B
        } else if step == 2 {
            State::Tde02B
        } else if step == 3 {
            State::Tde03B
        } else if step == 4 {
            State::Tde04B
        } else if step == 5 {
            State::Tde05B
        } else if step == 6 {
            State::Tde06B
        } else if step == 7 {
            State::Tde07B
        } else {
            State::Tde08B
        },
        (Transfer::Read, Role::Requester) => if step == 1 {
            State::Tdl01A
        } else if step == 2 {
            State::Tdl02A
        } else if step == 3 {
            State::Tdl03A
        } else if step == 4 {
            State::Tdl04A
        } else if step == 5 {
            State::Tdl05A
        } else if step == 6 {
            State::Tdl06A
        } else if step == 7 {
            State::Tdl07A
        } else {
            State::Tdl08A
        },
        (Transfer::Read, Role::Server) => if step == 1 {
            State::Tdl01B
        } else if step == 2 {
            State::Tdl02B
        } else if step == 3 {
            State::Tdl03B
        } else if step == 4 {
            State::Tdl04B
        } else if step == 5 {
            State::Tdl05B
        } else if step == 6 {
            State::Tdl06B
        } else if step == 7 {
            State::Tdl07B
        } else {
            State::Tdl08B
        },
    }
}

/// Whether a side sends the file data: the requester of a write, the server of a read.
pub open spec fn sends(t: Transfer, r: Role) -> bool {
    (t == Transfer::Write) == (r == Role::Requester)
}

/// A positive (or plain) FPDU of the given kind.
pub open spec fn recv(e: Event, kind: FpduKind) -> bool {
    e == Event::Received { kind, negative: false }
}

/// A FPDU of the given kind, positive or negative.
pub open spec fn answer(e: Event, kind: FpduKind) -> bool {
    e matches Event::Received { kind: k, .. } && k == kind
}

/// A local event.
pub open spec fn local(e: Event, l: LocalEvent) -> bool {
    e == Event::Local(l)
}

/// A data FPDU.
pub open spec fn data_received(e: Event) -> bool {
    e matches Event::Received { kind, .. } && kind.spec_is_data()
}

/// States in which the requester waits for an acknowledgement: its kind, and the states that its
/// positive and its negative form lead to.
pub open spec fn awaited(s: State) -> Option<(FpduKind, State, State)> {
    match s {
        State::Sf01A => Some((FpduKind::AckCreate, State::Sf03, State::Cn03)),
        State::Sf02A => Some((FpduKind::AckSelect, State::Sf03, State::Cn03)),
        State::Sf04A => Some((FpduKind::AckDeselect, State::Cn03, State::Cn03)),
        State::Of01A => Some((FpduKind::AckOrf, State::Of02, State::Sf03)),
        State::Of03A => Some((FpduKind::AckCrf, State::Sf03, State::Sf03)),
        State::Tde01A => Some((FpduKind::AckWrite, State::Tde02A, State::Of02)),
        State::Tdl01A => Some((FpduKind::AckRead, State::Tdl02A, State::Of02)),
        State::Mg04A => Some((FpduKind::AckMsg, State::Cn03, State::Cn03)),
        _ => None,
    }
}

/// States in which the server owes a response: the states that its positive and its negative
/// form lead to.
pub open spec fn owed(s: State) -> Option<(State, State)> {
    match s {
        State::Cn02B => Some((State::Cn03, State::Cn01)),
        State::Cn04B => Some((State::Cn01, State::Cn01)),
        State::Sf01B | State::Sf02B => Some((State::Sf03, State::Cn03)),
        State::Sf04B | State::Mg04B => Some((State::Cn03, State::Cn03)),
        State::Of01B => Some((State::Of02, State::Sf03)),
        State::Of03B => Some((State::Sf03, State::Sf03)),
        State::Tde01B => Some((State::Tde02B, State::Of02)),
        State::Tdl01B => Some((State::Tdl02B, State::Of02)),
        _ => None,
    }
}

/// Requests that may start an exchange: the stable state, the local event and the FPDU that carry
/// the request, and the pending states of the requester and of the server.
pub open spec fn requested(s: State, e: Event) -> Option<State> {
    match s {
        State::Cn01 => if local(e, LocalEvent::Connect) {
            Some(State::Cn02A)
        } else if recv(e, FpduKind::Connect) {
            Some(State::Cn02B)
        } else {
            None
        },
        State::Cn03 => if local(e, LocalEvent::Release) {
            Some(State::Cn04A)
        } else if recv(e, FpduKind::Release) {
            Some(State::Cn04B)
        } else if local(e, LocalEvent::Create) {
            Some(State::Sf01A)
        } else if recv(e, FpduKind::Create) {
            Some(State::Sf01B)
        } else if local(e, LocalEvent::Select) {
            Some(State::Sf02A)
        } else if recv(e, FpduKind::Select) {
            Some(State::Sf02B)
        } else if local(e, LocalEvent::Message) {
            Some(State::Mg01A)
        } else if recv(e, FpduKind::MsgDm) {
            Some(State::Mg01B)
        } else if recv(e, FpduKind::Msg) {
            Some(State::Mg04B)
        } else {
            None
        },
        State::Sf03 => if local(e, LocalEvent::Deselect) {
            Some(State::Sf04A)
        } else if recv(e, FpduKind::Deselect) {
            Some(State::Sf04B)
        } else if local(e, LocalEvent::Open) {
            Some(State::Of01A)
        } else if recv(e, FpduKind::Orf) {
            Some(State::Of01B)
        } else {
            None
        },
        State::Of02 => if local(e, LocalEvent::Close) {
            Some(State::Of03A)
        } else if recv(e, FpduKind::Crf) {
            Some(State::Of03B)
        } else if local(e, LocalEvent::Write) {
            Some(State::Tde01A)
        } else if recv(e, FpduKind::Write) {
            Some(State::Tde01B)
        } else if local(e, LocalEvent::Read) {
            Some(State::Tdl01A)
        } else if recv(e, FpduKind::Read) {
            Some(State::Tdl01B)
        } else {
            None
        },
        _ => None,
    }
}

/// Whether an event is harmless in a data step and leaves the step as it is.
pub open spec fn stays(t: Transfer, r: Role, step: int, e: Event) -> bool {
    if sends(t, r) {
        ||| step == 2 && (local(e, LocalEvent::SendData) || local(e, LocalEvent::Sync) || recv(
            e,
            FpduKind::AckSyn,
        ))
        ||| step == 7 && r == Role::Requester && recv(e, FpduKind::AckSyn)
    } else {
        ||| step == 2 && (data_received(e) || recv(e, FpduKind::Syn) || local(e, LocalEvent::Accept))
        ||| step == 7 && local(e, LocalEvent::Accept)
    }
}

/// Whether an event is late in a data step and is to be ignored.
pub open spec fn late(t: Transfer, r: Role, step: int, e: Event) -> bool {
    if step == 5 {
        e is Received && !recv(e, FpduKind::AckIdt) && !recv(e, FpduKind::Idt)
    } else if step == 6 {
        e is Received
    } else if sends(t, r) {
        ||| step == 3 && (recv(e, FpduKind::AckSyn) || recv(e, FpduKind::AckTransEnd))
        ||| step == 4 && (local(e, LocalEvent::DataEnd) || local(e, LocalEvent::SendData) || local(
            e,
            LocalEvent::Sync,
        ) || local(e, LocalEvent::TransferEnd) || recv(e, FpduKind::AckSyn))
        ||| step == 7 && r == Role::Server && recv(e, FpduKind::AckSyn)
        ||| step == 8 && recv(e, FpduKind::AckSyn)
    } else {
        ||| step == 3 && (data_received(e) || recv(e, FpduKind::Syn) || recv(e, FpduKind::DtfEnd)
            || recv(e, FpduKind::TransEnd))
        ||| step == 4 && local(e, LocalEvent::Sync)
    }
}

/// The step that an event moves a data step to; 0 stands for the end of the transfer.
pub open spec fn moves(t: Transfer, r: Role, step: int, e: Event) -> Option<int> {
    let cancel = local(e, LocalEvent::Cancel);
    let idt = recv(e, FpduKind::Idt);
    if step == 2 && (if sends(t, r) {
        local(e, LocalEvent::DataEnd)
    } else {
        recv(e, FpduKind::DtfEnd)
    }) {
        Some(7)
    } else if (step == 3 && recv(e, FpduKind::AckResyn)) || (step == 4 && local(
        e,
        LocalEvent::Accept,
    )) {
        Some(2)
    } else if local(e, LocalEvent::Resync) && (step == 2 || step == 4 || (step == 7 && !sends(t, r))
        || (step == 8 && r == Role::Server)) {
        Some(3)
    } else if recv(e, FpduKind::Resyn) && (step == 2 || step == 3 || (sends(t, r) && (step == 7 || (
    step == 8 && r == Role::Requester)))) {
        Some(4)
    } else if cancel && (step == 2 || step == 3 || step == 4 || step == 7 || (step == 8 && r
        == Role::Requester)) {
        Some(5)
    } else if idt && (step == 2 || step == 3 || step == 4 || step == 5 || step == 7 || (step == 8
        && r == Role::Requester)) {
        Some(6)
    } else if step == 7 && (if r == Role::Requester {
        local(e, LocalEvent::TransferEnd)
    } else {
        recv(e, FpduKind::TransEnd)
    }) {
        Some(8)
    } else if step == 8 && (if r == Role::Requester {
        answer(e, FpduKind::AckTransEnd)
    } else {
        local(e, LocalEvent::Accept) || local(e, LocalEvent::Reject)
    }) {
        Some(0)
    } else if step == 5 && recv(e, FpduKind::AckIdt) {
        Some(0)
    } else if step == 6 && local(e, LocalEvent::Accept) {
        Some(0)
    } else {
        None
    }
}

/// Outcome of an event in a data state past its start.
pub open spec fn data_outcome(t: Transfer, r: Role, step: int, e: Event) -> Outcome {
    if stays(t, r, step, e) {
        Outcome::Next(data_state(t, r, step))
    } else if late(t, r, step, e) {
        Outcome::Ignore
    } else {
        match moves(t, r, step, e) {
            Some(next) => if next == 0 {
                Outcome::Next(State::Of02)
            } else {
                Outcome::Next(data_state(t, r, next))
            },
            None => Outcome::Error,
        }
    }
}

/// Outcome of an event in the states that are neither stable, pending nor data states.
pub open spec fn special_outcome(s: State, e: Event) -> Outcome {
    match s {
        State::Cn02A => if recv(e, FpduKind::Aconnect) {
            Outcome::Next(State::Cn03)
        } else if answer(e, FpduKind::Aconnect) || answer(e, FpduKind::Rconnect) {
            Outcome::Next(State::Cn01)
        } else {
            Outcome::Error
        },
        State::Cn04A => if recv(e, FpduKind::Relconf) {
            Outcome::Next(State::Cn01)
        } else {
            Outcome::Error
        },
        State::Mg01A => if local(e, LocalEvent::SendData) {
            Outcome::Next(State::Mg01A)
        } else if local(e, LocalEvent::DataEnd) {
            Outcome::Next(State::Mg04A)
        } else if answer(e, FpduKind::AckMsg) {
            Outcome::Next(State::Cn03)
        } else {
            Outcome::Error
        },
        State::Mg01B => if recv(e, FpduKind::MsgMm) {
            Outcome::Next(State::Mg01B)
        } else if recv(e, FpduKind::MsgFm) {
            Outcome::Next(State::Mg04B)
        } else {
            Outcome::Error
        },
        _ => Outcome::Error,
    }
}

/// Whether an event is an abort, local or received.
pub open spec fn aborts(e: Event) -> bool {
    local(e, LocalEvent::Abort) || answer(e, FpduKind::Abort)
}

/// The protocol state table.
pub open spec fn outcome(s: State, e: Event) -> Outcome {
    if aborts(e) {
        Outcome::Next(State::Cn01)
    } else if awaited(s) is Some {
        let (kind, yes, no) = awaited(s)->0;
        if recv(e, kind) {
            Outcome::Next(yes)
        } else if answer(e, kind) {
            Outcome::Next(no)
        } else {
            Outcome::Error
        }
    } else if owed(s) is Some {
        let (yes, no) = owed(s)->0;
        if local(e, LocalEvent::Accept) {
            Outcome::Next(yes)
        } else if local(e, LocalEvent::Reject) {
            Outcome::Next(no)
        } else {
            Outcome::Error
        }
    } else if data_step(s) is Some {
        let (t, r, step) = data_step(s)->0;
        data_outcome(t, r, step, e)
    } else if requested(s, e) is Some {
        Outcome::Next(requested(s, e)->0)
    } else {
        special_outcome(s, e)
    }
}

impl State {
    /// Initial state.
    pub const INITIAL: State = State::Cn01;

    /// Name of the state.
    pub open spec fn spec_name(self) -> Seq<char> {
        match self {
            State::Cn01 => "Cn01"@,
            State::Cn02A => "Cn02A"@,
            State::Cn02B => "Cn02B"@,
            State::Cn03 => "Cn03"@,
            State::Cn04A => "Cn04A"@,
            State::Cn04B => "Cn04B"@,
            State::Sf01A => "Sf01A"@,
            State::Sf01B => "Sf01B"@,
            State::Sf02A => "Sf02A"@,
            State::Sf02B => "Sf02B"@,
            State::Sf03 => "Sf03"@,
            State::Sf04A => "Sf04A"@,
            State::Sf04B => "Sf04B"@,
            State::Of01A => "Of01A"@,
            State::Of01B => "Of01B"@,
            State::Of02 => "Of02"@,
            State::Of03A => "Of03A"@,
            State::Of03B => "Of03B"@,
            State::Tde01A => "Tde01A"@,
            State::Tde02A => "Tde02A"@,
            State::Tde03A => "Tde03A"@,
            State::Tde04A => "Tde04A"@,
            State::Tde05A => "Tde05A"@,
            State::Tde06A => "Tde06A"@,
            State::Tde07A => "Tde07A"@,
            State::Tde08A => "Tde08A"@,
            State::Tde01B => "Tde01B"@,
            State::Tde02B => "Tde02B"@,
            State::Tde03B => "Tde03B"@,
            State::Tde04B => "Tde04B"@,
            State::Tde05B => "Tde05B"@,
            State::Tde06B => "Tde06B"@,
            State::Tde07B => "Tde07B"@,
            State::Tde08B => "Tde08B"@,
            State::Tdl01A => "Tdl01A"@,
            State::Tdl02A => "Tdl02A"@,
            State::Tdl03A => "Tdl03A"@,
            State::Tdl04A => "Tdl04A"@,
            State::Tdl05A => "Tdl05A"@,
            State::Tdl06A => "Tdl06A"@,
            State::Tdl07A => "Tdl07A"@,
            State::Tdl08A => "Tdl08A"@,
            State::Tdl01B => "Tdl01B"@,
            State::Tdl02B => "Tdl02B"@,
            State::Tdl03B => "Tdl03B"@,
            State::Tdl04B => "Tdl04B"@,
            State::Tdl05B => "Tdl05B"@,
            State::Tdl06B => "Tdl06B"@,
            State::Tdl07B => "Tdl07B"@,
            State::Tdl08B => "Tdl08B"@,
            State::Mg01A => "Mg01A"@,
            State::Mg01B => "Mg01B"@,
            State::Mg04A => "Mg04A"@,
            State::Mg04B => "Mg04B"@,
        }
    }

    /// Description.
    pub open spec fn spec_description(self) -> Seq<char> {
        match self {
            State::Cn01 => "Idle (not connected)"@,
            State::Cn02A => "Connection pending (waiting for ACONNECT/RCONNECT)"@,
            State::Cn02B => "Connection pending (waiting for the local F.CONNECT response)"@,
            State::Cn03 => "Connected"@,
            State::Cn04A => "Release pending (waiting for RELCONF)"@,
            State::Cn04B => "Release pending (waiting for the local F.RELEASE response)"@,
            State::Sf01A => "File creation pending (waiting for ACK(CREATE))"@,
            State::Sf01B => "File creation pending (waiting for the local F.CREATE response)"@,
            State::Sf02A => "File selection pending (waiting for ACK(SELECT))"@,
            State::Sf02B => "File selection pending (waiting for the local F.SELECT response)"@,
            State::Sf03 => "File selected"@,
            State::Sf04A => "File deselection pending (waiting for ACK(DESELECT))"@,
            State::Sf04B => "File deselection pending (waiting for the local F.DESELECT response)"@,
            State::Of01A => "File open pending (waiting for ACK(ORF))"@,
            State::Of01B => "File open pending (waiting for the local F.OPEN response)"@,
            State::Of02 => "Data transfer idle (file open)"@,
            State::Of03A => "File close pending (waiting for ACK(CRF))"@,
            State::Of03B => "File close pending (waiting for the local F.CLOSE response)"@,
            State::Tde01A => "Write start pending (waiting for ACK(WRITE))"@,
            State::Tde02A => "Writing: sending data"@,
            State::Tde03A => "Writing: resynchronisation pending (waiting for ACK(RESYN))"@,
            State::Tde04A => "Writing: resynchronisation pending (waiting for the local F.RESTART response)"@,
            State::Tde05A => "Writing: interruption pending (waiting for ACK(IDT))"@,
            State::Tde06A => "Writing: interruption pending (waiting for the local F.CANCEL response)"@,
            State::Tde07A => "Writing: end of data sent"@,
            State::Tde08A => "Writing: end of transfer pending (waiting for ACK(TRANS.END))"@,
            State::Tde01B => "Write start pending (waiting for the local F.WRITE response)"@,
            State::Tde02B => "Writing: receiving data"@,
            State::Tde03B => "Receiving: resynchronisation pending (waiting for ACK(RESYN))"@,
            State::Tde04B => "Receiving: resynchronisation pending (waiting for the local F.RESTART response)"@,
            State::Tde05B => "Receiving: interruption pending (waiting for ACK(IDT))"@,
            State::Tde06B => "Receiving: interruption pending (waiting for the local F.CANCEL response)"@,
            State::Tde07B => "Receiving: end of data received"@,
            State::Tde08B => "Receiving: end of transfer pending (waiting for the local F.TRANSFER.END response)"@,
            State::Tdl01A => "Read start pending (waiting for ACK(READ))"@,
            State::Tdl02A => "Reading: receiving data"@,
            State::Tdl03A => "Reading: resynchronisation pending (waiting for ACK(RESYN))"@,
            State::Tdl04A => "Reading: resynchronisation pending (waiting for the local F.RESTART response)"@,
            State::Tdl05A => "Reading: interruption pending (waiting for ACK(IDT))"@,
            State::Tdl06A => "Reading: interruption pending (waiting for the local F.CANCEL response)"@,
            State::Tdl07A => "Reading: end of data received"@,
            State::Tdl08A => "Reading: end of transfer pending (waiting for ACK(TRANS.END))"@,
            State::Tdl01B => "Read start pending (waiting for the local F.READ response)"@,
            State::Tdl02B => "Reading: sending data"@,
            State::Tdl03B => "Sending: resynchronisation pending (waiting for ACK(RESYN))"@,
            State::Tdl04B => "Sending: resynchronisation pending (waiting for the local F.RESTART response)"@,
            State::Tdl05B => "Sending: interruption pending (waiting for ACK(IDT))"@,
            State::Tdl06B => "Sending: interruption pending (waiting for the local F.CANCEL response)"@,
            State::Tdl07B => "Sending: end of data sent"@,
            State::Tdl08B => "Sending: end of transfer pending (waiting for the local F.TRANSFER.END response)"@,
            State::Mg01A => "Message: sending segments"@,
            State::Mg01B => "Message: receiving segments"@,
            State::Mg04A => "Message sent (waiting for ACK(MSG))"@,
            State::Mg04B => "Message received (waiting for the local F.MESSAGE response)"@,
        }
    }

    /// Whether the local entity is currently sending file data.
    pub open spec fn spec_is_sending(self) -> bool {
        data_step(self) matches Some((t, r, step)) && step == 2 && sends(t, r)
    }

    /// Whether the local entity is currently receiving file data.
    pub open spec fn spec_is_receiving(self) -> bool {
        data_step(self) matches Some((t, r, step)) && step == 2 && !sends(t, r)
    }

    /// Whether the connection phase is established.
    pub open spec fn spec_is_connected(self) -> bool {
        !(self is Cn01 || self is Cn02A || self is Cn02B)
    }

    /// Name of the state.
    #[must_use]
    pub fn name(self) -> (r: &'static str)
        ensures
            r@ == self.spec_name(),
    {
        match self {
            State::Cn01 => "Cn01",
            State::Cn02A => "Cn02A",
            State::Cn02B => "Cn02B",
            State::Cn03 => "Cn03",
            State::Cn04A => "Cn04A",
            State::Cn04B => "Cn04B",
            State::Sf01A => "Sf01A",
            State::Sf01B => "Sf01B",
            State::Sf02A => "Sf02A",
            State::Sf02B => "Sf02B",
            State::Sf03 => "Sf03",
            State::Sf04A => "Sf04A",
            State::Sf04B => "Sf04B",
            State::Of01A => "Of01A",
            State::Of01B => "Of01B",
            State::Of02 => "Of02",
            State::Of03A => "Of03A",
            State::Of03B => "Of03B",
            State::Tde01A => "Tde01A",
            State::Tde02A => "Tde02A",
            State::Tde03A => "Tde03A",
            State::Tde04A => "Tde04A",
            State::Tde05A => "Tde05A",
            State::Tde06A => "Tde06A",
            State::Tde07A => "Tde07A",
            State::Tde08A => "Tde08A",
            State::Tde01B => "Tde01B",
            State::Tde02B => "Tde02B",
            State::Tde03B => "Tde03B",
            State::Tde04B => "Tde04B",
            State::Tde05B => "Tde05B",
            State::Tde06B => "Tde06B",
            State::Tde07B => "Tde07B",
            State::Tde08B => "Tde08B",
            State::Tdl01A => "Tdl01A",
            State::Tdl02A => "Tdl02A",
            State::Tdl03A => "Tdl03A",
            State::Tdl04A => "Tdl04A",
            State::Tdl05A => "Tdl05A",
            State::Tdl06A => "Tdl06A",
            State::Tdl07A => "Tdl07A",
            State::Tdl08A => "Tdl08A",
            State::Tdl01B => "Tdl01B",
            State::Tdl02B => "Tdl02B",
            State::Tdl03B => "Tdl03B",
            State::Tdl04B => "Tdl04B",
            State::Tdl05B => "Tdl05B",
            State::Tdl06B => "Tdl06B",
            State::Tdl07B => "Tdl07B",
            State::Tdl08B => "Tdl08B",
            State::Mg01A => "Mg01A",
            State::Mg01B => "Mg01B",
            State::Mg04A => "Mg04A",
            State::Mg04B => "Mg04B",
        }
    }

    /// Description.
    #[must_use]
    pub fn description(self) -> (r: &'static str)
        ensures
            r@ == self.spec_description(),
    {
        match self {
            State::Cn01 => "Idle (not connected)",
            State::Cn02A => "Connection pending (waiting for ACONNECT/RCONNECT)",
            State::Cn02B => "Connection pending (waiting for the local F.CONNECT response)",
            State::Cn03 => "Connected",
            State::Cn04A => "Release pending (waiting for RELCONF)",
            State::Cn04B => "Release pending (waiting for the local F.RELEASE response)",
            State::Sf01A => "File creation pending (waiting for ACK(CREATE))",
            State::Sf01B => "File creation pending (waiting for the local F.CREATE response)",
            State::Sf02A => "File selection pending (waiting for ACK(SELECT))",
            State::Sf02B => "File selection pending (waiting for the local F.SELECT response)",
            State::Sf03 => "File selected",
            State::Sf04A => "File deselection pending (waiting for ACK(DESELECT))",
            State::Sf04B => "File deselection pending (waiting for the local F.DESELECT response)",
            State::Of01A => "File open pending (waiting for ACK(ORF))",
            State::Of01B => "File open pending (waiting for the local F.OPEN response)",
            State::Of02 => "Data transfer idle (file open)",
            State::Of03A => "File close pending (waiting for ACK(CRF))",
            State::Of03B => "File close pending (waiting for the local F.CLOSE response)",
            State::Tde01A => "Write start pending (waiting for ACK(WRITE))",
            State::Tde02A => "Writing: sending data",
            State::Tde03A => "Writing: resynchronisation pending (waiting for ACK(RESYN))",
            State::Tde04A => "Writing: resynchronisation pending (waiting for the local F.RESTART response)",
            State::Tde05A => "Writing: interruption pending (waiting for ACK(IDT))",
            State::Tde06A => "Writing: interruption pending (waiting for the local F.CANCEL response)",
            State::Tde07A => "Writing: end of data sent",
            State::Tde08A => "Writing: end of transfer pending (waiting for ACK(TRANS.END))",
            State::Tde01B => "Write start pending (waiting for the local F.WRITE response)",
            State::Tde02B => "Writing: receiving data",
            State::Tde03B => "Receiving: resynchronisation pending (waiting for ACK(RESYN))",
            State::Tde04B => "Receiving: resynchronisation pending (waiting for the local F.RESTART response)",
            State::Tde05B => "Receiving: interruption pending (waiting for ACK(IDT))",
            State::Tde06B => "Receiving: interruption pending (waiting for the local F.CANCEL response)",
            State::Tde07B => "Receiving: end of data received",
            State::Tde08B => "Receiving: end of transfer pending (waiting for the local F.TRANSFER.END response)",
            State::Tdl01A => "Read start pending (waiting for ACK(READ))",
            State::Tdl02A => "Reading: receiving data",
            State::Tdl03A => "Reading: resynchronisation pending (waiting for ACK(RESYN))",
            State::Tdl04A => "Reading: resynchronisation pending (waiting for the local F.RESTART response)",
            State::Tdl05A => "Reading: interruption pending (waiting for ACK(IDT))",
            State::Tdl06A => "Reading: interruption pending (waiting for the local F.CANCEL response)",
            State::Tdl07A => "Reading: end of data received",
            State::Tdl08A => "Reading: end of transfer pending (waiting for ACK(TRANS.END))",
            State::Tdl01B => "Read start pending (waiting for the local F.READ response)",
            State::Tdl02B => "Reading: sending data",
            State::Tdl03B => "Sending: resynchronisation pending (waiting for ACK(RESYN))",
            State::Tdl04B => "Sending: resynchronisation pending (waiting for the local F.RESTART response)",
            State::Tdl05B => "Sending: interruption pending (waiting for ACK(IDT))",
            State::Tdl06B => "Sending: interruption pending (waiting for the local F.CANCEL response)",
            State::Tdl07B => "Sending: end of data sent",
            State::Tdl08B => "Sending: end of transfer pending (waiting for the local F.TRANSFER.END response)",
            State::Mg01A => "Message: sending segments",
            State::Mg01B => "Message: receiving segments",
            State::Mg04A => "Message sent (waiting for ACK(MSG))",
            State::Mg04B => "Message received (waiting for the local F.MESSAGE response)",
        }
    }

    /// Whether the local entity is currently sending file data.
    #[must_use]
    pub fn is_sending(self) -> (r: bool)
        ensures
            r == self.spec_is_sending(),
    {
        matches!(self, State::Tde02A | State::Tdl02B)
    }

    /// Whether the local entity is currently receiving file data.
    #[must_use]
    pub fn is_receiving(self) -> (r: bool)
        ensures
            r == self.spec_is_receiving(),
    {
        matches!(self, State::Tde02B | State::Tdl02A)
    }

    /// Whether the connection phase is established (CN03 or any deeper phase).
    #[must_use]
    pub fn is_connected(self) -> (r: bool)
        ensures
            r == self.spec_is_connected(),
    {
        !matches!(self, State::Cn01 | State::Cn02A | State::Cn02B)
    }

    /// Whether the state belongs to the data transfer phase.
    #[must_use]
    pub fn in_transfer(self) -> (r: bool)
        ensures
            r == data_step(self) is Some,
    {
        matches!(
            self,
            State::Tde01A | State::Tde02A | State::Tde03A | State::Tde04A
            | State::Tde05A | State::Tde06A | State::Tde07A | State::Tde08A
            | State::Tde01B | State::Tde02B | State::Tde03B | State::Tde04B
            | State::Tde05B | State::Tde06B | State::Tde07B | State::Tde08B
            | State::Tdl01A | State::Tdl02A | State::Tdl03A | State::Tdl04A
            | State::Tdl05A | State::Tdl06A | State::Tdl07A | State::Tdl08A
            | State::Tdl01B | State::Tdl02B | State::Tdl03B | State::Tdl04B
            | State::Tdl05B | State::Tdl06B | State::Tdl07B | State::Tdl08B
        )
    }

    /// Apply an event.
    #[must_use]
    pub fn apply(self, event: Event) -> (r: Outcome)
        ensures
            r == outcome(self, event),
    {
        match event {
            Event::Local(e) => self.apply_local(e),
            Event::Received { kind, negative } => self.apply_received(kind, negative),
        }
    }

    #[verifier::rlimit(60)]
    fn apply_local(self, e: LocalEvent) -> (r: Outcome)
        ensures
            r == outcome(self, Event::Local(e)),
    {
        match (self, e) {
            (_, LocalEvent::Abort) => Outcome::Next(State::Cn01),
            (State::Cn01, LocalEvent::Connect) => Outcome::Next(State::Cn02A),
            (State::Cn02B, LocalEvent::Accept) => Outcome::Next(State::Cn03),
            (State::Cn02B, LocalEvent::Reject) => Outcome::Next(State::Cn01),
            (State::Cn03, LocalEvent::Release) => Outcome::Next(State::Cn04A),
            (State::Cn03, LocalEvent::Select) => Outcome::Next(State::Sf02A),
            (State::Cn03, LocalEvent::Create) => Outcome::Next(State::Sf01A),
            (State::Cn03, LocalEvent::Message) => Outcome::Next(State::Mg01A),
            (State::Cn04B, LocalEvent::Accept | LocalEvent::Reject) => Outcome::Next(State::Cn01),
            (State::Sf01B | State::Sf02B, LocalEvent::Accept) => Outcome::Next(State::Sf03),
            (State::Sf01B | State::Sf02B, LocalEvent::Reject) => Outcome::Next(State::Cn03),
            (State::Sf03, LocalEvent::Deselect) => Outcome::Next(State::Sf04A),
            (State::Sf03, LocalEvent::Open) => Outcome::Next(State::Of01A),
            (State::Of01B, LocalEvent::Accept) => Outcome::Next(State::Of02),
            (State::Of01B, LocalEvent::Reject) => Outcome::Next(State::Sf03),
            (State::Of02, LocalEvent::Close) => Outcome::Next(State::Of03A),
            (State::Of02, LocalEvent::Write) => Outcome::Next(State::Tde01A),
            (State::Of02, LocalEvent::Read) => Outcome::Next(State::Tdl01A),
            (State::Of03B, LocalEvent::Accept | LocalEvent::Reject) => Outcome::Next(State::Sf03),
            (State::Tde01B, LocalEvent::Accept) => Outcome::Next(State::Tde02B),
            (State::Tde01B, LocalEvent::Reject) => Outcome::Next(State::Of02),
            (State::Tdl01B, LocalEvent::Accept) => Outcome::Next(State::Tdl02B),
            (State::Tdl01B, LocalEvent::Reject) => Outcome::Next(State::Of02),
            (State::Tde02A, LocalEvent::SendData | LocalEvent::Sync) => Outcome::Next(State::Tde02A),
            (State::Tde02A, LocalEvent::DataEnd) => Outcome::Next(State::Tde07A),
            (State::Tde04A, LocalEvent::DataEnd | LocalEvent::SendData | LocalEvent::Sync | LocalEvent::TransferEnd) => Outcome::Ignore,
            (State::Tde02A, LocalEvent::Resync) => Outcome::Next(State::Tde03A),
            (State::Tde02A, LocalEvent::Cancel) => Outcome::Next(State::Tde05A),
            (State::Tde03A, LocalEvent::Cancel) => Outcome::Next(State::Tde05A),
            (State::Tde04A, LocalEvent::Accept) => Outcome::Next(State::Tde02A),
            (State::Tde04A, LocalEvent::Resync) => Outcome::Next(State::Tde03A),
            (State::Tde04A, LocalEvent::Cancel) => Outcome::Next(State::Tde05A),
            (State::Tde07A, LocalEvent::Cancel) => Outcome::Next(State::Tde05A),
            (State::Tde06A, LocalEvent::Accept) => Outcome::Next(State::Of02),
            (State::Tde02B, LocalEvent::Accept) => Outcome::Next(State::Tde02B),
            (State::Tde04B, LocalEvent::Sync) => Outcome::Ignore,
            (State::Tde02B, LocalEvent::Resync) => Outcome::Next(State::Tde03B),
            (State::Tde02B, LocalEvent::Cancel) => Outcome::Next(State::Tde05B),
            (State::Tde03B, LocalEvent::Cancel) => Outcome::Next(State::Tde05B),
            (State::Tde04B, LocalEvent::Accept) => Outcome::Next(State::Tde02B),
            (State::Tde04B, LocalEvent::Resync) => Outcome::Next(State::Tde03B),
            (State::Tde04B, LocalEvent::Cancel) => Outcome::Next(State::Tde05B),
            (State::Tde07B, LocalEvent::Cancel) => Outcome::Next(State::Tde05B),
            (State::Tde06B, LocalEvent::Accept) => Outcome::Next(State::Of02),
            (State::Tdl02A, LocalEvent::Accept) => Outcome::Next(State::Tdl02A),
            (State::Tdl04A, LocalEvent::Sync) => Outcome::Ignore,
            (State::Tdl02A, LocalEvent::Resync) => Outcome::Next(State::Tdl03A),
            (State::Tdl02A, LocalEvent::Cancel) => Outcome::Next(State::Tdl05A),
            (State::Tdl03A, LocalEvent::Cancel) => Outcome::Next(State::Tdl05A),
            (State::Tdl04A, LocalEvent::Accept) => Outcome::Next(State::Tdl02A),
            (State::Tdl04A, LocalEvent::Resync) => Outcome::Next(State::Tdl03A),
            (State::Tdl04A, LocalEvent::Cancel) => Outcome::Next(State::Tdl05A),
            (State::Tdl07A, LocalEvent::Cancel) => Outcome::Next(State::Tdl05A),
            (State::Tdl06A, LocalEvent::Accept) => Outcome::Next(State::Of02),
            (State::Tdl02B, LocalEvent::SendData | LocalEvent::Sync) => Outcome::Next(State::Tdl02B),
            (State::Tdl02B, LocalEvent::DataEnd) => Outcome::Next(State::Tdl07B),
            (State::Tdl04B, LocalEvent::DataEnd | LocalEvent::SendData | LocalEvent::Sync | LocalEvent::TransferEnd) => Outcome::Ignore,
            (State::Tdl02B, LocalEvent::Resync) => Outcome::Next(State::Tdl03B),
            (State::Tdl02B, LocalEvent::Cancel) => Outcome::Next(State::Tdl05B),
            (State::Tdl03B, LocalEvent::Cancel) => Outcome::Next(State::Tdl05B),
            (State::Tdl04B, LocalEvent::Accept) => Outcome::Next(State::Tdl02B),
            (State::Tdl04B, LocalEvent::Resync) => Outcome::Next(State::Tdl03B),
            (State::Tdl04B, LocalEvent::Cancel) => Outcome::Next(State::Tdl05B),
            (State::Tdl07B, LocalEvent::Cancel) => Outcome::Next(State::Tdl05B),
            (State::Tdl06B, LocalEvent::Accept) => Outcome::Next(State::Of02),
            (State::Tde07A, LocalEvent::TransferEnd) => Outcome::Next(State::Tde08A),
            (State::Tde08A, LocalEvent::Cancel) => Outcome::Next(State::Tde05A),
            (State::Tdl08B, LocalEvent::Accept | LocalEvent::Reject) => Outcome::Next(State::Of02),
            (State::Tdl08B, LocalEvent::Resync) => Outcome::Next(State::Tdl03B),
            (State::Tde07B, LocalEvent::Accept) => Outcome::Next(State::Tde07B),
            (State::Tde07B, LocalEvent::Resync) => Outcome::Next(State::Tde03B),
            (State::Tde08B, LocalEvent::Accept | LocalEvent::Reject) => Outcome::Next(State::Of02),
            (State::Tde08B, LocalEvent::Resync) => Outcome::Next(State::Tde03B),
            (State::Tdl07A, LocalEvent::TransferEnd) => Outcome::Next(State::Tdl08A),
            (State::Tdl07A, LocalEvent::Accept) => Outcome::Next(State::Tdl07A),
            (State::Tdl07A, LocalEvent::Resync) => Outcome::Next(State::Tdl03A),
            (State::Tdl08A, LocalEvent::Cancel) => Outcome::Next(State::Tdl05A),
            (State::Mg01A, LocalEvent::SendData) => Outcome::Next(State::Mg01A),
            (State::Mg01A, LocalEvent::DataEnd) => Outcome::Next(State::Mg04A),
            (State::Sf04B | State::Mg04B, LocalEvent::Accept | LocalEvent::Reject) => Outcome::Next(State::Cn03),
            _ => Outcome::Error,
        }
    }

    #[verifier::rlimit(60)]
    fn apply_received(self, kind: FpduKind, negative: bool) -> (r: Outcome)
        ensures
            r == outcome(self, Event::Received { kind, negative }),
    {
        match (self, kind, negative) {
            (_, FpduKind::Abort, _) => Outcome::Next(State::Cn01),
            (State::Cn01, FpduKind::Connect, false) => Outcome::Next(State::Cn02B),
            (State::Cn02A, FpduKind::Aconnect, false) => Outcome::Next(State::Cn03),
            (State::Cn02A, FpduKind::Aconnect, true) => Outcome::Next(State::Cn01),
            (State::Cn02A, FpduKind::Rconnect, _) => Outcome::Next(State::Cn01),
            (State::Cn03, FpduKind::Release, false) => Outcome::Next(State::Cn04B),
            (State::Cn03, FpduKind::Select, false) => Outcome::Next(State::Sf02B),
            (State::Cn03, FpduKind::Create, false) => Outcome::Next(State::Sf01B),
            (State::Cn03, FpduKind::Msg, false) => Outcome::Next(State::Mg04B),
            (State::Cn03, FpduKind::MsgDm, false) => Outcome::Next(State::Mg01B),
            (State::Cn04A, FpduKind::Relconf, false) => Outcome::Next(State::Cn01),
            (State::Sf01A, FpduKind::AckCreate, false) => Outcome::Next(State::Sf03),
            (State::Sf01A, FpduKind::AckCreate, true) => Outcome::Next(State::Cn03),
            (State::Sf02A, FpduKind::AckSelect, false) => Outcome::Next(State::Sf03),
            (State::Sf02A, FpduKind::AckSelect, true) => Outcome::Next(State::Cn03),
            (State::Sf03, FpduKind::Deselect, false) => Outcome::Next(State::Sf04B),
            (State::Sf03, FpduKind::Orf, false) => Outcome::Next(State::Of01B),
            (State::Sf04A, FpduKind::AckDeselect, _) => Outcome::Next(State::Cn03),
            (State::Of01A, FpduKind::AckOrf, false) => Outcome::Next(State::Of02),
            (State::Of01A, FpduKind::AckOrf, true) => Outcome::Next(State::Sf03),
            (State::Of02, FpduKind::Crf, false) => Outcome::Next(State::Of03B),
            (State::Of02, FpduKind::Write, false) => Outcome::Next(State::Tde01B),
            (State::Of02, FpduKind::Read, false) => Outcome::Next(State::Tdl01B),
            (State::Of03A, FpduKind::AckCrf, _) => Outcome::Next(State::Sf03),
            (State::Tde01A, FpduKind::AckWrite, false) => Outcome::Next(State::Tde02A),
            (State::Tde01A, FpduKind::AckWrite, true) => Outcome::Next(State::Of02),
            (State::Tdl01A, FpduKind::AckRead, false) => Outcome::Next(State::Tdl02A),
            (State::Tdl01A, FpduKind::AckRead, true) => Outcome::Next(State::Of02),
            (State::Tde02A, FpduKind::AckSyn, false) => Outcome::Next(State::Tde02A),
            (State::Tde03A, FpduKind::AckSyn | FpduKind::AckTransEnd, false) => Outcome::Ignore,
            (State::Tde04A, FpduKind::AckSyn, false) => Outcome::Ignore,
            (State::Tde02A, FpduKind::Resyn, false) => Outcome::Next(State::Tde04A),
            (State::Tde02A, FpduKind::Idt, false) => Outcome::Next(State::Tde06A),
            (State::Tde03A, FpduKind::AckResyn, false) => Outcome::Next(State::Tde02A),
            (State::Tde03A, FpduKind::Resyn, false) => Outcome::Next(State::Tde04A),
            (State::Tde03A, FpduKind::Idt, false) => Outcome::Next(State::Tde06A),
            (State::Tde04A, FpduKind::Idt, false) => Outcome::Next(State::Tde06A),
            (State::Tde07A, FpduKind::Idt, false) => Outcome::Next(State::Tde06A),
            (State::Tde05A, FpduKind::AckIdt, false) => Outcome::Next(State::Of02),
            (State::Tde05A, FpduKind::Idt, false) => Outcome::Next(State::Tde06A),
            (State::Tde05A, _, _) => Outcome::Ignore,
            (State::Tde06A, _, _) => Outcome::Ignore,
            (State::Tde02B, FpduKind::Dtf | FpduKind::DtfDa | FpduKind::DtfMa | FpduKind::DtfFa, _) => Outcome::Next(State::Tde02B),
            (State::Tde02B, FpduKind::Syn, false) => Outcome::Next(State::Tde02B),
            (State::Tde02B, FpduKind::DtfEnd, false) => Outcome::Next(State::Tde07B),
            (State::Tde03B, FpduKind::Dtf | FpduKind::DtfDa | FpduKind::DtfMa | FpduKind::DtfFa, _) => Outcome::Ignore,
            (State::Tde03B, FpduKind::Syn | FpduKind::DtfEnd | FpduKind::TransEnd, false) => Outcome::Ignore,
            (State::Tde02B, FpduKind::Resyn, false) => Outcome::Next(State::Tde04B),
            (State::Tde02B, FpduKind::Idt, false) => Outcome::Next(State::Tde06B),
            (State::Tde03B, FpduKind::AckResyn, false) => Outcome::Next(State::Tde02B),
            (State::Tde03B, FpduKind::Resyn, false) => Outcome::Next(State::Tde04B),
            (State::Tde03B, FpduKind::Idt, false) => Outcome::Next(State::Tde06B),
            (State::Tde04B, FpduKind::Idt, false) => Outcome::Next(State::Tde06B),
            (State::Tde07B, FpduKind::Idt, false) => Outcome::Next(State::Tde06B),
            (State::Tde05B, FpduKind::AckIdt, false) => Outcome::Next(State::Of02),
            (State::Tde05B, FpduKind::Idt, false) => Outcome::Next(State::Tde06B),
            (State::Tde05B, _, _) => Outcome::Ignore,
            (State::Tde06B, _, _) => Outcome::Ignore,
            (State::Tdl02A, FpduKind::Dtf | FpduKind::DtfDa | FpduKind::DtfMa | FpduKind::DtfFa, _) => Outcome::Next(State::Tdl02A),
            (State::Tdl02A, FpduKind::Syn, false) => Outcome::Next(State::Tdl02A),
            (State::Tdl02A, FpduKind::DtfEnd, false) => Outcome::Next(State::Tdl07A),
            (State::Tdl03A, FpduKind::Dtf | FpduKind::DtfDa | FpduKind::DtfMa | FpduKind::DtfFa, _) => Outcome::Ignore,
            (State::Tdl03A, FpduKind::Syn | FpduKind::DtfEnd | FpduKind::TransEnd, false) => Outcome::Ignore,
            (State::Tdl02A, FpduKind::Resyn, false) => Outcome::Next(State::Tdl04A),
            (State::Tdl02A, FpduKind::Idt, false) => Outcome::Next(State::Tdl06A),
            (State::Tdl03A, FpduKind::AckResyn, false) => Outcome::Next(State::Tdl02A),
            (State::Tdl03A, FpduKind::Resyn, false) => Outcome::Next(State::Tdl04A),
            (State::Tdl03A, FpduKind::Idt, false) => Outcome::Next(State::Tdl06A),
            (State::Tdl04A, FpduKind::Idt, false) => Outcome::Next(State::Tdl06A),
            (State::Tdl07A, FpduKind::Idt, false) => Outcome::Next(State::Tdl06A),
            (State::Tdl05A, FpduKind::AckIdt, false) => Outcome::Next(State::Of02),
            (State::Tdl05A, FpduKind::Idt, false) => Outcome::Next(State::Tdl06A),
            (State::Tdl05A, _, _) => Outcome::Ignore,
            (State::Tdl06A, _, _) => Outcome::Ignore,
            (State::Tdl02B, FpduKind::AckSyn, false) => Outcome::Next(State::Tdl02B),
            (State::Tdl03B, FpduKind::AckSyn | FpduKind::AckTransEnd, false) => Outcome::Ignore,
            (State::Tdl04B, FpduKind::AckSyn, false) => Outcome::Ignore,
            (State::Tdl02B, FpduKind::Resyn, false) => Outcome::Next(State::Tdl04B),
            (State::Tdl02B, FpduKind::Idt, false) => Outcome::Next(State::Tdl06B),
            (State::Tdl03B, FpduKind::AckResyn, false) => Outcome::Next(State::Tdl02B),
            (State::Tdl03B, FpduKind::Resyn, false) => Outcome::Next(State::Tdl04B),
            (State::Tdl03B, FpduKind::Idt, false) => Outcome::Next(State::Tdl06B),
            (State::Tdl04B, FpduKind::Idt, false) => Outcome::Next(State::Tdl06B),
            (State::Tdl07B, FpduKind::Idt, false) => Outcome::Next(State::Tdl06B),
            (State::Tdl05B, FpduKind::AckIdt, false) => Outcome::Next(State::Of02),
            (State::Tdl05B, FpduKind::Idt, false) => Outcome::Next(State::Tdl06B),
            (State::Tdl05B, _, _) => Outcome::Ignore,
            (State::Tdl06B, _, _) => Outcome::Ignore,
            (State::Tde07A, FpduKind::AckSyn, false) => Outcome::Next(State::Tde07A),
            (State::Tde07A, FpduKind::Resyn, false) => Outcome::Next(State::Tde04A),
            (State::Tde08A, FpduKind::AckTransEnd, _) => Outcome::Next(State::Of02),
            (State::Tde08A, FpduKind::AckSyn, false) => Outcome::Ignore,
            (State::Tde08A, FpduKind::Resyn, false) => Outcome::Next(State::Tde04A),
            (State::Tde08A, FpduKind::Idt, false) => Outcome::Next(State::Tde06A),
            (State::Tdl07B, FpduKind::TransEnd, false) => Outcome::Next(State::Tdl08B),
            (State::Tdl07B, FpduKind::AckSyn, false) => Outcome::Ignore,
            (State::Tdl07B, FpduKind::Resyn, false) => Outcome::Next(State::Tdl04B),
            (State::Tdl08B, FpduKind::AckSyn, false) => Outcome::Ignore,
            (State::Tde07B, FpduKind::TransEnd, false) => Outcome::Next(State::Tde08B),
            (State::Tdl08A, FpduKind::AckTransEnd, _) => Outcome::Next(State::Of02),
            (State::Tdl08A, FpduKind::Idt, false) => Outcome::Next(State::Tdl06A),
            (State::Mg01A, FpduKind::AckMsg, _) => Outcome::Next(State::Cn03),
            (State::Mg04A, FpduKind::AckMsg, _) => Outcome::Next(State::Cn03),
            (State::Mg01B, FpduKind::MsgMm, false) => Outcome::Next(State::Mg01B),
            (State::Mg01B, FpduKind::MsgFm, false) => Outcome::Next(State::Mg04B),
            _ => Outcome::Error,
        }
    }
}

/// A small state machine wrapper keeping the current state.
#[derive(Debug, Clone, Copy, PartialEq, Eq, Structural)]
pub struct Machine {
    /// Local role.
    pub role: Role,
    state: State,
}

/// Error returned when an event is not allowed.
#[derive(Debug, Clone, Copy, PartialEq, Eq, Structural)]
pub struct TransitionError {
    /// State in which the event was received.
    pub state: State,
    /// Offending event.
    pub event: Event,
}

impl TransitionError {
    /// Rendering of the error.
    pub open spec fn spec_text(self) -> Seq<char> {
        "event "@ + self.event.spec_text() + " not allowed in state "@ + self.state.spec_name()
    }

    /// Rendering of the error.
    #[must_use]
    pub fn text(self) -> (r: String)
        ensures
            r@ == self.spec_text(),
    {
        let mut out = "event ".to_owned();
        out.append(self.event.text().as_str());
        out.append(" not allowed in state ");
        out.append(self.state.name());
        out
    }
}

impl Machine {
    /// Local role.
    pub closed spec fn spec_role(self) -> Role {
        self.role
    }

    /// Current state.
    pub closed spec fn spec_state(self) -> State {
        self.state
    }

    /// New machine in the idle state.
    #[must_use]
    pub fn new(role: Role) -> (r: Self)
        ensures
            r.spec_role() == role,
            r.spec_state() == State::INITIAL,
    {
        Machine { role, state: State::INITIAL }
    }

    /// Current state.
    #[must_use]
    pub fn state(&self) -> (r: State)
        ensures
            r == self.spec_state(),
    {
        self.state
    }

    /// Apply an event; returns whether it was ignored. An event that is ignored or refused leaves
    /// the machine as it was.
    pub fn apply(&mut self, event: Event) -> (r: Result<bool, TransitionError>)
        ensures
            final(self).spec_role() == old(self).spec_role(),
            match outcome(old(self).spec_state(), event) {
                Outcome::Next(s) => r == Ok::<bool, TransitionError>(false)
                    && final(self).spec_state() == s,
                Outcome::Ignore => r == Ok::<bool, TransitionError>(true) && *final(self) == *old(
                    self,
                ),
                Outcome::Error => r == Err::<bool, TransitionError>(
                    TransitionError { state: old(self).spec_state(), event },
                ) && *final(self) == *old(self),
            },
    {
        match self.state.apply(event) {
            Outcome::Next(s) => {
                self.state = s;
                Ok(false)
            },
            Outcome::Ignore => Ok(true),
            Outcome::Error => Err(TransitionError { state: self.state, event }),
        }
    }

    /// Whether `event` would be accepted.
    #[must_use]
    pub fn accepts(&self, event: Event) -> (r: bool)
        ensures
            r == (outcome(self.spec_state(), event) != Outcome::Error),
    {
        !matches!(self.state.apply(event), Outcome::Error)
    }

    /// Force a state (used after ABORT or transport failure).
    pub fn reset(&mut self)
        ensures
            final(self).spec_role() == old(self).spec_role(),
            final(self).spec_state() == State::INITIAL,
    {
        self.state = State::INITIAL;
    }
}

// ---- laws ----

/// An abort, local or received, is valid in every state and returns to idle.
pub proof fn law_abort_is_valid_everywhere(s: State, e: Event)
    requires
        aborts(e),
    ensures
        outcome(s, e) == Outcome::Next(State::INITIAL),
{
}

/// A connection is only established by the answer to a connection request.
pub proof fn law_connection_takes_a_handshake(s: State, e: Event, t: State)
    requires
        !s.spec_is_connected(),
        outcome(s, e) == Outcome::Next(t),
        t.spec_is_connected(),
    ensures
        t == State::Cn03,
        (s == State::Cn02A && recv(e, FpduKind::Aconnect)) || (s == State::Cn02B && local(
            e,
            LocalEvent::Accept,
        )),
{
}

/// Received data moves the machine only while it is receiving, and then leaves the state as it is.
pub proof fn law_data_is_only_taken_while_receiving(s: State, e: Event, t: State)
    requires
        data_received(e),
        outcome(s, e) == Outcome::Next(t),
    ensures
        s.spec_is_receiving(),
        t == s,
{
}

/// Data is only sent while sending, or as a message segment, and leaves the state as it is.
pub proof fn law_data_is_only_sent_while_sending(s: State, t: State)
    requires
        outcome(s, Event::Local(LocalEvent::SendData)) == Outcome::Next(t),
    ensures
        s.spec_is_sending() || s == State::Mg01A,
        t == s,
{
}

/// A data transfer is entered and left through the open file only (or left by an abort).
pub proof fn law_transfers_start_and_end_with_the_file_open(s: State, e: Event, t: State)
    requires
        outcome(s, e) == Outcome::Next(t),
        !aborts(e),
    ensures
        data_step(s) is None && data_step(t) is Some ==> s == State::Of02,
        data_step(s) is Some && data_step(t) is None ==> t == State::Of02,
{
}

/// A transfer keeps its direction and its side from its start to its end.
pub proof fn law_transfer_side_is_kept(s: State, e: Event, t: State)
    requires
        outcome(s, e) == Outcome::Next(t),
        data_step(s) is Some,
        data_step(t) is Some,
    ensures
        (data_step(s)->0).0 == (data_step(t)->0).0,
        (data_step(s)->0).1 == (data_step(t)->0).1,
{
}

/// The peer state of a state: both ends of a connection are in peer states whenever no FPDU is
/// under way.
pub open spec fn peer(s: State) -> State {
    match s {
        State::Cn02A => State::Cn02B,
        State::Cn02B => State::Cn02A,
        State::Cn04A => State::Cn04B,
        State::Cn04B => State::Cn04A,
        State::Sf01A => State::Sf01B,
        State::Sf01B => State::Sf01A,
        State::Sf02A => State::Sf02B,
        State::Sf02B => State::Sf02A,
        State::Sf04A => State::Sf04B,
        State::Sf04B => State::Sf04A,
        State::Of01A => State::Of01B,
        State::Of01B => State::Of01A,
        State::Of03A => State::Of03B,
        State::Of03B => State::Of03A,
        State::Mg01A => State::Mg01B,
        State::Mg01B => State::Mg01A,
        State::Mg04A => State::Mg04B,
        State::Mg04B => State::Mg04A,
        _ => match data_step(s) {
            Some((t, Role::Requester, step)) => data_state(t, Role::Server, step),
            Some((t, Role::Server, step)) => data_state(t, Role::Requester, step),
            None => s,
        },
    }
}

/// The FPDU that a local request sends.
pub open spec fn request_kind(l: LocalEvent) -> Option<FpduKind> {
    match l {
        LocalEvent::Connect => Some(FpduKind::Connect),
        LocalEvent::Release => Some(FpduKind::Release),
        LocalEvent::Create => Some(FpduKind::Create),
        LocalEvent::Select => Some(FpduKind::Select),
        LocalEvent::Deselect => Some(FpduKind::Deselect),
        LocalEvent::Open => Some(FpduKind::Orf),
        LocalEvent::Close => Some(FpduKind::Crf),
        LocalEvent::Write => Some(FpduKind::Write),
        LocalEvent::Read => Some(FpduKind::Read),
        _ => None,
    }
}

/// The two ends agree: a request that one end may send is one that the other end, in the same
/// stable state, takes, and they end up in peer states.
pub proof fn law_requests_are_taken_by_the_peer(s: State, l: LocalEvent, t: State)
    requires
        request_kind(l) is Some,
        outcome(s, Event::Local(l)) == Outcome::Next(t),
    ensures
        peer(s) == s,
        outcome(s, Event::Received { kind: request_kind(l)->0, negative: false }) == Outcome::Next(
            peer(t),
        ),
{
}

/// The FPDU with which the server answers in a state, where it owes a response.
pub open spec fn response_kind(s: State, accept: bool) -> Option<FpduKind> {
    match s {
        State::Cn02B => if accept {
            Some(FpduKind::Aconnect)
        } else {
            Some(FpduKind::Rconnect)
        },
        State::Cn04B => if accept {
            Some(FpduKind::Relconf)
        } else {
            None
        },
        State::Sf01B => Some(FpduKind::AckCreate),
        State::Sf02B => Some(FpduKind::AckSelect),
        State::Sf04B => Some(FpduKind::AckDeselect),
        State::Of01B => Some(FpduKind::AckOrf),
        State::Of03B => Some(FpduKind::AckCrf),
        State::Tde01B => Some(FpduKind::AckWrite),
        State::Tdl01B => Some(FpduKind::AckRead),
        State::Mg04B => Some(FpduKind::AckMsg),
        State::Tde08B | State::Tdl08B => Some(FpduKind::AckTransEnd),
        _ => None,
    }
}

/// The two ends agree: whatever the server answers, the requester takes the answer, and both are
/// in peer states again.
pub proof fn law_responses_are_taken_by_the_peer(s: State, accept: bool)
    requires
        response_kind(s, accept) is Some,
    ensures
        ({
            let l = if accept {
                LocalEvent::Accept
            } else {
                LocalEvent::Reject
            };
            let answer = Event::Received { kind: response_kind(s, accept)->0, negative: !accept };
            let here = outcome(s, Event::Local(l));
            let there = outcome(peer(s), answer);
            &&& here is Next
            &&& there is Next
            &&& there->Next_0 == peer(here->Next_0)
        }),
{
}

} // verus!
