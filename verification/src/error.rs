//! Error types of the session engines.

use crate::article::{ReassemblyError, RecordError};
use crate::compress::DecompressError;
use crate::diag::Diagnostic;
use crate::fpdu::{DecodeError, Fault};
use crate::kind::FpduKind;
use crate::state::State;
use crate::text::{dec, opt_text, push_decimal};
use vstd::prelude::*;
use vstd::string::StringExecFns;

verus! {

/// Transport error.
#[derive(Debug, PartialEq, Eq)]
pub enum TransportError {
    /// Socket error, as text.
    Io(String),
    /// The peer closed the connection.
    Closed,
    /// An entity larger than the limit was announced.
    TooLarge(usize, usize),
    /// An entity shorter than a FPDU header was received.
    Invalid(usize),
}

impl TransportError {
    /// Rendering of the error.
    pub open spec fn spec_text(self) -> Seq<char> {
        match self {
            TransportError::Io(e) => e@,
            TransportError::Closed => "connection closed by the peer"@,
            TransportError::TooLarge(n, m) => "entity of "@ + dec(n as nat)
                + " bytes exceeds the limit of "@ + dec(m as nat) + " bytes"@,
            TransportError::Invalid(n) => "invalid entity of "@ + dec(n as nat) + " bytes"@,
        }
    }

    /// Rendering of the error.
    #[must_use]
    pub fn text(&self) -> (r: String)
        ensures
            r@ == self.spec_text(),
    {
        match self {
            TransportError::Io(e) => e.clone(),
            TransportError::Closed => "connection closed by the peer".to_owned(),
            TransportError::TooLarge(n, m) => {
                let mut out = "entity of ".to_owned();
                push_decimal(&mut out, *n as u64);
                out.append(" bytes exceeds the limit of ");
                push_decimal(&mut out, *m as u64);
                out.append(" bytes");
                out
            },
            TransportError::Invalid(n) => {
                let mut out = "invalid entity of ".to_owned();
                push_decimal(&mut out, *n as u64);
                out.append(" bytes");
                out
            },
        }
    }
}

/// Error of a PeSIT session.
#[derive(Debug, PartialEq, Eq)]
pub enum SessionError {
    /// Transport failure.
    Transport(TransportError),
    /// A received FPDU could not be decoded.
    Decode(DecodeError),
    /// A FPDU not allowed in the current state was received.
    Protocol {
        /// Current state.
        state: State,
        /// Received FPDU kind.
        kind: FpduKind,
    },
    /// The peer aborted the connection.
    Aborted {
        /// Diagnostic carried by ABORT.
        diag: Diagnostic,
        /// PI 29/PI 99 text, if any.
        message: Option<String>,
    },
    /// The peer answered a request with a negative acknowledgement.
    Refused {
        /// The refused request.
        request: FpduKind,
        /// Diagnostic of the negative acknowledgement.
        diag: Diagnostic,
        /// PI 29/PI 99 text, if any.
        message: Option<String>,
    },
    /// The pre-connection was refused (`NAK0`).
    PreconnectRefused,
    /// Local I/O error (file access), as text.
    Io(String),
    /// Record cutting error.
    Record(RecordError),
    /// Segmented article reassembly error.
    Reassembly(ReassemblyError),
    /// Compressed data error.
    Decompress(DecompressError),
    /// The transfer was cancelled locally.
    Cancelled,
    /// The peer did not answer in time.
    Timeout(&'static str),
    /// Negotiation failure or invalid parameter value.
    Negotiation(String),
    /// Protocol counters mismatch (PI 27/28).
    Counts(String),
}

/// A text between brackets behind a blank, where there is one.
pub open spec fn bracketed(message: Option<Seq<char>>) -> Seq<char> {
    match message {
        Some(m) => " ("@ + m + ")"@,
        None => ""@,
    }
}

fn push_bracketed(out: &mut String, message: &Option<String>)
    ensures
        final(out)@ == old(out)@ + bracketed(opt_text(*message)),
{
    let tail = match message {
        Some(m) => {
            let mut t = " (".to_owned();
            t.append(m.as_str());
            t.append(")");
            t
        },
        None => "".to_owned(),
    };
    out.append(tail.as_str());
}

impl SessionError {
    /// Diagnostic to send in an ABORT for this error.
    pub open spec fn spec_abort_diag(self) -> Diagnostic {
        match self {
            SessionError::Transport(_) => Diagnostic::network_incident(),
            SessionError::Decode(e) => e.diag,
            SessionError::Aborted { diag, .. } => diag,
            SessionError::Refused { diag, .. } => diag,
            SessionError::PreconnectRefused => Diagnostic::caller_not_authorised(),
            SessionError::Io(_) => Diagnostic::io_error(),
            SessionError::Record(_) => Diagnostic::record_too_long(),
            SessionError::Protocol { .. } => Diagnostic::remote_protocol_error(),
            SessionError::Reassembly(_) => Diagnostic::remote_protocol_error(),
            SessionError::Decompress(_) => Diagnostic::remote_protocol_error(),
            SessionError::Cancelled => Diagnostic::voluntary_stop(),
            SessionError::Timeout(_) => Diagnostic::timeout(),
            SessionError::Negotiation(_) => Diagnostic::negotiation_failure(),
            SessionError::Counts(_) => Diagnostic::invalid_counts(),
        }
    }

    /// Diagnostic to send in an ABORT for this error.
    #[must_use]
    pub fn abort_diag(&self) -> (r: Diagnostic)
        ensures
            r == self.spec_abort_diag(),
    {
        match self {
            SessionError::Transport(_) => Diagnostic::network_incident(),
            SessionError::Decode(e) => e.diag,
            SessionError::Aborted { diag, .. } => *diag,
            SessionError::Refused { diag, .. } => *diag,
            SessionError::PreconnectRefused => Diagnostic::caller_not_authorised(),
            SessionError::Io(_) => Diagnostic::io_error(),
            SessionError::Record(_) => Diagnostic::record_too_long(),
            SessionError::Protocol { .. } => Diagnostic::remote_protocol_error(),
            SessionError::Reassembly(_) => Diagnostic::remote_protocol_error(),
            SessionError::Decompress(_) => Diagnostic::remote_protocol_error(),
            SessionError::Cancelled => Diagnostic::voluntary_stop(),
            SessionError::Timeout(_) => Diagnostic::timeout(),
            SessionError::Negotiation(_) => Diagnostic::negotiation_failure(),
            SessionError::Counts(_) => Diagnostic::invalid_counts(),
        }
    }

    /// Rendering of the error.
    pub open spec fn spec_text(self) -> Seq<char> {
        match self {
            SessionError::Transport(e) => "transport: "@ + e.spec_text(),
            SessionError::Decode(e) => "invalid FPDU received: "@ + (e.diag.spec_text() + ": "@
                + e.detail@),
            SessionError::Protocol { state, kind } => "protocol error: unexpected "@
                + kind.spec_name() + " in state "@ + state.spec_name(),
            SessionError::Aborted { diag, message } => "connection aborted by the peer: "@
                + diag.spec_text() + bracketed(opt_text(message)),
            SessionError::Refused { request, diag, message } => request.spec_name() + " refused: "@
                + diag.spec_text() + bracketed(opt_text(message)),
            SessionError::PreconnectRefused => "pre-connection refused by the server"@,
            SessionError::Io(e) => "I/O error: "@ + e@,
            SessionError::Record(e) => "record error: "@ + e.spec_text(),
            SessionError::Reassembly(e) => e.spec_text(),
            SessionError::Decompress(e) => e.spec_text(),
            SessionError::Cancelled => "transfer cancelled"@,
            SessionError::Timeout(what) => "timeout waiting for "@ + what@,
            SessionError::Negotiation(e) => "negotiation failure: "@ + e@,
            SessionError::Counts(e) => e@,
        }
    }

    /// Rendering of the error.
    #[must_use]
    pub fn text(&self) -> (r: String)
        ensures
            r@ == self.spec_text(),
    {
        match self {
            SessionError::Transport(e) => {
                let mut out = "transport: ".to_owned();
                out.append(e.text().as_str());
                out
            },
            SessionError::Decode(e) => {
                let mut out = "invalid FPDU received: ".to_owned();
                out.append(e.text().as_str());
                out
            },
            SessionError::Protocol { state, kind } => {
                let mut out = "protocol error: unexpected ".to_owned();
                out.append(kind.name());
                out.append(" in state ");
                out.append(state.name());
                out
            },
            SessionError::Aborted { diag, message } => {
                let mut out = "connection aborted by the peer: ".to_owned();
                out.append(diag.text().as_str());
                push_bracketed(&mut out, message);
                out
            },
            SessionError::Refused { request, diag, message } => {
                let mut out = request.name().to_owned();
                out.append(" refused: ");
                out.append(diag.text().as_str());
                push_bracketed(&mut out, message);
                out
            },
            SessionError::PreconnectRefused => "pre-connection refused by the server".to_owned(),
            SessionError::Io(e) => {
                let mut out = "I/O error: ".to_owned();
                out.append(e.as_str());
                out
            },
            SessionError::Record(e) => {
                let mut out = "record error: ".to_owned();
                out.append(e.text().as_str());
                out
            },
            SessionError::Reassembly(e) => e.text(),
            SessionError::Decompress(e) => e.text(),
            SessionError::Cancelled => "transfer cancelled".to_owned(),
            SessionError::Timeout(what) => {
                let mut out = "timeout waiting for ".to_owned();
                out.append(what);
                out
            },
            SessionError::Negotiation(e) => {
                let mut out = "negotiation failure: ".to_owned();
                out.append(e.as_str());
                out
            },
            SessionError::Counts(e) => e.clone(),
        }
    }
}

/// Value of a session error.
#[verifier::ext_equal]
pub enum SessionErrorV {
    /// Transport failure, as text.
    Transport(Seq<char>),
    /// A received FPDU could not be decoded.
    Decode(Fault),
    /// A FPDU not allowed in the current state was received.
    Protocol(State, FpduKind),
    /// The peer aborted the connection.
    Aborted(Diagnostic, Option<Seq<char>>),
    /// The peer refused a request.
    Refused(FpduKind, Diagnostic, Option<Seq<char>>),
    /// The pre-connection was refused.
    PreconnectRefused,
    /// Local I/O error.
    Io(Seq<char>),
    /// Record cutting error.
    Record(RecordError),
    /// Segmented article reassembly error.
    Reassembly(ReassemblyError),
    /// Compressed data error.
    Decompress(DecompressError),
    /// The transfer was cancelled locally.
    Cancelled,
    /// The peer did not answer in time.
    Timeout(Seq<char>),
    /// Negotiation failure.
    Negotiation(Seq<char>),
    /// Counters mismatch.
    Counts(Seq<char>),
}

impl View for SessionError {
    type V = SessionErrorV;

    open spec fn view(&self) -> SessionErrorV {
        match self {
            SessionError::Transport(e) => SessionErrorV::Transport(e.spec_text()),
            SessionError::Decode(e) => SessionErrorV::Decode(e@),
            SessionError::Protocol { state, kind } => SessionErrorV::Protocol(*state, *kind),
            SessionError::Aborted { diag, message } => SessionErrorV::Aborted(
                *diag,
                opt_text(*message),
            ),
            SessionError::Refused { request, diag, message } => SessionErrorV::Refused(
                *request,
                *diag,
                opt_text(*message),
            ),
            SessionError::PreconnectRefused => SessionErrorV::PreconnectRefused,
            SessionError::Io(e) => SessionErrorV::Io(e@),
            SessionError::Record(e) => SessionErrorV::Record(*e),
            SessionError::Reassembly(e) => SessionErrorV::Reassembly(*e),
            SessionError::Decompress(e) => SessionErrorV::Decompress(*e),
            SessionError::Cancelled => SessionErrorV::Cancelled,
            SessionError::Timeout(what) => SessionErrorV::Timeout(what@),
            SessionError::Negotiation(e) => SessionErrorV::Negotiation(e@),
            SessionError::Counts(e) => SessionErrorV::Counts(e@),
        }
    }
}

} // verus!
