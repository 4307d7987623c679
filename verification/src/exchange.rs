//! Requests and their answers outside the data phase.

use crate::datapath::{peer_message, peer_text};
use crate::error::{SessionError, SessionErrorV};
use crate::fpdu::{Fpdu, FpduV};
use crate::kind::FpduKind;
use crate::params::FpduExt;
use crate::pi::Pi;
use crate::state::{outcome, Event, Machine, Outcome, State};
use vstd::prelude::*;

verus! {

/// State after a FPDU was received, whatever becomes of it.
pub open spec fn state_behind(st: State, f: FpduV) -> State {
    if f.kind == FpduKind::Abort {
        State::INITIAL
    } else {
        match outcome(st, Event::Received { kind: f.kind, negative: f.negative() }) {
            Outcome::Next(s) => s,
            _ => st,
        }
    }
}

/// Whether the state table drops a FPDU.
pub open spec fn dropped(st: State, f: FpduV) -> bool {
    f.kind != FpduKind::Abort && outcome(
        st,
        Event::Received { kind: f.kind, negative: f.negative() },
    ) == Outcome::Ignore
}

/// Why a FPDU cannot be taken in a state, if it cannot: it is an ABORT, or the state table does
/// not allow it.
pub open spec fn receive_fault(st: State, f: FpduV) -> Option<SessionErrorV> {
    if f.kind == FpduKind::Abort {
        Some(SessionErrorV::Aborted(f.diag_or_ok(), f.string(Pi::FreeMessage)))
    } else if outcome(st, Event::Received { kind: f.kind, negative: f.negative() })
        == Outcome::Error {
        Some(SessionErrorV::Protocol(st, f.kind))
    } else {
        None
    }
}

/// Apply a received FPDU to the machine. Tells whether the state table drops it.
pub fn take_received(machine: &mut Machine, f: &Fpdu) -> (r: Result<bool, SessionError>)
    ensures
        final(machine).spec_role() == old(machine).spec_role(),
        final(machine).spec_state() == state_behind(old(machine).spec_state(), f@),
        match receive_fault(old(machine).spec_state(), f@) {
            Some(e) => r is Err && r->Err_0@ == e,
            None => r == Ok::<bool, SessionError>(dropped(old(machine).spec_state(), f@)),
        },
{
    if f.kind == FpduKind::Abort {
        let _ = machine.apply(Event::received(FpduKind::Abort, false));
        return Err(
            SessionError::Aborted { diag: f.diag_or_ok(), message: f.get_text(Pi::FreeMessage) },
        );
    }
    match machine.apply(Event::received(f.kind, f.is_negative())) {
        Ok(ignored) => Ok(ignored),
        Err(_) => Err(SessionError::Protocol { state: machine.state(), kind: f.kind }),
    }
}

/// What a FPDU means to the one who waits for the kind `expect`: nothing (`None`) where it is
/// dropped, what was waited for, or an error.
pub open spec fn awaited_step(st: State, expect: FpduKind, f: FpduV) -> Result<
    Option<FpduV>,
    SessionErrorV,
> {
    match receive_fault(st, f) {
        Some(e) => Err(e),
        None => if dropped(st, f) {
            Ok(None)
        } else if f.kind != expect {
            Err(SessionErrorV::Protocol(state_behind(st, f), f.kind))
        } else {
            Ok(Some(f))
        },
    }
}

/// Value of an optional FPDU.
pub open spec fn opt_fpdu(f: Option<Fpdu>) -> Option<FpduV> {
    match f {
        Some(f) => Some(f@),
        None => None,
    }
}

/// Take a FPDU while one of kind `expect` is awaited: `None` to wait on.
pub fn await_kind(machine: &mut Machine, expect: FpduKind, f: Fpdu) -> (r: Result<
    Option<Fpdu>,
    SessionError,
>)
    ensures
        final(machine).spec_role() == old(machine).spec_role(),
        final(machine).spec_state() == state_behind(old(machine).spec_state(), f@),
        match awaited_step(old(machine).spec_state(), expect, f@) {
            Err(e) => r is Err && r->Err_0@ == e,
            Ok(answer) => r is Ok && opt_fpdu(r->Ok_0) == answer,
        },
{
    match take_received(machine, &f) {
        Err(e) => Err(e),
        Ok(true) => Ok(None),
        Ok(false) => {
            if f.kind != expect {
                Err(SessionError::Protocol { state: machine.state(), kind: f.kind })
            } else {
                Ok(Some(f))
            }
        },
    }
}

/// What a FPDU means to a request of kind `request` that is answered by the kind `expect`: a
/// negative answer is a refusal.
pub open spec fn answer_step(st: State, request: FpduKind, expect: FpduKind, f: FpduV) -> Result<
    Option<FpduV>,
    SessionErrorV,
> {
    match awaited_step(st, expect, f) {
        Ok(Some(a)) => if a.negative() {
            Err(SessionErrorV::Refused(request, a.diag_or_ok(), peer_text(a)))
        } else {
            Ok(Some(a))
        },
        other => other,
    }
}

/// Take a FPDU while the answer to a request is awaited: `None` to wait on.
pub fn await_answer(machine: &mut Machine, request: FpduKind, expect: FpduKind, f: Fpdu) -> (r:
    Result<Option<Fpdu>, SessionError>)
    ensures
        final(machine).spec_role() == old(machine).spec_role(),
        final(machine).spec_state() == state_behind(old(machine).spec_state(), f@),
        match answer_step(old(machine).spec_state(), request, expect, f@) {
            Err(e) => r is Err && r->Err_0@ == e,
            Ok(answer) => r is Ok && opt_fpdu(r->Ok_0) == answer,
        },
{
    match await_kind(machine, expect, f) {
        Ok(Some(a)) => {
            if a.is_negative() {
                Err(
                    SessionError::Refused {
                        request,
                        diag: a.diag_or_ok(),
                        message: peer_message(&a),
                    },
                )
            } else {
                Ok(Some(a))
            }
        },
        other => other,
    }
}

} // verus!
