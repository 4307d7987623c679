//! What the wire lets through: which FPDUs a strict reading admits, what a stream refuses, and the
//! way that sessions take through the states.

use crate::diag::Diagnostic;
use crate::fpdu::{
    admits, first_empty, holds_code, missing_rule, params_rule_fault, FpduV, ParamV, HEADER_LEN,
    MAX_FPDU_LEN,
};
use crate::fpdu_laws::{law_decode_inverts_encode, law_decoded_is_well_formed, well_formed};
use crate::kind::{FpduKind, ParamRule};
use crate::pi::Pi;
use crate::state::{outcome, Event, LocalEvent, Outcome, State};
use crate::transport::{FrameState, Framing, HeaderStep, PreconnectMarks};
use crate::error::TransportError;
use vstd::prelude::*;

verus! {

// ---- reading ----

/// A FPDU is read with the identifiers and the kind of its header, and a data FPDU with all the
/// bytes behind it. What is too short, or says another length than it has, is not read; the fault
/// is then one of the protocol.
pub proof fn law_headers_are_read(bytes: Seq<u8>, strict: bool)
    ensures
        FpduV::decoded(bytes, strict) matches Ok(f) ==> {
            &&& bytes.len() >= HEADER_LEN && bytes[0] * 256 + bytes[1] == bytes.len()
            &&& FpduKind::spec_from_codes(bytes[2], bytes[3]) == Some(f.kind)
            &&& f.id_dst == bytes[4] && f.id_src == bytes[5]
            &&& f.kind.spec_is_data() ==> f.data == bytes.skip(HEADER_LEN as int)
                && f.params.len() == 0
            &&& !f.kind.spec_is_data() ==> f.data.len() == 0
        },
        bytes.len() < HEADER_LEN || bytes[0] * 256 + bytes[1] != bytes.len() ==> (FpduV::decoded(
            bytes,
            strict,
        ) matches Err((d, _)) && d == Diagnostic::remote_protocol_error()),
        bytes.len() >= HEADER_LEN && FpduKind::spec_from_codes(bytes[2], bytes[3]) is None
            ==> FpduV::decoded(bytes, strict) is Err,
{
}

proof fn lemma_missing(template: Seq<ParamRule>, params: Seq<ParamV>, i: int)
    requires
        missing_rule(template, params) is None,
        0 <= i < template.len(),
        template[i].mandatory,
    ensures
        holds_code(params, template[i].code),
    decreases template.len(),
{
    if i < template.len() - 1 {
        assert(template.drop_last()[i] == template[i]);
        lemma_missing(template.drop_last(), params, i);
    }
}

proof fn lemma_param_rules(kind: FpduKind, params: Seq<ParamV>, i: int)
    requires
        params_rule_fault(kind, params) is None,
        0 <= i < params.len(),
    ensures
        admits(kind.spec_template(), params[i].spec_code()),
        params[i] matches ParamV::Pi { pi, value } ==> pi.spec_max_len() == 0 || value.len()
            <= pi.spec_max_len(),
    decreases params.len(),
{
    if i < params.len() - 1 {
        assert(params.drop_last()[i] == params[i]);
        lemma_param_rules(kind, params.drop_last(), i);
    }
}

/// A strict reading only lets through what the template of the kind admits: no parameter that it does
/// not name, none that is longer than it may be, and every one that it asks for.
pub proof fn law_strict_reading_follows_the_template(bytes: Seq<u8>)
    requires
        FpduV::decoded(bytes, true) is Ok,
    ensures
        ({
            let f = FpduV::decoded(bytes, true)->Ok_0;
            let t = f.kind.spec_template();
            !f.kind.spec_is_data() ==> {
                &&& forall|i: int|
                    0 <= i < t.len() && (#[trigger] t[i]).mandatory ==> holds_code(
                        f.params,
                        t[i].code,
                    )
                &&& forall|i: int|
                    0 <= i < f.params.len() ==> admits(t, (#[trigger] f.params[i]).spec_code())
                &&& forall|i: int|
                    0 <= i < f.params.len() ==> ((#[trigger] f.params[i]) matches ParamV::Pi {
                        pi,
                        value,
                    } ==> pi.spec_max_len() == 0 || value.len() <= pi.spec_max_len())
                &&& crate::fpdu::canonical(f.params)
            }
        }),
{
    law_decoded_is_well_formed(bytes, true);
    let f = FpduV::decoded(bytes, true)->Ok_0;
    let t = f.kind.spec_template();
    if !f.kind.spec_is_data() {
        assert forall|i: int| 0 <= i < t.len() && (#[trigger] t[i]).mandatory implies holds_code(
            f.params,
            t[i].code,
        ) by {
            lemma_missing(t, f.params, i);
        }
        assert forall|i: int| 0 <= i < f.params.len() implies admits(
            t,
            (#[trigger] f.params[i]).spec_code(),
        ) && (f.params[i] matches ParamV::Pi { pi, value } ==> pi.spec_max_len() == 0 || value.len()
            <= pi.spec_max_len()) by {
            lemma_param_rules(f.kind, f.params, i);
        }
    }
}

proof fn lemma_no_empty(params: Seq<ParamV>, i: int)
    requires
        first_empty(params) is None,
        0 <= i < params.len(),
    ensures
        params[i] matches ParamV::Pi { value, .. } ==> value.len() > 0,
    decreases params.len(),
{
    if i < params.len() - 1 {
        assert(params.drop_last()[i] == params[i]);
        lemma_no_empty(params.drop_last(), i);
    }
}

/// A FPDU is only written where it fits the length field and has no empty value; then its bytes say
/// its length.
pub proof fn law_only_sound_fpdus_are_written(f: FpduV)
    requires
        f.encode_error() is None,
    ensures
        f.wire_len() <= MAX_FPDU_LEN,
        f.encoding().len() == f.wire_len(),
        f.encoding()[0] * 256 + f.encoding()[1] == f.wire_len(),
        !f.kind.spec_is_data() ==> forall|i: int|
            0 <= i < f.params.len() ==> ((#[trigger] f.params[i]) matches ParamV::Pi { value, .. }
                ==> value.len() > 0),
{
    if !f.kind.spec_is_data() {
        assert forall|i: int| 0 <= i < f.params.len() implies ((
        #[trigger] f.params[i]) matches ParamV::Pi { value, .. } ==> value.len() > 0) by {
            lemma_no_empty(f.params, i);
        }
    }
}

/// Every kind of FPDU has its two bytes on the wire, and those bytes stand for that kind.
pub proof fn law_kinds_have_their_codes()
    ensures
        FpduKind::Connect.spec_phase() == 0x40 && FpduKind::Connect.spec_type_code() == 0x20,
        FpduKind::Aconnect.spec_phase() == 0x40 && FpduKind::Aconnect.spec_type_code() == 0x21,
        FpduKind::Rconnect.spec_phase() == 0x40 && FpduKind::Rconnect.spec_type_code() == 0x22,
        FpduKind::Release.spec_phase() == 0x40 && FpduKind::Release.spec_type_code() == 0x23,
        FpduKind::Relconf.spec_phase() == 0x40 && FpduKind::Relconf.spec_type_code() == 0x24,
        FpduKind::Abort.spec_phase() == 0x40 && FpduKind::Abort.spec_type_code() == 0x25,
        FpduKind::Read.spec_phase() == 0xC0 && FpduKind::Read.spec_type_code() == 0x01,
        FpduKind::Write.spec_phase() == 0xC0 && FpduKind::Write.spec_type_code() == 0x02,
        FpduKind::Syn.spec_phase() == 0xC0 && FpduKind::Syn.spec_type_code() == 0x03,
        FpduKind::DtfEnd.spec_phase() == 0xC0 && FpduKind::DtfEnd.spec_type_code() == 0x04,
        FpduKind::Resyn.spec_phase() == 0xC0 && FpduKind::Resyn.spec_type_code() == 0x05,
        FpduKind::Idt.spec_phase() == 0xC0 && FpduKind::Idt.spec_type_code() == 0x06,
        FpduKind::TransEnd.spec_phase() == 0xC0 && FpduKind::TransEnd.spec_type_code() == 0x08,
        FpduKind::Create.spec_phase() == 0xC0 && FpduKind::Create.spec_type_code() == 0x11,
        FpduKind::Select.spec_phase() == 0xC0 && FpduKind::Select.spec_type_code() == 0x12,
        FpduKind::Deselect.spec_phase() == 0xC0 && FpduKind::Deselect.spec_type_code() == 0x13,
        FpduKind::Orf.spec_phase() == 0xC0 && FpduKind::Orf.spec_type_code() == 0x14,
        FpduKind::Crf.spec_phase() == 0xC0 && FpduKind::Crf.spec_type_code() == 0x15,
        FpduKind::Msg.spec_phase() == 0xC0 && FpduKind::Msg.spec_type_code() == 0x16,
        FpduKind::MsgDm.spec_phase() == 0xC0 && FpduKind::MsgDm.spec_type_code() == 0x17,
        FpduKind::MsgMm.spec_phase() == 0xC0 && FpduKind::MsgMm.spec_type_code() == 0x18,
        FpduKind::MsgFm.spec_phase() == 0xC0 && FpduKind::MsgFm.spec_type_code() == 0x19,
        FpduKind::AckCreate.spec_phase() == 0xC0 && FpduKind::AckCreate.spec_type_code() == 0x30,
        FpduKind::AckSelect.spec_phase() == 0xC0 && FpduKind::AckSelect.spec_type_code() == 0x31,
        FpduKind::AckDeselect.spec_phase() == 0xC0 && FpduKind::AckDeselect.spec_type_code() == 0x32,
        FpduKind::AckOrf.spec_phase() == 0xC0 && FpduKind::AckOrf.spec_type_code() == 0x33,
        FpduKind::AckCrf.spec_phase() == 0xC0 && FpduKind::AckCrf.spec_type_code() == 0x34,
        FpduKind::AckRead.spec_phase() == 0xC0 && FpduKind::AckRead.spec_type_code() == 0x35,
        FpduKind::AckWrite.spec_phase() == 0xC0 && FpduKind::AckWrite.spec_type_code() == 0x36,
        FpduKind::AckTransEnd.spec_phase() == 0xC0 && FpduKind::AckTransEnd.spec_type_code() == 0x37,
        FpduKind::AckSyn.spec_phase() == 0xC0 && FpduKind::AckSyn.spec_type_code() == 0x38,
        FpduKind::AckResyn.spec_phase() == 0xC0 && FpduKind::AckResyn.spec_type_code() == 0x39,
        FpduKind::AckIdt.spec_phase() == 0xC0 && FpduKind::AckIdt.spec_type_code() == 0x3A,
        FpduKind::AckMsg.spec_phase() == 0xC0 && FpduKind::AckMsg.spec_type_code() == 0x3B,
        FpduKind::Dtf.spec_phase() == 0x00 && FpduKind::Dtf.spec_type_code() == 0x00,
        FpduKind::DtfMa.spec_phase() == 0x00 && FpduKind::DtfMa.spec_type_code() == 0x40,
        FpduKind::DtfDa.spec_phase() == 0x00 && FpduKind::DtfDa.spec_type_code() == 0x41,
        FpduKind::DtfFa.spec_phase() == 0x00 && FpduKind::DtfFa.spec_type_code() == 0x42,
        FpduKind::spec_from_codes(0x40, 0x20) == Some(FpduKind::Connect),
        FpduKind::spec_from_codes(0x40, 0x21) == Some(FpduKind::Aconnect),
        FpduKind::spec_from_codes(0x40, 0x22) == Some(FpduKind::Rconnect),
        FpduKind::spec_from_codes(0x40, 0x23) == Some(FpduKind::Release),
        FpduKind::spec_from_codes(0x40, 0x24) == Some(FpduKind::Relconf),
        FpduKind::spec_from_codes(0x40, 0x25) == Some(FpduKind::Abort),
        FpduKind::spec_from_codes(0xC0, 0x01) == Some(FpduKind::Read),
        FpduKind::spec_from_codes(0xC0, 0x02) == Some(FpduKind::Write),
        FpduKind::spec_from_codes(0xC0, 0x03) == Some(FpduKind::Syn),
        FpduKind::spec_from_codes(0xC0, 0x04) == Some(FpduKind::DtfEnd),
        FpduKind::spec_from_codes(0xC0, 0x05) == Some(FpduKind::Resyn),
        FpduKind::spec_from_codes(0xC0, 0x06) == Some(FpduKind::Idt),
        FpduKind::spec_from_codes(0xC0, 0x08) == Some(FpduKind::TransEnd),
        FpduKind::spec_from_codes(0xC0, 0x11) == Some(FpduKind::Create),
        FpduKind::spec_from_codes(0xC0, 0x12) == Some(FpduKind::Select),
        FpduKind::spec_from_codes(0xC0, 0x13) == Some(FpduKind::Deselect),
        FpduKind::spec_from_codes(0xC0, 0x14) == Some(FpduKind::Orf),
        FpduKind::spec_from_codes(0xC0, 0x15) == Some(FpduKind::Crf),
        FpduKind::spec_from_codes(0xC0, 0x16) == Some(FpduKind::Msg),
        FpduKind::spec_from_codes(0xC0, 0x17) == Some(FpduKind::MsgDm),
        FpduKind::spec_from_codes(0xC0, 0x18) == Some(FpduKind::MsgMm),
        FpduKind::spec_from_codes(0xC0, 0x19) == Some(FpduKind::MsgFm),
        FpduKind::spec_from_codes(0xC0, 0x30) == Some(FpduKind::AckCreate),
        FpduKind::spec_from_codes(0xC0, 0x31) == Some(FpduKind::AckSelect),
        FpduKind::spec_from_codes(0xC0, 0x32) == Some(FpduKind::AckDeselect),
        FpduKind::spec_from_codes(0xC0, 0x33) == Some(FpduKind::AckOrf),
        FpduKind::spec_from_codes(0xC0, 0x34) == Some(FpduKind::AckCrf),
        FpduKind::spec_from_codes(0xC0, 0x35) == Some(FpduKind::AckRead),
        FpduKind::spec_from_codes(0xC0, 0x36) == Some(FpduKind::AckWrite),
        FpduKind::spec_from_codes(0xC0, 0x37) == Some(FpduKind::AckTransEnd),
        FpduKind::spec_from_codes(0xC0, 0x38) == Some(FpduKind::AckSyn),
        FpduKind::spec_from_codes(0xC0, 0x39) == Some(FpduKind::AckResyn),
        FpduKind::spec_from_codes(0xC0, 0x3A) == Some(FpduKind::AckIdt),
        FpduKind::spec_from_codes(0xC0, 0x3B) == Some(FpduKind::AckMsg),
        FpduKind::spec_from_codes(0x00, 0x00) == Some(FpduKind::Dtf),
        FpduKind::spec_from_codes(0x00, 0x40) == Some(FpduKind::DtfMa),
        FpduKind::spec_from_codes(0x00, 0x41) == Some(FpduKind::DtfDa),
        FpduKind::spec_from_codes(0x00, 0x42) == Some(FpduKind::DtfFa),
{
}

proof fn lemma_asked_for(f: FpduV, i: int)
    requires
        0 <= i < f.kind.spec_template().len(),
        f.kind.spec_template()[i].mandatory,
    ensures
        !holds_code(f.params, f.kind.spec_template()[i].code) ==> f.template_fault() is Some,
{
    if missing_rule(f.kind.spec_template(), f.params) is None {
        lemma_missing(f.kind.spec_template(), f.params, i);
    }
}

/// A FPDU that lacks a parameter which its kind cannot do without is at fault.
pub proof fn law_kinds_ask_for_their_parameters(f: FpduV)
    ensures
        f.kind == FpduKind::Connect && (!holds_code(f.params, 3) || !holds_code(f.params, 4) || !holds_code(f.params, 6) || !holds_code(f.params, 22)) ==> f.template_fault() is Some,
        f.kind == FpduKind::Aconnect && (!holds_code(f.params, 6)) ==> f.template_fault() is Some,
        f.kind == FpduKind::Rconnect && (!holds_code(f.params, 2)) ==> f.template_fault() is Some,
        f.kind == FpduKind::Release && (!holds_code(f.params, 2)) ==> f.template_fault() is Some,
        f.kind == FpduKind::Deselect && (!holds_code(f.params, 2)) ==> f.template_fault() is Some,
        f.kind == FpduKind::AckDeselect && (!holds_code(f.params, 2)) ==> f.template_fault() is Some,
        f.kind == FpduKind::Abort && (!holds_code(f.params, 2)) ==> f.template_fault() is Some,
        f.kind == FpduKind::Crf && (!holds_code(f.params, 2)) ==> f.template_fault() is Some,
        f.kind == FpduKind::AckCrf && (!holds_code(f.params, 2)) ==> f.template_fault() is Some,
        f.kind == FpduKind::AckRead && (!holds_code(f.params, 2)) ==> f.template_fault() is Some,
        f.kind == FpduKind::Read && (!holds_code(f.params, 18)) ==> f.template_fault() is Some,
        f.kind == FpduKind::Syn && (!holds_code(f.params, 20)) ==> f.template_fault() is Some,
        f.kind == FpduKind::DtfEnd && (!holds_code(f.params, 2)) ==> f.template_fault() is Some,
        f.kind == FpduKind::Resyn && (!holds_code(f.params, 2) || !holds_code(f.params, 18)) ==> f.template_fault() is Some,
        f.kind == FpduKind::Idt && (!holds_code(f.params, 2)) ==> f.template_fault() is Some,
        f.kind == FpduKind::Create && (!holds_code(f.params, 9) || !holds_code(f.params, 13) || !holds_code(f.params, 17) || !holds_code(f.params, 25) || !holds_code(f.params, 30) || !holds_code(f.params, 40)) ==> f.template_fault() is Some,
        f.kind == FpduKind::Select && (!holds_code(f.params, 9) || !holds_code(f.params, 13) || !holds_code(f.params, 17) || !holds_code(f.params, 25)) ==> f.template_fault() is Some,
        f.kind == FpduKind::Msg && (!holds_code(f.params, 9) || !holds_code(f.params, 13) || !holds_code(f.params, 17)) ==> f.template_fault() is Some,
        f.kind == FpduKind::MsgDm && (!holds_code(f.params, 9) || !holds_code(f.params, 13) || !holds_code(f.params, 17)) ==> f.template_fault() is Some,
        f.kind == FpduKind::AckCreate && (!holds_code(f.params, 2)) ==> f.template_fault() is Some,
        f.kind == FpduKind::AckSelect && (!holds_code(f.params, 2)) ==> f.template_fault() is Some,
        f.kind == FpduKind::AckOrf && (!holds_code(f.params, 2)) ==> f.template_fault() is Some,
        f.kind == FpduKind::AckWrite && (!holds_code(f.params, 2) || !holds_code(f.params, 18)) ==> f.template_fault() is Some,
        f.kind == FpduKind::AckTransEnd && (!holds_code(f.params, 2)) ==> f.template_fault() is Some,
        f.kind == FpduKind::AckSyn && (!holds_code(f.params, 20)) ==> f.template_fault() is Some,
        f.kind == FpduKind::AckResyn && (!holds_code(f.params, 18)) ==> f.template_fault() is Some,
        f.kind == FpduKind::AckMsg && (!holds_code(f.params, 2)) ==> f.template_fault() is Some,
{
    if f.kind == FpduKind::Connect {
        lemma_asked_for(f, 1);
        lemma_asked_for(f, 2);
        lemma_asked_for(f, 4);
        lemma_asked_for(f, 6);
    }
    if f.kind == FpduKind::Aconnect {
        lemma_asked_for(f, 1);
    }
    if f.kind == FpduKind::Rconnect {
        lemma_asked_for(f, 0);
    }
    if f.kind == FpduKind::Release {
        lemma_asked_for(f, 0);
    }
    if f.kind == FpduKind::Deselect {
        lemma_asked_for(f, 0);
    }
    if f.kind == FpduKind::AckDeselect {
        lemma_asked_for(f, 0);
    }
    if f.kind == FpduKind::Abort {
        lemma_asked_for(f, 0);
    }
    if f.kind == FpduKind::Crf {
        lemma_asked_for(f, 0);
    }
    if f.kind == FpduKind::AckCrf {
        lemma_asked_for(f, 0);
    }
    if f.kind == FpduKind::AckRead {
        lemma_asked_for(f, 0);
    }
    if f.kind == FpduKind::Read {
        lemma_asked_for(f, 0);
    }
    if f.kind == FpduKind::Syn {
        lemma_asked_for(f, 0);
    }
    if f.kind == FpduKind::DtfEnd {
        lemma_asked_for(f, 0);
    }
    if f.kind == FpduKind::Resyn {
        lemma_asked_for(f, 0);
        lemma_asked_for(f, 1);
    }
    if f.kind == FpduKind::Idt {
        lemma_asked_for(f, 0);
    }
    if f.kind == FpduKind::Create {
        lemma_asked_for(f, 0);
        lemma_asked_for(f, 1);
        lemma_asked_for(f, 4);
        lemma_asked_for(f, 5);
        lemma_asked_for(f, 6);
        lemma_asked_for(f, 7);
    }
    if f.kind == FpduKind::Select {
        lemma_asked_for(f, 0);
        lemma_asked_for(f, 1);
        lemma_asked_for(f, 4);
        lemma_asked_for(f, 5);
    }
    if f.kind == FpduKind::Msg {
        lemma_asked_for(f, 0);
        lemma_asked_for(f, 1);
        lemma_asked_for(f, 4);
    }
    if f.kind == FpduKind::MsgDm {
        lemma_asked_for(f, 0);
        lemma_asked_for(f, 1);
        lemma_asked_for(f, 4);
    }
    if f.kind == FpduKind::AckCreate {
        lemma_asked_for(f, 0);
    }
    if f.kind == FpduKind::AckSelect {
        lemma_asked_for(f, 0);
    }
    if f.kind == FpduKind::AckOrf {
        lemma_asked_for(f, 0);
    }
    if f.kind == FpduKind::AckWrite {
        lemma_asked_for(f, 0);
        lemma_asked_for(f, 1);
    }
    if f.kind == FpduKind::AckTransEnd {
        lemma_asked_for(f, 0);
    }
    if f.kind == FpduKind::AckSyn {
        lemma_asked_for(f, 0);
    }
    if f.kind == FpduKind::AckResyn {
        lemma_asked_for(f, 0);
    }
    if f.kind == FpduKind::AckMsg {
        lemma_asked_for(f, 0);
    }
}

// ---- streams ----

/// A stream refuses what is too large for it, and what is too small to be an entity; a raw stream
/// counts the check bytes in. Everything else is read in full.
pub proof fn law_streams_refuse_what_does_not_fit(
    s: FrameState,
    a: u8,
    b: u8,
    crc: bool,
    marks: PreconnectMarks,
)
    requires
        !s.first,
    ensures
        ({
            let n = a * 256 + b;
            let extra = if crc {
                2int
            } else {
                0
            };
            let step = s.spec_on_header(a, b, crc, marks);
            &&& s.framing == Framing::LengthPrefixed ==> {
                &&& step == HeaderStep::WithoutHead(n as usize) <==> 0 < n <= s.max_len
                &&& n > s.max_len ==> step == HeaderStep::Refused(
                    TransportError::TooLarge(n as usize, s.max_len),
                )
                &&& n == 0 && s.max_len >= 0 ==> step is Refused
            }
            &&& s.framing == Framing::Raw ==> {
                &&& HEADER_LEN <= n && n + extra <= s.max_len ==> step == HeaderStep::WithHead(
                    (n + extra - 2) as usize,
                )
                &&& n < HEADER_LEN || n + extra > s.max_len ==> step is Refused
            }
        }),
{
}

/// A fresh stream knows a pre-connection message and the answers to one by their first two bytes,
/// and reads them in full; no later entity is taken for one.
pub proof fn law_preconnections_come_first(
    s: FrameState,
    a: u8,
    b: u8,
    crc: bool,
    marks: PreconnectMarks,
)
    requires
        marks.message_len >= 2,
    ensures
        s.first && (a, b) == marks.message ==> s.spec_on_header(a, b, crc, marks)
            == HeaderStep::WithHead((marks.message_len - 2) as usize),
        s.first && (a, b) != marks.message && ((a, b) == marks.ack || (a, b) == marks.nak)
            ==> s.spec_on_header(a, b, crc, marks) == HeaderStep::WithHead(2),
        !marks.starts(a, b) ==> s.spec_on_header(a, b, crc, marks) == (FrameState {
            first: false,
            ..s
        }).spec_on_header(a, b, crc, marks),
{
}

/// Where a raw stream does not know yet whether check bytes are in use, the first CONNECT on it
/// tells: two more bytes follow exactly where it asks for them. The stream asks once.
pub proof fn law_raw_streams_probe_once(s: FrameState, f: FpduV)
    requires
        s.framing == Framing::Raw,
        s.probe_crc,
        f.kind == FpduKind::Connect,
        well_formed(f, false),
        f.wire_len() <= MAX_FPDU_LEN,
    ensures
        s.check_follows(f.encoding(), false) <==> f.number(Pi::Crc) == Some(1u64),
        !s.check_follows(f.encoding(), true),
        !s.behind(f.encoding()).probe_crc,
        !s.behind(f.encoding()).check_follows(f.encoding(), false),
        (FrameState { framing: Framing::LengthPrefixed, ..s }).check_follows(f.encoding(), false)
            == false,
{
    law_decode_inverts_encode(f, false);
    let e = f.encoding();
    assert(e[0] == f.header()[0] && e[1] == f.header()[1]);
    assert(e[2] == f.header()[2] && e[3] == f.header()[3]);
    assert(e[0] * 256 + e[1] == e.len());
}

// ---- states ----

/// Whether an event leads from one state to another.
pub open spec fn leads(s: State, e: Event, t: State) -> bool {
    outcome(s, e) == Outcome::Next(t)
}

/// A FPDU that is no refusal.
pub open spec fn got(kind: FpduKind) -> Event {
    Event::Received { kind, negative: false }
}

/// A local event.
pub open spec fn own(l: LocalEvent) -> Event {
    Event::Local(l)
}

/// A requester goes its way through a session: it connects, selects a file, opens it, writes or
/// reads it, ends the transfer, closes and deselects the file, and releases the session. Every step
/// leads to the next.
pub proof fn law_requesters_go_their_way()
    ensures
        leads(State::Cn01, own(LocalEvent::Connect), State::Cn02A),
        leads(State::Cn02A, got(FpduKind::Aconnect), State::Cn03),
        leads(State::Cn03, own(LocalEvent::Create), State::Sf01A),
        leads(State::Sf01A, got(FpduKind::AckCreate), State::Sf03),
        leads(State::Cn03, own(LocalEvent::Select), State::Sf02A),
        leads(State::Sf02A, got(FpduKind::AckSelect), State::Sf03),
        leads(State::Sf03, own(LocalEvent::Open), State::Of01A),
        leads(State::Of01A, got(FpduKind::AckOrf), State::Of02),
        leads(State::Of02, own(LocalEvent::Write), State::Tde01A),
        leads(State::Tde01A, got(FpduKind::AckWrite), State::Tde02A),
        leads(State::Tde02A, own(LocalEvent::SendData), State::Tde02A),
        leads(State::Tde02A, own(LocalEvent::Sync), State::Tde02A),
        leads(State::Tde02A, own(LocalEvent::DataEnd), State::Tde07A),
        leads(State::Tde07A, own(LocalEvent::TransferEnd), State::Tde08A),
        leads(State::Tde08A, got(FpduKind::AckTransEnd), State::Of02),
        leads(State::Of02, own(LocalEvent::Read), State::Tdl01A),
        leads(State::Tdl01A, got(FpduKind::AckRead), State::Tdl02A),
        leads(State::Tdl02A, got(FpduKind::Dtf), State::Tdl02A),
        leads(State::Tdl02A, got(FpduKind::Syn), State::Tdl02A),
        leads(State::Tdl02A, got(FpduKind::DtfEnd), State::Tdl07A),
        leads(State::Tdl07A, own(LocalEvent::TransferEnd), State::Tdl08A),
        leads(State::Tdl08A, got(FpduKind::AckTransEnd), State::Of02),
        leads(State::Of02, own(LocalEvent::Close), State::Of03A),
        leads(State::Of03A, got(FpduKind::AckCrf), State::Sf03),
        leads(State::Sf03, own(LocalEvent::Deselect), State::Sf04A),
        leads(State::Sf04A, got(FpduKind::AckDeselect), State::Cn03),
        leads(State::Cn03, own(LocalEvent::Release), State::Cn04A),
        leads(State::Cn04A, got(FpduKind::Relconf), State::Cn01),
{
}

/// A server goes the same way, one request and one answer at a time; where it refuses, it goes back
/// to where the request found it.
pub proof fn law_servers_go_their_way()
    ensures
        leads(State::Cn01, got(FpduKind::Connect), State::Cn02B),
        leads(State::Cn02B, own(LocalEvent::Accept), State::Cn03),
        leads(State::Cn02B, own(LocalEvent::Reject), State::Cn01),
        leads(State::Cn03, got(FpduKind::Create), State::Sf01B),
        leads(State::Sf01B, own(LocalEvent::Accept), State::Sf03),
        leads(State::Sf01B, own(LocalEvent::Reject), State::Cn03),
        leads(State::Cn03, got(FpduKind::Select), State::Sf02B),
        leads(State::Sf02B, own(LocalEvent::Accept), State::Sf03),
        leads(State::Sf02B, own(LocalEvent::Reject), State::Cn03),
        leads(State::Sf03, got(FpduKind::Orf), State::Of01B),
        leads(State::Of01B, own(LocalEvent::Accept), State::Of02),
        leads(State::Of01B, own(LocalEvent::Reject), State::Sf03),
        leads(State::Of02, got(FpduKind::Write), State::Tde01B),
        leads(State::Tde01B, own(LocalEvent::Accept), State::Tde02B),
        leads(State::Tde01B, own(LocalEvent::Reject), State::Of02),
        leads(State::Tde02B, got(FpduKind::DtfEnd), State::Tde07B),
        leads(State::Tde07B, got(FpduKind::TransEnd), State::Tde08B),
        leads(State::Tde08B, own(LocalEvent::Accept), State::Of02),
        leads(State::Of02, got(FpduKind::Read), State::Tdl01B),
        leads(State::Tdl01B, own(LocalEvent::Accept), State::Tdl02B),
        leads(State::Tdl02B, own(LocalEvent::SendData), State::Tdl02B),
        leads(State::Tdl02B, own(LocalEvent::DataEnd), State::Tdl07B),
        leads(State::Tdl07B, got(FpduKind::TransEnd), State::Tdl08B),
        leads(State::Tdl08B, own(LocalEvent::Accept), State::Of02),
        leads(State::Of02, got(FpduKind::Crf), State::Of03B),
        leads(State::Of03B, own(LocalEvent::Accept), State::Sf03),
        leads(State::Sf03, got(FpduKind::Deselect), State::Sf04B),
        leads(State::Sf04B, own(LocalEvent::Accept), State::Cn03),
        leads(State::Cn03, got(FpduKind::Release), State::Cn04B),
        leads(State::Cn04B, own(LocalEvent::Accept), State::Cn01),
{
}

/// Messages, resynchronisations and interruptions come back to where they began.
pub proof fn law_detours_come_back()
    ensures
        leads(State::Cn03, own(LocalEvent::Message), State::Mg01A),
        leads(State::Mg01A, own(LocalEvent::DataEnd), State::Mg04A),
        leads(State::Mg04A, got(FpduKind::AckMsg), State::Cn03),
        leads(State::Mg01A, got(FpduKind::AckMsg), State::Cn03),
        leads(State::Cn03, got(FpduKind::Msg), State::Mg04B),
        leads(State::Cn03, got(FpduKind::MsgDm), State::Mg01B),
        leads(State::Mg01B, got(FpduKind::MsgMm), State::Mg01B),
        leads(State::Mg01B, got(FpduKind::MsgFm), State::Mg04B),
        leads(State::Mg04B, own(LocalEvent::Accept), State::Cn03),
        leads(State::Tde02B, own(LocalEvent::Resync), State::Tde03B),
        leads(State::Tde03B, got(FpduKind::AckResyn), State::Tde02B),
        leads(State::Tde02A, got(FpduKind::Resyn), State::Tde04A),
        leads(State::Tde04A, own(LocalEvent::Accept), State::Tde02A),
        leads(State::Tde02A, own(LocalEvent::Cancel), State::Tde05A),
        leads(State::Tde05A, got(FpduKind::AckIdt), State::Of02),
        leads(State::Tde02B, got(FpduKind::Idt), State::Tde06B),
        leads(State::Tde06B, own(LocalEvent::Accept), State::Of02),
        leads(State::Tdl02A, own(LocalEvent::Resync), State::Tdl03A),
        leads(State::Tdl03A, got(FpduKind::AckResyn), State::Tdl02A),
        leads(State::Tdl02B, got(FpduKind::Resyn), State::Tdl04B),
        leads(State::Tdl04B, own(LocalEvent::Accept), State::Tdl02B),
        leads(State::Tdl02A, own(LocalEvent::Cancel), State::Tdl05A),
        leads(State::Tdl05A, got(FpduKind::AckIdt), State::Of02),
        leads(State::Tdl02B, got(FpduKind::Idt), State::Tdl06B),
        leads(State::Tdl06B, own(LocalEvent::Accept), State::Of02),
{
}

/// A refusal of a kind.
pub open spec fn refused(kind: FpduKind) -> Event {
    Event::Received { kind, negative: true }
}

/// A refused request leads back to where it was made, and a refused closing request on to where an
/// accepted one would.
pub proof fn law_refusals_lead_back()
    ensures
        leads(State::Cn02A, got(FpduKind::Rconnect), State::Cn01),
        leads(State::Cn02A, refused(FpduKind::Rconnect), State::Cn01),
        leads(State::Sf01A, refused(FpduKind::AckCreate), State::Cn03),
        leads(State::Sf02A, refused(FpduKind::AckSelect), State::Cn03),
        leads(State::Of01A, refused(FpduKind::AckOrf), State::Sf03),
        leads(State::Tde01A, refused(FpduKind::AckWrite), State::Of02),
        leads(State::Tdl01A, refused(FpduKind::AckRead), State::Of02),
        leads(State::Tde08A, refused(FpduKind::AckTransEnd), State::Of02),
        leads(State::Tdl08A, refused(FpduKind::AckTransEnd), State::Of02),
        leads(State::Of03A, refused(FpduKind::AckCrf), State::Sf03),
        leads(State::Sf04A, refused(FpduKind::AckDeselect), State::Cn03),
        leads(State::Mg04A, refused(FpduKind::AckMsg), State::Cn03),
        leads(State::Mg01A, refused(FpduKind::AckMsg), State::Cn03),
{
}

/// What was under way when a resynchronisation or an interruption began is ignored, and so are
/// acknowledgements that come late; what was never allowed is an error.
pub proof fn law_late_fpdus_are_ignored(e: Event)
    ensures
        e is Received && e != got(FpduKind::AckIdt) && e != got(FpduKind::Idt) && !(e matches
            Event::Received { kind, .. } && kind == FpduKind::Abort) ==> {
            &&& outcome(State::Tde05A, e) == Outcome::Ignore
            &&& outcome(State::Tde05B, e) == Outcome::Ignore
            &&& outcome(State::Tdl05A, e) == Outcome::Ignore
            &&& outcome(State::Tdl05B, e) == Outcome::Ignore
        },
        e == got(FpduKind::Dtf) || e == got(FpduKind::DtfDa) || e == got(FpduKind::DtfMa) || e
            == got(FpduKind::DtfFa) || e == got(FpduKind::Syn) || e == got(FpduKind::DtfEnd) || e
            == got(FpduKind::TransEnd) ==> outcome(State::Tde03B, e) == Outcome::Ignore && outcome(
            State::Tdl03A,
            e,
        ) == Outcome::Ignore,
        outcome(State::Tde03A, got(FpduKind::AckSyn)) == Outcome::Ignore,
        outcome(State::Tde04A, got(FpduKind::AckSyn)) == Outcome::Ignore,
        outcome(State::Tde08A, got(FpduKind::AckSyn)) == Outcome::Ignore,
        leads(State::Tde07A, got(FpduKind::AckSyn), State::Tde07A),
        outcome(State::Tdl07B, got(FpduKind::AckSyn)) == Outcome::Ignore,
        outcome(State::Cn03, got(FpduKind::Dtf)) == Outcome::Error,
        outcome(State::Cn03, got(FpduKind::AckCreate)) == Outcome::Error,
        outcome(State::Cn01, got(FpduKind::Create)) == Outcome::Error,
        outcome(State::Sf03, got(FpduKind::Write)) == Outcome::Error,
        outcome(State::Of02, got(FpduKind::Dtf)) == Outcome::Error,
        outcome(State::Of02, got(FpduKind::Deselect)) == Outcome::Error,
        outcome(State::Tde02B, got(FpduKind::Crf)) == Outcome::Error,
{
}

/// A resynchronisation can begin, and an interruption can come, wherever the data phase is not over
/// yet; both sides may then stop it.
pub proof fn law_the_data_phase_can_be_stopped()
    ensures
        leads(State::Tde02A, got(FpduKind::Idt), State::Tde06A),
        leads(State::Tde03A, got(FpduKind::Idt), State::Tde06A),
        leads(State::Tde04A, got(FpduKind::Idt), State::Tde06A),
        leads(State::Tde05A, got(FpduKind::Idt), State::Tde06A),
        leads(State::Tde07A, got(FpduKind::Idt), State::Tde06A),
        leads(State::Tde08A, got(FpduKind::Idt), State::Tde06A),
        leads(State::Tde02B, own(LocalEvent::Cancel), State::Tde05B),
        leads(State::Tde03B, own(LocalEvent::Cancel), State::Tde05B),
        leads(State::Tde04B, own(LocalEvent::Cancel), State::Tde05B),
        leads(State::Tde07B, own(LocalEvent::Cancel), State::Tde05B),
        leads(State::Tdl02B, own(LocalEvent::Cancel), State::Tdl05B),
        leads(State::Tdl02A, got(FpduKind::Idt), State::Tdl06A),
        leads(State::Tde07B, own(LocalEvent::Resync), State::Tde03B),
        leads(State::Tde08B, own(LocalEvent::Resync), State::Tde03B),
        leads(State::Tde07A, got(FpduKind::Resyn), State::Tde04A),
        leads(State::Tde08A, got(FpduKind::Resyn), State::Tde04A),
        leads(State::Tde03A, got(FpduKind::Resyn), State::Tde04A),
        leads(State::Tdl07A, own(LocalEvent::Resync), State::Tdl03A),
        leads(State::Tdl07B, got(FpduKind::Resyn), State::Tdl04B),
{
}

} // verus!
