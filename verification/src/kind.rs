//! FPDU kinds and the parameters that each kind admits.

use crate::phase;
use vstd::prelude::*;

verus! {

/// FPDU kind (phase + type bytes).
#[derive(Debug, Clone, Copy, PartialEq, Eq, Hash, Structural)]
pub enum FpduKind {
    /// FPDU.CONNECT
    Connect,
    /// FPDU.ACONNECT
    Aconnect,
    /// FPDU.RCONNECT
    Rconnect,
    /// FPDU.RELEASE
    Release,
    /// FPDU.RELCONF
    Relconf,
    /// FPDU.ABORT
    Abort,
    /// FPDU.READ
    Read,
    /// FPDU.WRITE
    Write,
    /// FPDU.SYN
    Syn,
    /// FPDU.DTF.END
    DtfEnd,
    /// FPDU.RESYN
    Resyn,
    /// FPDU.IDT
    Idt,
    /// FPDU.TRANS.END
    TransEnd,
    /// FPDU.CREATE
    Create,
    /// FPDU.SELECT
    Select,
    /// FPDU.DESELECT
    Deselect,
    /// FPDU.ORF
    Orf,
    /// FPDU.CRF
    Crf,
    /// FPDU.MSG
    Msg,
    /// FPDU.MSGDM
    MsgDm,
    /// FPDU.MSGMM
    MsgMm,
    /// FPDU.MSGFM
    MsgFm,
    /// FPDU.ACK(CREATE)
    AckCreate,
    /// FPDU.ACK(SELECT)
    AckSelect,
    /// FPDU.ACK(DESELECT)
    AckDeselect,
    /// FPDU.ACK(ORF)
    AckOrf,
    /// FPDU.ACK(CRF)
    AckCrf,
    /// FPDU.ACK(READ)
    AckRead,
    /// FPDU.ACK(WRITE)
    AckWrite,
    /// FPDU.ACK(TRANS.END)
    AckTransEnd,
    /// FPDU.ACK(SYN)
    AckSyn,
    /// FPDU.ACK(RESYN)
    AckResyn,
    /// FPDU.ACK(IDT)
    AckIdt,
    /// FPDU.ACK(MSG)
    AckMsg,
    /// FPDU.DTF
    Dtf,
    /// FPDU.DTFMA
    DtfMa,
    /// FPDU.DTFDA
    DtfDa,
    /// FPDU.DTFFA
    DtfFa,
}

/// One entry of a FPDU parameter template.
#[derive(Debug, Clone, Copy, PartialEq, Eq, Structural)]
pub struct ParamRule {
    /// PI or PGI code.
    pub code: u8,
    /// Whether the parameter is mandatory.
    pub mandatory: bool,
}

/// Mandatory parameter.
#[verifier::allow_in_spec]
pub fn m(code: u8) -> ParamRule
    returns
        (ParamRule { code, mandatory: true }),
{
    ParamRule { code, mandatory: true }
}

/// Optional parameter.
#[verifier::allow_in_spec]
pub fn o(code: u8) -> ParamRule
    returns
        (ParamRule { code, mandatory: false }),
{
    ParamRule { code, mandatory: false }
}

impl FpduKind {
    /// All kinds.
    pub const ALL: [FpduKind; 38] = [
        FpduKind::Connect,
        FpduKind::Aconnect,
        FpduKind::Rconnect,
        FpduKind::Release,
        FpduKind::Relconf,
        FpduKind::Abort,
        FpduKind::Read,
        FpduKind::Write,
        FpduKind::Syn,
        FpduKind::DtfEnd,
        FpduKind::Resyn,
        FpduKind::Idt,
        FpduKind::TransEnd,
        FpduKind::Create,
        FpduKind::Select,
        FpduKind::Deselect,
        FpduKind::Orf,
        FpduKind::Crf,
        FpduKind::Msg,
        FpduKind::MsgDm,
        FpduKind::MsgMm,
        FpduKind::MsgFm,
        FpduKind::AckCreate,
        FpduKind::AckSelect,
        FpduKind::AckDeselect,
        FpduKind::AckOrf,
        FpduKind::AckCrf,
        FpduKind::AckRead,
        FpduKind::AckWrite,
        FpduKind::AckTransEnd,
        FpduKind::AckSyn,
        FpduKind::AckResyn,
        FpduKind::AckIdt,
        FpduKind::AckMsg,
        FpduKind::Dtf,
        FpduKind::DtfMa,
        FpduKind::DtfDa,
        FpduKind::DtfFa,
    ];

    /// Phase byte (octet 3).
    pub open spec fn spec_phase(self) -> u8 {
        if self.spec_is_data() {
            phase::DATA
        } else {
            match self {
                FpduKind::Connect | FpduKind::Aconnect | FpduKind::Rconnect | FpduKind::Release
                | FpduKind::Relconf | FpduKind::Abort => phase::CONNECTION,
                _ => phase::OTHER,
            }
        }
    }

    /// Type byte (octet 4).
    pub open spec fn spec_type_code(self) -> u8 {
        match self {
            FpduKind::Connect => 0x20,
            FpduKind::Aconnect => 0x21,
            FpduKind::Rconnect => 0x22,
            FpduKind::Release => 0x23,
            FpduKind::Relconf => 0x24,
            FpduKind::Abort => 0x25,
            FpduKind::Read => 0x01,
            FpduKind::Write => 0x02,
            FpduKind::Syn => 0x03,
            FpduKind::DtfEnd => 0x04,
            FpduKind::Resyn => 0x05,
            FpduKind::Idt => 0x06,
            FpduKind::TransEnd => 0x08,
            FpduKind::Create => 0x11,
            FpduKind::Select => 0x12,
            FpduKind::Deselect => 0x13,
            FpduKind::Orf => 0x14,
            FpduKind::Crf => 0x15,
            FpduKind::Msg => 0x16,
            FpduKind::MsgDm => 0x17,
            FpduKind::MsgMm => 0x18,
            FpduKind::MsgFm => 0x19,
            FpduKind::AckCreate => 0x30,
            FpduKind::AckSelect => 0x31,
            FpduKind::AckDeselect => 0x32,
            FpduKind::AckOrf => 0x33,
            FpduKind::AckCrf => 0x34,
            FpduKind::AckRead => 0x35,
            FpduKind::AckWrite => 0x36,
            FpduKind::AckTransEnd => 0x37,
            FpduKind::AckSyn => 0x38,
            FpduKind::AckResyn => 0x39,
            FpduKind::AckIdt => 0x3A,
            FpduKind::AckMsg => 0x3B,
            FpduKind::Dtf => 0x00,
            FpduKind::DtfMa => 0x40,
            FpduKind::DtfDa => 0x41,
            FpduKind::DtfFa => 0x42,
        }
    }

    /// Protocol name.
    pub open spec fn spec_name(self) -> Seq<char> {
        match self {
            FpduKind::Connect => "FPDU.CONNECT"@,
            FpduKind::Aconnect => "FPDU.ACONNECT"@,
            FpduKind::Rconnect => "FPDU.RCONNECT"@,
            FpduKind::Release => "FPDU.RELEASE"@,
            FpduKind::Relconf => "FPDU.RELCONF"@,
            FpduKind::Abort => "FPDU.ABORT"@,
            FpduKind::Read => "FPDU.READ"@,
            FpduKind::Write => "FPDU.WRITE"@,
            FpduKind::Syn => "FPDU.SYN"@,
            FpduKind::DtfEnd => "FPDU.DTF.END"@,
            FpduKind::Resyn => "FPDU.RESYN"@,
            FpduKind::Idt => "FPDU.IDT"@,
            FpduKind::TransEnd => "FPDU.TRANS.END"@,
            FpduKind::Create => "FPDU.CREATE"@,
            FpduKind::Select => "FPDU.SELECT"@,
            FpduKind::Deselect => "FPDU.DESELECT"@,
            FpduKind::Orf => "FPDU.ORF"@,
            FpduKind::Crf => "FPDU.CRF"@,
            FpduKind::Msg => "FPDU.MSG"@,
            FpduKind::MsgDm => "FPDU.MSGDM"@,
            FpduKind::MsgMm => "FPDU.MSGMM"@,
            FpduKind::MsgFm => "FPDU.MSGFM"@,
            FpduKind::AckCreate => "FPDU.ACK(CREATE)"@,
            FpduKind::AckSelect => "FPDU.ACK(SELECT)"@,
            FpduKind::AckDeselect => "FPDU.ACK(DESELECT)"@,
            FpduKind::AckOrf => "FPDU.ACK(ORF)"@,
            FpduKind::AckCrf => "FPDU.ACK(CRF)"@,
            FpduKind::AckRead => "FPDU.ACK(READ)"@,
            FpduKind::AckWrite => "FPDU.ACK(WRITE)"@,
            FpduKind::AckTransEnd => "FPDU.ACK(TRANS.END)"@,
            FpduKind::AckSyn => "FPDU.ACK(SYN)"@,
            FpduKind::AckResyn => "FPDU.ACK(RESYN)"@,
            FpduKind::AckIdt => "FPDU.ACK(IDT)"@,
            FpduKind::AckMsg => "FPDU.ACK(MSG)"@,
            FpduKind::Dtf => "FPDU.DTF"@,
            FpduKind::DtfMa => "FPDU.DTFMA"@,
            FpduKind::DtfDa => "FPDU.DTFDA"@,
            FpduKind::DtfFa => "FPDU.DTFFA"@,
        }
    }

    /// Short name, without the protocol prefix.
    pub open spec fn spec_variant(self) -> Seq<char> {
        match self {
            FpduKind::Connect => "Connect"@,
            FpduKind::Aconnect => "Aconnect"@,
            FpduKind::Rconnect => "Rconnect"@,
            FpduKind::Release => "Release"@,
            FpduKind::Relconf => "Relconf"@,
            FpduKind::Abort => "Abort"@,
            FpduKind::Read => "Read"@,
            FpduKind::Write => "Write"@,
            FpduKind::Syn => "Syn"@,
            FpduKind::DtfEnd => "DtfEnd"@,
            FpduKind::Resyn => "Resyn"@,
            FpduKind::Idt => "Idt"@,
            FpduKind::TransEnd => "TransEnd"@,
            FpduKind::Create => "Create"@,
            FpduKind::Select => "Select"@,
            FpduKind::Deselect => "Deselect"@,
            FpduKind::Orf => "Orf"@,
            FpduKind::Crf => "Crf"@,
            FpduKind::Msg => "Msg"@,
            FpduKind::MsgDm => "MsgDm"@,
            FpduKind::MsgMm => "MsgMm"@,
            FpduKind::MsgFm => "MsgFm"@,
            FpduKind::AckCreate => "AckCreate"@,
            FpduKind::AckSelect => "AckSelect"@,
            FpduKind::AckDeselect => "AckDeselect"@,
            FpduKind::AckOrf => "AckOrf"@,
            FpduKind::AckCrf => "AckCrf"@,
            FpduKind::AckRead => "AckRead"@,
            FpduKind::AckWrite => "AckWrite"@,
            FpduKind::AckTransEnd => "AckTransEnd"@,
            FpduKind::AckSyn => "AckSyn"@,
            FpduKind::AckResyn => "AckResyn"@,
            FpduKind::AckIdt => "AckIdt"@,
            FpduKind::AckMsg => "AckMsg"@,
            FpduKind::Dtf => "Dtf"@,
            FpduKind::DtfMa => "DtfMa"@,
            FpduKind::DtfDa => "DtfDa"@,
            FpduKind::DtfFa => "DtfFa"@,
        }
    }

    /// Whether the FPDU carries file data.
    pub open spec fn spec_is_data(self) -> bool {
        self is Dtf || self is DtfDa || self is DtfMa || self is DtfFa
    }

    /// The acknowledgement expected in answer to this FPDU.
    pub open spec fn spec_ack(self) -> Option<FpduKind> {
        match self {
            FpduKind::Connect => Some(FpduKind::Aconnect),
            FpduKind::Release => Some(FpduKind::Relconf),
            FpduKind::Create => Some(FpduKind::AckCreate),
            FpduKind::Select => Some(FpduKind::AckSelect),
            FpduKind::Deselect => Some(FpduKind::AckDeselect),
            FpduKind::Orf => Some(FpduKind::AckOrf),
            FpduKind::Crf => Some(FpduKind::AckCrf),
            FpduKind::Read => Some(FpduKind::AckRead),
            FpduKind::Write => Some(FpduKind::AckWrite),
            FpduKind::TransEnd => Some(FpduKind::AckTransEnd),
            FpduKind::Syn => Some(FpduKind::AckSyn),
            FpduKind::Resyn => Some(FpduKind::AckResyn),
            FpduKind::Idt => Some(FpduKind::AckIdt),
            FpduKind::Msg => Some(FpduKind::AckMsg),
            FpduKind::MsgFm => Some(FpduKind::AckMsg),
            _ => None,
        }
    }

    /// Whether this FPDU is an acknowledgement (positive or negative).
    pub open spec fn spec_is_ack(self) -> bool {
        match self {
            FpduKind::Aconnect | FpduKind::Rconnect | FpduKind::Relconf | FpduKind::AckCreate | FpduKind::AckSelect | FpduKind::AckDeselect | FpduKind::AckOrf | FpduKind::AckCrf | FpduKind::AckRead | FpduKind::AckWrite | FpduKind::AckTransEnd | FpduKind::AckSyn | FpduKind::AckResyn | FpduKind::AckIdt | FpduKind::AckMsg => true,
            _ => false,
        }
    }

    /// Whether this FPDU may share a data entity with others.
    pub open spec fn spec_concatenable(self) -> bool {
        self.spec_is_data() || self is DtfEnd || self is Syn
    }

    /// Kind of a phase and a type byte.
    pub open spec fn spec_from_codes(phase: u8, type_code: u8) -> Option<FpduKind> {
        if phase == 0x40 && type_code == 0x20 {
            Some(FpduKind::Connect)
        } else if phase == 0x40 && type_code == 0x21 {
            Some(FpduKind::Aconnect)
        } else if phase == 0x40 && type_code == 0x22 {
            Some(FpduKind::Rconnect)
        } else if phase == 0x40 && type_code == 0x23 {
            Some(FpduKind::Release)
        } else if phase == 0x40 && type_code == 0x24 {
            Some(FpduKind::Relconf)
        } else if phase == 0x40 && type_code == 0x25 {
            Some(FpduKind::Abort)
        } else if phase == 0xC0 && type_code == 0x01 {
            Some(FpduKind::Read)
        } else if phase == 0xC0 && type_code == 0x02 {
            Some(FpduKind::Write)
        } else if phase == 0xC0 && type_code == 0x03 {
            Some(FpduKind::Syn)
        } else if phase == 0xC0 && type_code == 0x04 {
            Some(FpduKind::DtfEnd)
        } else if phase == 0xC0 && type_code == 0x05 {
            Some(FpduKind::Resyn)
        } else if phase == 0xC0 && type_code == 0x06 {
            Some(FpduKind::Idt)
        } else if phase == 0xC0 && type_code == 0x08 {
            Some(FpduKind::TransEnd)
        } else if phase == 0xC0 && type_code == 0x11 {
            Some(FpduKind::Create)
        } else if phase == 0xC0 && type_code == 0x12 {
            Some(FpduKind::Select)
        } else if phase == 0xC0 && type_code == 0x13 {
            Some(FpduKind::Deselect)
        } else if phase == 0xC0 && type_code == 0x14 {
            Some(FpduKind::Orf)
        } else if phase == 0xC0 && type_code == 0x15 {
            Some(FpduKind::Crf)
        } else if phase == 0xC0 && type_code == 0x16 {
            Some(FpduKind::Msg)
        } else if phase == 0xC0 && type_code == 0x17 {
            Some(FpduKind::MsgDm)
        } else if phase == 0xC0 && type_code == 0x18 {
            Some(FpduKind::MsgMm)
        } else if phase == 0xC0 && type_code == 0x19 {
            Some(FpduKind::MsgFm)
        } else if phase == 0xC0 && type_code == 0x30 {
            Some(FpduKind::AckCreate)
        } else if phase == 0xC0 && type_code == 0x31 {
            Some(FpduKind::AckSelect)
        } else if phase == 0xC0 && type_code == 0x32 {
            Some(FpduKind::AckDeselect)
        } else if phase == 0xC0 && type_code == 0x33 {
            Some(FpduKind::AckOrf)
        } else if phase == 0xC0 && type_code == 0x34 {
            Some(FpduKind::AckCrf)
        } else if phase == 0xC0 && type_code == 0x35 {
            Some(FpduKind::AckRead)
        } else if phase == 0xC0 && type_code == 0x36 {
            Some(FpduKind::AckWrite)
        } else if phase == 0xC0 && type_code == 0x37 {
            Some(FpduKind::AckTransEnd)
        } else if phase == 0xC0 && type_code == 0x38 {
            Some(FpduKind::AckSyn)
        } else if phase == 0xC0 && type_code == 0x39 {
            Some(FpduKind::AckResyn)
        } else if phase == 0xC0 && type_code == 0x3A {
            Some(FpduKind::AckIdt)
        } else if phase == 0xC0 && type_code == 0x3B {
            Some(FpduKind::AckMsg)
        } else if phase == 0x00 && type_code == 0x00 {
            Some(FpduKind::Dtf)
        } else if phase == 0x00 && type_code == 0x40 {
            Some(FpduKind::DtfMa)
        } else if phase == 0x00 && type_code == 0x41 {
            Some(FpduKind::DtfDa)
        } else if phase == 0x00 && type_code == 0x42 {
            Some(FpduKind::DtfFa)
        } else {
            None
        }
    }

    /// Allowed top-level PI/PGI codes in canonical order with their mandatory flag.
    pub open spec fn spec_template(self) -> Seq<ParamRule> {
        match self {
            FpduKind::Connect => seq![o(1), m(3), m(4), o(5), m(6), o(7), m(22), o(23), o(26), o(99)],
            FpduKind::Aconnect => seq![o(5), m(6), o(7), o(23), o(99)],
            FpduKind::Rconnect | FpduKind::Release | FpduKind::Deselect | FpduKind::AckDeselect => seq![m(2), o(29), o(99)],
            FpduKind::Relconf => seq![o(99)],
            FpduKind::Abort | FpduKind::Crf | FpduKind::AckCrf | FpduKind::AckRead => seq![m(2), o(29)],
            FpduKind::Read => seq![m(18)],
            FpduKind::Write | FpduKind::AckIdt | FpduKind::Dtf | FpduKind::DtfMa | FpduKind::DtfDa | FpduKind::DtfFa => Seq::empty(),
            FpduKind::Syn => seq![m(20), o(78)],
            FpduKind::DtfEnd => seq![m(2), o(29), o(78), o(79), o(82)],
            FpduKind::Resyn => seq![m(2), m(18), o(29)],
            FpduKind::Idt => seq![m(2), o(19), o(29)],
            FpduKind::TransEnd => seq![o(27), o(28), o(81)],
            FpduKind::Create => seq![m(9), m(13), o(15), o(16), m(17), m(25), m(30), m(40), o(50), o(61), o(62), o(63), o(71), o(72), o(73), o(75), o(77), o(80), o(99)],
            FpduKind::Select => seq![m(9), m(13), o(14), o(15), m(17), m(25), o(61), o(62), o(63), o(71), o(72), o(73), o(75), o(77), o(80), o(99)],
            FpduKind::Orf => seq![o(21), o(72), o(74), o(76), o(80), o(83)],
            FpduKind::Msg | FpduKind::MsgDm => seq![m(9), m(13), o(14), o(16), m(17), o(30), o(40), o(50), o(61), o(62), o(73), o(74), o(77), o(78), o(79), o(80), o(81), o(91)],
            FpduKind::MsgMm | FpduKind::MsgFm => seq![o(91)],
            FpduKind::AckCreate => seq![m(2), o(13), o(25), o(29), o(64), o(72), o(80), o(83), o(99)],
            FpduKind::AckSelect => seq![m(2), o(9), o(13), o(16), o(25), o(29), o(30), o(40), o(50), o(61), o(62), o(64), o(72), o(80), o(83), o(99)],
            FpduKind::AckOrf => seq![m(2), o(21), o(29), o(74), o(76)],
            FpduKind::AckWrite => seq![m(2), m(18), o(29)],
            FpduKind::AckTransEnd => seq![m(2), o(27), o(28), o(29), o(81)],
            FpduKind::AckSyn => seq![m(20)],
            FpduKind::AckResyn => seq![m(18)],
            FpduKind::AckMsg => seq![m(2), o(13), o(16), o(29), o(79), o(80), o(81), o(91)],
        }
    }

    /// Phase byte (octet 3).
    #[must_use]
    pub fn phase(self) -> (r: u8)
        ensures
            r == self.spec_phase(),
    {
        match self {
            FpduKind::Connect => 0x40,
            FpduKind::Aconnect => 0x40,
            FpduKind::Rconnect => 0x40,
            FpduKind::Release => 0x40,
            FpduKind::Relconf => 0x40,
            FpduKind::Abort => 0x40,
            FpduKind::Read => 0xC0,
            FpduKind::Write => 0xC0,
            FpduKind::Syn => 0xC0,
            FpduKind::DtfEnd => 0xC0,
            FpduKind::Resyn => 0xC0,
            FpduKind::Idt => 0xC0,
            FpduKind::TransEnd => 0xC0,
            FpduKind::Create => 0xC0,
            FpduKind::Select => 0xC0,
            FpduKind::Deselect => 0xC0,
            FpduKind::Orf => 0xC0,
            FpduKind::Crf => 0xC0,
            FpduKind::Msg => 0xC0,
            FpduKind::MsgDm => 0xC0,
            FpduKind::MsgMm => 0xC0,
            FpduKind::MsgFm => 0xC0,
            FpduKind::AckCreate => 0xC0,
            FpduKind::AckSelect => 0xC0,
            FpduKind::AckDeselect => 0xC0,
            FpduKind::AckOrf => 0xC0,
            FpduKind::AckCrf => 0xC0,
            FpduKind::AckRead => 0xC0,
            FpduKind::AckWrite => 0xC0,
            FpduKind::AckTransEnd => 0xC0,
            FpduKind::AckSyn => 0xC0,
            FpduKind::AckResyn => 0xC0,
            FpduKind::AckIdt => 0xC0,
            FpduKind::AckMsg => 0xC0,
            FpduKind::Dtf => 0x00,
            FpduKind::DtfMa => 0x00,
            FpduKind::DtfDa => 0x00,
            FpduKind::DtfFa => 0x00,
        }
    }

    /// Type byte (octet 4).
    #[must_use]
    pub fn type_code(self) -> (r: u8)
        ensures
            r == self.spec_type_code(),
    {
        match self {
            FpduKind::Connect => 0x20,
            FpduKind::Aconnect => 0x21,
            FpduKind::Rconnect => 0x22,
            FpduKind::Release => 0x23,
            FpduKind::Relconf => 0x24,
            FpduKind::Abort => 0x25,
            FpduKind::Read => 0x01,
            FpduKind::Write => 0x02,
            FpduKind::Syn => 0x03,
            FpduKind::DtfEnd => 0x04,
            FpduKind::Resyn => 0x05,
            FpduKind::Idt => 0x06,
            FpduKind::TransEnd => 0x08,
            FpduKind::Create => 0x11,
            FpduKind::Select => 0x12,
            FpduKind::Deselect => 0x13,
            FpduKind::Orf => 0x14,
            FpduKind::Crf => 0x15,
            FpduKind::Msg => 0x16,
            FpduKind::MsgDm => 0x17,
            FpduKind::MsgMm => 0x18,
            FpduKind::MsgFm => 0x19,
            FpduKind::AckCreate => 0x30,
            FpduKind::AckSelect => 0x31,
            FpduKind::AckDeselect => 0x32,
            FpduKind::AckOrf => 0x33,
            FpduKind::AckCrf => 0x34,
            FpduKind::AckRead => 0x35,
            FpduKind::AckWrite => 0x36,
            FpduKind::AckTransEnd => 0x37,
            FpduKind::AckSyn => 0x38,
            FpduKind::AckResyn => 0x39,
            FpduKind::AckIdt => 0x3A,
            FpduKind::AckMsg => 0x3B,
            FpduKind::Dtf => 0x00,
            FpduKind::DtfMa => 0x40,
            FpduKind::DtfDa => 0x41,
            FpduKind::DtfFa => 0x42,
        }
    }

    /// Protocol name (e.g. `FPDU.ACK(CREATE)`).
    #[must_use]
    pub fn name(self) -> (r: &'static str)
        ensures
            r@ == self.spec_name(),
    {
        match self {
            FpduKind::Connect => "FPDU.CONNECT",
            FpduKind::Aconnect => "FPDU.ACONNECT",
            FpduKind::Rconnect => "FPDU.RCONNECT",
            FpduKind::Release => "FPDU.RELEASE",
            FpduKind::Relconf => "FPDU.RELCONF",
            FpduKind::Abort => "FPDU.ABORT",
            FpduKind::Read => "FPDU.READ",
            FpduKind::Write => "FPDU.WRITE",
            FpduKind::Syn => "FPDU.SYN",
            FpduKind::DtfEnd => "FPDU.DTF.END",
            FpduKind::Resyn => "FPDU.RESYN",
            FpduKind::Idt => "FPDU.IDT",
            FpduKind::TransEnd => "FPDU.TRANS.END",
            FpduKind::Create => "FPDU.CREATE",
            FpduKind::Select => "FPDU.SELECT",
            FpduKind::Deselect => "FPDU.DESELECT",
            FpduKind::Orf => "FPDU.ORF",
            FpduKind::Crf => "FPDU.CRF",
            FpduKind::Msg => "FPDU.MSG",
            FpduKind::MsgDm => "FPDU.MSGDM",
            FpduKind::MsgMm => "FPDU.MSGMM",
            FpduKind::MsgFm => "FPDU.MSGFM",
            FpduKind::AckCreate => "FPDU.ACK(CREATE)",
            FpduKind::AckSelect => "FPDU.ACK(SELECT)",
            FpduKind::AckDeselect => "FPDU.ACK(DESELECT)",
            FpduKind::AckOrf => "FPDU.ACK(ORF)",
            FpduKind::AckCrf => "FPDU.ACK(CRF)",
            FpduKind::AckRead => "FPDU.ACK(READ)",
            FpduKind::AckWrite => "FPDU.ACK(WRITE)",
            FpduKind::AckTransEnd => "FPDU.ACK(TRANS.END)",
            FpduKind::AckSyn => "FPDU.ACK(SYN)",
            FpduKind::AckResyn => "FPDU.ACK(RESYN)",
            FpduKind::AckIdt => "FPDU.ACK(IDT)",
            FpduKind::AckMsg => "FPDU.ACK(MSG)",
            FpduKind::Dtf => "FPDU.DTF",
            FpduKind::DtfMa => "FPDU.DTFMA",
            FpduKind::DtfDa => "FPDU.DTFDA",
            FpduKind::DtfFa => "FPDU.DTFFA",
        }
    }

    /// Short name, without the protocol prefix (e.g. `AckCreate`).
    #[must_use]
    pub fn variant(self) -> (r: &'static str)
        ensures
            r@ == self.spec_variant(),
    {
        match self {
            FpduKind::Connect => "Connect",
            FpduKind::Aconnect => "Aconnect",
            FpduKind::Rconnect => "Rconnect",
            FpduKind::Release => "Release",
            FpduKind::Relconf => "Relconf",
            FpduKind::Abort => "Abort",
            FpduKind::Read => "Read",
            FpduKind::Write => "Write",
            FpduKind::Syn => "Syn",
            FpduKind::DtfEnd => "DtfEnd",
            FpduKind::Resyn => "Resyn",
            FpduKind::Idt => "Idt",
            FpduKind::TransEnd => "TransEnd",
            FpduKind::Create => "Create",
            FpduKind::Select => "Select",
            FpduKind::Deselect => "Deselect",
            FpduKind::Orf => "Orf",
            FpduKind::Crf => "Crf",
            FpduKind::Msg => "Msg",
            FpduKind::MsgDm => "MsgDm",
            FpduKind::MsgMm => "MsgMm",
            FpduKind::MsgFm => "MsgFm",
            FpduKind::AckCreate => "AckCreate",
            FpduKind::AckSelect => "AckSelect",
            FpduKind::AckDeselect => "AckDeselect",
            FpduKind::AckOrf => "AckOrf",
            FpduKind::AckCrf => "AckCrf",
            FpduKind::AckRead => "AckRead",
            FpduKind::AckWrite => "AckWrite",
            FpduKind::AckTransEnd => "AckTransEnd",
            FpduKind::AckSyn => "AckSyn",
            FpduKind::AckResyn => "AckResyn",
            FpduKind::AckIdt => "AckIdt",
            FpduKind::AckMsg => "AckMsg",
            FpduKind::Dtf => "Dtf",
            FpduKind::DtfMa => "DtfMa",
            FpduKind::DtfDa => "DtfDa",
            FpduKind::DtfFa => "DtfFa",
        }
    }

    /// Kind from the phase and type bytes.
    #[must_use]
    pub fn from_codes(phase: u8, type_code: u8) -> (r: Option<FpduKind>)
        ensures
            r == Self::spec_from_codes(phase, type_code),
            r matches Some(k) ==> k.spec_phase() == phase && k.spec_type_code() == type_code,
    {
        match (phase, type_code) {
            (0x40, 0x20) => Some(FpduKind::Connect),
            (0x40, 0x21) => Some(FpduKind::Aconnect),
            (0x40, 0x22) => Some(FpduKind::Rconnect),
            (0x40, 0x23) => Some(FpduKind::Release),
            (0x40, 0x24) => Some(FpduKind::Relconf),
            (0x40, 0x25) => Some(FpduKind::Abort),
            (0xC0, 0x01) => Some(FpduKind::Read),
            (0xC0, 0x02) => Some(FpduKind::Write),
            (0xC0, 0x03) => Some(FpduKind::Syn),
            (0xC0, 0x04) => Some(FpduKind::DtfEnd),
            (0xC0, 0x05) => Some(FpduKind::Resyn),
            (0xC0, 0x06) => Some(FpduKind::Idt),
            (0xC0, 0x08) => Some(FpduKind::TransEnd),
            (0xC0, 0x11) => Some(FpduKind::Create),
            (0xC0, 0x12) => Some(FpduKind::Select),
            (0xC0, 0x13) => Some(FpduKind::Deselect),
            (0xC0, 0x14) => Some(FpduKind::Orf),
            (0xC0, 0x15) => Some(FpduKind::Crf),
            (0xC0, 0x16) => Some(FpduKind::Msg),
            (0xC0, 0x17) => Some(FpduKind::MsgDm),
            (0xC0, 0x18) => Some(FpduKind::MsgMm),
            (0xC0, 0x19) => Some(FpduKind::MsgFm),
            (0xC0, 0x30) => Some(FpduKind::AckCreate),
            (0xC0, 0x31) => Some(FpduKind::AckSelect),
            (0xC0, 0x32) => Some(FpduKind::AckDeselect),
            (0xC0, 0x33) => Some(FpduKind::AckOrf),
            (0xC0, 0x34) => Some(FpduKind::AckCrf),
            (0xC0, 0x35) => Some(FpduKind::AckRead),
            (0xC0, 0x36) => Some(FpduKind::AckWrite),
            (0xC0, 0x37) => Some(FpduKind::AckTransEnd),
            (0xC0, 0x38) => Some(FpduKind::AckSyn),
            (0xC0, 0x39) => Some(FpduKind::AckResyn),
            (0xC0, 0x3A) => Some(FpduKind::AckIdt),
            (0xC0, 0x3B) => Some(FpduKind::AckMsg),
            (0x00, 0x00) => Some(FpduKind::Dtf),
            (0x00, 0x40) => Some(FpduKind::DtfMa),
            (0x00, 0x41) => Some(FpduKind::DtfDa),
            (0x00, 0x42) => Some(FpduKind::DtfFa),
            _ => None,
        }
    }

    /// Whether the FPDU carries file data (DTF, DTFDA, DTFMA, DTFFA).
    #[must_use]
    pub fn is_data(self) -> (r: bool)
        ensures
            r == self.spec_is_data(),
    {
        matches!(
            self,
            FpduKind::Dtf | FpduKind::DtfDa | FpduKind::DtfMa | FpduKind::DtfFa
        )
    }

    /// The acknowledgement FPDU expected in answer to this FPDU, if any.
    #[must_use]
    pub fn ack(self) -> (r: Option<FpduKind>)
        ensures
            r == self.spec_ack(),
    {
        match self {
            FpduKind::Connect => Some(FpduKind::Aconnect),
            FpduKind::Release => Some(FpduKind::Relconf),
            FpduKind::Create => Some(FpduKind::AckCreate),
            FpduKind::Select => Some(FpduKind::AckSelect),
            FpduKind::Deselect => Some(FpduKind::AckDeselect),
            FpduKind::Orf => Some(FpduKind::AckOrf),
            FpduKind::Crf => Some(FpduKind::AckCrf),
            FpduKind::Read => Some(FpduKind::AckRead),
            FpduKind::Write => Some(FpduKind::AckWrite),
            FpduKind::TransEnd => Some(FpduKind::AckTransEnd),
            FpduKind::Syn => Some(FpduKind::AckSyn),
            FpduKind::Resyn => Some(FpduKind::AckResyn),
            FpduKind::Idt => Some(FpduKind::AckIdt),
            FpduKind::Msg => Some(FpduKind::AckMsg),
            FpduKind::MsgFm => Some(FpduKind::AckMsg),
            _ => None,
        }
    }

    /// Whether this FPDU is an acknowledgement (positive or negative).
    #[must_use]
    pub fn is_ack(self) -> (r: bool)
        ensures
            r == self.spec_is_ack(),
    {
        matches!(
            self,
            FpduKind::Aconnect | FpduKind::Rconnect | FpduKind::Relconf | FpduKind::AckCreate | FpduKind::AckSelect | FpduKind::AckDeselect | FpduKind::AckOrf | FpduKind::AckCrf | FpduKind::AckRead | FpduKind::AckWrite | FpduKind::AckTransEnd | FpduKind::AckSyn | FpduKind::AckResyn | FpduKind::AckIdt | FpduKind::AckMsg
        )
    }

    /// Whether this FPDU may be concatenated with others in one data entity.
    #[must_use]
    pub fn concatenable(self) -> (r: bool)
        ensures
            r == self.spec_concatenable(),
    {
        matches!(
            self,
            FpduKind::Dtf
                | FpduKind::DtfDa
                | FpduKind::DtfMa
                | FpduKind::DtfFa
                | FpduKind::DtfEnd
                | FpduKind::Syn
        )
    }

    /// Parameter template: allowed top-level PI/PGI codes in canonical order with their
    /// mandatory flag.
    #[must_use]
    pub fn template(self) -> (r: Vec<ParamRule>)
        ensures
            r@ == self.spec_template(),
    {
        let r: Vec<ParamRule> = match self {
            FpduKind::Connect => vec![o(1), m(3), m(4), o(5), m(6), o(7), m(22), o(23), o(26), o(99)],
            FpduKind::Aconnect => vec![o(5), m(6), o(7), o(23), o(99)],
            FpduKind::Rconnect | FpduKind::Release | FpduKind::Deselect | FpduKind::AckDeselect => vec![m(2), o(29), o(99)],
            FpduKind::Relconf => vec![o(99)],
            FpduKind::Abort | FpduKind::Crf | FpduKind::AckCrf | FpduKind::AckRead => vec![m(2), o(29)],
            FpduKind::Read => vec![m(18)],
            FpduKind::Write | FpduKind::AckIdt | FpduKind::Dtf | FpduKind::DtfMa | FpduKind::DtfDa | FpduKind::DtfFa => Vec::new(),
            FpduKind::Syn => vec![m(20), o(78)],
            FpduKind::DtfEnd => vec![m(2), o(29), o(78), o(79), o(82)],
            FpduKind::Resyn => vec![m(2), m(18), o(29)],
            FpduKind::Idt => vec![m(2), o(19), o(29)],
            FpduKind::TransEnd => vec![o(27), o(28), o(81)],
            FpduKind::Create => vec![m(9), m(13), o(15), o(16), m(17), m(25), m(30), m(40), o(50), o(61), o(62), o(63), o(71), o(72), o(73), o(75), o(77), o(80), o(99)],
            FpduKind::Select => vec![m(9), m(13), o(14), o(15), m(17), m(25), o(61), o(62), o(63), o(71), o(72), o(73), o(75), o(77), o(80), o(99)],
            FpduKind::Orf => vec![o(21), o(72), o(74), o(76), o(80), o(83)],
            FpduKind::Msg | FpduKind::MsgDm => vec![m(9), m(13), o(14), o(16), m(17), o(30), o(40), o(50), o(61), o(62), o(73), o(74), o(77), o(78), o(79), o(80), o(81), o(91)],
            FpduKind::MsgMm | FpduKind::MsgFm => vec![o(91)],
            FpduKind::AckCreate => vec![m(2), o(13), o(25), o(29), o(64), o(72), o(80), o(83), o(99)],
            FpduKind::AckSelect => vec![m(2), o(9), o(13), o(16), o(25), o(29), o(30), o(40), o(50), o(61), o(62), o(64), o(72), o(80), o(83), o(99)],
            FpduKind::AckOrf => vec![m(2), o(21), o(29), o(74), o(76)],
            FpduKind::AckWrite => vec![m(2), m(18), o(29)],
            FpduKind::AckTransEnd => vec![m(2), o(27), o(28), o(29), o(81)],
            FpduKind::AckSyn => vec![m(20)],
            FpduKind::AckResyn => vec![m(18)],
            FpduKind::AckMsg => vec![m(2), o(13), o(16), o(29), o(79), o(80), o(81), o(91)],
        };
        proof {
            assert(r@ =~= self.spec_template());
        }
        r
    }
}

/// The phase and type bytes identify a kind: looking them up gives the kind back.
pub proof fn law_kind_codes_round_trip(k: FpduKind)
    ensures
        FpduKind::spec_from_codes(k.spec_phase(), k.spec_type_code()) == Some(k),
{
}

/// Templates list their parameters in strictly ascending code order.
pub proof fn law_templates_ascend(k: FpduKind, i: int, j: int)
    requires
        0 <= i < j < k.spec_template().len(),
    ensures
        k.spec_template()[i].code < k.spec_template()[j].code,
{
}

/// The expected answer to a FPDU is an acknowledgement, and is itself never answered.
pub proof fn law_acknowledgements_are_final(k: FpduKind)
    ensures
        k.spec_ack() matches Some(a) ==> a.spec_is_ack(),
        k.spec_is_ack() ==> k.spec_ack() is None,
{
}

/// Data FPDUs carry no parameters.
pub proof fn law_data_fpdus_have_no_parameters(k: FpduKind)
    requires
        k.spec_is_data(),
    ensures
        k.spec_template().len() == 0,
        k.spec_ack() is None,
{
}

} // verus!
