//! Data entity framing over a byte stream and the pre-connection exchange.
//!
//! * [`Framing::LengthPrefixed`] (plain TCP, and TLS with a transport header): every entity is
//!   preceded by a 2-byte big-endian length that does not count itself.
//! * [`Framing::Raw`] (TLS without a transport header): FPDUs are written back to back; the reader
//!   delimits them with the FPDU length field (plus the two CRC bytes when negotiated).
//!
//! The pre-connection message and its 4-byte answer are recognised whatever the framing (some
//! implementations send them without the length prefix).

use crate::crc::CRC_LEN;
use crate::error::TransportError;
use crate::fpdu::{bytes_to_vec, Fpdu, FpduV, HEADER_LEN};
use crate::kind::FpduKind;
use crate::pi::Pi;
use vstd::prelude::*;

verus! {

/// Entity framing on the byte stream.
#[derive(Debug, Clone, Copy, PartialEq, Eq, Default, Structural)]
pub enum Framing {
    /// 2-byte big-endian length before each entity (mandatory on plain TCP).
    #[default]
    LengthPrefixed,
    /// No length prefix; one FPDU per unit (TLS without header).
    Raw,
}

/// Largest entity accepted from the network (FPDU length field + prefix + CRC).
pub const MAX_ENTITY: usize = 0xFFFF + 2 + 2;

/// First two bytes by which the pre-connection messages are recognised, and their lengths.
#[derive(Debug, Clone, Copy, PartialEq, Eq)]
pub struct PreconnectMarks {
    /// First two bytes of the pre-connection message.
    pub message: (u8, u8),
    /// Length of the pre-connection message.
    pub message_len: usize,
    /// First two bytes of the positive answer.
    pub ack: (u8, u8),
    /// First two bytes of the negative answer.
    pub nak: (u8, u8),
}

impl PreconnectMarks {
    /// Whether two bytes start a pre-connection message or the answer to one.
    pub open spec fn starts(self, a: u8, b: u8) -> bool {
        (a, b) == self.message || (a, b) == self.ack || (a, b) == self.nak
    }
}

/// Length of the answer to a pre-connection message.
pub const PRECONNECT_ANSWER_LEN: usize = 4;

/// What to read behind the first two bytes of an entity.
#[derive(Debug, PartialEq, Eq)]
pub enum HeaderStep {
    /// The two bytes belong to the entity; this many bytes follow.
    WithHead(usize),
    /// The two bytes are a length prefix; the entity has this many bytes.
    WithoutHead(usize),
    /// The entity is refused.
    Refused(TransportError),
}

/// State of the reader side of a framed stream.
#[derive(Debug, Clone, Copy, PartialEq, Eq, Structural)]
pub struct FrameState {
    /// Framing of the stream.
    pub framing: Framing,
    /// Maximum entity length accepted.
    pub max_len: usize,
    /// Whether nothing was read yet.
    pub first: bool,
    /// Whether the CRC presence still has to be probed on the first FPDU (raw framing).
    pub probe_crc: bool,
}

impl FrameState {
    /// State of a fresh stream.
    #[must_use]
    pub fn new(framing: Framing, max_len: usize) -> (r: Self)
        ensures
            r == (FrameState {
                framing,
                max_len: if max_len <= MAX_ENTITY {
                    max_len
                } else {
                    MAX_ENTITY
                },
                first: true,
                probe_crc: true,
            }),
    {
        FrameState {
            framing,
            max_len: if max_len <= MAX_ENTITY {
                max_len
            } else {
                MAX_ENTITY
            },
            first: true,
            probe_crc: true,
        }
    }

    /// What to read behind the first two bytes of an entity.
    pub open spec fn spec_on_header(self, a: u8, b: u8, crc: bool, marks: PreconnectMarks) -> HeaderStep {
        let declared = (a * 256 + b) as usize;
        let extra = if crc {
            CRC_LEN
        } else {
            0
        };
        if self.first && (a, b) == marks.message && marks.message_len >= 2 {
            HeaderStep::WithHead((marks.message_len - 2) as usize)
        } else if self.first && ((a, b) == marks.ack || (a, b) == marks.nak) {
            HeaderStep::WithHead((PRECONNECT_ANSWER_LEN - 2) as usize)
        } else if self.framing == Framing::LengthPrefixed {
            if declared > self.max_len {
                HeaderStep::Refused(TransportError::TooLarge(declared, self.max_len))
            } else if declared == 0 {
                HeaderStep::Refused(TransportError::Invalid(0))
            } else {
                HeaderStep::WithoutHead(declared)
            }
        } else if declared < HEADER_LEN {
            HeaderStep::Refused(TransportError::Invalid(declared))
        } else if declared + extra > self.max_len {
            HeaderStep::Refused(TransportError::TooLarge((declared + extra) as usize, self.max_len))
        } else {
            HeaderStep::WithHead((declared + extra - 2) as usize)
        }
    }

    /// Take the first two bytes of an entity; says what to read behind them. `crc` tells whether
    /// FPDUs carry check bytes.
    pub fn on_header(&mut self, a: u8, b: u8, crc: bool, marks: PreconnectMarks) -> (r: HeaderStep)
        ensures
            r == old(self).spec_on_header(a, b, crc, marks),
            *final(self) == (FrameState { first: false, ..*old(self) }),
    {
        let first: bool = self.first;
        self.first = false;
        if first && a == marks.message.0 && b == marks.message.1 && marks.message_len >= 2 {
            return HeaderStep::WithHead(marks.message_len - 2);
        }
        if first && ((a == marks.ack.0 && b == marks.ack.1) || (a == marks.nak.0 && b
            == marks.nak.1)) {
            return HeaderStep::WithHead(PRECONNECT_ANSWER_LEN - 2);
        }
        let declared: usize = a as usize * 256 + b as usize;
        match self.framing {
            Framing::LengthPrefixed => {
                if declared > self.max_len {
                    return HeaderStep::Refused(TransportError::TooLarge(declared, self.max_len));
                }
                if declared == 0 {
                    return HeaderStep::Refused(TransportError::Invalid(0));
                }
                HeaderStep::WithoutHead(declared)
            },
            Framing::Raw => {
                if declared < HEADER_LEN {
                    return HeaderStep::Refused(TransportError::Invalid(declared));
                }
                let extra: usize = if crc {
                    CRC_LEN
                } else {
                    0
                };
                if declared + extra > self.max_len {
                    return HeaderStep::Refused(
                        TransportError::TooLarge(declared + extra, self.max_len),
                    );
                }
                HeaderStep::WithHead(declared + extra - 2)
            },
        }
    }

    /// Whether two check bytes follow an entity after all. Without a transport header the receiver
    /// of a CONNECT cannot know whether a CRC follows: PI 1 of the CONNECT itself tells.
    pub open spec fn check_follows(self, entity: Seq<u8>, crc: bool) -> bool {
        &&& self.framing == Framing::Raw
        &&& self.probe_crc
        &&& !crc
        &&& holds_fpdu(entity)
        &&& announces_connect(entity)
        &&& requests_crc(entity)
    }

    /// State behind an entity. The first FPDU of a raw stream ends the probe; a pre-connection
    /// message and the answer to one do not.
    pub open spec fn behind(self, entity: Seq<u8>) -> FrameState {
        FrameState {
            probe_crc: self.probe_crc && !(self.framing == Framing::Raw && holds_fpdu(entity)),
            ..self
        }
    }

    /// Take an entity that was read; says whether two check bytes follow it after all.
    pub fn on_entity(&mut self, entity: &[u8], crc: bool) -> (r: bool)
        ensures
            r == old(self).check_follows(entity@, crc),
            *final(self) == old(self).behind(entity@),
    {
        match self.framing {
            Framing::LengthPrefixed => false,
            Framing::Raw => {
                if entity.len() < HEADER_LEN || entity[0] as usize * 256 + entity[1] as usize
                    > entity.len() {
                    return false;
                }
                let probe: bool = self.probe_crc;
                self.probe_crc = false;
                probe && !crc && entity[2] == 0x40 && entity[3] == 0x20 && connect_requests_crc(
                    entity,
                )
            },
        }
    }
}

/// Whether an entity holds a FPDU: its first two bytes are a length within the entity. Those of a
/// pre-connection message, and of the answer to one, are not.
pub open spec fn holds_fpdu(entity: Seq<u8>) -> bool {
    entity.len() >= HEADER_LEN && entity[0] * 256 + entity[1] <= entity.len()
}

/// Whether an entity starts with a CONNECT.
pub open spec fn announces_connect(entity: Seq<u8>) -> bool {
    entity.len() >= 4 && entity[2] == FpduKind::Connect.spec_phase() && entity[3]
        == FpduKind::Connect.spec_type_code()
}

/// Whether a raw FPDU can be read, at least leniently, and carries PI 1 = 1.
pub open spec fn requests_crc(fpdu: Seq<u8>) -> bool {
    FpduV::decoded(fpdu, false) matches Ok(f) && f.number(Pi::Crc) == Some(1u64)
}

/// Whether a raw CONNECT FPDU carries PI 1 = 1.
fn connect_requests_crc(fpdu: &[u8]) -> (r: bool)
    ensures
        r == requests_crc(fpdu@),
{
    match Fpdu::decode_lenient(fpdu) {
        Ok(f) => match f.get_num(Pi::Crc) {
            Some(n) => n == 1,
            None => false,
        },
        Err(_) => false,
    }
}

/// Bytes of an entity on the stream.
pub open spec fn stream_bytes(framing: Framing, entity: Seq<u8>) -> Seq<u8> {
    match framing {
        Framing::LengthPrefixed => seq![(entity.len() / 256) as u8, (entity.len() % 256) as u8]
            + entity,
        Framing::Raw => entity,
    }
}

/// Bytes to write for one entity with the given framing.
pub fn frame_entity(framing: Framing, entity: &[u8]) -> (r: Result<Vec<u8>, TransportError>)
    ensures
        match r {
            Ok(v) => entity@.len() <= 0xFFFF && v@ == stream_bytes(framing, entity@),
            Err(e) => entity@.len() > 0xFFFF && e == TransportError::TooLarge(
                entity@.len() as usize,
                0xFFFF,
            ),
        },
{
    if entity.len() > 0xFFFF {
        return Err(TransportError::TooLarge(entity.len(), 0xFFFF));
    }
    match framing {
        Framing::LengthPrefixed => {
            let mut buf: Vec<u8> = Vec::new();
            buf.push((entity.len() / 256) as u8);
            buf.push((entity.len() % 256) as u8);
            buf.extend_from_slice(entity);
            proof {
                assert(buf@ =~= stream_bytes(framing, entity@));
            }
            Ok(buf)
        },
        Framing::Raw => Ok(bytes_to_vec(entity)),
    }
}

/// The reader of a length-prefixed stream asks for exactly the entity that the writer framed,
/// unless its length prefix on a fresh stream looks like a pre-connection message.
pub proof fn law_length_prefixed_entities_are_delimited(
    s: FrameState,
    entity: Seq<u8>,
    crc: bool,
    marks: PreconnectMarks,
)
    requires
        s.framing == Framing::LengthPrefixed,
        0 < entity.len() <= 0xFFFF,
        entity.len() <= s.max_len,
        s.first ==> !marks.starts((entity.len() / 256) as u8, (entity.len() % 256) as u8),
    ensures
        ({
            let bytes = stream_bytes(s.framing, entity);
            &&& s.spec_on_header(bytes[0], bytes[1], crc, marks) == HeaderStep::WithoutHead(
                entity.len() as usize,
            )
            &&& bytes.skip(2) == entity
        }),
{
    let bytes = stream_bytes(s.framing, entity);
    assert(bytes.skip(2) =~= entity);
    assert(bytes[0] * 256 + bytes[1] == entity.len());
}

/// The reader of a raw stream asks for exactly one FPDU, check bytes included where they are in
/// use, unless the length of the FPDU on a fresh stream looks like a pre-connection message. What
/// it asks for then holds a FPDU.
pub proof fn law_raw_fpdus_are_delimited(
    s: FrameState,
    f: FpduV,
    crc: bool,
    marks: PreconnectMarks,
)
    requires
        s.framing == Framing::Raw,
        f.wire_len() <= 0xFFFF,
        s.max_len == MAX_ENTITY,
        s.first ==> !marks.starts(f.encoding()[0], f.encoding()[1]),
    ensures
        ({
            let entity = crate::frame::framed(f.encoding(), crc);
            s.spec_on_header(entity[0], entity[1], crc, marks) == HeaderStep::WithHead(
                (entity.len() - 2) as usize,
            )
        }),
        holds_fpdu(crate::frame::framed(f.encoding(), crc)),
{
    let e = f.encoding();
    let entity = crate::frame::framed(e, crc);
    crate::crc::law_appended_check_bytes_verify(e);
    assert(entity[0] == f.header()[0] && entity[1] == f.header()[1]);
    assert(entity[0] * 256 + entity[1] == e.len());
    assert(e.len() <= entity.len());
}

} // verus!
