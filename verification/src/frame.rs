//! Data entity (NSDU) helpers: concatenation of FPDUs, CRC handling and splitting of a received
//! entity into its FPDUs.

use crate::article::{byte_slices, fpdus_view};
use crate::crc;
use crate::crc::{check_bytes, checks, law_appended_check_bytes_verify};
use crate::diag::Diagnostic;
use crate::fpdu::{
    clamp_usize, params_bytes_before_empty, DecodeError, EncodeError, Fault, Fpdu, FpduV,
    HEADER_LEN, MAX_FPDU_LEN,
};
use crate::fpdu_laws::{law_decode_inverts_encode, well_formed};
use crate::kind::FpduKind;
use crate::text::{dec, push_decimal};
use vstd::prelude::*;
use vstd::string::StringExecFns;

verus! {

/// FPDUs of an entity from position `pos` on, behind those of `acc`, or what is wrong with it.
pub open spec fn split_from(entity: Seq<u8>, crc: bool, pos: int, acc: Seq<Seq<u8>>) -> Result<
    Seq<Seq<u8>>,
    Fault,
>
    decreases entity.len() - pos,
{
    let left = entity.len() - pos;
    if pos < 0 || left <= 0 {
        Ok(acc)
    } else if left < HEADER_LEN {
        Err(
            (
                Diagnostic::remote_protocol_error(),
                dec(left as nat) + " trailing bytes cannot form a FPDU"@,
            ),
        )
    } else {
        let len = entity[pos] * 256 + entity[pos + 1];
        if len < HEADER_LEN || len > left {
            Err(
                (
                    Diagnostic::remote_protocol_error(),
                    "invalid FPDU length "@ + dec(len as nat) + " at offset "@ + dec(pos as nat)
                        + " of a "@ + dec(entity.len()) + " byte entity"@,
                ),
            )
        } else {
            let fpdu = entity.subrange(pos, pos + len);
            if !crc {
                split_from(entity, crc, pos + len, acc.push(fpdu))
            } else if left < len + 2 {
                Err((Diagnostic::transmission_error(), "missing CRC after FPDU"@))
            } else if !checks(entity.subrange(pos, pos + len + 2)) {
                Err((Diagnostic::transmission_error(), "CRC error"@))
            } else {
                split_from(entity, crc, pos + len + 2, acc.push(fpdu))
            }
        }
    }
}

/// FPDUs of an entity.
pub open spec fn split(entity: Seq<u8>, crc: bool) -> Result<Seq<Seq<u8>>, Fault> {
    split_from(entity, crc, 0, Seq::empty())
}

/// Split a received data entity into the FPDU byte slices it contains.
///
/// When `crc` is set every FPDU is followed by two check bytes which are verified and stripped.
/// Returns the FPDU slices (each starting with its own length field).
pub fn split_entity(entity: &[u8], crc: bool) -> (r: Result<Vec<&[u8]>, DecodeError>)
    ensures
        r matches Ok(v) ==> split(entity@, crc) == Ok::<_, Fault>(byte_slices(v@)),
        r matches Err(e) ==> split(entity@, crc) == Err::<Seq<Seq<u8>>, Fault>(e@),
{
    let mut out: Vec<&[u8]> = Vec::new();
    let mut pos: usize = 0;
    proof {
        assert(byte_slices(out@) =~= Seq::empty());
    }
    while pos < entity.len()
        invariant
            pos <= entity.len(),
            split(entity@, crc) == split_from(entity@, crc, pos as int, byte_slices(out@)),
        decreases entity.len() - pos,
    {
        let ghost before = byte_slices(out@);
        let left: usize = entity.len() - pos;
        if left < HEADER_LEN {
            let mut detail = String::new();
            push_decimal(&mut detail, left as u64);
            proof {
                assert(detail@ =~= dec(left as nat));
            }
            detail.append(" trailing bytes cannot form a FPDU");
            return Err(DecodeError { diag: Diagnostic::remote_protocol_error(), detail });
        }
        let len: usize = entity[pos] as usize * 256 + entity[pos + 1] as usize;
        if len < HEADER_LEN || len > left {
            let mut detail = "invalid FPDU length ".to_owned();
            push_decimal(&mut detail, len as u64);
            detail.append(" at offset ");
            push_decimal(&mut detail, pos as u64);
            detail.append(" of a ");
            push_decimal(&mut detail, entity.len() as u64);
            detail.append(" byte entity");
            return Err(DecodeError { diag: Diagnostic::remote_protocol_error(), detail });
        }
        let fpdu = vstd::slice::slice_subrange(entity, pos, pos + len);
        if crc {
            if left - len < crc::CRC_LEN {
                return Err(
                    DecodeError {
                        diag: Diagnostic::transmission_error(),
                        detail: "missing CRC after FPDU".to_owned(),
                    },
                );
            }
            let with_crc = vstd::slice::slice_subrange(entity, pos, pos + len + crc::CRC_LEN);
            if !crc::verify(with_crc) {
                return Err(
                    DecodeError {
                        diag: Diagnostic::transmission_error(),
                        detail: "CRC error".to_owned(),
                    },
                );
            }
            pos = pos + len + crc::CRC_LEN;
        } else {
            pos = pos + len;
        }
        out.push(fpdu);
        proof {
            assert(byte_slices(out@) =~= before.push(fpdu@));
        }
    }
    Ok(out)
}

/// Strict readings of FPDUs, behind those of `acc`; the first failure ends it.
pub open spec fn decoded_all(parts: Seq<Seq<u8>>, acc: Seq<FpduV>) -> Result<Seq<FpduV>, Fault>
    decreases parts.len(),
{
    if parts.len() == 0 {
        Ok(acc)
    } else {
        match FpduV::decoded(parts[0], true) {
            Ok(f) => decoded_all(parts.skip(1), acc.push(f)),
            Err(e) => Err(e),
        }
    }
}

/// FPDUs that an entity stands for.
pub open spec fn decoded_entity(entity: Seq<u8>, crc: bool) -> Result<Seq<FpduV>, Fault> {
    match split(entity, crc) {
        Ok(parts) => decoded_all(parts, Seq::empty()),
        Err(e) => Err(e),
    }
}

/// Decode every FPDU of an entity (strict template validation).
pub fn decode_entity(entity: &[u8], crc: bool) -> (r: Result<Vec<Fpdu>, DecodeError>)
    ensures
        r matches Ok(v) ==> decoded_entity(entity@, crc) == Ok::<_, Fault>(fpdus_view(v@)),
        r matches Err(e) ==> decoded_entity(entity@, crc) == Err::<Seq<FpduV>, Fault>(e@),
{
    let parts = match split_entity(entity, crc) {
        Ok(v) => v,
        Err(e) => {
            return Err(e);
        },
    };
    let ghost list = byte_slices(parts@);
    let mut out: Vec<Fpdu> = Vec::new();
    let mut i: usize = 0;
    proof {
        assert(fpdus_view(out@) =~= Seq::empty());
        assert(list.skip(0) =~= list);
    }
    while i < parts.len()
        invariant
            i <= parts.len(),
            list == byte_slices(parts@),
            decoded_entity(entity@, crc) == decoded_all(list.skip(i as int), fpdus_view(out@)),
        decreases parts.len() - i,
    {
        let ghost before = fpdus_view(out@);
        proof {
            assert(list.skip(i as int)[0] == parts@[i as int]@);
            assert(list.skip(i as int).skip(1) =~= list.skip(i + 1));
        }
        match Fpdu::decode(parts[i]) {
            Ok(f) => {
                let ghost fv = f@;
                out.push(f);
                proof {
                    assert(fpdus_view(out@) =~= before.push(fv));
                }
            },
            Err(e) => {
                return Err(e);
            },
        }
        i += 1;
    }
    proof {
        assert(list.skip(i as int) =~= Seq::empty());
    }
    Ok(out)
}

/// What a FPDU of the given wire form adds to an entity.
pub open spec fn framed(fpdu: Seq<u8>, crc: bool) -> Seq<u8> {
    if crc {
        fpdu + check_bytes(fpdu)
    } else {
        fpdu
    }
}

/// State of an entity builder.
#[verifier::ext_equal]
pub struct EntityV {
    /// Entity accumulated so far.
    pub bytes: Seq<u8>,
    /// Largest entity.
    pub max_len: nat,
    /// Whether FPDUs carry check bytes.
    pub crc: bool,
    /// Number of FPDUs accumulated.
    pub count: nat,
}

impl EntityV {
    /// Bytes that a FPDU of `n` bytes occupies.
    pub open spec fn cost(self, n: nat) -> nat {
        if self.crc {
            n + crc::CRC_LEN as nat
        } else {
            n
        }
    }

    /// Whether a FPDU of `n` bytes still fits; with check bytes nothing is concatenated.
    pub open spec fn fits(self, n: nat) -> bool {
        !(self.crc && self.count > 0) && self.bytes.len() + self.cost(n) <= self.max_len
    }
}

/// A count increased by one, up to the largest machine number.
pub open spec fn counted(n: nat) -> nat {
    if n < usize::MAX {
        n + 1
    } else {
        n
    }
}

/// Builder accumulating FPDUs into one data entity bounded by the negotiated entity size.
#[derive(Debug)]
pub struct EntityBuilder {
    buf: Vec<u8>,
    max_len: usize,
    crc: bool,
    count: usize,
}

impl View for EntityBuilder {
    type V = EntityV;

    closed spec fn view(&self) -> EntityV {
        EntityV {
            bytes: self.buf@,
            max_len: self.max_len as nat,
            crc: self.crc,
            count: self.count as nat,
        }
    }
}

impl EntityBuilder {
    /// Create a builder for entities of at most `max_len` bytes (PI 25).
    #[must_use]
    pub fn new(max_len: usize, crc: bool) -> (r: Self)
        ensures
            r@ == (EntityV { bytes: Seq::empty(), max_len: max_len as nat, crc, count: 0 }),
    {
        let r = EntityBuilder { buf: Vec::new(), max_len, crc, count: 0 };
        proof {
            assert(r@.bytes =~= Seq::empty());
        }
        r
    }

    /// Bytes an encoded FPDU of `fpdu_len` bytes occupies in the entity.
    #[must_use]
    pub fn cost(&self, fpdu_len: usize) -> (r: usize)
        ensures
            r == clamp_usize(self@.cost(fpdu_len as nat)),
    {
        if self.crc {
            fpdu_len.saturating_add(crc::CRC_LEN)
        } else {
            fpdu_len
        }
    }

    /// Whether an FPDU of `fpdu_len` bytes still fits. With CRC no concatenation is allowed.
    #[must_use]
    pub fn fits(&self, fpdu_len: usize) -> (r: bool)
        ensures
            r == self@.fits(fpdu_len as nat),
    {
        if self.crc && self.count > 0 {
            return false;
        }
        if self.buf.len() > self.max_len {
            return false;
        }
        let room: usize = self.max_len - self.buf.len();
        if self.crc {
            room >= crc::CRC_LEN && fpdu_len <= room - crc::CRC_LEN
        } else {
            fpdu_len <= room
        }
    }

    /// Largest FPDU length that can still be appended.
    #[must_use]
    pub fn remaining(&self) -> (r: usize)
        ensures
            r > 0 ==> self@.fits(r as nat) && !self@.fits(r as nat + 1),
            r == 0 ==> !self@.fits(1),
    {
        if self.crc && self.count > 0 {
            return 0;
        }
        let room: usize = self.max_len.saturating_sub(self.buf.len());
        if self.crc {
            room.saturating_sub(crc::CRC_LEN)
        } else {
            room
        }
    }

    /// Append an already encoded FPDU (must fit; check with [`fits`](Self::fits)).
    pub fn push_encoded(&mut self, fpdu: &[u8])
        requires
            old(self)@.fits(fpdu@.len()),
        ensures
            final(self)@ == (EntityV {
                bytes: old(self)@.bytes + framed(fpdu@, old(self)@.crc),
                count: counted(old(self)@.count),
                ..old(self)@
            }),
            final(self)@.bytes.len() <= final(self)@.max_len,
    {
        self.buf.extend_from_slice(fpdu);
        if self.crc {
            let c = crc::compute(fpdu);
            self.buf.push(c[0]);
            self.buf.push(c[1]);
        }
        self.count = self.count.saturating_add(1);
        proof {
            law_appended_check_bytes_verify(fpdu@);
            assert(self@.bytes =~= old(self)@.bytes + framed(fpdu@, old(self)@.crc));
        }
    }

    /// Encode and append an FPDU. When a parameter has an empty value, the header and the
    /// parameters before it stay in the entity.
    pub fn push(&mut self, fpdu: &Fpdu) -> (r: Result<(), EncodeError>)
        ensures
            r is Ok <==> fpdu@.encode_error() is None,
            r matches Err(e) ==> fpdu@.encode_error() == Some(e),
            r is Ok ==> final(self)@ == (EntityV {
                bytes: old(self)@.bytes + framed(fpdu@.encoding(), old(self)@.crc),
                count: counted(old(self)@.count),
                ..old(self)@
            }),
            r matches Err(EncodeError::TooLong(_)) ==> final(self)@ == old(self)@,
            r matches Err(EncodeError::EmptyValue(_)) ==> final(self)@ == (EntityV {
                bytes: old(self)@.bytes + fpdu@.header() + params_bytes_before_empty(fpdu@.params),
                ..old(self)@
            }),
    {
        let start: usize = self.buf.len();
        match fpdu.encode_into(&mut self.buf) {
            Ok(()) => {},
            Err(e) => {
                return Err(e);
            },
        }
        if self.crc {
            let part = vstd::slice::slice_subrange(self.buf.as_slice(), start, self.buf.len());
            proof {
                assert(part@ =~= fpdu@.encoding());
            }
            let c = crc::compute(part);
            self.buf.push(c[0]);
            self.buf.push(c[1]);
        }
        self.count = self.count.saturating_add(1);
        proof {
            assert(self@.bytes =~= old(self)@.bytes + framed(fpdu@.encoding(), old(self)@.crc));
        }
        Ok(())
    }

    /// Number of FPDUs accumulated.
    #[must_use]
    pub fn count(&self) -> (r: usize)
        ensures
            r == self@.count,
    {
        self.count
    }

    /// Whether nothing was accumulated.
    #[must_use]
    pub fn is_empty(&self) -> (r: bool)
        ensures
            r == (self@.count == 0),
    {
        self.count == 0
    }

    /// Current entity length.
    #[must_use]
    pub fn len(&self) -> (r: usize)
        ensures
            r == self@.bytes.len(),
    {
        self.buf.len()
    }

    /// Take the accumulated entity, leaving the builder empty.
    pub fn take(&mut self) -> (r: Vec<u8>)
        ensures
            r@ == old(self)@.bytes,
            final(self)@ == (EntityV { bytes: Seq::empty(), count: 0, ..old(self)@ }),
    {
        self.count = 0;
        let mut out: Vec<u8> = Vec::new();
        out.append(&mut self.buf);
        proof {
            assert(out@ =~= old(self)@.bytes);
            assert(self@.bytes =~= Seq::empty());
        }
        out
    }
}

/// Encode a single FPDU as its own entity (with CRC if negotiated).
pub fn single_entity(fpdu: &Fpdu, crc: bool) -> (r: Result<Vec<u8>, EncodeError>)
    ensures
        r is Ok <==> fpdu@.encode_error() is None,
        r matches Ok(v) ==> v@ == framed(fpdu@.encoding(), crc),
        r matches Err(e) ==> fpdu@.encode_error() == Some(e),
{
    let mut v = match fpdu.encode() {
        Ok(v) => v,
        Err(e) => {
            return Err(e);
        },
    };
    if crc {
        crc::append(&mut v);
    }
    Ok(v)
}

/// Peek the kind of the first FPDU of an entity.
#[must_use]
pub fn peek_kind(entity: &[u8]) -> (r: Option<FpduKind>)
    ensures
        r == if entity@.len() < 4 {
            None
        } else {
            FpduKind::spec_from_codes(entity@[2], entity@[3])
        },
{
    if entity.len() < 4 {
        None
    } else {
        FpduKind::from_codes(entity[2], entity[3])
    }
}

/// Entity of a sequence of FPDUs.
pub open spec fn entity_of(fpdus: Seq<FpduV>, crc: bool) -> Seq<u8>
    decreases fpdus.len(),
{
    if fpdus.len() == 0 {
        seq![]
    } else {
        entity_of(fpdus.drop_last(), crc) + framed(fpdus.last().encoding(), crc)
    }
}

/// Wire forms of a sequence of FPDUs.
pub open spec fn encodings(fpdus: Seq<FpduV>) -> Seq<Seq<u8>> {
    fpdus.map_values(|f: FpduV| f.encoding())
}

proof fn lemma_entity_front(fpdus: Seq<FpduV>, crc: bool)
    requires
        fpdus.len() > 0,
    ensures
        entity_of(fpdus, crc) == framed(fpdus[0].encoding(), crc) + entity_of(fpdus.skip(1), crc),
    decreases fpdus.len(),
{
    if fpdus.len() == 1 {
        assert(fpdus.drop_last() =~= Seq::empty());
        assert(fpdus.skip(1) =~= Seq::empty());
        assert(entity_of(fpdus.drop_last(), crc) =~= Seq::empty());
        assert(entity_of(fpdus, crc) =~= framed(fpdus[0].encoding(), crc) + entity_of(
            fpdus.skip(1),
            crc,
        ));
    } else {
        lemma_entity_front(fpdus.drop_last(), crc);
        assert(fpdus.drop_last().skip(1) =~= fpdus.skip(1).drop_last());
        assert(fpdus.skip(1).last() == fpdus.last());
        assert(entity_of(fpdus, crc) =~= framed(fpdus[0].encoding(), crc) + entity_of(
            fpdus.skip(1),
            crc,
        ));
    }
}

proof fn lemma_split_from(
    entity: Seq<u8>,
    crc: bool,
    pos: int,
    fpdus: Seq<FpduV>,
    acc: Seq<Seq<u8>>,
)
    requires
        0 <= pos <= entity.len(),
        entity.skip(pos) == entity_of(fpdus, crc),
        forall|i: int| 0 <= i < fpdus.len() ==> (#[trigger] fpdus[i]).wire_len() <= MAX_FPDU_LEN,
    ensures
        split_from(entity, crc, pos, acc) == Ok::<_, Fault>(acc + encodings(fpdus)),
    decreases fpdus.len(),
{
    if fpdus.len() == 0 {
        assert(entity.skip(pos).len() == 0);
        assert(acc + encodings(fpdus) =~= acc);
    } else {
        let f = fpdus[0];
        let enc = f.encoding();
        let piece = framed(enc, crc);
        let len = enc.len() as int;
        lemma_entity_front(fpdus, crc);
        law_appended_check_bytes_verify(enc);
        let rest = entity.skip(pos);
        assert(rest[0] == enc[0] && rest[1] == enc[1]);
        assert(entity[pos] == rest[0] && entity[pos + 1] == rest[1]);
        assert(entity[pos] * 256 + entity[pos + 1] == len);
        assert(entity.subrange(pos, pos + len) =~= enc) by {
            assert forall|i: int| 0 <= i < len implies entity.subrange(pos, pos + len)[i]
                == enc[i] by {
                assert(rest[i] == piece[i]);
            }
        }
        if crc {
            assert(entity.subrange(pos, pos + len + 2) =~= piece) by {
                assert forall|i: int| 0 <= i < len + 2 implies entity.subrange(
                    pos,
                    pos + len + 2,
                )[i] == piece[i] by {
                    assert(rest[i] == piece[i]);
                }
            }
        }
        let next = pos + piece.len();
        assert(entity.skip(next) =~= rest.skip(piece.len() as int));
        assert(rest.skip(piece.len() as int) =~= entity_of(fpdus.skip(1), crc));
        assert(acc.push(enc) + encodings(fpdus.skip(1)) =~= acc + encodings(fpdus));
        assert forall|i: int| 0 <= i < fpdus.skip(1).len() implies (
        #[trigger] fpdus.skip(1)[i]).wire_len() <= MAX_FPDU_LEN by {
            assert(fpdus.skip(1)[i] == fpdus[i + 1]);
        }
        lemma_split_from(entity, crc, next, fpdus.skip(1), acc.push(enc));
    }
}

/// An entity is split into the FPDUs that were concatenated in it, with or without check bytes.
pub proof fn law_split_undoes_concatenation(fpdus: Seq<FpduV>, crc: bool)
    requires
        forall|i: int| 0 <= i < fpdus.len() ==> (#[trigger] fpdus[i]).wire_len() <= MAX_FPDU_LEN,
    ensures
        split(entity_of(fpdus, crc), crc) == Ok::<_, Fault>(encodings(fpdus)),
{
    let entity = entity_of(fpdus, crc);
    assert(entity.skip(0) =~= entity);
    assert(Seq::empty() + encodings(fpdus) =~= encodings(fpdus));
    lemma_split_from(entity, crc, 0, fpdus, Seq::empty());
}

proof fn lemma_decoded_all(fpdus: Seq<FpduV>, acc: Seq<FpduV>)
    requires
        forall|i: int|
            0 <= i < fpdus.len() ==> well_formed(#[trigger] fpdus[i], true) && fpdus[i].wire_len()
                <= MAX_FPDU_LEN,
    ensures
        decoded_all(encodings(fpdus), acc) == Ok::<_, Fault>(acc + fpdus),
    decreases fpdus.len(),
{
    if fpdus.len() == 0 {
        assert(acc + fpdus =~= acc);
    } else {
        let f = fpdus[0];
        law_decode_inverts_encode(f, true);
        assert(encodings(fpdus)[0] == f.encoding());
        assert(encodings(fpdus).skip(1) =~= encodings(fpdus.skip(1)));
        assert(acc.push(f) + fpdus.skip(1) =~= acc + fpdus);
        assert forall|i: int| 0 <= i < fpdus.skip(1).len() implies well_formed(
            #[trigger] fpdus.skip(1)[i],
            true,
        ) && fpdus.skip(1)[i].wire_len() <= MAX_FPDU_LEN by {
            assert(fpdus.skip(1)[i] == fpdus[i + 1]);
        }
        lemma_decoded_all(fpdus.skip(1), acc.push(f));
    }
}

/// The receiver of an entity gets the very FPDUs that the sender put in it.
pub proof fn law_entities_are_received(fpdus: Seq<FpduV>, crc: bool)
    requires
        forall|i: int|
            0 <= i < fpdus.len() ==> well_formed(#[trigger] fpdus[i], true) && fpdus[i].wire_len()
                <= MAX_FPDU_LEN,
    ensures
        decoded_entity(entity_of(fpdus, crc), crc) == Ok::<_, Fault>(fpdus),
{
    law_split_undoes_concatenation(fpdus, crc);
    lemma_decoded_all(fpdus, Seq::empty());
    assert(Seq::empty() + fpdus =~= fpdus);
}

/// Adding a FPDU to the entity of a sequence gives the entity of the longer sequence; the entity
/// of one FPDU is its own frame.
pub proof fn law_entity_grows_by_frames(fpdus: Seq<FpduV>, f: FpduV, crc: bool)
    ensures
        entity_of(fpdus.push(f), crc) == entity_of(fpdus, crc) + framed(f.encoding(), crc),
        entity_of(seq![f], crc) == framed(f.encoding(), crc),
{
    assert(fpdus.push(f).drop_last() =~= fpdus);
    assert(seq![f].drop_last() =~= Seq::empty());
    assert(entity_of(seq![f].drop_last(), crc) =~= Seq::empty());
    assert(entity_of(seq![f], crc) =~= framed(f.encoding(), crc));
}

} // verus!
