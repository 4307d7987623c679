//! How everything looks on the wire, byte for byte: lengths come first and with their high byte in
//! front, numbers are as short as they can be, and texts take a byte for every character.

use crate::article::{joined, segments, PackerV};
use crate::builder::diag_fpdu;
use crate::compress::Piece;
use crate::crc::{byte_sum, check_bytes, checks, running_sum};
use crate::diag::Diagnostic;
use crate::fpdu::{
    num_bytes, params_bytes, spec_unit_len, text_bytes, unit_bytes, FpduV, ParamV, HEADER_LEN,
};
use crate::frame::framed;
use crate::kind::FpduKind;
use crate::params::{Compression, SyncOption};
use crate::pi::{Pgi, Pi};
use crate::text::trimmed_end;
use crate::transport::{stream_bytes, Framing};
use vstd::prelude::*;

verus! {

/// The two bytes of a length, the high one first.
pub open spec fn two_bytes(n: nat) -> Seq<u8> {
    seq![(n / 256) as u8, (n % 256) as u8]
}

/// A FPDU begins with its length in two bytes, its phase and its type, and the identifiers of the
/// destination and of the source; behind these six bytes stands its content.
pub proof fn law_fpdus_begin_with_their_header(f: FpduV)
    requires
        f.wire_len() <= 0xFFFF,
    ensures
        f.encoding() == two_bytes(f.encoding().len()) + seq![
            f.kind.spec_phase(),
            f.kind.spec_type_code(),
            f.id_dst,
            f.id_src,
        ] + if f.kind.spec_is_data() {
            f.data
        } else {
            params_bytes(f.params)
        },
        f.encoding().len() == 6 + if f.kind.spec_is_data() {
            f.data.len()
        } else {
            params_bytes(f.params).len()
        },
{
    assert(f.encoding() =~= two_bytes(f.encoding().len()) + seq![
        f.kind.spec_phase(),
        f.kind.spec_type_code(),
        f.id_dst,
        f.id_src,
    ] + if f.kind.spec_is_data() {
        f.data
    } else {
        params_bytes(f.params)
    });
}

/// A parameter is its code, the length of its value and the value; a length of 255 or more takes
/// two bytes behind a byte 255. Parameters stand one behind the other.
pub proof fn law_parameters_are_laid_out(code: u8, value: Seq<u8>, params: Seq<ParamV>, p: ParamV)
    ensures
        value.len() < 255 ==> unit_bytes(code, value) == seq![code, value.len() as u8] + value,
        255 <= value.len() <= 0xFFFF ==> unit_bytes(code, value) == seq![code, 255u8] + two_bytes(
            value.len(),
        ) + value,
        unit_bytes(code, value).len() == spec_unit_len(value.len()),
        params_bytes(params.push(p)) == params_bytes(params) + p.bytes(),
        params_bytes(Seq::empty()).len() == 0,
        p matches ParamV::Pi { pi, value } ==> p.bytes() == unit_bytes(pi.spec_code(), value),
{
    assert(params.push(p).drop_last() =~= params);
    if value.len() < 255 {
        assert(unit_bytes(code, value) =~= seq![code, value.len() as u8] + value);
    } else if value.len() <= 0xFFFF {
        assert(unit_bytes(code, value) =~= seq![code, 255u8] + two_bytes(value.len()) + value);
    }
}

/// A number takes as few bytes as it can, one at least, with the high one first.
pub proof fn law_numbers_are_short(n: nat)
    ensures
        n < 256 ==> num_bytes(n) == seq![n as u8],
        256 <= n < 65536 ==> num_bytes(n) == two_bytes(n),
        n >= 256 ==> num_bytes(n) == num_bytes(n / 256).push((n % 256) as u8),
        n > 0 ==> num_bytes(n)[0] != 0,
    decreases n,
{
    if n >= 256 {
        law_numbers_are_short(n / 256);
        assert(num_bytes(n)[0] == num_bytes(n / 256)[0]);
        if n < 65536 {
            assert(num_bytes(n) =~= two_bytes(n));
        }
    }
}

/// A text takes a byte for every character up to its trailing blanks: its number in ISO-8859-1, or
/// a question mark where it has none.
pub proof fn law_texts_take_a_byte_per_character(t: Seq<char>)
    ensures
        text_bytes(t).len() == trimmed_end(t).len(),
        forall|i: int|
            0 <= i < text_bytes(t).len() ==> (#[trigger] text_bytes(t)[i]) == if (trimmed_end(
                t,
            )[i] as u32) < 256 {
                trimmed_end(t)[i] as u8
            } else {
                0x3fu8
            },
{
}

/// Diagnostics, synchronisation options and compressions have their fixed forms.
pub proof fn law_options_are_laid_out(d: Diagnostic, s: SyncOption)
    ensures
        d.spec_bytes() == seq![d.kind] + two_bytes(d.code as nat),
        s.spec_bytes() == two_bytes(s.interval_kb as nat).push(s.window),
        Compression::Horizontal.spec_bytes() == seq![1u8, 1],
        Compression::Vertical.spec_bytes() == seq![1u8, 2],
        Compression::Mixed.spec_bytes() == seq![1u8, 3],
        Compression::Off.spec_bytes() == seq![0u8, 0],
{
    assert(d.spec_bytes() =~= seq![d.kind] + two_bytes(d.code as nat));
    assert(s.spec_bytes() =~= two_bytes(s.interval_kb as nat).push(s.window));
}

/// Articles that share a FPDU stand one behind the other, each behind its length in two bytes; the
/// FPDU says how many there are, and a single article stands alone.
pub proof fn law_shared_fpdus_are_laid_out(p: PackerV, list: Seq<Seq<u8>>, a: Seq<u8>)
    ensures
        joined(Seq::empty()).len() == 0,
        a.len() <= 0xFFFF ==> joined(list.push(a)) == joined(list) + two_bytes(a.len()) + a,
        p.pending.len() == 0 ==> p.flushed().len() == 0,
        p.pending.len() == 1 ==> p.flushed().len() == 1 && p.flushed()[0].kind == FpduKind::Dtf
            && p.flushed()[0].id_src == 0 && p.flushed()[0].data == p.pending[0]
            && p.flushed()[0].id_dst == p.id_dst,
        2 <= p.pending.len() <= 255 ==> p.flushed().len() == 1 && p.flushed()[0].kind
            == FpduKind::Dtf && p.flushed()[0].id_src == p.pending.len() && p.flushed()[0].data
            == joined(p.pending) && p.flushed()[0].id_dst == p.id_dst,
{
    assert(list.push(a).drop_last() =~= list);
    if a.len() <= 0xFFFF {
        assert(joined(list.push(a)) =~= joined(list) + two_bytes(a.len()) + a);
    }
}

/// An article that is cut goes out as a first, then middle and a last part: each but the last is as
/// long as may be, and together they are the article.
pub proof fn law_segments_are_laid_out(id_dst: u8, article: Seq<u8>, m: nat)
    requires
        0 < m < article.len(),
    ensures
        ({
            let s = segments(id_dst, article, m, true);
            &&& s.len() >= 2
            &&& s[0].kind == FpduKind::DtfDa && s[0].data == article.take(m as int)
            &&& s.last().kind == FpduKind::DtfFa
            &&& forall|i: int|
                0 < i < s.len() - 1 ==> (#[trigger] s[i]).kind == FpduKind::DtfMa && s[i].data.len()
                    == m
            &&& forall|i: int| 0 <= i < s.len() ==> (#[trigger] s[i]).id_dst == id_dst
        }),
{
    let s = segments(id_dst, article, m, true);
    let tail = segments(id_dst, article.skip(m as int), m, false);
    lemma_later_segments(id_dst, article.skip(m as int), m);
    assert(s.last() == tail.last());
    assert forall|i: int| 0 < i < s.len() implies #[trigger] s[i] == tail[i - 1] by {}
}

proof fn lemma_later_segments(id_dst: u8, article: Seq<u8>, m: nat)
    requires
        m > 0,
    ensures
        ({
            let s = segments(id_dst, article, m, false);
            &&& s.len() >= 1
            &&& s.last().kind == FpduKind::DtfFa
            &&& forall|i: int|
                0 <= i < s.len() - 1 ==> (#[trigger] s[i]).kind == FpduKind::DtfMa
                    && s[i].data.len() == m
            &&& forall|i: int| 0 <= i < s.len() ==> (#[trigger] s[i]).id_dst == id_dst
        }),
    decreases article.len(),
{
    if article.len() > m {
        let s = segments(id_dst, article, m, false);
        let tail = segments(id_dst, article.skip(m as int), m, false);
        lemma_later_segments(id_dst, article.skip(m as int), m);
        assert(s.last() == tail.last());
        assert forall|i: int| 0 < i < s.len() implies #[trigger] s[i] == tail[i - 1] by {}
    }
}

/// The strings of compressed data have a byte in front that says what they are and how long: below
/// 64 literal bytes, from 128 a run, from 192 bytes of the reference.
pub proof fn law_compressed_strings_are_laid_out(s: Seq<u8>, b: u8, n: nat)
    requires
        s.len() < 64,
        n < 64,
    ensures
        Piece::Literal(s).bytes() == seq![s.len() as u8] + s,
        Piece::Run(b, n).bytes() == seq![(128 + n) as u8, b],
        Piece::Same(n).bytes() == seq![(192 + n) as u8],
{
}

/// Check bytes stand behind their FPDU, and make both sums over it vanish modulo 255: the sum of the
/// bytes, and the sum of all sums on the way.
pub proof fn law_check_bytes_make_the_sums_vanish(s: Seq<u8>, b: u8)
    ensures
        byte_sum(Seq::empty()) == 0 && running_sum(Seq::empty()) == 0,
        byte_sum(s.push(b)) == byte_sum(s) + b,
        running_sum(s.push(b)) == running_sum(s) + byte_sum(s.push(b)),
        check_bytes(s).len() == 2,
        framed(s, true) == s + check_bytes(s),
        framed(s, false) == s,
        checks(s) ==> s.len() >= 2 && byte_sum(s) % 255 == 0 && running_sum(s) % 255 == 0,
        checks(framed(s, true)),
{
    assert(s.push(b).drop_last() =~= s);
    crate::crc::law_appended_check_bytes_verify(s);
}

/// An entity stands behind its length in two bytes, or, on a raw stream, as it is.
pub proof fn law_entities_are_framed(entity: Seq<u8>)
    ensures
        entity.len() <= 0xFFFF ==> stream_bytes(Framing::LengthPrefixed, entity) == two_bytes(
            entity.len(),
        ) + entity,
        stream_bytes(Framing::Raw, entity) == entity,
{
}

/// A FPDU with a diagnostic is nothing more: its header, and PI 2 with three bytes.
pub proof fn law_diagnostics_take_five_bytes(kind: FpduKind, id_dst: u8, id_src: u8, d: Diagnostic)
    requires
        !kind.spec_is_data(),
    ensures
        diag_fpdu(kind, id_dst, id_src, d).encoding() == two_bytes(11) + seq![
            kind.spec_phase(),
            kind.spec_type_code(),
            id_dst,
            id_src,
            2u8,
            3u8,
            d.kind,
            (d.code / 256) as u8,
            (d.code % 256) as u8,
        ],
        HEADER_LEN == 6,
{
    let f = diag_fpdu(kind, id_dst, id_src, d);
    let p = ParamV::Pi { pi: Pi::Diag, value: d.spec_bytes() };
    assert(f.params =~= seq![p]) by {
        let none = Seq::<ParamV>::empty();
        crate::fpdu::lemma_insertion_point_range(none, p.spec_code());
        assert(none.insert(0, p) =~= seq![p]);
    }
    assert(seq![p].drop_last() =~= Seq::<ParamV>::empty());
    assert(params_bytes(seq![p].drop_last()) =~= Seq::<u8>::empty());
    assert(params_bytes(f.params) =~= p.bytes());
    assert(p.bytes() =~= seq![2u8, 3u8, d.kind, (d.code / 256) as u8, (d.code % 256) as u8]);
    assert(f.encoding() =~= two_bytes(11) + seq![
        kind.spec_phase(),
        kind.spec_type_code(),
        id_dst,
        id_src,
        2u8,
        3u8,
        d.kind,
        (d.code / 256) as u8,
        (d.code % 256) as u8,
    ]);
}

/// Every parameter, and every group, has its code on the wire.
pub proof fn law_parameters_have_their_codes()
    ensures
        Pi::Crc.spec_code() == 1,
        Pi::Diag.spec_code() == 2,
        Pi::Requester.spec_code() == 3,
        Pi::Server.spec_code() == 4,
        Pi::AccessControl.spec_code() == 5,
        Pi::Version.spec_code() == 6,
        Pi::SyncOption.spec_code() == 7,
        Pi::FileType.spec_code() == 11,
        Pi::FileName.spec_code() == 12,
        Pi::TransferId.spec_code() == 13,
        Pi::RequestedAttributes.spec_code() == 14,
        Pi::Restarted.spec_code() == 15,
        Pi::DataCode.spec_code() == 16,
        Pi::Priority.spec_code() == 17,
        Pi::RestartPoint.spec_code() == 18,
        Pi::EndCode.spec_code() == 19,
        Pi::SyncNumber.spec_code() == 20,
        Pi::Compression.spec_code() == 21,
        Pi::AccessType.spec_code() == 22,
        Pi::Resync.spec_code() == 23,
        Pi::MaxEntitySize.spec_code() == 25,
        Pi::Timeout.spec_code() == 26,
        Pi::ByteCount.spec_code() == 27,
        Pi::ArticleCount.spec_code() == 28,
        Pi::DiagComplement.spec_code() == 29,
        Pi::ArticleFormat.spec_code() == 31,
        Pi::ArticleLength.spec_code() == 32,
        Pi::FileOrganisation.spec_code() == 33,
        Pi::SignatureFlag.spec_code() == 34,
        Pi::SitSeal.spec_code() == 36,
        Pi::FileLabel.spec_code() == 37,
        Pi::KeyLength.spec_code() == 38,
        Pi::KeyOffset.spec_code() == 39,
        Pi::ReservationUnit.spec_code() == 41,
        Pi::MaxReservation.spec_code() == 42,
        Pi::CreationDate.spec_code() == 51,
        Pi::ExtractionDate.spec_code() == 52,
        Pi::ClientId.spec_code() == 61,
        Pi::BankId.spec_code() == 62,
        Pi::FileAccessControl.spec_code() == 63,
        Pi::ServerDate.spec_code() == 64,
        Pi::AuthType.spec_code() == 71,
        Pi::AuthElements.spec_code() == 72,
        Pi::SealType.spec_code() == 73,
        Pi::SealElements.spec_code() == 74,
        Pi::CipherType.spec_code() == 75,
        Pi::CipherElements.spec_code() == 76,
        Pi::SignatureType.spec_code() == 77,
        Pi::Seal.spec_code() == 78,
        Pi::Signature.spec_code() == 79,
        Pi::Accreditation.spec_code() == 80,
        Pi::SignatureAck.spec_code() == 81,
        Pi::SecondSignature.spec_code() == 82,
        Pi::SecondAccreditation.spec_code() == 83,
        Pi::Message.spec_code() == 91,
        Pi::FreeMessage.spec_code() == 99,
        Pgi::FileId.spec_code() == 9,
        Pgi::LogicalAttributes.spec_code() == 30,
        Pgi::PhysicalAttributes.spec_code() == 40,
        Pgi::HistoricalAttributes.spec_code() == 50,
{
}

} // verus!
