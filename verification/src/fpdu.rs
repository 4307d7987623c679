//! FPDU (File transfer Protocol Data Unit) structure, encoding and decoding.

use crate::diag::Diagnostic;
use crate::kind::ParamRule;
use crate::pi::{Pgi, Pi, ValueKind};
use crate::text::{
    dec, hex_pair, hex_string, hex_text, is_white_space, push_decimal, push_hex_byte, trimmed_end,
    trimmed_end_len,
};
use vstd::prelude::*;
use vstd::string::StringExecFns;

pub use crate::kind::FpduKind;

verus! {

/// Size of the fixed FPDU header (length, phase, type, id.dst, id.src).
pub const HEADER_LEN: usize = 6;

/// Largest FPDU length representable in the 2-byte length field.
pub const MAX_FPDU_LEN: usize = 0xFFFF;

/// A parameter unit: either a single PI or a PGI containing PIs.
#[derive(Debug, PartialEq, Eq)]
pub enum Param {
    /// Single parameter.
    Pi {
        /// Identifier.
        pi: Pi,
        /// Raw value.
        value: Vec<u8>,
    },
    /// Parameter group.
    Pgi {
        /// Group identifier.
        pgi: Pgi,
        /// Contained parameters in canonical order.
        items: Vec<(Pi, Vec<u8>)>,
    },
}

/// A decoded (or to-be-encoded) FPDU.
#[derive(Debug, PartialEq, Eq)]
pub struct Fpdu {
    /// Kind (phase + type).
    pub kind: FpduKind,
    /// Octet 5: connection identifier at the destination.
    pub id_dst: u8,
    /// Octet 6: connection identifier at the source, or number of articles for a multi-article DTF.
    pub id_src: u8,
    /// Parameters in canonical (ascending code) order. Empty for data FPDUs.
    pub params: Vec<Param>,
    /// Raw content of data FPDUs (file data), empty otherwise.
    pub data: Vec<u8>,
}

/// Error returned when a FPDU cannot be decoded.
#[derive(Debug, PartialEq, Eq)]
pub struct DecodeError {
    /// Diagnostic to report to the peer (318 for parameter problems, 311 for structural ones).
    pub diag: Diagnostic,
    /// Human readable detail.
    pub detail: String,
}

/// Encoding error.
#[derive(Debug, Clone, Copy, PartialEq, Eq, Structural)]
pub enum EncodeError {
    /// The FPDU exceeds 65535 bytes.
    TooLong(usize),
    /// A parameter has an empty value (LI = 0 is forbidden).
    EmptyValue(u8),
}

/// Items of a parameter group.
pub type Items = Seq<(Pi, Seq<u8>)>;

/// Value of a parameter unit.
#[verifier::ext_equal]
pub enum ParamV {
    /// Single parameter.
    Pi { pi: Pi, value: Seq<u8> },
    /// Parameter group.
    Pgi { pgi: Pgi, items: Items },
}

/// Value of a FPDU.
#[verifier::ext_equal]
pub struct FpduV {
    /// Kind.
    pub kind: FpduKind,
    /// Connection identifier at the destination.
    pub id_dst: u8,
    /// Connection identifier at the source.
    pub id_src: u8,
    /// Parameters.
    pub params: Seq<ParamV>,
    /// File data.
    pub data: Seq<u8>,
}

/// A decoding failure: the diagnostic for the peer and the detail text.
pub type Fault = (Diagnostic, Seq<char>);

/// Values of group items.
pub open spec fn items_view(items: Seq<(Pi, Vec<u8>)>) -> Items {
    items.map_values(|t: (Pi, Vec<u8>)| (t.0, t.1@))
}

/// Values of parameters.
pub open spec fn params_view(params: Seq<Param>) -> Seq<ParamV> {
    params.map_values(|p: Param| p@)
}

impl View for Param {
    type V = ParamV;

    open spec fn view(&self) -> ParamV {
        match self {
            Param::Pi { pi, value } => ParamV::Pi { pi: *pi, value: value@ },
            Param::Pgi { pgi, items } => ParamV::Pgi { pgi: *pgi, items: items_view(items@) },
        }
    }
}

impl View for Fpdu {
    type V = FpduV;

    open spec fn view(&self) -> FpduV {
        FpduV {
            kind: self.kind,
            id_dst: self.id_dst,
            id_src: self.id_src,
            params: params_view(self.params@),
            data: self.data@,
        }
    }
}

impl View for DecodeError {
    type V = Fault;

    open spec fn view(&self) -> Fault {
        (self.diag, self.detail@)
    }
}

// ---- wire format ----

/// Length indicator of a unit: one byte below 255, otherwise 255 and two bytes.
pub open spec fn len_prefix(n: nat) -> Seq<u8> {
    if n < 255 {
        seq![n as u8]
    } else {
        seq![255u8, (n / 256) as u8, (n % 256) as u8]
    }
}

/// Wire form of one parameter unit.
pub open spec fn unit_bytes(code: u8, value: Seq<u8>) -> Seq<u8> {
    seq![code] + len_prefix(value.len()) + value
}

/// Size of a unit with a value of `n` bytes.
pub open spec fn spec_unit_len(n: nat) -> nat {
    1 + (if n < 255 {
        1nat
    } else {
        3nat
    }) + n
}

/// Wire form of the items of a group.
pub open spec fn items_bytes(items: Items) -> Seq<u8>
    decreases items.len(),
{
    if items.len() == 0 {
        seq![]
    } else {
        items_bytes(items.drop_last()) + unit_bytes(items.last().0.spec_code(), items.last().1)
    }
}

impl ParamV {
    /// Wire code of the unit.
    pub open spec fn spec_code(self) -> u8 {
        match self {
            ParamV::Pi { pi, .. } => pi.spec_code(),
            ParamV::Pgi { pgi, .. } => pgi.spec_code(),
        }
    }

    /// Content of the unit: the value, or the items of the group.
    pub open spec fn content(self) -> Seq<u8> {
        match self {
            ParamV::Pi { value, .. } => value,
            ParamV::Pgi { items, .. } => items_bytes(items),
        }
    }

    /// Wire form of the unit.
    pub open spec fn bytes(self) -> Seq<u8> {
        unit_bytes(self.spec_code(), self.content())
    }

    /// Code of the first empty value in the unit.
    pub open spec fn first_empty(self) -> Option<u8> {
        match self {
            ParamV::Pi { pi, value } => if value.len() == 0 {
                Some(pi.spec_code())
            } else {
                None
            },
            ParamV::Pgi { items, .. } => first_empty_item(items),
        }
    }
}

/// Code of the first item with an empty value.
pub open spec fn first_empty_item(items: Items) -> Option<u8>
    decreases items.len(),
{
    if items.len() == 0 {
        None
    } else if first_empty_item(items.drop_last()) is Some {
        first_empty_item(items.drop_last())
    } else if items.last().1.len() == 0 {
        Some(items.last().0.spec_code())
    } else {
        None
    }
}

/// Code of the first empty value of a parameter list.
pub open spec fn first_empty(params: Seq<ParamV>) -> Option<u8>
    decreases params.len(),
{
    if params.len() == 0 {
        None
    } else if first_empty(params.drop_last()) is Some {
        first_empty(params.drop_last())
    } else {
        params.last().first_empty()
    }
}

/// Wire form of a parameter list.
pub open spec fn params_bytes(params: Seq<ParamV>) -> Seq<u8>
    decreases params.len(),
{
    if params.len() == 0 {
        seq![]
    } else {
        params_bytes(params.drop_last()) + params.last().bytes()
    }
}

/// Wire form of the parameters that stand before the first one with an empty value.
pub open spec fn params_bytes_before_empty(params: Seq<ParamV>) -> Seq<u8>
    decreases params.len(),
{
    if first_empty(params) is None || params.len() == 0 {
        params_bytes(params)
    } else {
        params_bytes_before_empty(params.drop_last())
    }
}

impl FpduV {
    /// Content after the header.
    pub open spec fn body(self) -> Seq<u8> {
        if self.kind.spec_is_data() {
            self.data
        } else {
            params_bytes(self.params)
        }
    }

    /// Total encoded length.
    pub open spec fn wire_len(self) -> nat {
        HEADER_LEN as nat + self.body().len()
    }

    /// The fixed header.
    pub open spec fn header(self) -> Seq<u8> {
        seq![
            (self.wire_len() / 256) as u8,
            (self.wire_len() % 256) as u8,
            self.kind.spec_phase(),
            self.kind.spec_type_code(),
            self.id_dst,
            self.id_src,
        ]
    }

    /// Wire form of the FPDU.
    pub open spec fn encoding(self) -> Seq<u8> {
        self.header() + self.body()
    }

    /// The reason for which the FPDU has no wire form, if any.
    pub open spec fn encode_error(self) -> Option<EncodeError> {
        if self.wire_len() > MAX_FPDU_LEN {
            Some(EncodeError::TooLong(clamp_usize(self.wire_len())))
        } else if self.kind.spec_is_data() {
            None
        } else {
            match first_empty(self.params) {
                Some(code) => Some(EncodeError::EmptyValue(code)),
                None => None,
            }
        }
    }
}

/// A length as a machine number: `usize::MAX` stands for every length that does not fit.
pub open spec fn clamp_usize(n: nat) -> usize {
    if n <= usize::MAX {
        n as usize
    } else {
        usize::MAX
    }
}

pub(crate) proof fn lemma_items_prefix(items: Items, n: int)
    requires
        0 <= n < items.len(),
    ensures
        items.take(n + 1).drop_last() == items.take(n),
        items.take(n + 1).last() == items[n],
{
    assert(items.take(n + 1).drop_last() =~= items.take(n));
}

pub(crate) proof fn lemma_params_prefix(params: Seq<ParamV>, n: int)
    requires
        0 <= n < params.len(),
    ensures
        params.take(n + 1).drop_last() == params.take(n),
        params.take(n + 1).last() == params[n],
{
    assert(params.take(n + 1).drop_last() =~= params.take(n));
}

/// The wire form of a list is at least as long as that of any prefix.
proof fn lemma_params_bytes_monotone(params: Seq<ParamV>, n: int)
    requires
        0 <= n <= params.len(),
    ensures
        params_bytes(params.take(n)).len() <= params_bytes(params).len(),
    decreases params.len() - n,
{
    if n == params.len() {
        assert(params.take(n) =~= params);
    } else {
        lemma_params_bytes_monotone(params, n + 1);
        lemma_params_prefix(params, n);
    }
}

/// The wire form of the items of a group is at least as long as that of any prefix.
proof fn lemma_items_bytes_monotone(items: Items, n: int)
    requires
        0 <= n <= items.len(),
    ensures
        items_bytes(items.take(n)).len() <= items_bytes(items).len(),
    decreases items.len() - n,
{
    if n == items.len() {
        assert(items.take(n) =~= items);
    } else {
        lemma_items_bytes_monotone(items, n + 1);
        lemma_items_prefix(items, n);
    }
}

/// Once a value is empty in a prefix, it stays the first one.
proof fn lemma_first_empty_stable(params: Seq<ParamV>, n: int)
    requires
        0 <= n <= params.len(),
        first_empty(params.take(n)) is Some,
    ensures
        first_empty(params) == first_empty(params.take(n)),
        params_bytes_before_empty(params) == params_bytes_before_empty(params.take(n)),
    decreases params.len() - n,
{
    if n == params.len() {
        assert(params.take(n) =~= params);
    } else {
        lemma_params_prefix(params, n);
        lemma_first_empty_stable(params, n + 1);
    }
}

proof fn lemma_first_empty_item_stable(items: Items, n: int)
    requires
        0 <= n <= items.len(),
        first_empty_item(items.take(n)) is Some,
    ensures
        first_empty_item(items) == first_empty_item(items.take(n)),
    decreases items.len() - n,
{
    if n == items.len() {
        assert(items.take(n) =~= items);
    } else {
        lemma_items_prefix(items, n);
        lemma_first_empty_item_stable(items, n + 1);
    }
}

fn saturating_unit_len(n: usize) -> (r: usize)
    ensures
        r == clamp_usize(spec_unit_len(n as nat)),
{
    n.saturating_add(if n < 255 { 2 } else { 4 })
}

/// Copy `src` behind `out`.
fn push_all(out: &mut Vec<u8>, src: &[u8])
    ensures
        final(out)@ == old(out)@ + src@,
{
    out.extend_from_slice(src);
    proof {
        assert(out@ =~= old(out)@ + src@);
    }
}

fn push_unit(out: &mut Vec<u8>, code: u8, value: &[u8])
    requires
        value.len() <= 0xFFFF,
    ensures
        final(out)@ == old(out)@ + unit_bytes(code, value@),
{
    out.push(code);
    if value.len() < 255 {
        out.push(value.len() as u8);
    } else {
        out.push(0xFF);
        out.push((value.len() / 256) as u8);
        out.push((value.len() % 256) as u8);
    }
    push_all(out, value);
    proof {
        assert(out@ =~= old(out)@ + unit_bytes(code, value@));
    }
}

impl Param {
    /// Wire code of the unit (PI or PGI code).
    #[must_use]
    pub fn code(&self) -> (r: u8)
        ensures
            r == self@.spec_code(),
    {
        match self {
            Param::Pi { pi, .. } => pi.code(),
            Param::Pgi { pgi, .. } => pgi.code(),
        }
    }

    /// Length of the content of the unit, saturating.
    fn content_len(&self) -> (r: usize)
        ensures
            r == clamp_usize(self@.content().len()),
    {
        match self {
            Param::Pi { value, .. } => value.len(),
            Param::Pgi { items, .. } => {
                let mut total: usize = 0;
                let mut i: usize = 0;
                let ghost iv = items_view(items@);
                while i < items.len()
                    invariant
                        i <= items.len(),
                        iv == items_view(items@),
                        total == clamp_usize(items_bytes(iv.take(i as int)).len()),
                    decreases items.len() - i,
                {
                    let u: usize = saturating_unit_len(items[i].1.len());
                    total = total.saturating_add(u);
                    proof {
                        lemma_items_prefix(iv, i as int);
                        assert(iv[i as int] == (items@[i as int].0, items@[i as int].1@));
                        assert(unit_bytes(iv[i as int].0.spec_code(), iv[i as int].1).len()
                            == spec_unit_len(iv[i as int].1.len()));
                    }
                    i += 1;
                }
                proof {
                    assert(iv.take(i as int) =~= iv);
                }
                total
            },
        }
    }
}

impl Fpdu {
    /// Total encoded length (header + content), without CRC. A length that exceeds every machine
    /// number reads as `usize::MAX`.
    #[must_use]
    pub fn encoded_len(&self) -> (r: usize)
        ensures
            r == clamp_usize(self@.wire_len()),
    {
        if self.kind.is_data() {
            return self.data.len().saturating_add(HEADER_LEN);
        }
        let mut total: usize = HEADER_LEN;
        let mut i: usize = 0;
        let ghost pv = params_view(self.params@);
        proof {
            assert(pv.take(0) =~= Seq::<ParamV>::empty());
        }
        while i < self.params.len()
            invariant
                i <= self.params.len(),
                pv == params_view(self.params@),
                total == clamp_usize(HEADER_LEN as nat + params_bytes(pv.take(i as int)).len()),
            decreases self.params.len() - i,
        {
            let n: usize = self.params[i].content_len();
            let u: usize = saturating_unit_len(n);
            total = total.saturating_add(u);
            proof {
                lemma_params_prefix(pv, i as int);
                assert(pv[i as int] == self.params@[i as int]@);
                assert(pv[i as int].bytes().len() == spec_unit_len(pv[i as int].content().len()));
            }
            i += 1;
        }
        proof {
            assert(pv.take(i as int) =~= pv);
        }
        total
    }

    /// Encode the FPDU (without CRC). Fails if the FPDU would not fit in 65535 bytes or if a
    /// parameter has an empty value.
    pub fn encode(&self) -> (r: Result<Vec<u8>, EncodeError>)
        ensures
            r matches Ok(v) ==> self@.encode_error() is None && v@ == self@.encoding(),
            r matches Err(e) ==> self@.encode_error() == Some(e),
    {
        let mut out: Vec<u8> = Vec::new();
        match self.encode_into(&mut out) {
            Ok(()) => {
                proof {
                    assert(out@ =~= self@.encoding());
                }
                Ok(out)
            },
            Err(e) => Err(e),
        }
    }

    /// Append the encoded FPDU to `out`. When a parameter has an empty value, the header and the
    /// parameters before it have been appended.
    pub fn encode_into(&self, out: &mut Vec<u8>) -> (r: Result<(), EncodeError>)
        ensures
            r is Ok ==> self@.encode_error() is None,
            r matches Err(e) ==> self@.encode_error() == Some(e),
            r is Ok ==> final(out)@ == old(out)@ + self@.encoding(),
            r matches Err(EncodeError::TooLong(_)) ==> final(out)@ == old(out)@,
            r matches Err(EncodeError::EmptyValue(_)) ==> final(out)@ == old(out)@ + self@.header()
                + params_bytes_before_empty(self@.params),
    {
        let total: usize = self.encoded_len();
        if total > MAX_FPDU_LEN {
            return Err(EncodeError::TooLong(total));
        }
        out.push((total / 256) as u8);
        out.push((total % 256) as u8);
        out.push(self.kind.phase());
        out.push(self.kind.type_code());
        out.push(self.id_dst);
        out.push(self.id_src);
        proof {
            assert(out@ =~= old(out)@ + self@.header());
        }
        if self.kind.is_data() {
            push_all(out, self.data.as_slice());
            proof {
                assert(out@ =~= old(out)@ + self@.encoding());
            }
            return Ok(());
        }
        let ghost head = out@;
        let ghost pv = self@.params;
        let mut i: usize = 0;
        proof {
            assert(pv.take(0) =~= Seq::<ParamV>::empty());
            assert(head + params_bytes(pv.take(0)) =~= head);
        }
        while i < self.params.len()
            invariant
                i <= self.params.len(),
                pv == params_view(self.params@),
                pv == self@.params,
                !self@.kind.spec_is_data(),
                self@.wire_len() <= MAX_FPDU_LEN,
                head == old(out)@ + self@.header(),
                out@ == head + params_bytes(pv.take(i as int)),
                first_empty(pv.take(i as int)) is None,
            decreases self.params.len() - i,
        {
            proof {
                lemma_params_prefix(pv, i as int);
                lemma_params_bytes_monotone(pv, i + 1);
                assert(pv[i as int] == self.params@[i as int]@);
            }
            match &self.params[i] {
                Param::Pi { pi, value } => {
                    if value.len() == 0 {
                        proof {
                            assert(first_empty(pv.take(i + 1)) == Some(pi.spec_code()));
                            lemma_first_empty_stable(pv, i + 1);
                            assert(params_bytes_before_empty(pv.take(i as int)) == params_bytes(
                                pv.take(i as int),
                            ));
                            assert(out@ == old(out)@ + self@.header() + params_bytes_before_empty(pv));
                        }
                        return Err(EncodeError::EmptyValue(pi.code()));
                    }
                    push_unit(out, pi.code(), value.as_slice());
                },
                Param::Pgi { pgi, items } => {
                    let mut inner: Vec<u8> = Vec::new();
                    let ghost iv = items_view(items@);
                    let mut j: usize = 0;
                    proof {
                        assert(iv.take(0) =~= Seq::<(Pi, Seq<u8>)>::empty());
                    }
                    while j < items.len()
                        invariant
                            j <= items.len(),
                            i < self.params.len(),
                            pv == params_view(self.params@),
                            pv == self@.params,
                            !self@.kind.spec_is_data(),
                            self@.wire_len() <= MAX_FPDU_LEN,
                            head == old(out)@ + self@.header(),
                            out@ == head + params_bytes(pv.take(i as int)),
                            first_empty(pv.take(i as int)) is None,
                            pv.take(i + 1).drop_last() == pv.take(i as int),
                            pv.take(i + 1).last() == pv[i as int],
                            iv == items_view(items@),
                            pv[i as int] == (ParamV::Pgi { pgi: *pgi, items: iv }),
                            inner@ == items_bytes(iv.take(j as int)),
                            items_bytes(iv).len() <= MAX_FPDU_LEN,
                            first_empty_item(iv.take(j as int)) is None,
                        decreases items.len() - j,
                    {
                        let item = &items[j];
                        proof {
                            lemma_items_prefix(iv, j as int);
                            lemma_items_bytes_monotone(iv, j + 1);
                            assert(iv[j as int] == (items@[j as int].0, items@[j as int].1@));
                        }
                        if item.1.len() == 0 {
                            proof {
                                lemma_first_empty_item_stable(iv, j + 1);
                                lemma_first_empty_stable(pv, i + 1);
                                assert(params_bytes_before_empty(pv.take(i as int))
                                    == params_bytes(pv.take(i as int)));
                                assert(out@ == old(out)@ + self@.header()
                                    + params_bytes_before_empty(pv));
                            }
                            return Err(EncodeError::EmptyValue(item.0.code()));
                        }
                        push_unit(&mut inner, item.0.code(), item.1.as_slice());
                        j += 1;
                    }
                    proof {
                        assert(iv.take(j as int) =~= iv);
                    }
                    push_unit(out, pgi.code(), inner.as_slice());
                },
            }
            i += 1;
            proof {
                assert(out@ =~= head + params_bytes(pv.take(i as int)));
            }
        }
        proof {
            assert(pv.take(i as int) =~= pv);
            assert(out@ =~= old(out)@ + self@.encoding());
        }
        Ok(())
    }
}

// ---- decoding ----

/// A fault in the parameters.
pub open spec fn param_fault(detail: Seq<char>) -> Fault {
    (Diagnostic::invalid_parameter(), detail)
}

/// A fault in the structure of the FPDU.
pub open spec fn protocol_fault(detail: Seq<char>) -> Fault {
    (Diagnostic::remote_protocol_error(), detail)
}

/// The first unit of a non-empty byte string: its code, its value, and the bytes behind it.
pub open spec fn spec_read_unit(s: Seq<u8>) -> Result<(u8, Seq<u8>, Seq<u8>), Fault> {
    let who = "parameter "@ + dec(s[0] as nat);
    if s.len() < 2 {
        Err(param_fault(who + ": missing length indicator"@))
    } else if s[1] == 255 && s.len() < 4 {
        Err(param_fault(who + ": truncated extended length"@))
    } else {
        let start = if s[1] == 255 {
            4int
        } else {
            2int
        };
        let len = if s[1] == 255 {
            s[2] * 256 + s[3]
        } else {
            s[1] as int
        };
        if len == 0 {
            Err(param_fault(who + ": zero length is forbidden"@))
        } else if start + len > s.len() {
            Err(
                param_fault(
                    who + ": declared length "@ + dec(len as nat) + " exceeds the "@ + dec(
                        (s.len() - start) as nat,
                    ) + " remaining bytes"@,
                ),
            )
        } else {
            Ok((s[0], s.subrange(start, start + len), s.skip(start + len)))
        }
    }
}

/// Items of a group read from `s` behind the items of `acc`.
pub open spec fn spec_read_items(pgi: Pgi, strict: bool, s: Seq<u8>, acc: Items) -> Result<
    Items,
    Fault,
>
    decreases s.len(),
{
    if s.len() == 0 {
        Ok(acc)
    } else {
        match spec_read_unit(s) {
            Err(e) => Err(e),
            Ok((code, value, rest)) => match Pi::spec_from_code(code) {
                None => Err(
                    param_fault(
                        "unknown PI "@ + dec(code as nat) + " inside "@ + pgi.spec_text(),
                    ),
                ),
                Some(pi) => if strict && !pgi.spec_contains(pi) {
                    Err(param_fault(pi.spec_text() + " is not allowed inside "@ + pgi.spec_text()))
                } else if strict && acc.len() > 0 && code <= acc.last().0.spec_code() {
                    Err(param_fault(pi.spec_text() + " out of order inside "@ + pgi.spec_text()))
                } else {
                    spec_read_items(pgi, strict, rest, acc.push((pi, value)))
                },
            },
        }
    }
}

/// The parameter unit of a code and a content.
pub open spec fn spec_read_param(strict: bool, code: u8, value: Seq<u8>) -> Result<ParamV, Fault> {
    match Pgi::spec_from_code(code) {
        Some(pgi) => match spec_read_items(pgi, strict, value, Seq::empty()) {
            Ok(items) => Ok(ParamV::Pgi { pgi, items }),
            Err(e) => Err(e),
        },
        None => match Pi::spec_from_code(code) {
            Some(pi) => Ok(ParamV::Pi { pi, value }),
            None => Err(param_fault("unknown parameter code "@ + dec(code as nat))),
        },
    }
}

/// Parameters read from `s` behind the parameters of `acc`.
pub open spec fn spec_read_params(strict: bool, s: Seq<u8>, acc: Seq<ParamV>) -> Result<
    Seq<ParamV>,
    Fault,
>
    decreases s.len(),
{
    if s.len() == 0 {
        Ok(acc)
    } else {
        match spec_read_unit(s) {
            Err(e) => Err(e),
            Ok((code, value, rest)) => if strict && acc.len() > 0 && code
                <= acc.last().spec_code() {
                Err(
                    param_fault(
                        "parameter "@ + dec(code as nat) + " appears after parameter "@ + dec(
                            acc.last().spec_code() as nat,
                        ) + " (wrong order or duplicate)"@,
                    ),
                )
            } else {
                match spec_read_param(strict, code, value) {
                    Err(e) => Err(e),
                    Ok(p) => spec_read_params(strict, rest, acc.push(p)),
                }
            },
        }
    }
}

/// Whether a template admits a code.
pub open spec fn admits(template: Seq<ParamRule>, code: u8) -> bool {
    exists|i: int| 0 <= i < template.len() && (#[trigger] template[i]).code == code
}

/// Whether a group holds an item.
pub open spec fn holds_item(items: Items, pi: Pi) -> bool {
    exists|i: int| 0 <= i < items.len() && (#[trigger] items[i]).0 == pi
}

/// Whether a parameter list holds a unit of the given code.
pub open spec fn holds_code(params: Seq<ParamV>, code: u8) -> bool {
    exists|i: int| 0 <= i < params.len() && (#[trigger] params[i]).spec_code() == code
}

/// First mandatory member, in the order of `members`, that a group lacks.
pub open spec fn missing_member(members: Seq<(Pi, bool)>, items: Items) -> Option<Pi>
    decreases members.len(),
{
    if members.len() == 0 {
        None
    } else if missing_member(members.drop_last(), items) is Some {
        missing_member(members.drop_last(), items)
    } else if members.last().1 && !holds_item(items, members.last().0) {
        Some(members.last().0)
    } else {
        None
    }
}

/// What is wrong with one parameter of a FPDU of the given kind.
pub open spec fn param_rule_fault(kind: FpduKind, p: ParamV) -> Option<Fault> {
    if !admits(kind.spec_template(), p.spec_code()) {
        Some(
            param_fault(
                "parameter "@ + dec(p.spec_code() as nat) + " not allowed in "@ + kind.spec_name(),
            ),
        )
    } else {
        match p {
            ParamV::Pi { pi, value } => if pi.spec_max_len() != 0 && value.len()
                > pi.spec_max_len() {
                Some(
                    param_fault(
                        pi.spec_text() + " value too long ("@ + dec(value.len()) + " > "@ + dec(
                            pi.spec_max_len() as nat,
                        ) + ")"@,
                    ),
                )
            } else {
                None
            },
            ParamV::Pgi { pgi, items } => match missing_member(pgi.spec_members(), items) {
                Some(pi) => Some(
                    param_fault(
                        "mandatory "@ + pi.spec_text() + " missing inside "@ + pgi.spec_text(),
                    ),
                ),
                None => None,
            },
        }
    }
}

/// The first parameter fault, in the order of the list.
pub open spec fn params_rule_fault(kind: FpduKind, params: Seq<ParamV>) -> Option<Fault>
    decreases params.len(),
{
    if params.len() == 0 {
        None
    } else if params_rule_fault(kind, params.drop_last()) is Some {
        params_rule_fault(kind, params.drop_last())
    } else {
        param_rule_fault(kind, params.last())
    }
}

/// First mandatory code of a template, in template order, that a parameter list lacks.
pub open spec fn missing_rule(template: Seq<ParamRule>, params: Seq<ParamV>) -> Option<u8>
    decreases template.len(),
{
    if template.len() == 0 {
        None
    } else if missing_rule(template.drop_last(), params) is Some {
        missing_rule(template.drop_last(), params)
    } else if template.last().mandatory && !holds_code(params, template.last().code) {
        Some(template.last().code)
    } else {
        None
    }
}

impl FpduV {
    /// Why the parameters do not fit the template of the kind, if they do not.
    pub open spec fn template_fault(self) -> Option<Fault> {
        match params_rule_fault(self.kind, self.params) {
            Some(e) => Some(e),
            None => match missing_rule(self.kind.spec_template(), self.params) {
                Some(code) => Some(
                    param_fault(
                        "mandatory parameter "@ + dec(code as nat) + " missing in "@
                            + self.kind.spec_name(),
                    ),
                ),
                None => None,
            },
        }
    }

    /// The FPDU that a byte string stands for, or why it stands for none. A strict reading also
    /// checks the order of the parameters and the template of the kind.
    pub open spec fn decoded(bytes: Seq<u8>, strict: bool) -> Result<FpduV, Fault> {
        if bytes.len() < HEADER_LEN {
            Err(protocol_fault("FPDU too short ("@ + dec(bytes.len()) + " bytes)"@))
        } else if bytes[0] * 256 + bytes[1] != bytes.len() {
            Err(
                protocol_fault(
                    "FPDU length field "@ + dec((bytes[0] * 256 + bytes[1]) as nat)
                        + " does not match the "@ + dec(bytes.len()) + " bytes received"@,
                ),
            )
        } else {
            match FpduKind::spec_from_codes(bytes[2], bytes[3]) {
                None => Err(
                    protocol_fault(
                        "unknown FPDU phase/type 0x"@ + hex_pair(bytes[2]) + "/0x"@ + hex_pair(
                            bytes[3],
                        ),
                    ),
                ),
                Some(kind) => {
                    let body = bytes.skip(HEADER_LEN as int);
                    if kind.spec_is_data() {
                        Ok(
                            FpduV {
                                kind,
                                id_dst: bytes[4],
                                id_src: bytes[5],
                                params: Seq::empty(),
                                data: body,
                            },
                        )
                    } else {
                        match spec_read_params(strict, body, Seq::empty()) {
                            Err(e) => Err(e),
                            Ok(params) => {
                                let f = FpduV {
                                    kind,
                                    id_dst: bytes[4],
                                    id_src: bytes[5],
                                    params,
                                    data: Seq::empty(),
                                };
                                if strict && f.template_fault() is Some {
                                    Err(f.template_fault()->0)
                                } else {
                                    Ok(f)
                                }
                            },
                        }
                    }
                },
            }
        }
    }
}

impl DecodeError {
    fn param(detail: String) -> (r: Self)
        ensures
            r@ == param_fault(detail@),
    {
        DecodeError { diag: Diagnostic::invalid_parameter(), detail }
    }

    fn protocol(detail: String) -> (r: Self)
        ensures
            r@ == protocol_fault(detail@),
    {
        DecodeError { diag: Diagnostic::remote_protocol_error(), detail }
    }

    /// Rendering of the error: the diagnostic and the detail.
    #[must_use]
    pub fn text(&self) -> (r: String)
        ensures
            r@ == self.diag.spec_text() + ": "@ + self.detail@,
    {
        let mut out = self.diag.text();
        out.append(": ");
        out.append(self.detail.as_str());
        out
    }
}

/// Copy a byte string.
pub fn bytes_to_vec(src: &[u8]) -> (r: Vec<u8>)
    ensures
        r@ == src@,
{
    let mut out: Vec<u8> = Vec::new();
    push_all(&mut out, src);
    proof {
        assert(out@ =~= src@);
    }
    out
}

/// Read one PI/PGI unit at `pos`; returns the code, the value and the next position.
fn read_unit(buf: &[u8], pos: usize) -> (r: Result<(u8, &[u8], usize), DecodeError>)
    requires
        pos < buf.len(),
    ensures
        match r {
            Ok((code, value, next)) => {
                &&& pos < next <= buf.len()
                &&& spec_read_unit(buf@.skip(pos as int)) == Ok::<_, Fault>(
                    (code, value@, buf@.skip(next as int)),
                )
            },
            Err(e) => spec_read_unit(buf@.skip(pos as int)) == Err::<
                (u8, Seq<u8>, Seq<u8>),
                Fault,
            >(e@),
        },
{
    let ghost s = buf@.skip(pos as int);
    let code: u8 = buf[pos];
    let left: usize = buf.len() - pos;
    let mut who = "parameter ".to_owned();
    push_decimal(&mut who, code as u64);
    if left < 2 {
        who.append(": missing length indicator");
        return Err(DecodeError::param(who));
    }
    let li: u8 = buf[pos + 1];
    if li == 0xFF && left < 4 {
        who.append(": truncated extended length");
        return Err(DecodeError::param(who));
    }
    let len: usize = if li == 0xFF {
        buf[pos + 2] as usize * 256 + buf[pos + 3] as usize
    } else {
        li as usize
    };
    let skip: usize = if li == 0xFF {
        4
    } else {
        2
    };
    if len == 0 {
        who.append(": zero length is forbidden");
        return Err(DecodeError::param(who));
    }
    if len > left - skip {
        who.append(": declared length ");
        push_decimal(&mut who, len as u64);
        who.append(" exceeds the ");
        push_decimal(&mut who, (left - skip) as u64);
        who.append(" remaining bytes");
        return Err(DecodeError::param(who));
    }
    let start: usize = pos + skip;
    let end: usize = start + len;
    let value = vstd::slice::slice_subrange(buf, start, end);
    proof {
        assert(value@ =~= s.subrange(skip as int, skip + len));
        assert(buf@.skip(end as int) =~= s.skip(skip + len));
    }
    Ok((code, value, end))
}

fn read_items(pgi: Pgi, value: &[u8], strict: bool) -> (r: Result<
    Vec<(Pi, Vec<u8>)>,
    DecodeError,
>)
    ensures
        match r {
            Ok(items) => spec_read_items(pgi, strict, value@, Seq::empty()) == Ok::<_, Fault>(
                items_view(items@),
            ),
            Err(e) => spec_read_items(pgi, strict, value@, Seq::empty()) == Err::<Items, Fault>(e@),
        },
{
    let mut items: Vec<(Pi, Vec<u8>)> = Vec::new();
    let mut pos: usize = 0;
    proof {
        assert(value@.skip(0) =~= value@);
        assert(items_view(items@) =~= Seq::empty());
    }
    while pos < value.len()
        invariant
            pos <= value.len(),
            spec_read_items(pgi, strict, value@, Seq::empty()) == spec_read_items(
                pgi,
                strict,
                value@.skip(pos as int),
                items_view(items@),
            ),
        decreases value.len() - pos,
    {
        let ghost rest = value@.skip(pos as int);
        let ghost before = items_view(items@);
        let (code, inner, next) = match read_unit(value, pos) {
            Ok(u) => u,
            Err(e) => {
                return Err(e);
            },
        };
        let pi = match Pi::from_code(code) {
            Some(pi) => pi,
            None => {
                let mut text = "unknown PI ".to_owned();
                push_decimal(&mut text, code as u64);
                text.append(" inside ");
                text.append(pgi.text().as_str());
                return Err(DecodeError::param(text));
            },
        };
        if strict {
            if !pgi.contains(pi) {
                let mut text = pi.text();
                text.append(" is not allowed inside ");
                text.append(pgi.text().as_str());
                return Err(DecodeError::param(text));
            }
            if items.len() > 0 && code <= items[items.len() - 1].0.code() {
                let mut text = pi.text();
                text.append(" out of order inside ");
                text.append(pgi.text().as_str());
                return Err(DecodeError::param(text));
            }
        }
        items.push((pi, bytes_to_vec(inner)));
        pos = next;
        proof {
            assert(items_view(items@) =~= before.push((pi, inner@)));
        }
    }
    proof {
        assert(value@.skip(pos as int) =~= Seq::<u8>::empty());
    }
    Ok(items)
}

fn read_param(code: u8, value: &[u8], strict: bool) -> (r: Result<Param, DecodeError>)
    ensures
        match r {
            Ok(p) => spec_read_param(strict, code, value@) == Ok::<_, Fault>(p@),
            Err(e) => spec_read_param(strict, code, value@) == Err::<ParamV, Fault>(e@),
        },
{
    match Pgi::from_code(code) {
        Some(pgi) => match read_items(pgi, value, strict) {
            Ok(items) => Ok(Param::Pgi { pgi, items }),
            Err(e) => Err(e),
        },
        None => match Pi::from_code(code) {
            Some(pi) => Ok(Param::Pi { pi, value: bytes_to_vec(value) }),
            None => {
                let mut text = "unknown parameter code ".to_owned();
                push_decimal(&mut text, code as u64);
                Err(DecodeError::param(text))
            },
        },
    }
}

fn read_params(body: &[u8], strict: bool) -> (r: Result<Vec<Param>, DecodeError>)
    ensures
        match r {
            Ok(p) => spec_read_params(strict, body@, Seq::empty()) == Ok::<_, Fault>(
                params_view(p@),
            ),
            Err(e) => spec_read_params(strict, body@, Seq::empty()) == Err::<Seq<ParamV>, Fault>(
                e@,
            ),
        },
{
    let mut params: Vec<Param> = Vec::new();
    let mut pos: usize = 0;
    proof {
        assert(body@.skip(0) =~= body@);
        assert(params_view(params@) =~= Seq::empty());
    }
    while pos < body.len()
        invariant
            pos <= body.len(),
            spec_read_params(strict, body@, Seq::empty()) == spec_read_params(
                strict,
                body@.skip(pos as int),
                params_view(params@),
            ),
        decreases body.len() - pos,
    {
        let ghost before = params_view(params@);
        let (code, value, next) = match read_unit(body, pos) {
            Ok(u) => u,
            Err(e) => {
                return Err(e);
            },
        };
        if strict && params.len() > 0 {
            let last: u8 = params[params.len() - 1].code();
            if code <= last {
                let mut text = "parameter ".to_owned();
                push_decimal(&mut text, code as u64);
                text.append(" appears after parameter ");
                push_decimal(&mut text, last as u64);
                text.append(" (wrong order or duplicate)");
                return Err(DecodeError::param(text));
            }
        }
        let p = match read_param(code, value, strict) {
            Ok(p) => p,
            Err(e) => {
                return Err(e);
            },
        };
        let ghost pv = p@;
        params.push(p);
        pos = next;
        proof {
            assert(params_view(params@) =~= before.push(pv));
        }
    }
    proof {
        assert(body@.skip(pos as int) =~= Seq::<u8>::empty());
    }
    Ok(params)
}

/// First missing members and rules are found in list order.
proof fn lemma_missing_member_stable(members: Seq<(Pi, bool)>, items: Items, n: int)
    requires
        0 <= n <= members.len(),
        missing_member(members.take(n), items) is Some,
    ensures
        missing_member(members, items) == missing_member(members.take(n), items),
    decreases members.len() - n,
{
    if n == members.len() {
        assert(members.take(n) =~= members);
    } else {
        assert(members.take(n + 1).drop_last() =~= members.take(n));
        lemma_missing_member_stable(members, items, n + 1);
    }
}

proof fn lemma_missing_rule_stable(template: Seq<ParamRule>, params: Seq<ParamV>, n: int)
    requires
        0 <= n <= template.len(),
        missing_rule(template.take(n), params) is Some,
    ensures
        missing_rule(template, params) == missing_rule(template.take(n), params),
    decreases template.len() - n,
{
    if n == template.len() {
        assert(template.take(n) =~= template);
    } else {
        assert(template.take(n + 1).drop_last() =~= template.take(n));
        lemma_missing_rule_stable(template, params, n + 1);
    }
}

proof fn lemma_rule_fault_stable(kind: FpduKind, params: Seq<ParamV>, n: int)
    requires
        0 <= n <= params.len(),
        params_rule_fault(kind, params.take(n)) is Some,
    ensures
        params_rule_fault(kind, params) == params_rule_fault(kind, params.take(n)),
    decreases params.len() - n,
{
    if n == params.len() {
        assert(params.take(n) =~= params);
    } else {
        lemma_params_prefix(params, n);
        lemma_rule_fault_stable(kind, params, n + 1);
    }
}

fn template_admits(template: &[ParamRule], code: u8) -> (r: bool)
    ensures
        r == admits(template@, code),
{
    let mut i: usize = 0;
    while i < template.len()
        invariant
            i <= template.len(),
            forall|k: int| 0 <= k < i ==> (#[trigger] template@[k]).code != code,
        decreases template.len() - i,
    {
        if template[i].code == code {
            return true;
        }
        i += 1;
    }
    false
}

fn group_holds(items: &[(Pi, Vec<u8>)], pi: Pi) -> (r: bool)
    ensures
        r == holds_item(items_view(items@), pi),
{
    let ghost iv = items_view(items@);
    let mut i: usize = 0;
    while i < items.len()
        invariant
            i <= items.len(),
            iv == items_view(items@),
            forall|k: int| 0 <= k < i ==> (#[trigger] iv[k]).0 != pi,
        decreases items.len() - i,
    {
        proof {
            assert(iv[i as int] == (items@[i as int].0, items@[i as int].1@));
        }
        if items[i].0 == pi {
            return true;
        }
        i += 1;
    }
    false
}

fn list_holds(params: &[Param], code: u8) -> (r: bool)
    ensures
        r == holds_code(params_view(params@), code),
{
    let ghost pv = params_view(params@);
    let mut i: usize = 0;
    while i < params.len()
        invariant
            i <= params.len(),
            pv == params_view(params@),
            forall|k: int| 0 <= k < i ==> (#[trigger] pv[k]).spec_code() != code,
        decreases params.len() - i,
    {
        proof {
            assert(pv[i as int] == params@[i as int]@);
        }
        if params[i].code() == code {
            return true;
        }
        i += 1;
    }
    false
}

fn first_missing_member(pgi: Pgi, items: &[(Pi, Vec<u8>)]) -> (r: Option<Pi>)
    ensures
        r == missing_member(pgi.spec_members(), items_view(items@)),
{
    let members = pgi.members();
    let ghost iv = items_view(items@);
    let mut i: usize = 0;
    while i < members.len()
        invariant
            i <= members.len(),
            members@ == pgi.spec_members(),
            iv == items_view(items@),
            missing_member(members@.take(i as int), iv) is None,
        decreases members.len() - i,
    {
        proof {
            assert(members@.take(i + 1).drop_last() =~= members@.take(i as int));
        }
        if members[i].1 && !group_holds(items, members[i].0) {
            proof {
                lemma_missing_member_stable(members@, iv, i + 1);
            }
            return Some(members[i].0);
        }
        i += 1;
    }
    proof {
        assert(members@.take(i as int) =~= members@);
    }
    None
}

impl Fpdu {
    fn check_param(kind: FpduKind, template: &[ParamRule], p: &Param) -> (r: Result<
        (),
        DecodeError,
    >)
        requires
            template@ == kind.spec_template(),
        ensures
            r is Ok ==> param_rule_fault(kind, p@) is None,
            r matches Err(e) ==> param_rule_fault(kind, p@) == Some(e@),
    {
        let code: u8 = p.code();
        if !template_admits(template, code) {
            let mut text = "parameter ".to_owned();
            push_decimal(&mut text, code as u64);
            text.append(" not allowed in ");
            text.append(kind.name());
            return Err(DecodeError::param(text));
        }
        match p {
            Param::Pi { pi, value } => {
                let max: usize = pi.max_len();
                if max != 0 && value.len() > max {
                    let mut text = pi.text();
                    text.append(" value too long (");
                    push_decimal(&mut text, value.len() as u64);
                    text.append(" > ");
                    push_decimal(&mut text, max as u64);
                    text.append(")");
                    return Err(DecodeError::param(text));
                }
            },
            Param::Pgi { pgi, items } => {
                if let Some(pi) = first_missing_member(*pgi, items.as_slice()) {
                    let mut text = "mandatory ".to_owned();
                    text.append(pi.text().as_str());
                    text.append(" missing inside ");
                    text.append(pgi.text().as_str());
                    return Err(DecodeError::param(text));
                }
            },
        }
        Ok(())
    }

    /// Check the parameters against the template of the FPDU kind.
    pub fn validate_template(&self) -> (r: Result<(), DecodeError>)
        ensures
            r is Ok ==> self@.template_fault() is None,
            r matches Err(e) ==> self@.template_fault() == Some(e@),
    {
        let template = self.kind.template();
        let ghost pv = self@.params;
        let mut i: usize = 0;
        proof {
            assert(pv.take(0) =~= Seq::<ParamV>::empty());
        }
        while i < self.params.len()
            invariant
                i <= self.params.len(),
                template@ == self.kind.spec_template(),
                pv == params_view(self.params@),
                params_rule_fault(self.kind, pv.take(i as int)) is None,
            decreases self.params.len() - i,
        {
            proof {
                lemma_params_prefix(pv, i as int);
                assert(pv[i as int] == self.params@[i as int]@);
            }
            if let Err(e) = Self::check_param(self.kind, template.as_slice(), &self.params[i]) {
                proof {
                    lemma_rule_fault_stable(self.kind, pv, i + 1);
                }
                return Err(e);
            }
            i += 1;
        }
        proof {
            assert(pv.take(i as int) =~= pv);
        }
        let mut j: usize = 0;
        while j < template.len()
            invariant
                j <= template.len(),
                template@ == self.kind.spec_template(),
                pv == params_view(self.params@),
                params_rule_fault(self.kind, pv) is None,
                missing_rule(template@.take(j as int), pv) is None,
            decreases template.len() - j,
        {
            let rule = template[j];
            proof {
                assert(template@.take(j + 1).drop_last() =~= template@.take(j as int));
            }
            if rule.mandatory && !list_holds(self.params.as_slice(), rule.code) {
                proof {
                    lemma_missing_rule_stable(template@, pv, j + 1);
                }
                let mut text = "mandatory parameter ".to_owned();
                push_decimal(&mut text, rule.code as u64);
                text.append(" missing in ");
                text.append(self.kind.name());
                return Err(DecodeError::param(text));
            }
            j += 1;
        }
        proof {
            assert(template@.take(j as int) =~= template@);
        }
        Ok(())
    }

    /// Decode one complete FPDU from `bytes` (exactly one FPDU, no CRC, no trailing bytes).
    /// Parameters are validated against the FPDU template (order, mandatory, known codes).
    pub fn decode(bytes: &[u8]) -> (r: Result<Fpdu, DecodeError>)
        ensures
            r matches Ok(f) ==> FpduV::decoded(bytes@, true) == Ok::<_, Fault>(f@),
            r matches Err(e) ==> FpduV::decoded(bytes@, true) == Err::<FpduV, Fault>(e@),
    {
        Self::decode_with(bytes, true)
    }

    /// Decode one FPDU without template validation (only structural checks).
    pub fn decode_lenient(bytes: &[u8]) -> (r: Result<Fpdu, DecodeError>)
        ensures
            r matches Ok(f) ==> FpduV::decoded(bytes@, false) == Ok::<_, Fault>(f@),
            r matches Err(e) ==> FpduV::decoded(bytes@, false) == Err::<FpduV, Fault>(e@),
    {
        Self::decode_with(bytes, false)
    }

    fn decode_with(bytes: &[u8], strict: bool) -> (r: Result<Fpdu, DecodeError>)
        ensures
            r matches Ok(f) ==> FpduV::decoded(bytes@, strict) == Ok::<_, Fault>(f@),
            r matches Err(e) ==> FpduV::decoded(bytes@, strict) == Err::<FpduV, Fault>(e@),
    {
        if bytes.len() < HEADER_LEN {
            let mut text = "FPDU too short (".to_owned();
            push_decimal(&mut text, bytes.len() as u64);
            text.append(" bytes)");
            return Err(DecodeError::protocol(text));
        }
        let declared: usize = bytes[0] as usize * 256 + bytes[1] as usize;
        if declared != bytes.len() {
            let mut text = "FPDU length field ".to_owned();
            push_decimal(&mut text, declared as u64);
            text.append(" does not match the ");
            push_decimal(&mut text, bytes.len() as u64);
            text.append(" bytes received");
            return Err(DecodeError::protocol(text));
        }
        let kind = match FpduKind::from_codes(bytes[2], bytes[3]) {
            Some(kind) => kind,
            None => {
                let mut text = "unknown FPDU phase/type 0x".to_owned();
                push_hex_byte(&mut text, bytes[2]);
                text.append("/0x");
                push_hex_byte(&mut text, bytes[3]);
                return Err(DecodeError::protocol(text));
            },
        };
        let body = vstd::slice::slice_subrange(bytes, HEADER_LEN, bytes.len());
        proof {
            assert(body@ =~= bytes@.skip(HEADER_LEN as int));
        }
        let mut fpdu = Fpdu {
            kind,
            id_dst: bytes[4],
            id_src: bytes[5],
            params: Vec::new(),
            data: Vec::new(),
        };
        if kind.is_data() {
            fpdu.data = bytes_to_vec(body);
            proof {
                assert(fpdu@.params =~= Seq::empty());
            }
            return Ok(fpdu);
        }
        match read_params(body, strict) {
            Ok(params) => {
                fpdu.params = params;
            },
            Err(e) => {
                return Err(e);
            },
        }
        proof {
            assert(fpdu@.data =~= Seq::empty());
        }
        if strict {
            if let Err(e) = fpdu.validate_template() {
                return Err(e);
            }
        }
        Ok(fpdu)
    }
}

// ---- numbers and text ----

/// Minimal big-endian form of a number, at least one byte.
pub open spec fn num_bytes(n: nat) -> Seq<u8>
    decreases n,
{
    if n < 256 {
        seq![n as u8]
    } else {
        num_bytes(n / 256).push((n % 256) as u8)
    }
}

/// Number of a big-endian byte string.
pub open spec fn num_value(bytes: Seq<u8>) -> nat
    decreases bytes.len(),
{
    if bytes.len() == 0 {
        0
    } else {
        num_value(bytes.drop_last()) * 256 + bytes.last() as nat
    }
}

/// Reading a number back from its minimal form gives the number.
pub proof fn law_number_round_trip(n: nat)
    ensures
        num_value(num_bytes(n)) == n,
        num_bytes(n).len() >= 1,
        n > 0 ==> num_bytes(n)[0] != 0,
    decreases n,
{
    if n >= 256 {
        law_number_round_trip(n / 256);
        assert(num_bytes(n).drop_last() =~= num_bytes(n / 256));
        assert(num_bytes(n)[0] == num_bytes(n / 256)[0]);
    } else {
        assert(num_bytes(n).drop_last() =~= Seq::empty());
        assert(num_value(num_bytes(n).drop_last()) == 0);
    }
}

fn push_num(out: &mut Vec<u8>, value: u64)
    ensures
        final(out)@ == old(out)@ + num_bytes(value as nat),
    decreases value,
{
    if value >= 256 {
        push_num(out, value / 256);
    }
    out.push((value % 256) as u8);
    proof {
        assert(out@ =~= old(out)@ + num_bytes(value as nat));
    }
}

/// Minimal big-endian encoding of an unsigned number (at least one byte).
#[must_use]
pub fn encode_num(value: u64) -> (r: Vec<u8>)
    ensures
        r@ == num_bytes(value as nat),
{
    let mut out: Vec<u8> = Vec::new();
    push_num(&mut out, value);
    proof {
        assert(out@ =~= num_bytes(value as nat));
    }
    out
}

/// Big-endian decoding of an unsigned number (values longer than 8 bytes keep the low 8).
#[must_use]
pub fn decode_num(bytes: &[u8]) -> (r: u64)
    ensures
        r == num_value(bytes@) % 0x1_0000_0000_0000_0000,
{
    let mut acc: u64 = 0;
    let mut i: usize = 0;
    proof {
        assert(bytes@.take(0) =~= Seq::empty());
    }
    while i < bytes.len()
        invariant
            i <= bytes.len(),
            acc == num_value(bytes@.take(i as int)) % 0x1_0000_0000_0000_0000,
        decreases bytes.len() - i,
    {
        let ghost n = num_value(bytes@.take(i as int));
        acc = (acc % 0x0100_0000_0000_0000) * 256 + bytes[i] as u64;
        proof {
            assert(bytes@.take(i + 1).drop_last() =~= bytes@.take(i as int));
        }
        i += 1;
    }
    proof {
        assert(bytes@.take(i as int) =~= bytes@);
    }
    acc
}

/// ISO-8859-1 byte of a character; a character outside the set becomes a question mark.
pub open spec fn latin_byte(c: char) -> u8 {
    if (c as u32) < 256 {
        c as u8
    } else {
        63u8
    }
}

/// Wire form of a text: ISO-8859-1 without trailing blanks.
pub open spec fn text_bytes(s: Seq<char>) -> Seq<u8> {
    trimmed_end(s).map_values(|c: char| latin_byte(c))
}

/// Characters of an ISO-8859-1 byte string.
pub open spec fn latin_chars(bytes: Seq<u8>) -> Seq<char> {
    bytes.map_values(|b: u8| b as char)
}

/// Text of a wire form: its characters without trailing blanks.
pub open spec fn text_value(bytes: Seq<u8>) -> Seq<char> {
    trimmed_end(latin_chars(bytes))
}

pub(crate) proof fn lemma_trim_fixpoint(s: Seq<char>)
    ensures
        trimmed_end(trimmed_end(s)) == trimmed_end(s),
        forall|i: int| 0 <= i < trimmed_end(s).len() ==> trimmed_end(s)[i] == s[i],
        trimmed_end(s).len() <= s.len(),
    decreases s.len(),
{
    if s.len() > 0 && is_white_space(s.last()) {
        lemma_trim_fixpoint(s.drop_last());
        assert forall|i: int| 0 <= i < trimmed_end(s).len() implies trimmed_end(s)[i] == s[i] by {
            assert(s.drop_last()[i] == s[i]);
        }
    }
}

proof fn lemma_latin_char(c: char)
    requires
        (c as u32) < 256,
    ensures
        latin_byte(c) as char == c,
{
}

/// A text whose characters all belong to ISO-8859-1 is read back without its trailing blanks.
pub proof fn law_text_round_trip(s: Seq<char>)
    requires
        forall|i: int| 0 <= i < s.len() ==> (#[trigger] s[i] as u32) < 256,
    ensures
        text_value(text_bytes(s)) == trimmed_end(s),
{
    let t = trimmed_end(s);
    lemma_trim_fixpoint(s);
    assert(latin_chars(text_bytes(s)) =~= t) by {
        assert forall|i: int| 0 <= i < t.len() implies latin_chars(text_bytes(s))[i] == t[i] by {
            let c = t[i];
            assert(c == s[i]);
            assert((s[i] as u32) < 256);
            lemma_latin_char(c);
        }
    }
}

/// Wire form of a text.
pub fn latin_of(value: &str) -> (r: Vec<u8>)
    ensures
        r@ == text_bytes(value@),
{
    let chars = crate::text::chars_of(value);
    let end: usize = trimmed_end_len(chars.as_slice());
    let mut out: Vec<u8> = Vec::new();
    let mut i: usize = 0;
    let ghost t = trimmed_end(value@);
    while i < end
        invariant
            i <= end <= chars.len(),
            t == chars@.take(end as int),
            out@ == t.take(i as int).map_values(|c: char| latin_byte(c)),
        decreases end - i,
    {
        let c = chars[i];
        let b: u8 = if (c as u32) < 256 {
            c as u8
        } else {
            63
        };
        out.push(b);
        i += 1;
        proof {
            assert(out@ =~= t.take(i as int).map_values(|c: char| latin_byte(c)));
        }
    }
    proof {
        assert(out@ =~= text_bytes(value@));
    }
    out
}

fn chars_of_latin(bytes: &[u8]) -> (r: Vec<char>)
    ensures
        r@ == latin_chars(bytes@),
{
    let mut out: Vec<char> = Vec::new();
    let mut i: usize = 0;
    while i < bytes.len()
        invariant
            i <= bytes.len(),
            out@ == latin_chars(bytes@.take(i as int)),
        decreases bytes.len() - i,
    {
        out.push(bytes[i] as char);
        i += 1;
        proof {
            assert(out@ =~= latin_chars(bytes@.take(i as int)));
        }
    }
    proof {
        assert(out@ =~= latin_chars(bytes@));
    }
    out
}

/// Text of a wire form.
pub fn text_of_latin(bytes: &[u8]) -> (r: String)
    ensures
        r@ == text_value(bytes@),
{
    let mut chars = chars_of_latin(bytes);
    let end: usize = trimmed_end_len(chars.as_slice());
    let ghost all = chars@;
    chars.truncate(end);
    proof {
        assert(chars@ =~= all.take(end as int));
    }
    crate::text::string_of(chars.as_slice())
}

/// Hexadecimal rendering of a byte slice.
#[must_use]
pub fn hex(bytes: &[u8]) -> (r: String)
    ensures
        r@ == hex_text(bytes@),
{
    hex_string(bytes)
}

// ---- parameter access ----

/// First position whose code is not below `code`; the length of the list where there is none.
pub open spec fn insertion_point(params: Seq<ParamV>, code: u8) -> int
    decreases params.len(),
{
    if params.len() == 0 {
        0
    } else {
        let k = insertion_point(params.drop_last(), code);
        if k < params.len() - 1 {
            k
        } else if params.last().spec_code() < code {
            params.len() as int
        } else {
            params.len() - 1
        }
    }
}

/// A parameter list in which `p` replaces the unit of its code, or is inserted in code order.
pub open spec fn placed(params: Seq<ParamV>, p: ParamV) -> Seq<ParamV> {
    let i = insertion_point(params, p.spec_code());
    if i < params.len() && params[i].spec_code() == p.spec_code() {
        params.update(i, p)
    } else {
        params.insert(i, p)
    }
}

/// Canonical order: strictly ascending codes.
pub open spec fn canonical(params: Seq<ParamV>) -> bool {
    forall|i: int, j: int|
        0 <= i < j < params.len() ==> (#[trigger] params[i]).spec_code() < (
        #[trigger] params[j]).spec_code()
}

/// Value of the first item of a group with the given parameter.
pub open spec fn item_value(items: Items, pi: Pi) -> Option<Seq<u8>>
    decreases items.len(),
{
    if items.len() == 0 {
        None
    } else if item_value(items.drop_last(), pi) is Some {
        item_value(items.drop_last(), pi)
    } else if items.last().0 == pi {
        Some(items.last().1)
    } else {
        None
    }
}

impl ParamV {
    /// Value that the unit gives to a parameter.
    pub open spec fn value_of(self, pi: Pi) -> Option<Seq<u8>> {
        match self {
            ParamV::Pi { pi: q, value } => if q == pi {
                Some(value)
            } else {
                None
            },
            ParamV::Pgi { items, .. } => item_value(items, pi),
        }
    }

    /// Value that the unit gives to a parameter where it is a single one, or where it is a group.
    pub open spec fn value_at(self, pi: Pi, grouped: bool) -> Option<Seq<u8>> {
        if grouped == (self is Pgi) {
            self.value_of(pi)
        } else {
            None
        }
    }

    /// Items of the unit where it is the given group.
    pub open spec fn items_of(self, pgi: Pgi) -> Option<Items> {
        match self {
            ParamV::Pgi { pgi: g, items } => if g == pgi {
                Some(items)
            } else {
                None
            },
            ParamV::Pi { .. } => None,
        }
    }
}

/// Value that the first single unit, or the first group, gives to a parameter.
pub open spec fn first_value(params: Seq<ParamV>, pi: Pi, grouped: bool) -> Option<Seq<u8>>
    decreases params.len(),
{
    if params.len() == 0 {
        None
    } else if first_value(params.drop_last(), pi, grouped) is Some {
        first_value(params.drop_last(), pi, grouped)
    } else {
        params.last().value_at(pi, grouped)
    }
}

/// Value of a parameter: that of the unit at top level where there is one, else that of the first
/// group that holds it.
pub open spec fn lookup(params: Seq<ParamV>, pi: Pi) -> Option<Seq<u8>> {
    match first_value(params, pi, false) {
        Some(v) => Some(v),
        None => first_value(params, pi, true),
    }
}

/// Items of the first group with the given identifier.
pub open spec fn lookup_group(params: Seq<ParamV>, pgi: Pgi) -> Option<Items>
    decreases params.len(),
{
    if params.len() == 0 {
        None
    } else if lookup_group(params.drop_last(), pgi) is Some {
        lookup_group(params.drop_last(), pgi)
    } else {
        params.last().items_of(pgi)
    }
}

/// Position of the first single unit of a parameter; the length of the list where there is none.
pub open spec fn single_position(params: Seq<ParamV>, pi: Pi) -> int
    decreases params.len(),
{
    if params.len() == 0 {
        0
    } else if single_position(params.drop_last(), pi) < params.len() - 1 {
        single_position(params.drop_last(), pi)
    } else if params.last() is Pi && params.last()->pi == pi {
        params.len() - 1
    } else {
        params.len() as int
    }
}

/// Items with one more, which stands behind every item whose code is not above its own.
pub open spec fn item_placed(items: Items, item: (Pi, Seq<u8>)) -> Items
    decreases items.len(),
{
    if items.len() > 0 && items.last().0.spec_code() > item.0.spec_code() {
        item_placed(items.drop_last(), item).push(items.last())
    } else {
        items.push(item)
    }
}

/// Items in ascending code order; items of one code keep their order.
pub open spec fn items_sorted(items: Items) -> Items
    decreases items.len(),
{
    if items.len() == 0 {
        items
    } else {
        item_placed(items_sorted(items.drop_last()), items.last())
    }
}

impl FpduV {
    /// The FPDU with a top-level parameter inserted or replaced.
    pub open spec fn with_param(self, pi: Pi, value: Seq<u8>) -> FpduV {
        FpduV { params: placed(self.params, ParamV::Pi { pi, value }), ..self }
    }

    /// The FPDU with a parameter group inserted or replaced.
    pub open spec fn with_group(self, pgi: Pgi, items: Items) -> FpduV {
        FpduV {
            params: placed(self.params, ParamV::Pgi { pgi, items: items_sorted(items) }),
            ..self
        }
    }

    /// The FPDU with a numeric parameter.
    pub open spec fn with_number(self, pi: Pi, value: nat) -> FpduV {
        self.with_param(pi, num_bytes(value))
    }

    /// The FPDU with a text parameter.
    pub open spec fn with_string(self, pi: Pi, value: Seq<char>) -> FpduV {
        self.with_param(pi, text_bytes(value))
    }

    /// The FPDU with a diagnostic.
    pub open spec fn with_diagnostic(self, diag: Diagnostic) -> FpduV {
        self.with_param(Pi::Diag, diag.spec_bytes())
    }

    /// Raw value of a parameter.
    pub open spec fn value(self, pi: Pi) -> Option<Seq<u8>> {
        lookup(self.params, pi)
    }

    /// Numeric value of a parameter, modulo 2^64.
    pub open spec fn number(self, pi: Pi) -> Option<u64> {
        match self.value(pi) {
            Some(v) => Some((num_value(v) % 0x1_0000_0000_0000_0000) as u64),
            None => None,
        }
    }

    /// Text value of a parameter.
    pub open spec fn string(self, pi: Pi) -> Option<Seq<char>> {
        match self.value(pi) {
            Some(v) => Some(text_value(v)),
            None => None,
        }
    }

    /// Diagnostic of the FPDU.
    pub open spec fn diagnostic(self) -> Option<Diagnostic> {
        match self.value(Pi::Diag) {
            Some(v) => Diagnostic::spec_from_bytes(v),
            None => None,
        }
    }

    /// Whether the FPDU is an acknowledgement with a diagnostic other than success.
    pub open spec fn negative(self) -> bool {
        self.kind.spec_is_ack() && self.diagnostic() is Some && !self.diagnostic()->0.spec_is_ok()
    }

    /// An FPDU without parameters or data.
    pub open spec fn empty(kind: FpduKind) -> FpduV {
        FpduV { kind, id_dst: 0, id_src: 0, params: Seq::empty(), data: Seq::empty() }
    }

    /// The FPDU with other connection identifiers.
    pub open spec fn with_connection(self, id_dst: u8, id_src: u8) -> FpduV {
        FpduV { id_dst, id_src, ..self }
    }
}

pub(crate) proof fn lemma_insertion_point_range(params: Seq<ParamV>, code: u8)
    ensures
        0 <= insertion_point(params, code) <= params.len(),
        forall|i: int|
            0 <= i < insertion_point(params, code) ==> (#[trigger] params[i]).spec_code() < code,
        insertion_point(params, code) < params.len() ==> params[insertion_point(
            params,
            code,
        )].spec_code() >= code,
    decreases params.len(),
{
    if params.len() > 0 {
        lemma_insertion_point_range(params.drop_last(), code);
        assert forall|i: int| 0 <= i < insertion_point(params, code) implies (
        #[trigger] params[i]).spec_code() < code by {
            if i < params.len() - 1 {
                assert(params.drop_last()[i] == params[i]);
            }
        }
    }
}

fn insert_position(params: &[Param], code: u8) -> (r: usize)
    ensures
        r == insertion_point(params_view(params@), code),
        r <= params.len(),
{
    let ghost pv = params_view(params@);
    let mut i: usize = 0;
    proof {
        assert(pv.take(0) =~= Seq::empty());
    }
    while i < params.len()
        invariant
            i <= params.len(),
            pv == params_view(params@),
            insertion_point(pv.take(i as int), code) == i,
        decreases params.len() - i,
    {
        proof {
            lemma_params_prefix(pv, i as int);
            assert(pv[i as int] == params@[i as int]@);
        }
        if params[i].code() >= code {
            proof {
                lemma_insertion_point_stable(pv, code, i + 1);
            }
            return i;
        }
        i += 1;
    }
    proof {
        assert(pv.take(i as int) =~= pv);
    }
    i
}

proof fn lemma_insertion_point_stable(params: Seq<ParamV>, code: u8, n: int)
    requires
        0 <= n <= params.len(),
        insertion_point(params.take(n), code) < n,
    ensures
        insertion_point(params, code) == insertion_point(params.take(n), code),
    decreases params.len() - n,
{
    if n == params.len() {
        assert(params.take(n) =~= params);
    } else {
        lemma_params_prefix(params, n);
        lemma_insertion_point_stable(params, code, n + 1);
    }
}

proof fn lemma_first_value_stable(params: Seq<ParamV>, pi: Pi, grouped: bool, n: int)
    requires
        0 <= n <= params.len(),
        first_value(params.take(n), pi, grouped) is Some,
    ensures
        first_value(params, pi, grouped) == first_value(params.take(n), pi, grouped),
    decreases params.len() - n,
{
    if n == params.len() {
        assert(params.take(n) =~= params);
    } else {
        lemma_params_prefix(params, n);
        lemma_first_value_stable(params, pi, grouped, n + 1);
    }
}

proof fn lemma_item_value_stable(items: Items, pi: Pi, n: int)
    requires
        0 <= n <= items.len(),
        item_value(items.take(n), pi) is Some,
    ensures
        item_value(items, pi) == item_value(items.take(n), pi),
    decreases items.len() - n,
{
    if n == items.len() {
        assert(items.take(n) =~= items);
    } else {
        lemma_items_prefix(items, n);
        lemma_item_value_stable(items, pi, n + 1);
    }
}

proof fn lemma_lookup_group_stable(params: Seq<ParamV>, pgi: Pgi, n: int)
    requires
        0 <= n <= params.len(),
        lookup_group(params.take(n), pgi) is Some,
    ensures
        lookup_group(params, pgi) == lookup_group(params.take(n), pgi),
    decreases params.len() - n,
{
    if n == params.len() {
        assert(params.take(n) =~= params);
    } else {
        lemma_params_prefix(params, n);
        lemma_lookup_group_stable(params, pgi, n + 1);
    }
}

proof fn lemma_single_position_stable(params: Seq<ParamV>, pi: Pi, n: int)
    requires
        0 <= n <= params.len(),
        single_position(params.take(n), pi) < n,
    ensures
        single_position(params, pi) == single_position(params.take(n), pi),
    decreases params.len() - n,
{
    if n == params.len() {
        assert(params.take(n) =~= params);
    } else {
        lemma_params_prefix(params, n);
        lemma_single_position_stable(params, pi, n + 1);
    }
}

/// Value of the first item of a group with the given parameter.
pub fn find_item(items: &[(Pi, Vec<u8>)], pi: Pi) -> (r: Option<&[u8]>)
    ensures
        r matches Some(v) ==> item_value(items_view(items@), pi) == Some(v@),
        r is None ==> item_value(items_view(items@), pi) is None,
{
    let ghost iv = items_view(items@);
    let mut i: usize = 0;
    proof {
        assert(iv.take(0) =~= Seq::empty());
    }
    while i < items.len()
        invariant
            i <= items.len(),
            iv == items_view(items@),
            item_value(iv.take(i as int), pi) is None,
        decreases items.len() - i,
    {
        proof {
            lemma_items_prefix(iv, i as int);
            assert(iv[i as int] == (items@[i as int].0, items@[i as int].1@));
        }
        if items[i].0 == pi {
            proof {
                lemma_item_value_stable(iv, pi, i + 1);
            }
            return Some(items[i].1.as_slice());
        }
        i += 1;
    }
    proof {
        assert(iv.take(i as int) =~= iv);
    }
    None
}

/// Sort items by code; items of one code keep their order.
fn sort_items(items: Vec<(Pi, Vec<u8>)>) -> (r: Vec<(Pi, Vec<u8>)>)
    ensures
        items_view(r@) == items_sorted(items_view(items@)),
{
    let ghost all = items_view(items@);
    let mut rest = items;
    let mut reversed: Vec<(Pi, Vec<u8>)> = Vec::new();
    let ghost n = items@.len();
    while rest.len() > 0
        invariant
            n == items@.len(),
            rest@ == items@.take(rest@.len() as int),
            rest@.len() + reversed@.len() == n,
            forall|k: int| 0 <= k < reversed@.len() ==> #[trigger] reversed@[k] == items@[n - 1 - k],
        decreases rest.len(),
    {
        let ghost before = rest@;
        match rest.pop() {
            Some(x) => {
                reversed.push(x);
            },
            None => {},
        }
        proof {
            assert(rest@ =~= items@.take(rest@.len() as int));
        }
    }
    let mut sorted: Vec<(Pi, Vec<u8>)> = Vec::new();
    let ghost mut done: int = 0;
    proof {
        assert(all.take(0) =~= Seq::empty());
        assert(items_view(sorted@) =~= all.take(0));
    }
    while reversed.len() > 0
        invariant
            n == items@.len(),
            all == items_view(items@),
            0 <= done,
            done + reversed@.len() == n,
            forall|k: int| 0 <= k < reversed@.len() ==> #[trigger] reversed@[k] == items@[n - 1 - k],
            items_view(sorted@) == items_sorted(all.take(done)),
        decreases reversed.len(),
    {
        match reversed.pop() {
            Some(item) => {
                let ghost iv = (item.0, item.1@);
                proof {
                    assert(item == items@[done]);
                    lemma_items_prefix(all, done);
                }
                place_item(&mut sorted, item);
                proof {
                    done = done + 1;
                }
            },
            None => {},
        }
    }
    proof {
        assert(all.take(done) =~= all);
    }
    sorted
}

fn place_item(items: &mut Vec<(Pi, Vec<u8>)>, item: (Pi, Vec<u8>))
    ensures
        items_view(final(items)@) == item_placed(items_view(old(items)@), (item.0, item.1@)),
{
    let ghost iv = items_view(items@);
    let ghost x = (item.0, item.1@);
    let code: u8 = item.0.code();
    let mut i: usize = items.len();
    proof {
        assert(iv.take(i as int) =~= iv);
        assert(iv.skip(i as int) =~= Seq::empty());
        assert(item_placed(iv, x) =~= item_placed(iv.take(i as int), x) + iv.skip(i as int));
    }
    while i > 0 && items[i - 1].0.code() > code
        invariant
            i <= items@.len(),
            items@ == old(items)@,
            iv == items_view(items@),
            code == x.0.spec_code(),
            item_placed(iv, x) == item_placed(iv.take(i as int), x) + iv.skip(i as int),
        decreases i,
    {
        i -= 1;
        proof {
            lemma_items_prefix(iv, i as int);
            assert(iv[i as int] == (items@[i as int].0, items@[i as int].1@));
            assert(iv.skip(i as int) =~= seq![iv[i as int]] + iv.skip(i + 1));
            assert(item_placed(iv, x) =~= item_placed(iv.take(i as int), x) + iv.skip(i as int));
        }
    }
    proof {
        if i > 0 {
            assert(iv.take(i as int).last() == iv[i - 1]);
            assert(iv[i - 1] == (items@[i - 1].0, items@[i - 1].1@));
        }
        assert(item_placed(iv.take(i as int), x) == iv.take(i as int).push(x));
    }
    items.insert(i, item);
    proof {
        assert(items_view(items@) =~= iv.take(i as int).push(x) + iv.skip(i as int));
    }
}

impl Fpdu {
    /// Create an empty FPDU of the given kind.
    #[must_use]
    pub fn new(kind: FpduKind) -> (r: Self)
        ensures
            r@ == FpduV::empty(kind),
    {
        let r = Fpdu { kind, id_dst: 0, id_src: 0, params: Vec::new(), data: Vec::new() };
        proof {
            assert(r@ =~= FpduV::empty(kind));
        }
        r
    }

    /// Create a data FPDU carrying `data`.
    #[must_use]
    pub fn data(kind: FpduKind, id_dst: u8, id_src: u8, data: Vec<u8>) -> (r: Self)
        ensures
            r@ == (FpduV { kind, id_dst, id_src, params: Seq::empty(), data: data@ }),
    {
        let r = Fpdu { kind, id_dst, id_src, params: Vec::new(), data };
        proof {
            assert(r@.params =~= Seq::empty());
        }
        r
    }

    /// Set the connection identifiers.
    #[must_use]
    pub fn with_ids(self, id_dst: u8, id_src: u8) -> (r: Self)
        ensures
            r@ == self@.with_connection(id_dst, id_src),
    {
        Fpdu { kind: self.kind, id_dst, id_src, params: self.params, data: self.data }
    }

    fn place(&mut self, p: Param)
        ensures
            final(self)@ == (FpduV { params: placed(old(self)@.params, p@), ..old(self)@ }),
    {
        let code: u8 = p.code();
        let ghost pv = self@.params;
        let ghost x = p@;
        let i: usize = insert_position(self.params.as_slice(), code);
        if i < self.params.len() && self.params[i].code() == code {
            self.params[i] = p;
        } else {
            self.params.insert(i, p);
        }
        proof {
            assert(self@.params =~= placed(pv, x));
        }
    }

    /// Insert or replace a top-level parameter, keeping canonical order.
    pub fn set(&mut self, pi: Pi, value: Vec<u8>) -> (r: &mut Self)
        ensures
            r@ == old(self)@.with_param(pi, value@),
            *final(self) == *final(r),
    {
        self.place(Param::Pi { pi, value });
        self
    }

    /// Builder-style [`Fpdu::set`].
    #[must_use]
    pub fn with(self, pi: Pi, value: Vec<u8>) -> (r: Self)
        ensures
            r@ == self@.with_param(pi, value@),
    {
        let mut f = self;
        f.place(Param::Pi { pi, value });
        f
    }

    /// Insert or replace a numeric parameter (minimal big-endian encoding, at least one byte).
    pub fn set_num(&mut self, pi: Pi, value: u64) -> (r: &mut Self)
        ensures
            r@ == old(self)@.with_number(pi, value as nat),
            *final(self) == *final(r),
    {
        self.set(pi, encode_num(value))
    }

    /// Builder-style [`Fpdu::set_num`].
    #[must_use]
    pub fn with_num(self, pi: Pi, value: u64) -> (r: Self)
        ensures
            r@ == self@.with_number(pi, value as nat),
    {
        self.with(pi, encode_num(value))
    }

    /// Insert or replace a text parameter (ISO-8859-1, trailing blanks trimmed).
    pub fn set_text(&mut self, pi: Pi, value: &str) -> (r: &mut Self)
        ensures
            r@ == old(self)@.with_string(pi, value@),
            *final(self) == *final(r),
    {
        self.set(pi, latin_of(value))
    }

    /// Builder-style [`Fpdu::set_text`].
    #[must_use]
    pub fn with_text(self, pi: Pi, value: &str) -> (r: Self)
        ensures
            r@ == self@.with_string(pi, value@),
    {
        self.with(pi, latin_of(value))
    }

    /// Insert or replace a diagnostic (PI 2).
    pub fn set_diag(&mut self, diag: Diagnostic) -> (r: &mut Self)
        ensures
            r@ == old(self)@.with_diagnostic(diag),
            *final(self) == *final(r),
    {
        let b = diag.to_bytes();
        self.set(Pi::Diag, bytes_to_vec(b.as_slice()))
    }

    /// Builder-style [`Fpdu::set_diag`].
    #[must_use]
    pub fn with_diag(self, diag: Diagnostic) -> (r: Self)
        ensures
            r@ == self@.with_diagnostic(diag),
    {
        let b = diag.to_bytes();
        self.with(Pi::Diag, bytes_to_vec(b.as_slice()))
    }

    /// Insert or replace a parameter group. Items are sorted into canonical order.
    pub fn set_pgi(&mut self, pgi: Pgi, items: Vec<(Pi, Vec<u8>)>) -> (r: &mut Self)
        ensures
            r@ == old(self)@.with_group(pgi, items_view(items@)),
            *final(self) == *final(r),
    {
        self.place(Param::Pgi { pgi, items: sort_items(items) });
        self
    }

    /// Builder-style [`Fpdu::set_pgi`].
    #[must_use]
    pub fn with_pgi(self, pgi: Pgi, items: Vec<(Pi, Vec<u8>)>) -> (r: Self)
        ensures
            r@ == self@.with_group(pgi, items_view(items@)),
    {
        let mut f = self;
        f.place(Param::Pgi { pgi, items: sort_items(items) });
        f
    }

    /// Remove a top-level parameter.
    pub fn remove(&mut self, pi: Pi) -> (r: Option<Vec<u8>>)
        ensures
            ({
                let params = old(self)@.params;
                let i = single_position(params, pi);
                if i < params.len() {
                    &&& r is Some
                    &&& params[i] == (ParamV::Pi { pi, value: r->0@ })
                    &&& final(self)@ == (FpduV { params: params.remove(i), ..old(self)@ })
                } else {
                    r is None && final(self)@ == old(self)@
                }
            }),
    {
        let ghost pv = self@.params;
        let mut i: usize = 0;
        proof {
            assert(pv.take(0) =~= Seq::empty());
        }
        while i < self.params.len()
            invariant
                i <= self.params.len(),
                *self == *old(self),
                pv == params_view(self.params@),
                single_position(pv.take(i as int), pi) == i,
            decreases self.params.len() - i,
        {
            proof {
                lemma_params_prefix(pv, i as int);
                assert(pv[i as int] == self.params@[i as int]@);
            }
            let found: bool = match &self.params[i] {
                Param::Pi { pi: q, .. } => *q == pi,
                Param::Pgi { .. } => false,
            };
            if found {
                proof {
                    lemma_single_position_stable(pv, pi, i + 1);
                }
                let p = self.params.remove(i);
                proof {
                    assert(self@.params =~= pv.remove(i as int));
                }
                return match p {
                    Param::Pi { value, .. } => Some(value),
                    Param::Pgi { .. } => None,
                };
            }
            i += 1;
        }
        proof {
            assert(pv.take(i as int) =~= pv);
        }
        None
    }

    /// Raw value of a parameter, looked up at top level then inside groups.
    #[must_use]
    pub fn get(&self, pi: Pi) -> (r: Option<&[u8]>)
        ensures
            r matches Some(v) ==> self@.value(pi) == Some(v@),
            r is None ==> self@.value(pi) is None,
    {
        match self.get_single(pi) {
            Some(v) => Some(v),
            None => self.get_grouped(pi),
        }
    }

    /// Raw value of a parameter at top level.
    fn get_single(&self, pi: Pi) -> (r: Option<&[u8]>)
        ensures
            r matches Some(v) ==> first_value(self@.params, pi, false) == Some(v@),
            r is None ==> first_value(self@.params, pi, false) is None,
    {
        let ghost pv = self@.params;
        let mut i: usize = 0;
        proof {
            assert(pv.take(0) =~= Seq::empty());
        }
        while i < self.params.len()
            invariant
                i <= self.params.len(),
                pv == params_view(self.params@),
                first_value(pv.take(i as int), pi, false) is None,
            decreases self.params.len() - i,
        {
            proof {
                lemma_params_prefix(pv, i as int);
                assert(pv[i as int] == self.params@[i as int]@);
            }
            if let Param::Pi { pi: q, value } = &self.params[i] {
                if *q == pi {
                    proof {
                        lemma_first_value_stable(pv, pi, false, i + 1);
                    }
                    return Some(value.as_slice());
                }
            }
            i += 1;
        }
        proof {
            assert(pv.take(i as int) =~= pv);
        }
        None
    }

    /// Raw value of a parameter in the first group that holds it.
    fn get_grouped(&self, pi: Pi) -> (r: Option<&[u8]>)
        ensures
            r matches Some(v) ==> first_value(self@.params, pi, true) == Some(v@),
            r is None ==> first_value(self@.params, pi, true) is None,
    {
        let ghost pv = self@.params;
        let mut i: usize = 0;
        proof {
            assert(pv.take(0) =~= Seq::empty());
        }
        while i < self.params.len()
            invariant
                i <= self.params.len(),
                pv == params_view(self.params@),
                first_value(pv.take(i as int), pi, true) is None,
            decreases self.params.len() - i,
        {
            proof {
                lemma_params_prefix(pv, i as int);
                assert(pv[i as int] == self.params@[i as int]@);
            }
            if let Param::Pgi { items, .. } = &self.params[i] {
                if let Some(v) = find_item(items.as_slice(), pi) {
                    proof {
                        lemma_first_value_stable(pv, pi, true, i + 1);
                    }
                    return Some(v);
                }
            }
            i += 1;
        }
        proof {
            assert(pv.take(i as int) =~= pv);
        }
        None
    }

    /// Whether the parameter is present (top level or in a group).
    #[must_use]
    pub fn has(&self, pi: Pi) -> (r: bool)
        ensures
            r == self@.value(pi) is Some,
    {
        self.get(pi).is_some()
    }

    /// Items of a parameter group.
    #[must_use]
    pub fn pgi(&self, pgi: Pgi) -> (r: Option<&[(Pi, Vec<u8>)]>)
        ensures
            r matches Some(v) ==> lookup_group(self@.params, pgi) == Some(items_view(v@)),
            r is None ==> lookup_group(self@.params, pgi) is None,
    {
        let ghost pv = self@.params;
        let mut i: usize = 0;
        proof {
            assert(pv.take(0) =~= Seq::empty());
        }
        while i < self.params.len()
            invariant
                i <= self.params.len(),
                pv == params_view(self.params@),
                lookup_group(pv.take(i as int), pgi) is None,
            decreases self.params.len() - i,
        {
            proof {
                lemma_params_prefix(pv, i as int);
                assert(pv[i as int] == self.params@[i as int]@);
            }
            if let Param::Pgi { pgi: g, items } = &self.params[i] {
                if *g == pgi {
                    proof {
                        lemma_lookup_group_stable(pv, pgi, i + 1);
                    }
                    return Some(items.as_slice());
                }
            }
            i += 1;
        }
        proof {
            assert(pv.take(i as int) =~= pv);
        }
        None
    }

    /// Numeric value of a parameter (big-endian, up to 8 bytes).
    #[must_use]
    pub fn get_num(&self, pi: Pi) -> (r: Option<u64>)
        ensures
            r == self@.number(pi),
    {
        match self.get(pi) {
            Some(v) => Some(decode_num(v)),
            None => None,
        }
    }

    /// Text value of a parameter (ISO-8859-1, trailing blanks trimmed).
    #[must_use]
    pub fn get_text(&self, pi: Pi) -> (r: Option<String>)
        ensures
            r matches Some(t) ==> self@.string(pi) == Some(t@),
            r is None ==> self@.string(pi) is None,
    {
        match self.get(pi) {
            Some(v) => Some(text_of_latin(v)),
            None => None,
        }
    }

    /// Diagnostic (PI 2), if present.
    #[must_use]
    pub fn diag(&self) -> (r: Option<Diagnostic>)
        ensures
            r == self@.diagnostic(),
    {
        match self.get(Pi::Diag) {
            Some(v) => Diagnostic::from_bytes(v),
            None => None,
        }
    }

    /// Whether this FPDU is an acknowledgement carrying a non-zero diagnostic.
    #[must_use]
    pub fn is_negative(&self) -> (r: bool)
        ensures
            r == self@.negative(),
    {
        if !self.kind.is_ack() {
            return false;
        }
        match self.diag() {
            Some(d) => !d.is_ok(),
            None => false,
        }
    }
}

// ---- copies ----

/// Copy the items of a group.
pub fn copy_items(items: &[(Pi, Vec<u8>)]) -> (r: Vec<(Pi, Vec<u8>)>)
    ensures
        items_view(r@) == items_view(items@),
{
    let mut out: Vec<(Pi, Vec<u8>)> = Vec::new();
    let mut i: usize = 0;
    let ghost iv = items_view(items@);
    while i < items.len()
        invariant
            i <= items.len(),
            iv == items_view(items@),
            items_view(out@) == iv.take(i as int),
        decreases items.len() - i,
    {
        let ghost before = items_view(out@);
        out.push((items[i].0, bytes_to_vec(items[i].1.as_slice())));
        i += 1;
        proof {
            assert(items_view(out@) =~= before.push(iv[i - 1]));
            assert(items_view(out@) =~= iv.take(i as int));
        }
    }
    proof {
        assert(iv.take(i as int) =~= iv);
    }
    out
}

impl Clone for Param {
    fn clone(&self) -> (r: Self)
        ensures
            r@ == self@,
    {
        match self {
            Param::Pi { pi, value } => Param::Pi { pi: *pi, value: bytes_to_vec(value.as_slice()) },
            Param::Pgi { pgi, items } => Param::Pgi {
                pgi: *pgi,
                items: copy_items(items.as_slice()),
            },
        }
    }
}

impl Clone for Fpdu {
    fn clone(&self) -> (r: Self)
        ensures
            r@ == self@,
    {
        let mut params: Vec<Param> = Vec::new();
        let mut i: usize = 0;
        let ghost pv = self@.params;
        while i < self.params.len()
            invariant
                i <= self.params.len(),
                pv == params_view(self.params@),
                params_view(params@) == pv.take(i as int),
            decreases self.params.len() - i,
        {
            let ghost before = params_view(params@);
            params.push(self.params[i].clone());
            i += 1;
            proof {
                assert(params_view(params@) =~= before.push(pv[i - 1]));
                assert(params_view(params@) =~= pv.take(i as int));
            }
        }
        proof {
            assert(pv.take(i as int) =~= pv);
        }
        Fpdu {
            kind: self.kind,
            id_dst: self.id_dst,
            id_src: self.id_src,
            params,
            data: bytes_to_vec(self.data.as_slice()),
        }
    }
}

impl Clone for DecodeError {
    fn clone(&self) -> (r: Self)
        ensures
            r@ == self@,
    {
        DecodeError { diag: self.diag, detail: self.detail.clone() }
    }
}

// ---- rendering ----

/// A string between double quotes with its special characters escaped, as `{:?}` writes it.
pub uninterp spec fn quoted(s: Seq<char>) -> Seq<char>;

/// [`std::fmt::Debug`] on `str`: the text that `{:?}` writes depends on the string alone.
#[verifier::external_body]
fn quote(s: &str) -> (r: String)
    ensures
        r@ == quoted(s@),
{
    format!("{s:?}")
}

/// Rendering of a parameter value: text in quotes, a number in decimal, the rest in hexadecimal.
pub open spec fn value_text(pi: Pi, value: Seq<u8>) -> Seq<char> {
    let head = "PI"@ + dec(pi.spec_code() as nat);
    match pi.spec_kind() {
        ValueKind::Text | ValueKind::DateTime => head + "="@ + quoted(latin_chars(value)),
        ValueKind::Aggregate => head + "=0x"@ + hex_text(value),
        _ => if value.len() <= 8 {
            head + "="@ + dec(num_value(value) % 0x1_0000_0000_0000_0000)
        } else {
            head + "=0x"@ + hex_text(value)
        },
    }
}

/// Rendering of the items of a group, each behind a blank.
pub open spec fn items_text(items: Items) -> Seq<char>
    decreases items.len(),
{
    if items.len() == 0 {
        ""@
    } else {
        items_text(items.drop_last()) + " "@ + value_text(items.last().0, items.last().1)
    }
}

/// Rendering of parameters, each behind a blank; a group stands between braces.
pub open spec fn params_text(params: Seq<ParamV>) -> Seq<char>
    decreases params.len(),
{
    if params.len() == 0 {
        ""@
    } else {
        params_text(params.drop_last()) + " "@ + match params.last() {
            ParamV::Pi { pi, value } => value_text(pi, value),
            ParamV::Pgi { pgi, items } => "PGI"@ + dec(pgi.spec_code() as nat) + "{"@ + items_text(
                items,
            ) + " }"@,
        }
    }
}

impl FpduV {
    /// One-line rendering of a FPDU.
    pub open spec fn description(self) -> Seq<char> {
        let head = self.kind.spec_name() + " dst="@ + dec(self.id_dst as nat) + " src="@ + dec(
            self.id_src as nat,
        );
        if self.kind.spec_is_data() {
            head + " data="@ + dec(self.data.len()) + " bytes"@
        } else {
            head + params_text(self.params)
        }
    }
}

fn render(pi: Pi, value: &[u8]) -> (r: String)
    ensures
        r@ == value_text(pi, value@),
{
    let mut out = "PI".to_owned();
    push_decimal(&mut out, pi.code() as u64);
    match pi.kind() {
        ValueKind::Text | ValueKind::DateTime => {
            let chars = chars_of_latin(value);
            let s = crate::text::string_of(chars.as_slice());
            out.append("=");
            out.append(quote(s.as_str()).as_str());
        },
        ValueKind::Aggregate => {
            out.append("=0x");
            out.append(hex(value).as_str());
        },
        _ => {
            if value.len() <= 8 {
                out.append("=");
                push_decimal(&mut out, decode_num(value));
            } else {
                out.append("=0x");
                out.append(hex(value).as_str());
            }
        },
    }
    out
}

fn render_items(items: &[(Pi, Vec<u8>)]) -> (r: String)
    ensures
        r@ == items_text(items_view(items@)),
{
    let mut out = "".to_owned();
    let ghost iv = items_view(items@);
    let mut i: usize = 0;
    proof {
        assert(iv.take(0) =~= Seq::empty());
    }
    while i < items.len()
        invariant
            i <= items.len(),
            iv == items_view(items@),
            out@ == items_text(iv.take(i as int)),
        decreases items.len() - i,
    {
        out.append(" ");
        out.append(render(items[i].0, items[i].1.as_slice()).as_str());
        proof {
            lemma_items_prefix(iv, i as int);
            assert(iv[i as int] == (items@[i as int].0, items@[i as int].1@));
        }
        i += 1;
    }
    proof {
        assert(iv.take(i as int) =~= iv);
    }
    out
}

impl Fpdu {
    /// One-line rendering: kind, connection identifiers, then the parameters or the data size.
    #[must_use]
    pub fn describe(&self) -> (r: String)
        ensures
            r@ == self@.description(),
    {
        let mut out = self.kind.name().to_owned();
        out.append(" dst=");
        push_decimal(&mut out, self.id_dst as u64);
        out.append(" src=");
        push_decimal(&mut out, self.id_src as u64);
        if self.kind.is_data() {
            out.append(" data=");
            push_decimal(&mut out, self.data.len() as u64);
            out.append(" bytes");
            return out;
        }
        let ghost head = out@;
        let ghost pv = self@.params;
        let mut list = "".to_owned();
        let mut i: usize = 0;
        proof {
            assert(pv.take(0) =~= Seq::empty());
        }
        while i < self.params.len()
            invariant
                i <= self.params.len(),
                pv == params_view(self.params@),
                list@ == params_text(pv.take(i as int)),
            decreases self.params.len() - i,
        {
            proof {
                lemma_params_prefix(pv, i as int);
                assert(pv[i as int] == self.params@[i as int]@);
            }
            list.append(" ");
            match &self.params[i] {
                Param::Pi { pi, value } => {
                    list.append(render(*pi, value.as_slice()).as_str());
                },
                Param::Pgi { pgi, items } => {
                    let mut group = "PGI".to_owned();
                    push_decimal(&mut group, pgi.code() as u64);
                    group.append("{");
                    group.append(render_items(items.as_slice()).as_str());
                    group.append(" }");
                    list.append(group.as_str());
                },
            }
            i += 1;
        }
        proof {
            assert(pv.take(i as int) =~= pv);
        }
        out.append(list.as_str());
        out
    }
}

impl EncodeError {
    /// Rendering of the error.
    pub open spec fn spec_text(self) -> Seq<char> {
        match self {
            EncodeError::TooLong(n) => "FPDU too long: "@ + dec(n as nat) + " bytes"@,
            EncodeError::EmptyValue(c) => "parameter "@ + dec(c as nat) + " has an empty value"@,
        }
    }

    /// Rendering of the error.
    #[must_use]
    pub fn text(self) -> (r: String)
        ensures
            r@ == self.spec_text(),
    {
        match self {
            EncodeError::TooLong(n) => {
                let mut out = "FPDU too long: ".to_owned();
                push_decimal(&mut out, n as u64);
                out.append(" bytes");
                out
            },
            EncodeError::EmptyValue(c) => {
                let mut out = "parameter ".to_owned();
                push_decimal(&mut out, c as u64);
                out.append(" has an empty value");
                out
            },
        }
    }
}

} // verus!
