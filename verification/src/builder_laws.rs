//! What holds of the FPDUs that the constructors build: every one of them passes the strict
//! reading of the peer, and a file description is read back from the FPDU that carries it.

use crate::builder::{
    diag_fpdu, opt_byte, opt_text_bytes, spec_ack_resyn, spec_ack_syn, spec_ack_trans_end,
    spec_idt, spec_resyn, spec_syn, spec_trans_end, FileSpecV,
};
use crate::diag::Diagnostic;
use crate::fpdu::{
    admits, canonical, first_value, holds_code, holds_item, insertion_point, item_placed,
    item_value, items_sorted, law_number_round_trip, law_text_round_trip,
    lemma_insertion_point_range, lookup, lookup_group, missing_member, missing_rule, num_bytes,
    param_rule_fault, params_rule_fault, placed, text_bytes, FpduV, Items, ParamV, MAX_FPDU_LEN,
};
use crate::fpdu_laws::{law_decode_inverts_encode, param_readable, well_formed};
use crate::kind::{FpduKind, ParamRule};
use crate::params::{ArticleFormat, EndCode, RequestedAttributes};
use crate::pi::{Pgi, Pi};
use crate::text::{non_empty, trimmed_end};
use vstd::prelude::*;

verus! {

/// Whether a unit passes the strict reading in a FPDU of the given kind.
pub open spec fn param_ok(kind: FpduKind, p: ParamV) -> bool {
    param_readable(p, true) && param_rule_fault(kind, p) is None
}

/// Whether every unit of a FPDU passes the strict reading, in canonical order.
pub open spec fn params_ok(f: FpduV) -> bool {
    &&& !f.kind.spec_is_data()
    &&& f.data.len() == 0
    &&& canonical(f.params)
    &&& forall|i: int| 0 <= i < f.params.len() ==> param_readable(#[trigger] f.params[i], true)
    &&& params_rule_fault(f.kind, f.params) is None
}

/// Whether all codes of a list are below `code`.
pub open spec fn below(params: Seq<ParamV>, code: int) -> bool {
    forall|i: int| 0 <= i < params.len() ==> (#[trigger] params[i]).spec_code() < code
}

/// The FPDU with one more unit, where there is one.
pub open spec fn extended(f: FpduV, o: Option<ParamV>) -> FpduV {
    match o {
        Some(p) => FpduV { params: placed(f.params, p), ..f },
        None => f,
    }
}

/// Value that an optional unit gives to a parameter.
pub open spec fn opt_value(o: Option<ParamV>, pi: Pi) -> Option<Seq<u8>> {
    match o {
        Some(p) => p.value_of(pi),
        None => None,
    }
}

/// Whether an optional unit is the single one of a parameter.
pub open spec fn gives_single(o: Option<ParamV>, pi: Pi) -> bool {
    o matches Some(p) && p.value_at(pi, false) is Some
}

/// A list below a code has no single unit of that code.
proof fn lemma_no_single(params: Seq<ParamV>, pi: Pi)
    requires
        below(params, pi.spec_code() as int),
    ensures
        first_value(params, pi, false) is None,
    decreases params.len(),
{
    if params.len() > 0 {
        let front = params.drop_last();
        assert forall|a: int| 0 <= a < front.len() implies (#[trigger] front[a]).spec_code()
            < pi.spec_code() by {
            assert(front[a] == params[a]);
        }
        lemma_no_single(front, pi);
        assert(params.last() == params[params.len() - 1]);
    }
}

/// A unit whose code is above all others is appended.
proof fn lemma_extend(f: FpduV, o: Option<ParamV>, code: u8)
    requires
        canonical(f.params),
        below(f.params, code as int),
        o matches Some(p) ==> p.spec_code() == code,
    ensures
        ({
            let next = extended(f, o);
            &&& next.kind == f.kind
            &&& next.data == f.data
            &&& next.params == match o {
                Some(p) => f.params.push(p),
                None => f.params,
            }
            &&& canonical(next.params)
            &&& below(next.params, code + 1)
            &&& forall|q: Pi|
                #![trigger lookup(next.params, q)]
                lookup(next.params, q) == if lookup(f.params, q) is Some && !gives_single(o, q) {
                    lookup(f.params, q)
                } else {
                    opt_value(o, q)
                }
            &&& forall|g: Pgi|
                #![trigger lookup_group(next.params, g)]
                lookup_group(next.params, g) == if lookup_group(f.params, g) is Some {
                    lookup_group(f.params, g)
                } else {
                    match o {
                        Some(p) => p.items_of(g),
                        None => None,
                    }
                }
            &&& forall|c: u8|
                #![trigger holds_code(next.params, c)]
                holds_code(next.params, c) <==> (holds_code(f.params, c) || (o is Some && c
                    == code))
            &&& params_ok(f) && (o matches Some(p) ==> param_ok(f.kind, p)) ==> params_ok(next)
        }),
{
    let next = extended(f, o);
    if let Some(p) = o {
        lemma_insertion_point_range(f.params, code);
        let i = insertion_point(f.params, code);
        if i < f.params.len() {
            assert(f.params[i].spec_code() >= code);
        }
        assert(i == f.params.len());
        assert(next.params =~= f.params.push(p));
        assert(f.params.push(p).drop_last() =~= f.params);
        if let ParamV::Pi { pi, .. } = p {
            lemma_no_single(f.params, pi);
        }
        assert forall|a: int, b: int| 0 <= a < b < next.params.len() implies (
        #[trigger] next.params[a]).spec_code() < (#[trigger] next.params[b]).spec_code() by {
            assert(next.params[a] == f.params[a]);
            if b < f.params.len() {
                assert(next.params[b] == f.params[b]);
            }
        }
        assert forall|a: int| 0 <= a < next.params.len() implies (
        #[trigger] next.params[a]).spec_code() < code + 1 by {
            if a < f.params.len() {
                assert(next.params[a] == f.params[a]);
            }
        }
        assert forall|c: u8| #![trigger holds_code(next.params, c)] holds_code(next.params, c) <==> (
        holds_code(f.params, c) || c == code) by {
            if holds_code(f.params, c) {
                let k = choose|k: int| 0 <= k < f.params.len() && (
                #[trigger] f.params[k]).spec_code() == c;
                assert(next.params[k] == f.params[k]);
            }
            if c == code {
                assert(next.params[f.params.len() as int] == p);
            }
            if holds_code(next.params, c) && c != code {
                let k = choose|k: int| 0 <= k < next.params.len() && (
                #[trigger] next.params[k]).spec_code() == c;
                assert(k < f.params.len());
                assert(next.params[k] == f.params[k]);
            }
        }
        if params_ok(f) && param_ok(f.kind, p) {
            assert forall|a: int| 0 <= a < next.params.len() implies param_readable(
                #[trigger] next.params[a],
                true,
            ) by {
                if a < f.params.len() {
                    assert(next.params[a] == f.params[a]);
                }
            }
        }
    }
}

/// A new FPDU holds nothing yet.
proof fn lemma_start(kind: FpduKind, id_dst: u8, id_src: u8)
    requires
        !kind.spec_is_data(),
    ensures
        ({
            let f = FpduV::between(kind, id_dst, id_src);
            &&& f.kind == kind
            &&& canonical(f.params)
            &&& below(f.params, 0)
            &&& params_ok(f)
            &&& forall|q: Pi| #![trigger lookup(f.params, q)] lookup(f.params, q) is None
            &&& forall|g: Pgi| #![trigger lookup_group(f.params, g)] lookup_group(f.params, g) is None
            &&& forall|c: u8| #![trigger holds_code(f.params, c)] !holds_code(f.params, c)
        }),
{
}

/// A list below a code is below every larger one.
proof fn lemma_below(params: Seq<ParamV>, a: int, b: int)
    requires
        below(params, a),
        a <= b,
    ensures
        below(params, b),
{
}

/// Nothing is missing where every mandatory code is there.
proof fn lemma_nothing_missing(template: Seq<ParamRule>, params: Seq<ParamV>)
    requires
        forall|i: int|
            0 <= i < template.len() && (#[trigger] template[i]).mandatory ==> holds_code(
                params,
                template[i].code,
            ),
    ensures
        missing_rule(template, params) is None,
    decreases template.len(),
{
    if template.len() > 0 {
        assert forall|i: int|
            0 <= i < template.drop_last().len() && (
            #[trigger] template.drop_last()[i]).mandatory implies holds_code(
            params,
            template.drop_last()[i].code,
        ) by {
            assert(template.drop_last()[i] == template[i]);
        }
        lemma_nothing_missing(template.drop_last(), params);
        assert(template.last() == template[template.len() - 1]);
    }
}

/// Units that pass, with nothing missing, make a well-formed FPDU.
proof fn lemma_complete(f: FpduV)
    requires
        params_ok(f),
        forall|i: int|
            0 <= i < f.kind.spec_template().len() && (
            #[trigger] f.kind.spec_template()[i]).mandatory ==> holds_code(
                f.params,
                f.kind.spec_template()[i].code,
            ),
    ensures
        well_formed(f, true),
{
    lemma_nothing_missing(f.kind.spec_template(), f.params);
}

/// Powers of 256.
pub open spec fn pow256(k: nat) -> nat
    decreases k,
{
    if k == 0 {
        1
    } else {
        256 * pow256((k - 1) as nat)
    }
}

/// A number below 256 to the power `k` takes at most `k` bytes.
proof fn lemma_num_len(n: nat, k: nat)
    requires
        k >= 1,
        n < pow256(k),
    ensures
        1 <= num_bytes(n).len() <= k,
    decreases k,
{
    if n >= 256 {
        assert(pow256(k) == 256 * pow256((k - 1) as nat));
        if k == 1 {
            assert(pow256(1) == 256) by {
                reveal_with_fuel(pow256, 2);
            }
        } else {
            lemma_num_len(n / 256, (k - 1) as nat);
        }
    }
}

/// Sizes of numbers as parameters.
pub(crate) proof fn lemma_num_sizes(n: nat)
    ensures
        num_bytes(n).len() >= 1,
        n <= 0xFF ==> num_bytes(n).len() == 1,
        n <= 0xFFFF ==> num_bytes(n).len() <= 2,
        n <= 0xFF_FFFF ==> num_bytes(n).len() <= 3,
        n <= 0xFFFF_FFFF ==> num_bytes(n).len() <= 4,
        n <= 0xFFFF_FFFF_FFFF_FFFF ==> num_bytes(n).len() <= 8,
{
    law_number_round_trip(n);
    reveal_with_fuel(pow256, 9);
    if n <= 0xFFFF {
        lemma_num_len(n, 2);
    }
    if n <= 0xFF_FFFF {
        lemma_num_len(n, 3);
    }
    if n <= 0xFFFF_FFFF {
        lemma_num_len(n, 4);
    }
    if n <= 0xFFFF_FFFF_FFFF_FFFF {
        assert(pow256(8) == 0x1_0000_0000_0000_0000);
        lemma_num_len(n, 8);
    }
}

/// A single unit with a value of an admitted length passes.
proof fn lemma_single_ok(kind: FpduKind, pi: Pi, value: Seq<u8>)
    requires
        admits(kind.spec_template(), pi.spec_code()),
        value.len() > 0,
        pi.spec_max_len() == 0 || value.len() <= pi.spec_max_len(),
    ensures
        param_ok(kind, ParamV::Pi { pi, value }),
{
}

pub(crate) proof fn lemma_admits(kind: FpduKind, i: int, code: u8)
    requires
        0 <= i < kind.spec_template().len(),
        kind.spec_template()[i].code == code,
    ensures
        admits(kind.spec_template(), code),
{
}

/// Whether a FPDU has a diagnostic as its only mandatory parameter.
pub open spec fn needs_only_a_diagnostic(kind: FpduKind) -> bool {
    match kind {
        FpduKind::Rconnect | FpduKind::Release | FpduKind::Abort | FpduKind::Deselect
        | FpduKind::AckDeselect | FpduKind::Crf | FpduKind::AckCrf | FpduKind::AckRead
        | FpduKind::DtfEnd | FpduKind::AckCreate | FpduKind::AckSelect | FpduKind::AckOrf
        | FpduKind::AckTransEnd | FpduKind::AckMsg | FpduKind::Idt => true,
        _ => false,
    }
}

proof fn lemma_diag(kind: FpduKind, id_dst: u8, id_src: u8, diag: Diagnostic)
    requires
        !kind.spec_is_data(),
        admits(kind.spec_template(), 2),
    ensures
        ({
            let f = diag_fpdu(kind, id_dst, id_src, diag);
            &&& f.kind == kind
            &&& canonical(f.params)
            &&& below(f.params, 3)
            &&& params_ok(f)
            &&& forall|q: Pi|
                #![trigger lookup(f.params, q)]
                lookup(f.params, q) == if q == Pi::Diag {
                    Some(diag.spec_bytes())
                } else {
                    None
                }
            &&& forall|g: Pgi| #![trigger lookup_group(f.params, g)] lookup_group(f.params, g) is None
            &&& forall|c: u8| #![trigger holds_code(f.params, c)] holds_code(f.params, c) <==> c == 2
        }),
{
    let f0 = FpduV::between(kind, id_dst, id_src);
    let p = ParamV::Pi { pi: Pi::Diag, value: diag.spec_bytes() };
    lemma_start(kind, id_dst, id_src);
    lemma_below(f0.params, 0, 2);
    lemma_single_ok(kind, Pi::Diag, diag.spec_bytes());
    lemma_extend(f0, Some(p), 2);
    assert(extended(f0, Some(p)) == diag_fpdu(kind, id_dst, id_src, diag));
}

/// Refusals, releases, aborts, closings and plain acknowledgements pass the strict reading of the
/// peer whatever their diagnostic.
pub proof fn law_diagnostic_fpdus_are_valid(
    kind: FpduKind,
    id_dst: u8,
    id_src: u8,
    diag: Diagnostic,
)
    requires
        needs_only_a_diagnostic(kind),
    ensures
        well_formed(diag_fpdu(kind, id_dst, id_src, diag), true),
{
    let t = kind.spec_template();
    assert(t[0].code == 2);
    lemma_admits(kind, 0, 2);
    lemma_diag(kind, id_dst, id_src, diag);
    lemma_complete(diag_fpdu(kind, id_dst, id_src, diag));
}

/// RELCONF, WRITE, ACK(IDT) and an ORF or TRANS.END without options pass as they are.
pub proof fn law_bare_fpdus_are_valid(kind: FpduKind, id_dst: u8, id_src: u8)
    requires
        kind == FpduKind::Relconf || kind == FpduKind::Write || kind == FpduKind::AckIdt || kind
            == FpduKind::Orf || kind == FpduKind::TransEnd || kind == FpduKind::MsgMm || kind
            == FpduKind::MsgFm,
    ensures
        well_formed(FpduV::between(kind, id_dst, id_src), true),
{
    lemma_start(kind, id_dst, id_src);
    lemma_complete(FpduV::between(kind, id_dst, id_src));
}

/// Synchronisation points pass for every number of three bytes, and are read back.
pub proof fn law_sync_points_are_valid(id_dst: u8, number: u32)
    requires
        number <= 0xFF_FFFF,
    ensures
        well_formed(spec_syn(id_dst, number), true),
        well_formed(spec_ack_syn(id_dst, number), true),
        well_formed(spec_ack_resyn(id_dst, number), true),
        spec_syn(id_dst, number).number32(Pi::SyncNumber) == Some(number),
        spec_ack_syn(id_dst, number).number32(Pi::SyncNumber) == Some(number),
        spec_ack_resyn(id_dst, number).number32(Pi::RestartPoint) == Some(number),
{
    lemma_num_sizes(number as nat);
    law_number_round_trip(number as nat);
    lemma_one_number(FpduKind::Syn, id_dst, Pi::SyncNumber, number);
    lemma_one_number(FpduKind::AckSyn, id_dst, Pi::SyncNumber, number);
    lemma_one_number(FpduKind::AckResyn, id_dst, Pi::RestartPoint, number);
}

proof fn lemma_one_number(kind: FpduKind, id_dst: u8, pi: Pi, number: u32)
    requires
        number <= 0xFF_FFFF,
        (kind == FpduKind::Syn && pi == Pi::SyncNumber) || (kind == FpduKind::AckSyn && pi
            == Pi::SyncNumber) || (kind == FpduKind::AckResyn && pi == Pi::RestartPoint) || (kind
            == FpduKind::Read && pi == Pi::RestartPoint),
    ensures
        ({
            let f = FpduV::between(kind, id_dst, 0).with_number(pi, number as nat);
            well_formed(f, true) && f.number32(pi) == Some(number)
        }),
{
    lemma_num_sizes(number as nat);
    law_number_round_trip(number as nat);
    let f0 = FpduV::between(kind, id_dst, 0);
    let p = ParamV::Pi { pi, value: num_bytes(number as nat) };
    lemma_start(kind, id_dst, 0);
    lemma_below(f0.params, 0, pi.spec_code() as int);
    assert(kind.spec_template()[0].code == pi.spec_code());
    lemma_admits(kind, 0, pi.spec_code());
    lemma_single_ok(kind, pi, num_bytes(number as nat));
    lemma_extend(f0, Some(p), pi.spec_code());
    let f = extended(f0, Some(p));
    assert(f == FpduV::between(kind, id_dst, 0).with_number(pi, number as nat));
    lemma_complete(f);
    assert(lookup(f.params, pi) == Some(num_bytes(number as nat)));
}

/// Restart points pass for every number of three bytes, and are read back: READ, ACK(WRITE), RESYN.
pub proof fn law_restart_points_are_valid(id_dst: u8, diag: Diagnostic, point: u32)
    requires
        point <= 0xFF_FFFF,
    ensures
        ({
            let read = FpduV::between(FpduKind::Read, id_dst, 0).with_number(
                Pi::RestartPoint,
                point as nat,
            );
            let ack = diag_fpdu(FpduKind::AckWrite, id_dst, 0, diag).with_number(
                Pi::RestartPoint,
                point as nat,
            );
            let resyn = spec_resyn(id_dst, diag, point);
            &&& well_formed(read, true) && read.number32(Pi::RestartPoint) == Some(point)
            &&& well_formed(ack, true) && ack.number32(Pi::RestartPoint) == Some(point)
            &&& ack.diagnostic() == Some(diag)
            &&& well_formed(resyn, true) && resyn.number32(Pi::RestartPoint) == Some(point)
            &&& resyn.diagnostic() == Some(diag)
        }),
{
    lemma_one_number(FpduKind::Read, id_dst, Pi::RestartPoint, point);
    lemma_diag_and_point(FpduKind::AckWrite, id_dst, diag, point);
    lemma_diag_and_point(FpduKind::Resyn, id_dst, diag, point);
}

proof fn lemma_diag_and_point(kind: FpduKind, id_dst: u8, diag: Diagnostic, point: u32)
    requires
        point <= 0xFF_FFFF,
        kind == FpduKind::AckWrite || kind == FpduKind::Resyn,
    ensures
        ({
            let f = diag_fpdu(kind, id_dst, 0, diag).with_number(Pi::RestartPoint, point as nat);
            &&& well_formed(f, true)
            &&& f.number32(Pi::RestartPoint) == Some(point)
            &&& f.diagnostic() == Some(diag)
        }),
{
    let t = kind.spec_template();
    assert(t[0].code == 2 && t[1].code == 18);
    lemma_admits(kind, 0, 2);
    lemma_admits(kind, 1, 18);
    lemma_num_sizes(point as nat);
    law_number_round_trip(point as nat);
    lemma_diag(kind, id_dst, 0, diag);
    let f0 = diag_fpdu(kind, id_dst, 0, diag);
    let p = ParamV::Pi { pi: Pi::RestartPoint, value: num_bytes(point as nat) };
    lemma_single_ok(kind, Pi::RestartPoint, num_bytes(point as nat));
    lemma_below(f0.params, 3, 18);
    lemma_extend(f0, Some(p), 18);
    let f = extended(f0, Some(p));
    assert(f == diag_fpdu(kind, id_dst, 0, diag).with_number(Pi::RestartPoint, point as nat));
    lemma_complete(f);
    assert(lookup(f.params, Pi::RestartPoint) == Some(num_bytes(point as nat)));
    assert(lookup(f.params, Pi::Diag) == Some(diag.spec_bytes()));
}

/// An interruption passes, and its reason and code are read back.
pub proof fn law_interruptions_are_valid(id_dst: u8, diag: Diagnostic, code: u8)
    ensures
        ({
            let f = spec_idt(id_dst, diag, EndCode::from_code(code));
            &&& well_formed(f, true)
            &&& f.end_code() == Some(EndCode::from_code(code))
            &&& f.diagnostic() == Some(diag)
        }),
{
    let kind = FpduKind::Idt;
    let t = kind.spec_template();
    assert(t[0].code == 2 && t[1].code == 19);
    lemma_admits(kind, 0, 2);
    lemma_admits(kind, 1, 19);
    lemma_diag(kind, id_dst, 0, diag);
    let f0 = diag_fpdu(kind, id_dst, 0, diag);
    let c = EndCode::from_code(code).code();
    let p = ParamV::Pi { pi: Pi::EndCode, value: seq![c] };
    lemma_single_ok(kind, Pi::EndCode, seq![c]);
    lemma_below(f0.params, 3, 19);
    lemma_extend(f0, Some(p), 19);
    let f = extended(f0, Some(p));
    assert(f == spec_idt(id_dst, diag, EndCode::from_code(code)));
    lemma_complete(f);
    assert(lookup(f.params, Pi::EndCode) == Some(seq![c]));
    assert(lookup(f.params, Pi::Diag) == Some(diag.spec_bytes()));
}

/// The counters at the end of a transfer pass, for article counts of four bytes, and are read back.
pub proof fn law_transfer_counts_are_valid(
    id_dst: u8,
    diag: Diagnostic,
    bytes: u64,
    articles: u64,
)
    requires
        articles <= 0xFFFF_FFFF,
    ensures
        ({
            let f = spec_trans_end(id_dst, Some(bytes), Some(articles));
            let a = spec_ack_trans_end(id_dst, diag, Some(bytes), Some(articles));
            &&& well_formed(f, true)
            &&& f.number(Pi::ByteCount) == Some(bytes)
            &&& f.number(Pi::ArticleCount) == Some(articles)
            &&& well_formed(a, true)
            &&& a.number(Pi::ByteCount) == Some(bytes)
            &&& a.number(Pi::ArticleCount) == Some(articles)
            &&& a.diagnostic() == Some(diag)
        }),
{
    let k1 = FpduKind::TransEnd;
    assert(k1.spec_template()[0].code == 27 && k1.spec_template()[1].code == 28);
    lemma_admits(k1, 0, 27);
    lemma_admits(k1, 1, 28);
    let f0 = FpduV::between(k1, id_dst, 0);
    lemma_start(k1, id_dst, 0);
    lemma_below(f0.params, 0, 27);
    lemma_counts(f0, bytes, articles);
    let k2 = FpduKind::AckTransEnd;
    assert(k2.spec_template()[0].code == 2 && k2.spec_template()[1].code == 27
        && k2.spec_template()[2].code == 28);
    lemma_admits(k2, 0, 2);
    lemma_admits(k2, 1, 27);
    lemma_admits(k2, 2, 28);
    let a0 = diag_fpdu(k2, id_dst, 0, diag);
    lemma_diag(k2, id_dst, 0, diag);
    lemma_below(a0.params, 3, 27);
    lemma_counts(a0, bytes, articles);
    let f = spec_trans_end(id_dst, Some(bytes), Some(articles));
    let a = spec_ack_trans_end(id_dst, diag, Some(bytes), Some(articles));
    lemma_complete(f);
    lemma_complete(a);
    assert(lookup(a.params, Pi::Diag) == Some(diag.spec_bytes()));
}

proof fn lemma_counts(f0: FpduV, bytes: u64, articles: u64)
    requires
        articles <= 0xFFFF_FFFF,
        params_ok(f0),
        below(f0.params, 27),
        admits(f0.kind.spec_template(), 27),
        admits(f0.kind.spec_template(), 28),
        lookup(f0.params, Pi::ByteCount) is None,
        lookup(f0.params, Pi::ArticleCount) is None,
    ensures
        ({
            let f = f0.with_opt_number(Pi::ByteCount, Some(bytes)).with_opt_number(
                Pi::ArticleCount,
                Some(articles),
            );
            &&& f.kind == f0.kind
            &&& params_ok(f)
            &&& f.number(Pi::ByteCount) == Some(bytes)
            &&& f.number(Pi::ArticleCount) == Some(articles)
            &&& lookup(f.params, Pi::Diag) == lookup(f0.params, Pi::Diag)
            &&& forall|c: u8|
                #![trigger holds_code(f.params, c)]
                holds_code(f0.params, c) ==> holds_code(f.params, c)
        }),
{
    lemma_num_sizes(bytes as nat);
    lemma_num_sizes(articles as nat);
    law_number_round_trip(bytes as nat);
    law_number_round_trip(articles as nat);
    let p1 = ParamV::Pi { pi: Pi::ByteCount, value: num_bytes(bytes as nat) };
    let p2 = ParamV::Pi { pi: Pi::ArticleCount, value: num_bytes(articles as nat) };
    lemma_single_ok(f0.kind, Pi::ByteCount, num_bytes(bytes as nat));
    lemma_single_ok(f0.kind, Pi::ArticleCount, num_bytes(articles as nat));
    lemma_extend(f0, Some(p1), 27);
    let f1 = extended(f0, Some(p1));
    lemma_extend(f1, Some(p2), 28);
    let f2 = extended(f1, Some(p2));
    let f = f0.with_opt_number(Pi::ByteCount, Some(bytes)).with_opt_number(
        Pi::ArticleCount,
        Some(articles),
    );
    assert(f == f2);
    assert(lookup(f2.params, Pi::ByteCount) == Some(num_bytes(bytes as nat)));
    assert(lookup(f2.params, Pi::ArticleCount) == Some(num_bytes(articles as nat)));
    assert(lookup(f2.params, Pi::Diag) == lookup(f0.params, Pi::Diag));
    assert forall|c: u8| #![trigger holds_code(f.params, c)] holds_code(f0.params, c) implies holds_code(f.params, c) by {
        assert(holds_code(f1.params, c));
    }
}

// ---- file descriptions ----

/// Whether a text can be read back from its bytes: in ISO-8859-1, without trailing blank.
pub open spec fn legible(t: Seq<char>) -> bool {
    &&& trimmed_end(t) == t
    &&& forall|i: int| 0 <= i < t.len() ==> (#[trigger] t[i] as u32) < 256
}

/// Whether an optional text can be read back from its bytes.
pub open spec fn legible_opt(t: Option<Seq<char>>) -> bool {
    t matches Some(s) ==> legible(s)
}

/// Whether a text survives the wire: it is legible, and not empty.
pub open spec fn clean(t: Seq<char>) -> bool {
    t.len() > 0 && legible(t)
}

/// Whether an optional text survives the wire in at most `max` bytes (0 = no limit).
pub open spec fn clean_opt(t: Option<Seq<char>>, max: nat) -> bool {
    t matches Some(s) ==> clean(s) && (max == 0 || s.len() <= max)
}

/// Whether a file description can be read back from its CREATE: legible texts, neither a label nor
/// a free message that is there but empty, and no extraction date without a creation date.
pub open spec fn readable(spec: FileSpecV) -> bool {
    &&& legible(spec.file_name)
    &&& legible_opt(spec.requester)
    &&& legible_opt(spec.server)
    &&& legible_opt(spec.label) && non_empty(spec.label) == spec.label
    &&& legible_opt(spec.creation_date)
    &&& legible_opt(spec.extraction_date)
    &&& legible_opt(spec.client_id)
    &&& legible_opt(spec.bank_id)
    &&& legible_opt(spec.file_access_control)
    &&& legible_opt(spec.free_message) && non_empty(spec.free_message) == spec.free_message
    &&& spec.extraction_date is Some ==> spec.creation_date is Some
}

/// Whether a file description has a wire form in full: clean texts within the limits of their
/// parameters, a transfer identifier of three bytes, and no extraction date without a creation
/// date.
pub open spec fn describable(spec: FileSpecV) -> bool {
    &&& clean(spec.file_name)
    &&& clean_opt(spec.requester, 0)
    &&& clean_opt(spec.server, 0)
    &&& clean_opt(spec.label, 0)
    &&& clean_opt(spec.creation_date, 0)
    &&& clean_opt(spec.extraction_date, 0)
    &&& clean_opt(spec.client_id, 24)
    &&& clean_opt(spec.bank_id, 24)
    &&& clean_opt(spec.file_access_control, 16)
    &&& clean_opt(spec.free_message, 254)
    &&& spec.transfer_id <= 0xFF_FFFF
    &&& spec.extraction_date is Some ==> spec.creation_date is Some
}

proof fn lemma_clean(t: Seq<char>)
    requires
        legible(t),
    ensures
        text_bytes(t).len() == t.len(),
        crate::fpdu::text_value(text_bytes(t)) == t,
{
    law_text_round_trip(t);
}

pub(crate) proof fn lemma_clean_opt(t: Option<Seq<char>>, max: nat)
    requires
        clean_opt(t, max),
    ensures
        non_empty(t) == t,
        t matches Some(s) ==> text_bytes(s).len() == s.len() && s.len() > 0
            && crate::fpdu::text_value(text_bytes(s)) == s,
{
    if let Some(s) = t {
        lemma_clean(s);
    }
}

/// Whether items stand in strictly ascending code order.
pub open spec fn items_strict(items: Items) -> bool {
    forall|i: int, j: int|
        0 <= i < j < items.len() ==> (#[trigger] items[i]).0.spec_code() < (
        #[trigger] items[j]).0.spec_code()
}

/// Items in order stay as they are when sorted.
proof fn lemma_sorted_is_same(items: Items)
    requires
        items_strict(items),
    ensures
        items_sorted(items) == items,
    decreases items.len(),
{
    if items.len() > 0 {
        let d = items.drop_last();
        assert forall|i: int, j: int| 0 <= i < j < d.len() implies (
        #[trigger] d[i]).0.spec_code() < (#[trigger] d[j]).0.spec_code() by {
            assert(d[i] == items[i] && d[j] == items[j]);
        }
        lemma_sorted_is_same(d);
        if d.len() > 0 {
            assert(d.last() == items[d.len() - 1]);
            assert(items[d.len() - 1].0.spec_code() < items[d.len() as int].0.spec_code());
        }
        assert(item_placed(d, items.last()) =~= items);
    }
}

/// The value of an item that is there, and of one that is not.
proof fn lemma_item_values(items: Items)
    requires
        items_strict(items),
    ensures
        forall|k: int|
            0 <= k < items.len() ==> item_value(items, (#[trigger] items[k]).0) == Some(items[k].1),
        forall|q: Pi| #![trigger item_value(items, q)] !holds_item(items, q) ==> item_value(items, q) is None,
    decreases items.len(),
{
    if items.len() > 0 {
        let d = items.drop_last();
        assert forall|i: int, j: int| 0 <= i < j < d.len() implies (
        #[trigger] d[i]).0.spec_code() < (#[trigger] d[j]).0.spec_code() by {
            assert(d[i] == items[i] && d[j] == items[j]);
        }
        lemma_item_values(d);
        let last = items.last();
        assert(!holds_item(d, last.0)) by {
            if holds_item(d, last.0) {
                let k = choose|k: int| 0 <= k < d.len() && (#[trigger] d[k]).0 == last.0;
                assert(items[k] == d[k]);
                assert(items[k].0.spec_code() < items[items.len() - 1].0.spec_code());
            }
        }
        assert forall|k: int| 0 <= k < items.len() implies item_value(
            items,
            (#[trigger] items[k]).0,
        ) == Some(items[k].1) by {
            if k < d.len() {
                assert(d[k] == items[k]);
                assert(item_value(d, d[k].0) == Some(d[k].1));
            } else {
                assert(items[k] == last);
                assert(item_value(d, last.0) is None);
            }
        }
        assert forall|q: Pi|
            #![trigger item_value(items, q)]
            !holds_item(items, q) implies item_value(items, q) is None by {
            assert(items[items.len() - 1].0 != q);
            assert(items.last().0 != q);
            assert(!holds_item(d, q)) by {
                if holds_item(d, q) {
                    let k = choose|k: int| 0 <= k < d.len() && (#[trigger] d[k]).0 == q;
                    assert(items[k] == d[k]);
                }
            }
            assert(item_value(d, q) is None);
        }
    }
}

proof fn lemma_no_member_missing(members: Seq<(Pi, bool)>, items: Items)
    requires
        forall|i: int|
            0 <= i < members.len() && (#[trigger] members[i]).1 ==> holds_item(items, members[i].0),
    ensures
        missing_member(members, items) is None,
    decreases members.len(),
{
    if members.len() > 0 {
        let d = members.drop_last();
        assert forall|i: int| 0 <= i < d.len() && (#[trigger] d[i]).1 implies holds_item(
            items,
            d[i].0,
        ) by {
            assert(d[i] == members[i]);
        }
        lemma_no_member_missing(d, items);
        assert(members.last() == members[members.len() - 1]);
    }
}

/// A group of ordered, non-empty members with nothing missing passes as it is.
proof fn lemma_group_ok(kind: FpduKind, pgi: Pgi, items: Items)
    requires
        admits(kind.spec_template(), pgi.spec_code()),
        items.len() > 0,
        items_strict(items),
        forall|i: int| 0 <= i < items.len() ==> (#[trigger] items[i]).1.len() > 0,
        forall|i: int| 0 <= i < items.len() ==> pgi.spec_contains((#[trigger] items[i]).0),
        forall|i: int|
            0 <= i < pgi.spec_members().len() && (#[trigger] pgi.spec_members()[i]).1
                ==> holds_item(items, pgi.spec_members()[i].0),
    ensures
        items_sorted(items) == items,
        param_ok(kind, ParamV::Pgi { pgi, items }),
{
    lemma_sorted_is_same(items);
    lemma_no_member_missing(pgi.spec_members(), items);
}

proof fn lemma_contains(pgi: Pgi, i: int, pi: Pi)
    requires
        0 <= i < pgi.spec_members().len(),
        pgi.spec_members()[i].0 == pi,
    ensures
        pgi.spec_contains(pi),
{
}

/// PGI 9 of a description.
#[verifier::rlimit(30)]
proof fn lemma_file_id(spec: FileSpecV, kind: FpduKind)
    ensures
        ({
            let g = spec.file_id_group();
            &&& items_sorted(g) == g
            &&& describable(spec) && admits(kind.spec_template(), 9) ==> param_ok(
                kind,
                ParamV::Pgi { pgi: Pgi::FileId, items: g },
            )
            &&& item_value(g, Pi::Requester) == opt_text_bytes(spec.requester)
            &&& item_value(g, Pi::Server) == opt_text_bytes(spec.server)
            &&& item_value(g, Pi::FileType) == Some(num_bytes(spec.file_type as nat))
            &&& item_value(g, Pi::FileName) == Some(text_bytes(spec.file_name))
            &&& forall|q: Pi|
                q != Pi::Requester && q != Pi::Server && q != Pi::FileType && q != Pi::FileName
                    ==> #[trigger] item_value(g, q) is None
        }),
{
    let g = spec.file_id_group();
    let t = (Pi::FileType, num_bytes(spec.file_type as nat));
    let n = (Pi::FileName, text_bytes(spec.file_name));
    if describable(spec) {
        lemma_clean(spec.file_name);
        lemma_clean_opt(spec.requester, 0);
        lemma_clean_opt(spec.server, 0);
    }
    lemma_num_sizes(spec.file_type as nat);
    lemma_contains(Pgi::FileId, 0, Pi::Requester);
    lemma_contains(Pgi::FileId, 1, Pi::Server);
    lemma_contains(Pgi::FileId, 2, Pi::FileType);
    lemma_contains(Pgi::FileId, 3, Pi::FileName);
    let k = g.len() as int;
    assert(g[k - 1] == n && g[k - 2] == t);
    match (spec.requester, spec.server) {
        (Some(r), Some(v)) => {
            let a = (Pi::Requester, text_bytes(r));
            let b = (Pi::Server, text_bytes(v));
            assert(g =~= seq![a, b, t, n]);
            assert(g[0] == a && g[1] == b);
        },
        (Some(r), None) => {
            let a = (Pi::Requester, text_bytes(r));
            assert(g =~= seq![a, t, n]);
            assert(g[0] == a);
        },
        (None, Some(v)) => {
            let b = (Pi::Server, text_bytes(v));
            assert(g =~= seq![b, t, n]);
            assert(g[0] == b);
        },
        (None, None) => {
            assert(g =~= seq![t, n]);
        },
    }
    assert(items_strict(g));
    assert(holds_item(g, Pi::FileType) && holds_item(g, Pi::FileName));
    lemma_sorted_is_same(g);
    if describable(spec) && admits(kind.spec_template(), 9) {
        lemma_group_ok(kind, Pgi::FileId, g);
    }
    lemma_item_values(g);
}

/// PGI 30 of a description.
proof fn lemma_logical(spec: FileSpecV, kind: FpduKind)
    requires
        non_empty(spec.label) == spec.label,
    ensures
        ({
            let g = spec.logical_group();
            &&& items_sorted(g) == g
            &&& describable(spec) && admits(kind.spec_template(), 30) ==> param_ok(
                kind,
                ParamV::Pgi { pgi: Pgi::LogicalAttributes, items: g },
            )
            &&& item_value(g, Pi::ArticleFormat) == Some(seq![spec.article_format.code()])
            &&& item_value(g, Pi::ArticleLength) == Some(num_bytes(spec.article_length as nat))
            &&& item_value(g, Pi::FileOrganisation) == opt_byte(spec.organisation)
            &&& item_value(g, Pi::FileLabel) == opt_text_bytes(spec.label)
            &&& forall|q: Pi|
                q != Pi::ArticleFormat && q != Pi::ArticleLength && q != Pi::FileOrganisation && q
                    != Pi::FileLabel ==> #[trigger] item_value(g, q) is None
        }),
{
    let g = spec.logical_group();
    let a = (Pi::ArticleFormat, seq![spec.article_format.code()]);
    let l = (Pi::ArticleLength, num_bytes(spec.article_length as nat));
    if describable(spec) {
        lemma_clean_opt(spec.label, 0);
    }
    lemma_num_sizes(spec.article_length as nat);
    let pgi = Pgi::LogicalAttributes;
    lemma_contains(pgi, 0, Pi::ArticleFormat);
    lemma_contains(pgi, 1, Pi::ArticleLength);
    lemma_contains(pgi, 2, Pi::FileOrganisation);
    lemma_contains(pgi, 5, Pi::FileLabel);
    assert(g[0] == a && g[1] == l);
    match (spec.organisation, spec.label) {
        (Some(o), Some(t)) => {
            let x = (Pi::FileOrganisation, seq![o]);
            let y = (Pi::FileLabel, text_bytes(t));
            assert(g =~= seq![a, l, x, y]);
            assert(g[2] == x && g[3] == y);
        },
        (Some(o), None) => {
            let x = (Pi::FileOrganisation, seq![o]);
            assert(g =~= seq![a, l, x]);
            assert(g[2] == x);
        },
        (None, Some(t)) => {
            let y = (Pi::FileLabel, text_bytes(t));
            assert(g =~= seq![a, l, y]);
            assert(g[2] == y);
        },
        (None, None) => {
            assert(g =~= seq![a, l]);
        },
    }
    assert(items_strict(g));
    assert(holds_item(g, Pi::ArticleLength));
    lemma_sorted_is_same(g);
    if describable(spec) && admits(kind.spec_template(), 30) {
        lemma_group_ok(kind, pgi, g);
    }
    lemma_item_values(g);
}

/// PGI 40 of a description.
proof fn lemma_physical(spec: FileSpecV, kind: FpduKind)
    ensures
        ({
            let g = spec.physical_group();
            &&& items_sorted(g) == g
            &&& admits(kind.spec_template(), 40) ==> param_ok(
                kind,
                ParamV::Pgi { pgi: Pgi::PhysicalAttributes, items: g },
            )
            &&& item_value(g, Pi::ReservationUnit) == opt_byte(spec.reservation_unit)
            &&& item_value(g, Pi::MaxReservation) == Some(num_bytes(spec.max_reservation as nat))
            &&& forall|q: Pi|
                q != Pi::ReservationUnit && q != Pi::MaxReservation ==> #[trigger] item_value(
                    g,
                    q,
                ) is None
        }),
{
    let g = spec.physical_group();
    let m = (Pi::MaxReservation, num_bytes(spec.max_reservation as nat));
    lemma_num_sizes(spec.max_reservation as nat);
    let pgi = Pgi::PhysicalAttributes;
    lemma_contains(pgi, 0, Pi::ReservationUnit);
    lemma_contains(pgi, 1, Pi::MaxReservation);
    match spec.reservation_unit {
        Some(u) => {
            let x = (Pi::ReservationUnit, seq![u]);
            assert(g =~= seq![x, m]);
            assert(g[0] == x && g[1] == m);
        },
        None => {
            assert(g =~= seq![m]);
            assert(g[0] == m);
        },
    }
    assert(items_strict(g));
    assert(holds_item(g, Pi::MaxReservation));
    lemma_sorted_is_same(g);
    if admits(kind.spec_template(), 40) {
        lemma_group_ok(kind, pgi, g);
    }
    lemma_item_values(g);
}

/// PGI 50 of a description with a creation date.
proof fn lemma_historical(spec: FileSpecV, kind: FpduKind)
    requires
        spec.creation_date is Some,
    ensures
        ({
            let g = spec.historical_group()->0;
            &&& items_sorted(g) == g
            &&& describable(spec) && admits(kind.spec_template(), 50) ==> param_ok(
                kind,
                ParamV::Pgi { pgi: Pgi::HistoricalAttributes, items: g },
            )
            &&& item_value(g, Pi::CreationDate) == opt_text_bytes(spec.creation_date)
            &&& item_value(g, Pi::ExtractionDate) == opt_text_bytes(spec.extraction_date)
            &&& forall|q: Pi|
                q != Pi::CreationDate && q != Pi::ExtractionDate ==> #[trigger] item_value(
                    g,
                    q,
                ) is None
        }),
{
    let g = spec.historical_group()->0;
    let c = (Pi::CreationDate, text_bytes(spec.creation_date->0));
    if describable(spec) {
        lemma_clean_opt(spec.creation_date, 0);
        lemma_clean_opt(spec.extraction_date, 0);
    }
    let pgi = Pgi::HistoricalAttributes;
    lemma_contains(pgi, 0, Pi::CreationDate);
    lemma_contains(pgi, 1, Pi::ExtractionDate);
    match spec.extraction_date {
        Some(e) => {
            let x = (Pi::ExtractionDate, text_bytes(e));
            assert(g =~= seq![c, x]);
            assert(g[0] == c && g[1] == x);
        },
        None => {
            assert(g =~= seq![c]);
            assert(g[0] == c);
        },
    }
    assert(items_strict(g));
    assert(holds_item(g, Pi::CreationDate));
    lemma_sorted_is_same(g);
    if describable(spec) && admits(kind.spec_template(), 50) {
        lemma_group_ok(kind, pgi, g);
    }
    lemma_item_values(g);
}

/// An optional single unit.
pub open spec fn opt_single(pi: Pi, value: Option<Seq<u8>>) -> Option<ParamV> {
    match value {
        Some(v) => Some(ParamV::Pi { pi, value: v }),
        None => None,
    }
}

/// An optional group.
pub open spec fn opt_group(pgi: Pgi, items: Option<Items>) -> Option<ParamV> {
    match items {
        Some(i) => Some(ParamV::Pgi { pgi, items: i }),
        None => None,
    }
}

/// Value of a parameter of a FPDU under construction.
#[verifier::opaque]
pub open spec fn val(f: FpduV, q: Pi) -> Option<Seq<u8>> {
    lookup(f.params, q)
}

/// Group of a FPDU under construction.
#[verifier::opaque]
pub open spec fn grp(f: FpduV, g: Pgi) -> Option<Items> {
    lookup_group(f.params, g)
}

/// Whether a FPDU under construction holds a unit of a code.
#[verifier::opaque]
pub open spec fn present(f: FpduV, c: u8) -> bool {
    holds_code(f.params, c)
}

/// Value that a group gives to a parameter.
#[verifier::opaque]
pub open spec fn gval(items: Items, q: Pi) -> Option<Seq<u8>> {
    item_value(items, q)
}

/// What is kept true while a FPDU is extended in code order: its units pass, and all codes are
/// below `code`.
#[verifier::opaque]
pub open spec fn under_way(f: FpduV, kind: FpduKind, code: int) -> bool {
    f.kind == kind && params_ok(f) && below(f.params, code)
}

pub(crate) proof fn start(kind: FpduKind, id_dst: u8, id_src: u8) -> (f: FpduV)
    requires
        !kind.spec_is_data(),
    ensures
        f == FpduV::between(kind, id_dst, id_src),
        under_way(f, kind, 0),
        forall|q: Pi| #![trigger val(f, q)] val(f, q) is None,
        forall|g: Pgi| #![trigger grp(f, g)] grp(f, g) is None,
        forall|c: u8| #![trigger present(f, c)] !present(f, c),
{
    reveal(val);
    reveal(grp);
    reveal(present);
    reveal(under_way);
    lemma_start(kind, id_dst, id_src);
    FpduV::between(kind, id_dst, id_src)
}

/// What is kept true of the order of a FPDU that is extended: all codes are below `code`.
#[verifier::opaque]
pub open spec fn in_order(f: FpduV, kind: FpduKind, code: int) -> bool {
    f.kind == kind && canonical(f.params) && below(f.params, code)
}

/// Whether an optional value may stand in a parameter.
pub open spec fn value_ok(pi: Pi, value: Option<Seq<u8>>) -> bool {
    value matches Some(v) ==> v.len() > 0 && (pi.spec_max_len() == 0 || v.len()
        <= pi.spec_max_len())
}

/// One optional single unit more.
proof fn put_single(f: FpduV, kind: FpduKind, from: int, pi: Pi, value: Option<Seq<u8>>) -> (next:
    FpduV)
    requires
        in_order(f, kind, from),
        from <= pi.spec_code(),
    ensures
        next == (match value {
            Some(v) => f.with_param(pi, v),
            None => f,
        }),
        in_order(next, kind, pi.spec_code() + 1),
        under_way(f, kind, from) && admits(kind.spec_template(), pi.spec_code()) && value_ok(
            pi,
            value,
        ) ==> under_way(next, kind, pi.spec_code() + 1),
        forall|q: Pi|
            #![trigger val(next, q)]
            val(next, q) == if value is Some && q == pi {
                value
            } else {
                val(f, q)
            },
        forall|g: Pgi| #![trigger grp(next, g)] grp(next, g) == grp(f, g),
        forall|c: u8|
            #![trigger present(next, c)]
            present(next, c) <==> (present(f, c) || (value is Some && c == pi.spec_code())),
{
    reveal(val);
    reveal(grp);
    reveal(present);
    reveal(under_way);
    reveal(in_order);
    lemma_below(f.params, from, pi.spec_code() as int);
    if admits(kind.spec_template(), pi.spec_code()) && value_ok(pi, value) {
        if let Some(v) = value {
            lemma_single_ok(kind, pi, v);
        }
    }
    lemma_extend(f, opt_single(pi, value), pi.spec_code());
    extended(f, opt_single(pi, value))
}

/// One optional single unit more, in a FPDU that passes.
pub(crate) proof fn add_single(f: FpduV, kind: FpduKind, from: int, pi: Pi, value: Option<Seq<u8>>) -> (next:
    FpduV)
    requires
        under_way(f, kind, from),
        from <= pi.spec_code(),
        admits(kind.spec_template(), pi.spec_code()),
        value_ok(pi, value),
    ensures
        next == (match value {
            Some(v) => f.with_param(pi, v),
            None => f,
        }),
        under_way(next, kind, pi.spec_code() + 1),
        forall|q: Pi|
            #![trigger val(next, q)]
            val(next, q) == if value is Some && q == pi {
                value
            } else {
                val(f, q)
            },
        forall|g: Pgi| #![trigger grp(next, g)] grp(next, g) == grp(f, g),
        forall|c: u8|
            #![trigger present(next, c)]
            present(next, c) <==> (present(f, c) || (value is Some && c == pi.spec_code())),
{
    assert(in_order(f, kind, from)) by {
        reveal(under_way);
        reveal(in_order);
    }
    put_single(f, kind, from, pi, value)
}

/// One optional group more.
proof fn put_group(f: FpduV, kind: FpduKind, from: int, pgi: Pgi, items: Option<Items>) -> (next:
    FpduV)
    requires
        in_order(f, kind, from),
        from <= pgi.spec_code(),
        items matches Some(i) ==> items_sorted(i) == i,
    ensures
        next == f.with_opt_group(pgi, items),
        in_order(next, kind, pgi.spec_code() + 1),
        under_way(f, kind, from) && (items matches Some(i) ==> param_ok(
            kind,
            ParamV::Pgi { pgi, items: i },
        )) ==> under_way(next, kind, pgi.spec_code() + 1),
        forall|q: Pi|
            #![trigger val(next, q)]
            val(next, q) == if val(f, q) is Some {
                val(f, q)
            } else {
                match items {
                    Some(i) => gval(i, q),
                    None => None,
                }
            },
        forall|g: Pgi|
            #![trigger grp(next, g)]
            grp(next, g) == if grp(f, g) is Some {
                grp(f, g)
            } else if g == pgi {
                items
            } else {
                None
            },
        forall|c: u8|
            #![trigger present(next, c)]
            present(next, c) <==> (present(f, c) || (items is Some && c == pgi.spec_code())),
{
    reveal(val);
    reveal(grp);
    reveal(present);
    reveal(gval);
    reveal(under_way);
    reveal(in_order);
    lemma_below(f.params, from, pgi.spec_code() as int);
    lemma_extend(f, opt_group(pgi, items), pgi.spec_code());
    extended(f, opt_group(pgi, items))
}

/// A FPDU under construction that lacks nothing is well-formed.
pub(crate) proof fn finish(f: FpduV, kind: FpduKind, code: int)
    requires
        under_way(f, kind, code),
        forall|i: int|
            0 <= i < kind.spec_template().len() && (
            #[trigger] kind.spec_template()[i]).mandatory ==> present(f, kind.spec_template()[i].code),
    ensures
        well_formed(f, true),
{
    reveal(present);
    reveal(under_way);
    lemma_complete(f);
}

/// Wire form of a flag.
pub open spec fn flag_bytes(b: bool) -> Option<Seq<u8>> {
    if b {
        Some(num_bytes(1))
    } else {
        None
    }
}

/// Values that the groups of a description give.
pub open spec fn group_values(spec: FileSpecV) -> bool {
    let a = spec.file_id_group();
    let b = spec.logical_group();
    let c = spec.physical_group();
    &&& gval(a, Pi::Requester) == opt_text_bytes(spec.requester)
    &&& gval(a, Pi::Server) == opt_text_bytes(spec.server)
    &&& gval(a, Pi::FileType) == Some(num_bytes(spec.file_type as nat))
    &&& gval(a, Pi::FileName) == Some(text_bytes(spec.file_name))
    &&& forall|q: Pi|
        #![trigger gval(a, q)]
        q != Pi::Requester && q != Pi::Server && q != Pi::FileType && q != Pi::FileName ==> gval(
            a,
            q,
        ) is None
    &&& gval(b, Pi::ArticleFormat) == Some(seq![spec.article_format.code()])
    &&& gval(b, Pi::ArticleLength) == Some(num_bytes(spec.article_length as nat))
    &&& gval(b, Pi::FileOrganisation) == opt_byte(spec.organisation)
    &&& gval(b, Pi::FileLabel) == opt_text_bytes(spec.label)
    &&& forall|q: Pi|
        #![trigger gval(b, q)]
        q != Pi::ArticleFormat && q != Pi::ArticleLength && q != Pi::FileOrganisation && q
            != Pi::FileLabel ==> gval(b, q) is None
    &&& gval(c, Pi::ReservationUnit) == opt_byte(spec.reservation_unit)
    &&& gval(c, Pi::MaxReservation) == Some(num_bytes(spec.max_reservation as nat))
    &&& forall|q: Pi|
        #![trigger gval(c, q)]
        q != Pi::ReservationUnit && q != Pi::MaxReservation ==> gval(c, q) is None
    &&& spec.historical_group() matches Some(d) ==> {
        &&& gval(d, Pi::CreationDate) == opt_text_bytes(spec.creation_date)
        &&& gval(d, Pi::ExtractionDate) == opt_text_bytes(spec.extraction_date)
        &&& forall|q: Pi|
            #![trigger gval(d, q)]
            q != Pi::CreationDate && q != Pi::ExtractionDate ==> gval(d, q) is None
    }
}

/// Whether the groups of a description pass in a FPDU.
pub open spec fn groups_pass(spec: FileSpecV, k: FpduKind) -> bool {
    &&& param_ok(k, ParamV::Pgi { pgi: Pgi::FileId, items: spec.file_id_group() })
    &&& param_ok(k, ParamV::Pgi { pgi: Pgi::LogicalAttributes, items: spec.logical_group() })
    &&& param_ok(k, ParamV::Pgi { pgi: Pgi::PhysicalAttributes, items: spec.physical_group() })
    &&& spec.historical_group() matches Some(d) ==> param_ok(
        k,
        ParamV::Pgi { pgi: Pgi::HistoricalAttributes, items: d },
    )
}

/// The groups of a description hold its values, and pass in a FPDU whose template admits them.
proof fn lemma_groups(spec: FileSpecV, k: FpduKind)
    requires
        non_empty(spec.label) == spec.label,
        spec.extraction_date is Some ==> spec.creation_date is Some,
    ensures
        group_values(spec),
        items_sorted(spec.file_id_group()) == spec.file_id_group(),
        items_sorted(spec.logical_group()) == spec.logical_group(),
        items_sorted(spec.physical_group()) == spec.physical_group(),
        spec.historical_group() matches Some(d) ==> items_sorted(d) == d,
        describable(spec) && admits(k.spec_template(), 9) && admits(k.spec_template(), 30)
            && admits(k.spec_template(), 40) && admits(k.spec_template(), 50) ==> groups_pass(
            spec,
            k,
        ),
{
    reveal(gval);
    lemma_file_id(spec, k);
    lemma_logical(spec, k);
    lemma_physical(spec, k);
    if spec.creation_date is Some {
        lemma_historical(spec, k);
    }
}

/// Values of a CREATE before its attribute groups.
pub open spec fn front_value(spec: FileSpecV, q: Pi) -> Option<Seq<u8>> {
    match q {
        Pi::Requester => opt_text_bytes(spec.requester),
        Pi::Server => opt_text_bytes(spec.server),
        Pi::FileType => Some(num_bytes(spec.file_type as nat)),
        Pi::FileName => Some(text_bytes(spec.file_name)),
        Pi::TransferId => Some(num_bytes(spec.transfer_id as nat)),
        Pi::Restarted => flag_bytes(spec.restarted),
        Pi::DataCode => opt_byte(spec.data_code),
        Pi::Priority => Some(seq![spec.priority]),
        Pi::MaxEntitySize => Some(num_bytes(spec.max_entity_size as nat)),
        _ => None,
    }
}

/// Values of a CREATE up to its attribute groups.
pub open spec fn grouped_value(spec: FileSpecV, q: Pi) -> Option<Seq<u8>> {
    match q {
        Pi::ArticleFormat => Some(seq![spec.article_format.code()]),
        Pi::ArticleLength => Some(num_bytes(spec.article_length as nat)),
        Pi::FileOrganisation => opt_byte(spec.organisation),
        Pi::FileLabel => opt_text_bytes(spec.label),
        Pi::ReservationUnit => opt_byte(spec.reservation_unit),
        Pi::MaxReservation => Some(num_bytes(spec.max_reservation as nat)),
        Pi::CreationDate => opt_text_bytes(spec.creation_date),
        Pi::ExtractionDate => opt_text_bytes(spec.extraction_date),
        _ => front_value(spec, q),
    }
}

/// A CREATE before its attribute groups.
proof fn create_front(spec: FileSpecV, id_dst: u8) -> (f: FpduV)
    requires
        readable(spec),
    ensures
        f == FpduV::between(FpduKind::Create, id_dst, 0).with_group(
            Pgi::FileId,
            spec.file_id_group(),
        ).with_number(Pi::TransferId, spec.transfer_id as nat).with_flag(
            Pi::Restarted,
            spec.restarted,
        ).with_opt_byte(Pi::DataCode, spec.data_code).with_byte(
            Pi::Priority,
            spec.priority,
        ).with_number(Pi::MaxEntitySize, spec.max_entity_size as nat),
        in_order(f, FpduKind::Create, 26),
        describable(spec) ==> under_way(f, FpduKind::Create, 26),
        forall|q: Pi| #![trigger val(f, q)] val(f, q) == front_value(spec, q),
        grp(f, Pgi::FileId) == Some(spec.file_id_group()),
        present(f, 9) && present(f, 13) && present(f, 17) && present(f, 25),
{
    let k = FpduKind::Create;
    lemma_admits(k, 0, 9);
    lemma_admits(k, 1, 13);
    lemma_admits(k, 2, 15);
    lemma_admits(k, 3, 16);
    lemma_admits(k, 4, 17);
    lemma_admits(k, 5, 25);
    lemma_admits(k, 6, 30);
    lemma_admits(k, 7, 40);
    lemma_admits(k, 8, 50);
    lemma_num_sizes(spec.transfer_id as nat);
    lemma_num_sizes(spec.max_entity_size as nat);
    lemma_num_sizes(1);
    lemma_groups(spec, k);
    let f0 = start(k, id_dst, 0);
    assert(in_order(f0, k, 0)) by {
        reveal(under_way);
        reveal(in_order);
    }
    let f1 = put_group(f0, k, 0, Pgi::FileId, Some(spec.file_id_group()));
    let id = Some(num_bytes(spec.transfer_id as nat));
    let f2 = put_single(f1, k, 10, Pi::TransferId, id);
    let f3 = put_single(f2, k, 14, Pi::Restarted, flag_bytes(spec.restarted));
    let f4 = put_single(f3, k, 16, Pi::DataCode, opt_byte(spec.data_code));
    let f5 = put_single(f4, k, 17, Pi::Priority, Some(seq![spec.priority]));
    let size = Some(num_bytes(spec.max_entity_size as nat));
    put_single(f5, k, 18, Pi::MaxEntitySize, size)
}

/// A CREATE up to its attribute groups.
proof fn create_groups(spec: FileSpecV, f6: FpduV) -> (f: FpduV)
    requires
        readable(spec),
        in_order(f6, FpduKind::Create, 26),
        describable(spec) ==> under_way(f6, FpduKind::Create, 26),
        forall|q: Pi| #![trigger val(f6, q)] val(f6, q) == front_value(spec, q),
        grp(f6, Pgi::FileId) == Some(spec.file_id_group()),
        present(f6, 9) && present(f6, 13) && present(f6, 17) && present(f6, 25),
    ensures
        f == f6.with_group(Pgi::LogicalAttributes, spec.logical_group()).with_group(
            Pgi::PhysicalAttributes,
            spec.physical_group(),
        ).with_opt_group(Pgi::HistoricalAttributes, spec.historical_group()),
        in_order(f, FpduKind::Create, 51),
        describable(spec) ==> under_way(f, FpduKind::Create, 51),
        forall|q: Pi| #![trigger val(f, q)] val(f, q) == grouped_value(spec, q),
        grp(f, Pgi::FileId) == Some(spec.file_id_group()),
        present(f, 9) && present(f, 13) && present(f, 17) && present(f, 25) && present(f, 30)
            && present(f, 40),
{
    let k = FpduKind::Create;
    lemma_admits(k, 0, 9);
    lemma_admits(k, 6, 30);
    lemma_admits(k, 7, 40);
    lemma_admits(k, 8, 50);
    lemma_groups(spec, k);
    let f7 = put_group(f6, k, 26, Pgi::LogicalAttributes, Some(spec.logical_group()));
    let f8 = put_group(f7, k, 31, Pgi::PhysicalAttributes, Some(spec.physical_group()));
    put_group(f8, k, 41, Pgi::HistoricalAttributes, spec.historical_group())
}

/// A CREATE in full.
#[verifier::rlimit(30)]
proof fn create_whole(spec: FileSpecV, id_dst: u8) -> (f: FpduV)
    requires
        readable(spec),
    ensures
        f == spec.create(id_dst),
        describable(spec) ==> under_way(f, FpduKind::Create, 100),
        grp(f, Pgi::FileId) == Some(spec.file_id_group()),
        carries(spec, f),
        present(f, 9) && present(f, 13) && present(f, 17) && present(f, 25) && present(f, 30)
            && present(f, 40),
{
    let k = FpduKind::Create;
    lemma_admits(k, 9, 61);
    lemma_admits(k, 10, 62);
    lemma_admits(k, 11, 63);
    lemma_admits(k, 18, 99);
    if describable(spec) {
        lemma_clean_opt(spec.client_id, 24);
        lemma_clean_opt(spec.bank_id, 24);
        lemma_clean_opt(spec.file_access_control, 16);
        lemma_clean_opt(spec.free_message, 254);
    }
    let f6 = create_front(spec, id_dst);
    let f9 = create_groups(spec, f6);
    let f10 = put_single(f9, k, 51, Pi::ClientId, opt_text_bytes(spec.client_id));
    let f11 = put_single(f10, k, 62, Pi::BankId, opt_text_bytes(spec.bank_id));
    let control = opt_text_bytes(spec.file_access_control);
    let f12 = put_single(f11, k, 63, Pi::FileAccessControl, control);
    put_single(f12, k, 64, Pi::FreeMessage, opt_text_bytes(spec.free_message))
}

/// A description is read back from the CREATE that was built from it.
pub proof fn law_create_is_read_back(spec: FileSpecV, id_dst: u8)
    requires
        readable(spec),
    ensures
        FileSpecV::of(spec.create(id_dst)) == spec,
{
    let f = create_whole(spec, id_dst);
    lemma_read_back(spec, f);
}

/// The CREATE of a description that has a wire form passes the strict reading of the server.
pub proof fn law_create_is_valid(spec: FileSpecV, id_dst: u8)
    requires
        describable(spec),
    ensures
        well_formed(spec.create(id_dst), true),
{
    lemma_clean_opt(spec.label, 0);
    lemma_clean_opt(spec.free_message, 254);
    let f = create_whole(spec, id_dst);
    finish(f, FpduKind::Create, 100);
}

/// Whether a FPDU carries the values of a description.
pub open spec fn carries(spec: FileSpecV, f: FpduV) -> bool {
    &&& val(f, Pi::FileType) == Some(num_bytes(spec.file_type as nat))
    &&& val(f, Pi::FileName) == Some(text_bytes(spec.file_name))
    &&& val(f, Pi::TransferId) == Some(num_bytes(spec.transfer_id as nat))
    &&& val(f, Pi::Restarted) == flag_bytes(spec.restarted)
    &&& val(f, Pi::DataCode) == opt_byte(spec.data_code)
    &&& val(f, Pi::Priority) == Some(seq![spec.priority])
    &&& val(f, Pi::MaxEntitySize) == Some(num_bytes(spec.max_entity_size as nat))
    &&& val(f, Pi::ArticleFormat) == Some(seq![spec.article_format.code()])
    &&& val(f, Pi::ArticleLength) == Some(num_bytes(spec.article_length as nat))
    &&& val(f, Pi::FileOrganisation) == opt_byte(spec.organisation)
    &&& val(f, Pi::FileLabel) == opt_text_bytes(spec.label)
    &&& val(f, Pi::ReservationUnit) == opt_byte(spec.reservation_unit)
    &&& val(f, Pi::MaxReservation) == Some(num_bytes(spec.max_reservation as nat))
    &&& val(f, Pi::CreationDate) == opt_text_bytes(spec.creation_date)
    &&& val(f, Pi::ExtractionDate) == opt_text_bytes(spec.extraction_date)
    &&& val(f, Pi::ClientId) == opt_text_bytes(spec.client_id)
    &&& val(f, Pi::BankId) == opt_text_bytes(spec.bank_id)
    &&& val(f, Pi::FileAccessControl) == opt_text_bytes(spec.file_access_control)
    &&& val(f, Pi::FreeMessage) == opt_text_bytes(spec.free_message)
}

/// The values of a description are read back from their wire forms.
proof fn lemma_read_back(spec: FileSpecV, f: FpduV)
    requires
        readable(spec),
        grp(f, Pgi::FileId) == Some(spec.file_id_group()),
        carries(spec, f),
    ensures
        FileSpecV::of(f) == spec,
{
    read_text(f, Pi::FileName, Some(spec.file_name));
    read_text(f, Pi::FileLabel, spec.label);
    read_text(f, Pi::CreationDate, spec.creation_date);
    read_text(f, Pi::ExtractionDate, spec.extraction_date);
    read_text(f, Pi::ClientId, spec.client_id);
    read_text(f, Pi::BankId, spec.bank_id);
    read_text(f, Pi::FileAccessControl, spec.file_access_control);
    read_text(f, Pi::FreeMessage, spec.free_message);
    read_number(f, Pi::FileType, spec.file_type);
    read_number(f, Pi::TransferId, spec.transfer_id as u64);
    read_number(f, Pi::MaxEntitySize, spec.max_entity_size as u64);
    read_number(f, Pi::ArticleLength, spec.article_length as u64);
    read_number(f, Pi::MaxReservation, spec.max_reservation);
    read_byte(f, Pi::DataCode, spec.data_code);
    read_byte(f, Pi::Priority, Some(spec.priority));
    read_byte(f, Pi::FileOrganisation, spec.organisation);
    read_byte(f, Pi::ReservationUnit, spec.reservation_unit);
    read_names(spec, f);
    read_format(spec, f);
    if spec.restarted {
        read_number(f, Pi::Restarted, 1);
    } else {
        read_nothing(f, Pi::Restarted);
    }
}

pub(crate) proof fn read_text(f: FpduV, pi: Pi, t: Option<Seq<char>>)
    requires
        legible_opt(t),
        val(f, pi) == opt_text_bytes(t),
    ensures
        f.string(pi) == t,
{
    reveal(val);
    if let Some(s) = t {
        lemma_clean(s);
    }
}

pub(crate) proof fn read_number(f: FpduV, pi: Pi, n: u64)
    requires
        val(f, pi) == Some(num_bytes(n as nat)),
    ensures
        f.number(pi) == Some(n),
{
    reveal(val);
    law_number_round_trip(n as nat);
}

proof fn read_byte(f: FpduV, pi: Pi, b: Option<u8>)
    requires
        val(f, pi) == opt_byte(b),
    ensures
        f.first_byte(pi) == b,
{
    reveal(val);
}

pub(crate) proof fn read_nothing(f: FpduV, pi: Pi)
    requires
        val(f, pi) is None,
    ensures
        f.number(pi) is None,
{
    reveal(val);
}

proof fn read_names(spec: FileSpecV, f: FpduV)
    requires
        readable(spec),
        grp(f, Pgi::FileId) == Some(spec.file_id_group()),
    ensures
        crate::builder::group_text(f, Pgi::FileId, Pi::Requester) == spec.requester,
        crate::builder::group_text(f, Pgi::FileId, Pi::Server) == spec.server,
{
    reveal(grp);
    if let Some(t) = spec.requester {
        lemma_clean(t);
    }
    if let Some(t) = spec.server {
        lemma_clean(t);
    }
    lemma_file_id(spec, FpduKind::Create);
}

proof fn read_format(spec: FileSpecV, f: FpduV)
    requires
        val(f, Pi::ArticleFormat) == Some(seq![spec.article_format.code()]),
    ensures
        f.value(Pi::ArticleFormat) matches Some(v) && ArticleFormat::spec_from_bytes(v)
            == spec.article_format,
{
    reveal(val);
}

/// A file description travels from the requester to the server: what the server reads from the
/// bytes of a CREATE is the description it was built from.
pub proof fn law_create_travels(spec: FileSpecV, id_dst: u8)
    requires
        describable(spec),
        spec.create(id_dst).wire_len() <= MAX_FPDU_LEN,
    ensures
        FpduV::decoded(spec.create(id_dst).encoding(), true) matches Ok(f) && FileSpecV::of(f)
            == spec,
{
    lemma_clean_opt(spec.label, 0);
    lemma_clean_opt(spec.free_message, 254);
    law_create_is_valid(spec, id_dst);
    law_create_is_read_back(spec, id_dst);
    law_decode_inverts_encode(spec.create(id_dst), true);
}

// ---- requests and answers of the file selection ----

/// A FPDU at its start, whatever it may hold.
proof fn begun(kind: FpduKind, id_dst: u8) -> (f: FpduV)
    requires
        !kind.spec_is_data(),
    ensures
        f == FpduV::between(kind, id_dst, 0),
        in_order(f, kind, 0),
        forall|q: Pi| #![trigger val(f, q)] val(f, q) is None,
        forall|g: Pgi| #![trigger grp(f, g)] grp(f, g) is None,
{
    let f = start(kind, id_dst, 0);
    assert(in_order(f, kind, 0)) by {
        reveal(under_way);
        reveal(in_order);
    }
    f
}

/// The parts of a description that only attribute groups and a CREATE carry, left out.
pub open spec fn identity_of(spec: FileSpecV) -> FileSpecV {
    FileSpecV {
        requester: spec.requester,
        server: spec.server,
        file_type: spec.file_type,
        file_name: spec.file_name,
        transfer_id: spec.transfer_id,
        client_id: spec.client_id,
        bank_id: spec.bank_id,
        free_message: spec.free_message,
        ..FileSpecV::blank()
    }
}

proof fn read_no_value(f: FpduV, pi: Pi)
    requires
        val(f, pi) is None,
    ensures
        f.value(pi) is None,
        f.string(pi) is None,
        f.number(pi) is None,
        f.first_byte(pi) is None,
{
    reveal(val);
}

/// Code of the attributes that a SELECT asks for, where it asks for any.
pub open spec fn wanted_code(attributes: RequestedAttributes) -> Option<u8> {
    if attributes.spec_code() != 0 {
        Some(attributes.spec_code())
    } else {
        None
    }
}

/// Values of a SELECT.
pub open spec fn select_value(spec: FileSpecV, attributes: RequestedAttributes, q: Pi) -> Option<
    Seq<u8>,
> {
    match q {
        Pi::RequestedAttributes => opt_byte(wanted_code(attributes)),
        Pi::DataCode => None,
        Pi::ClientId => opt_text_bytes(spec.client_id),
        Pi::BankId => opt_text_bytes(spec.bank_id),
        Pi::FileAccessControl => opt_text_bytes(spec.file_access_control),
        Pi::FreeMessage => opt_text_bytes(spec.free_message),
        _ => front_value(spec, q),
    }
}

proof fn select_front(spec: FileSpecV, id_dst: u8, attributes: RequestedAttributes) -> (f: FpduV)
    requires
        readable(spec),
    ensures
        f == FpduV::between(FpduKind::Select, id_dst, 0).with_group(
            Pgi::FileId,
            spec.file_id_group(),
        ).with_number(Pi::TransferId, spec.transfer_id as nat).with_opt_byte(
            Pi::RequestedAttributes,
            wanted_code(attributes),
        ).with_flag(Pi::Restarted, spec.restarted).with_byte(
            Pi::Priority,
            spec.priority,
        ).with_number(Pi::MaxEntitySize, spec.max_entity_size as nat),
        in_order(f, FpduKind::Select, 26),
        grp(f, Pgi::FileId) == Some(spec.file_id_group()),
        forall|q: Pi|
            #![trigger val(f, q)]
            val(f, q) == if q == Pi::RequestedAttributes {
                opt_byte(wanted_code(attributes))
            } else if q == Pi::DataCode {
                None
            } else {
                front_value(spec, q)
            },
{
    let k = FpduKind::Select;
    lemma_groups(spec, k);
    let f0 = begun(k, id_dst);
    let f1 = put_group(f0, k, 0, Pgi::FileId, Some(spec.file_id_group()));
    let f2 = put_single(f1, k, 10, Pi::TransferId, Some(num_bytes(spec.transfer_id as nat)));
    let f3 = put_single(f2, k, 14, Pi::RequestedAttributes, opt_byte(wanted_code(attributes)));
    let f4 = put_single(f3, k, 15, Pi::Restarted, flag_bytes(spec.restarted));
    let f5 = put_single(f4, k, 16, Pi::Priority, Some(seq![spec.priority]));
    let size = Some(num_bytes(spec.max_entity_size as nat));
    put_single(f5, k, 18, Pi::MaxEntitySize, size)
}

proof fn select_whole(spec: FileSpecV, id_dst: u8, attributes: RequestedAttributes) -> (f: FpduV)
    requires
        readable(spec),
    ensures
        f == spec.select(id_dst, attributes),
        grp(f, Pgi::FileId) == Some(spec.file_id_group()),
        forall|q: Pi| #![trigger val(f, q)] val(f, q) == select_value(spec, attributes, q),
{
    let k = FpduKind::Select;
    let f6 = select_front(spec, id_dst, attributes);
    let f7 = put_single(f6, k, 26, Pi::ClientId, opt_text_bytes(spec.client_id));
    let f8 = put_single(f7, k, 62, Pi::BankId, opt_text_bytes(spec.bank_id));
    let control = opt_text_bytes(spec.file_access_control);
    let f9 = put_single(f8, k, 63, Pi::FileAccessControl, control);
    put_single(f9, k, 64, Pi::FreeMessage, opt_text_bytes(spec.free_message))
}

/// The server reads from a SELECT what the requester asks for: the file by its names, its
/// identifier and its kind, whether it is a restart, with what priority and entity size, and which
/// attributes are wanted.
pub proof fn law_select_is_read_back(
    spec: FileSpecV,
    id_dst: u8,
    attributes: RequestedAttributes,
)
    requires
        readable(spec),
    ensures
        FileSpecV::of(spec.select(id_dst, attributes)) == (FileSpecV {
            restarted: spec.restarted,
            priority: spec.priority,
            max_entity_size: spec.max_entity_size,
            file_access_control: spec.file_access_control,
            ..identity_of(spec)
        }),
        attributes.logical || attributes.physical || attributes.historical
            ==> crate::responder::asked_attributes(spec.select(id_dst, attributes)) == attributes,
        spec.select(id_dst, attributes).kind == FpduKind::Select,
        spec.select(id_dst, attributes).id_dst == id_dst,
{
    let code = attributes.spec_code();
    crate::params::law_requested_attributes_round_trip(attributes);
    let f = select_whole(spec, id_dst, attributes);
    read_common(spec, f);
    read_text(f, Pi::FileAccessControl, spec.file_access_control);
    read_byte(f, Pi::Priority, Some(spec.priority));
    read_number(f, Pi::MaxEntitySize, spec.max_entity_size as u64);
    read_no_value(f, Pi::DataCode);
    read_no_groups(f);
    if spec.restarted {
        read_number(f, Pi::Restarted, 1);
    } else {
        read_nothing(f, Pi::Restarted);
    }
    if code != 0 {
        read_byte_number(f, Pi::RequestedAttributes, code);
    }
}

proof fn read_byte_number(f: FpduV, pi: Pi, b: u8)
    requires
        val(f, pi) == Some(seq![b]),
    ensures
        f.number(pi) == Some(b as u64),
{
    reveal(val);
    lemma_byte_number(b);
}

proof fn lemma_byte_number(b: u8)
    ensures
        crate::fpdu::num_value(seq![b]) == b,
{
    assert(seq![b].drop_last() =~= Seq::<u8>::empty());
    reveal_with_fuel(crate::fpdu::num_value, 3);
}

/// The names and the identifier of a description, read back.
proof fn read_common(spec: FileSpecV, f: FpduV)
    requires
        readable(spec),
        grp(f, Pgi::FileId) == Some(spec.file_id_group()),
        val(f, Pi::FileType) == Some(num_bytes(spec.file_type as nat)),
        val(f, Pi::FileName) == Some(text_bytes(spec.file_name)),
        val(f, Pi::TransferId) == Some(num_bytes(spec.transfer_id as nat)),
        val(f, Pi::ClientId) == opt_text_bytes(spec.client_id),
        val(f, Pi::BankId) == opt_text_bytes(spec.bank_id),
    ensures
        ({
            let g = FileSpecV::of(f);
            &&& g.requester == spec.requester && g.server == spec.server
            &&& g.file_type == spec.file_type && g.file_name == spec.file_name
            &&& g.transfer_id == spec.transfer_id
            &&& g.client_id == spec.client_id && g.bank_id == spec.bank_id
        }),
        val(f, Pi::FreeMessage) == opt_text_bytes(spec.free_message) ==> f.string(Pi::FreeMessage)
            == spec.free_message,
{
    read_text(f, Pi::FileName, Some(spec.file_name));
    read_text(f, Pi::ClientId, spec.client_id);
    read_text(f, Pi::BankId, spec.bank_id);
    read_number(f, Pi::FileType, spec.file_type);
    read_number(f, Pi::TransferId, spec.transfer_id as u64);
    read_names(spec, f);
    if val(f, Pi::FreeMessage) == opt_text_bytes(spec.free_message) {
        read_text(f, Pi::FreeMessage, spec.free_message);
    }
}

/// A FPDU without attribute groups carries no attributes.
proof fn read_no_groups(f: FpduV)
    requires
        val(f, Pi::ArticleFormat) is None,
        val(f, Pi::ArticleLength) is None,
        val(f, Pi::FileOrganisation) is None,
        val(f, Pi::FileLabel) is None,
        val(f, Pi::ReservationUnit) is None,
        val(f, Pi::MaxReservation) is None,
        val(f, Pi::CreationDate) is None,
        val(f, Pi::ExtractionDate) is None,
    ensures
        ({
            let g = FileSpecV::of(f);
            &&& g.article_format == ArticleFormat::Fixed && g.article_length == 0
            &&& g.organisation is None && g.label is None
            &&& g.reservation_unit is None && g.max_reservation == 0
            &&& g.creation_date is None && g.extraction_date is None
        }),
{
    read_no_value(f, Pi::ArticleFormat);
    read_no_value(f, Pi::ArticleLength);
    read_no_value(f, Pi::FileOrganisation);
    read_no_value(f, Pi::FileLabel);
    read_no_value(f, Pi::ReservationUnit);
    read_no_value(f, Pi::MaxReservation);
    read_no_value(f, Pi::CreationDate);
    read_no_value(f, Pi::ExtractionDate);
}

/// The requester reads from an ACK(SELECT) the attributes that it asked for, and those only: the
/// names and the identifier of the file always, the logical, physical and historical attributes
/// where they were wanted.
#[verifier::rlimit(60)]
pub proof fn law_ack_select_is_read_back(
    spec: FileSpecV,
    id_dst: u8,
    attributes: RequestedAttributes,
)
    requires
        readable(spec),
    ensures
        ({
            let f = spec.ack_select(id_dst, attributes);
            let g = FileSpecV::of(f);
            &&& f.kind == FpduKind::AckSelect && f.id_dst == id_dst
            &&& f.diagnostic() == Some(Diagnostic { kind: 0, code: 0 })
            &&& g.requester == spec.requester && g.server == spec.server
            &&& g.file_type == spec.file_type && g.file_name == spec.file_name
            &&& g.transfer_id == spec.transfer_id && g.data_code == spec.data_code
            &&& g.max_entity_size == spec.max_entity_size
            &&& g.client_id == spec.client_id && g.bank_id == spec.bank_id
            &&& g.free_message == spec.free_message
            &&& g.article_format == if attributes.logical {
                spec.article_format
            } else {
                ArticleFormat::Fixed
            }
            &&& g.article_length == if attributes.logical {
                spec.article_length
            } else {
                0
            }
            &&& g.organisation == if attributes.logical {
                spec.organisation
            } else {
                None
            }
            &&& g.label == if attributes.logical {
                spec.label
            } else {
                None
            }
            &&& g.reservation_unit == if attributes.physical {
                spec.reservation_unit
            } else {
                None
            }
            &&& g.max_reservation == if attributes.physical {
                spec.max_reservation
            } else {
                0
            }
            &&& g.creation_date == if attributes.historical {
                spec.creation_date
            } else {
                None
            }
            &&& g.extraction_date == if attributes.historical {
                spec.extraction_date
            } else {
                None
            }
        }),
{
    let k = FpduKind::AckSelect;
    let ok = Diagnostic { kind: 0, code: 0 };
    lemma_groups(spec, k);
    crate::diag::law_diagnostic_bytes_round_trip(ok);
    let f0 = begun(k, id_dst);
    let f1 = put_single(f0, k, 0, Pi::Diag, Some(ok.spec_bytes()));
    let f2 = put_group(f1, k, 3, Pgi::FileId, Some(spec.file_id_group()));
    let f3 = put_single(f2, k, 10, Pi::TransferId, Some(num_bytes(spec.transfer_id as nat)));
    let f4 = put_single(f3, k, 14, Pi::DataCode, opt_byte(spec.data_code));
    let size = Some(num_bytes(spec.max_entity_size as nat));
    let f5 = put_single(f4, k, 17, Pi::MaxEntitySize, size);
    let logical = if attributes.logical {
        Some(spec.logical_group())
    } else {
        None
    };
    let physical = if attributes.physical {
        Some(spec.physical_group())
    } else {
        None
    };
    let historical = if attributes.historical {
        spec.historical_group()
    } else {
        None
    };
    let f6 = put_group(f5, k, 26, Pgi::LogicalAttributes, logical);
    let f7 = put_group(f6, k, 31, Pgi::PhysicalAttributes, physical);
    let f8 = put_group(f7, k, 41, Pgi::HistoricalAttributes, historical);
    let f9 = put_single(f8, k, 51, Pi::ClientId, opt_text_bytes(spec.client_id));
    let f10 = put_single(f9, k, 62, Pi::BankId, opt_text_bytes(spec.bank_id));
    let f = put_single(f10, k, 63, Pi::FreeMessage, opt_text_bytes(spec.free_message));
    assert(f == spec.ack_select(id_dst, attributes));
    assert(f.value(Pi::Diag) == Some(ok.spec_bytes())) by {
        reveal(val);
        assert(val(f, Pi::Diag) == Some(ok.spec_bytes()));
    }
    read_common(spec, f);
    read_byte(f, Pi::DataCode, spec.data_code);
    read_number(f, Pi::MaxEntitySize, spec.max_entity_size as u64);
    if attributes.logical {
        read_format(spec, f);
        read_number(f, Pi::ArticleLength, spec.article_length as u64);
        read_byte(f, Pi::FileOrganisation, spec.organisation);
        read_text(f, Pi::FileLabel, spec.label);
    } else {
        read_no_value(f, Pi::ArticleFormat);
        read_no_value(f, Pi::ArticleLength);
        read_no_value(f, Pi::FileOrganisation);
        read_no_value(f, Pi::FileLabel);
    }
    if attributes.physical {
        read_byte(f, Pi::ReservationUnit, spec.reservation_unit);
        read_number(f, Pi::MaxReservation, spec.max_reservation);
    } else {
        read_no_value(f, Pi::ReservationUnit);
        read_no_value(f, Pi::MaxReservation);
    }
    if attributes.historical {
        read_text(f, Pi::CreationDate, spec.creation_date);
        read_text(f, Pi::ExtractionDate, spec.extraction_date);
    } else {
        read_no_value(f, Pi::CreationDate);
        read_no_value(f, Pi::ExtractionDate);
    }
}

/// The requester reads from an ACK(CREATE) how its request was judged, the identifier of the
/// transfer, the entity size, and what the server has to say.
pub proof fn law_ack_create_is_read_back(
    id_dst: u8,
    diag: Diagnostic,
    transfer_id: Option<u32>,
    max_entity_size: u16,
    free_message: Option<Seq<char>>,
)
    requires
        legible_opt(free_message),
        non_empty(free_message) == free_message,
    ensures
        ({
            let f = crate::builder::spec_ack_create(
                id_dst,
                diag,
                transfer_id,
                max_entity_size,
                free_message,
            );
            &&& f.kind == FpduKind::AckCreate && f.id_dst == id_dst
            &&& f.diagnostic() == Some(diag)
            &&& f.negative() <==> !(diag.kind == 0 && diag.code == 0)
            &&& f.number32(Pi::TransferId) == transfer_id
            &&& f.max_entity_size() == Some(max_entity_size)
            &&& f.string(Pi::FreeMessage) == free_message
        }),
{
    let k = FpduKind::AckCreate;
    crate::diag::law_diagnostic_bytes_round_trip(diag);
    let id = match transfer_id {
        Some(n) => Some(num_bytes(n as nat)),
        None => None,
    };
    let f0 = begun(k, id_dst);
    let f1 = put_single(f0, k, 0, Pi::Diag, Some(diag.spec_bytes()));
    let f2 = put_single(f1, k, 3, Pi::TransferId, id);
    let f3 = put_single(f2, k, 14, Pi::MaxEntitySize, Some(num_bytes(max_entity_size as nat)));
    let f = put_single(f3, k, 26, Pi::FreeMessage, opt_text_bytes(free_message));
    assert(f == crate::builder::spec_ack_create(
        id_dst,
        diag,
        transfer_id,
        max_entity_size,
        free_message,
    ));
    assert(f.value(Pi::Diag) == Some(diag.spec_bytes())) by {
        reveal(val);
        assert(val(f, Pi::Diag) == Some(diag.spec_bytes()));
    }
    match transfer_id {
        Some(n) => {
            read_number(f, Pi::TransferId, n as u64);
        },
        None => {
            read_no_value(f, Pi::TransferId);
        },
    }
    read_number(f, Pi::MaxEntitySize, max_entity_size as u64);
    read_text(f, Pi::FreeMessage, free_message);
}

/// The server reads from the first FPDU of a message what it is about, whether a reply is wanted,
/// and the bytes that it carries.
pub proof fn law_message_is_read_back(
    kind: FpduKind,
    id_dst: u8,
    spec: FileSpecV,
    expects_reply: bool,
    message: Option<Seq<u8>>,
)
    requires
        kind == FpduKind::Msg || kind == FpduKind::MsgDm,
        readable(spec),
    ensures
        ({
            let f = crate::builder::spec_msg(kind, id_dst, spec, expects_reply, message);
            let m = crate::message::IncomingMessageV::of(f);
            &&& f.kind == kind && f.id_dst == id_dst
            &&& m.expects_reply == expects_reply
            &&& m.message == match message {
                Some(b) => b,
                None => Seq::empty(),
            }
            &&& m.spec.requester == spec.requester && m.spec.server == spec.server
            &&& m.spec.file_name == spec.file_name && m.spec.file_type == spec.file_type
            &&& m.spec.transfer_id == spec.transfer_id
            &&& m.spec.client_id == spec.client_id && m.spec.bank_id == spec.bank_id
            &&& m.spec.data_code == spec.data_code && m.spec.priority == spec.priority
            &&& m.spec.creation_date == spec.creation_date
            &&& m.spec.extraction_date == spec.extraction_date
        }),
{
    lemma_groups(spec, kind);
    let wanted: Option<u8> = if expects_reply {
        Some(1)
    } else {
        None
    };
    let bytes = match message {
        Some(b) => if b.len() > 0 {
            Some(b)
        } else {
            None
        },
        None => None,
    };
    let f0 = begun(kind, id_dst);
    let f1 = put_group(f0, kind, 0, Pgi::FileId, Some(spec.file_id_group()));
    let f2 = put_single(f1, kind, 10, Pi::TransferId, Some(num_bytes(spec.transfer_id as nat)));
    let f3 = put_single(f2, kind, 14, Pi::RequestedAttributes, opt_byte(wanted));
    let f4 = put_single(f3, kind, 15, Pi::DataCode, opt_byte(spec.data_code));
    let f5 = put_single(f4, kind, 17, Pi::Priority, Some(seq![spec.priority]));
    let f6 = put_group(f5, kind, 18, Pgi::HistoricalAttributes, spec.historical_group());
    let f7 = put_single(f6, kind, 51, Pi::ClientId, opt_text_bytes(spec.client_id));
    let f8 = put_single(f7, kind, 62, Pi::BankId, opt_text_bytes(spec.bank_id));
    let f = put_single(f8, kind, 63, Pi::Message, bytes);
    assert(f == crate::builder::spec_msg(kind, id_dst, spec, expects_reply, message));
    assert(f.value(Pi::Message) == bytes) by {
        reveal(val);
        assert(val(f, Pi::Message) == bytes);
    }
    if let Some(b) = message {
        if b.len() == 0 {
            assert(b =~= Seq::empty());
        }
    }
    read_common(spec, f);
    read_byte(f, Pi::DataCode, spec.data_code);
    read_byte(f, Pi::Priority, Some(spec.priority));
    read_text(f, Pi::CreationDate, spec.creation_date);
    read_text(f, Pi::ExtractionDate, spec.extraction_date);
    if expects_reply {
        read_byte_number(f, Pi::RequestedAttributes, 1);
    } else {
        read_no_value(f, Pi::RequestedAttributes);
    }
}

/// The sender of a message reads from its ACK(MSG) how it was judged, and the reply.
pub proof fn law_ack_msg_is_read_back(
    id_dst: u8,
    diag: Diagnostic,
    transfer_id: Option<u32>,
    reply: Option<Seq<u8>>,
)
    ensures
        ({
            let f = crate::builder::spec_ack_msg(id_dst, diag, transfer_id, reply);
            &&& f.kind == FpduKind::AckMsg && f.id_dst == id_dst
            &&& f.diagnostic() == Some(diag)
            &&& f.negative() <==> !(diag.kind == 0 && diag.code == 0)
            &&& f.number32(Pi::TransferId) == transfer_id
            &&& f.value(Pi::Message) == match reply {
                Some(m) => if m.len() > 0 {
                    Some(m)
                } else {
                    None
                },
                None => None,
            }
        }),
{
    let k = FpduKind::AckMsg;
    crate::diag::law_diagnostic_bytes_round_trip(diag);
    let id = match transfer_id {
        Some(n) => Some(num_bytes(n as nat)),
        None => None,
    };
    let bytes = match reply {
        Some(b) => if b.len() > 0 {
            Some(b)
        } else {
            None
        },
        None => None,
    };
    let f0 = begun(k, id_dst);
    let f1 = put_single(f0, k, 0, Pi::Diag, Some(diag.spec_bytes()));
    let f2 = put_single(f1, k, 3, Pi::TransferId, id);
    let f = put_single(f2, k, 14, Pi::Message, bytes);
    assert(f == crate::builder::spec_ack_msg(id_dst, diag, transfer_id, reply));
    assert(f.value(Pi::Diag) == Some(diag.spec_bytes()) && f.value(Pi::Message) == bytes) by {
        reveal(val);
        assert(val(f, Pi::Diag) == Some(diag.spec_bytes()));
        assert(val(f, Pi::Message) == bytes);
    }
    match transfer_id {
        Some(n) => {
            read_number(f, Pi::TransferId, n as u64);
        },
        None => {
            read_no_value(f, Pi::TransferId);
        },
    }
}

} // verus!
