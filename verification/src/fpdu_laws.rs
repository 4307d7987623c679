//! What holds of FPDUs as a whole: decoding undoes encoding, and parameters keep their values and
//! their order.

use crate::fpdu::{
    canonical, first_value, insertion_point, item_placed, items_bytes, items_sorted,
    lemma_insertion_point_range, len_prefix, lookup, params_bytes, placed, spec_read_items,
    spec_read_param, spec_read_params, spec_read_unit, unit_bytes, Fault, FpduV, Items, ParamV,
    HEADER_LEN, MAX_FPDU_LEN,
};
use crate::kind::law_kind_codes_round_trip;
use crate::pi::{
    law_pi_and_pgi_codes_are_disjoint, law_pi_code_round_trip, law_pgi_code_round_trip, Pgi, Pi,
};
use vstd::prelude::*;

verus! {

/// Whether items can be read back from their wire form. A strict reading also wants members of the
/// group in ascending order.
pub open spec fn items_readable(pgi: Pgi, items: Items, strict: bool) -> bool {
    &&& forall|i: int| 0 <= i < items.len() ==> (#[trigger] items[i]).1.len() > 0
    &&& strict ==> forall|i: int|
        0 <= i < items.len() ==> pgi.spec_contains((#[trigger] items[i]).0)
    &&& strict ==> forall|i: int, j: int|
        0 <= i < j < items.len() ==> (#[trigger] items[i]).0.spec_code() < (
        #[trigger] items[j]).0.spec_code()
}

/// Whether a unit can be read back from its wire form.
pub open spec fn param_readable(p: ParamV, strict: bool) -> bool {
    match p {
        ParamV::Pi { value, .. } => value.len() > 0,
        ParamV::Pgi { pgi, items } => items.len() > 0 && items_readable(pgi, items, strict),
    }
}

/// Whether a FPDU is one that decoding can give: parameters or data but not both, no empty value
/// and no empty group. Strictly, also the canonical order and the template of the kind.
pub open spec fn well_formed(f: FpduV, strict: bool) -> bool {
    if f.kind.spec_is_data() {
        f.params.len() == 0
    } else {
        &&& f.data.len() == 0
        &&& forall|i: int| 0 <= i < f.params.len() ==> param_readable(#[trigger] f.params[i], strict)
        &&& strict ==> canonical(f.params)
        &&& strict ==> f.template_fault() is None
    }
}

/// One unit in front of any bytes is read back.
proof fn lemma_unit_read_back(code: u8, value: Seq<u8>, rest: Seq<u8>)
    requires
        0 < value.len() <= 0xFFFF,
    ensures
        spec_read_unit(unit_bytes(code, value) + rest) == Ok::<_, Fault>((code, value, rest)),
{
    let s = unit_bytes(code, value) + rest;
    let n = value.len();
    let k: int = 1 + len_prefix(n).len() as int;
    assert(s[0] == code);
    assert(s[1] == len_prefix(n)[0]);
    if n >= 255 {
        assert(s[2] == len_prefix(n)[1]);
        assert(s[3] == len_prefix(n)[2]);
        assert(s[2] * 256 + s[3] == n);
    }
    assert(s.subrange(k, k + n as int) =~= value);
    assert(s.skip(k + n as int) =~= rest);
}

/// The wire form of items starts with that of the first.
proof fn lemma_items_front(items: Items)
    requires
        items.len() > 0,
    ensures
        items_bytes(items) == unit_bytes(items[0].0.spec_code(), items[0].1) + items_bytes(
            items.skip(1),
        ),
    decreases items.len(),
{
    if items.len() == 1 {
        assert(items.drop_last() =~= Seq::empty());
        assert(items.skip(1) =~= Seq::empty());
        assert(items_bytes(items.drop_last()) =~= Seq::empty());
        assert(items_bytes(items) =~= unit_bytes(items[0].0.spec_code(), items[0].1) + items_bytes(
            items.skip(1),
        ));
    } else {
        lemma_items_front(items.drop_last());
        assert(items.drop_last().skip(1) =~= items.skip(1).drop_last());
        assert(items.skip(1).last() == items.last());
        assert(items_bytes(items) =~= unit_bytes(items[0].0.spec_code(), items[0].1) + items_bytes(
            items.skip(1),
        ));
    }
}

/// The wire form of parameters starts with that of the first.
proof fn lemma_params_front(params: Seq<ParamV>)
    requires
        params.len() > 0,
    ensures
        params_bytes(params) == params[0].bytes() + params_bytes(params.skip(1)),
    decreases params.len(),
{
    if params.len() == 1 {
        assert(params.drop_last() =~= Seq::empty());
        assert(params.skip(1) =~= Seq::empty());
        assert(params_bytes(params.drop_last()) =~= Seq::empty());
        assert(params_bytes(params) =~= params[0].bytes() + params_bytes(params.skip(1)));
    } else {
        lemma_params_front(params.drop_last());
        assert(params.drop_last().skip(1) =~= params.skip(1).drop_last());
        assert(params.skip(1).last() == params.last());
        assert(params_bytes(params) =~= params[0].bytes() + params_bytes(params.skip(1)));
    }
}

proof fn lemma_items_read_back(pgi: Pgi, strict: bool, acc: Items, rest: Items)
    requires
        items_readable(pgi, acc + rest, strict),
        items_bytes(rest).len() <= 0xFFFF,
    ensures
        spec_read_items(pgi, strict, items_bytes(rest), acc) == Ok::<_, Fault>(acc + rest),
    decreases rest.len(),
{
    if rest.len() == 0 {
        assert(acc + rest =~= acc);
    } else {
        let all = acc + rest;
        let (pi, value) = rest[0];
        let k = acc.len() as int;
        assert(all[k] == rest[0]);
        lemma_items_front(rest);
        lemma_unit_read_back(pi.spec_code(), value, items_bytes(rest.skip(1)));
        law_pi_code_round_trip(pi);
        if acc.len() > 0 {
            assert(all[k - 1] == acc.last());
        }
        let next = acc.push((pi, value));
        assert(next + rest.skip(1) =~= all);
        lemma_items_read_back(pgi, strict, next, rest.skip(1));
    }
}

proof fn lemma_param_read_back(p: ParamV, strict: bool)
    requires
        param_readable(p, strict),
        p.content().len() <= 0xFFFF,
    ensures
        spec_read_param(strict, p.spec_code(), p.content()) == Ok::<_, Fault>(p),
        p.content().len() > 0,
{
    match p {
        ParamV::Pi { pi, value } => {
            law_pi_code_round_trip(pi);
            law_pi_and_pgi_codes_are_disjoint(pi, Pgi::FileId);
        },
        ParamV::Pgi { pgi, items } => {
            law_pgi_code_round_trip(pgi);
            assert(Seq::empty() + items =~= items);
            lemma_items_front(items);
            lemma_items_read_back(pgi, strict, Seq::empty(), items);
        },
    }
}

proof fn lemma_params_read_back(strict: bool, acc: Seq<ParamV>, rest: Seq<ParamV>)
    requires
        forall|i: int| 0 <= i < rest.len() ==> param_readable(#[trigger] rest[i], strict),
        strict ==> canonical(acc + rest),
        params_bytes(rest).len() <= 0xFFFF,
    ensures
        spec_read_params(strict, params_bytes(rest), acc) == Ok::<_, Fault>(acc + rest),
    decreases rest.len(),
{
    if rest.len() == 0 {
        assert(acc + rest =~= acc);
    } else {
        let all = acc + rest;
        let p = rest[0];
        let k = acc.len() as int;
        assert(all[k] == p);
        lemma_params_front(rest);
        lemma_param_read_back(p, strict);
        lemma_unit_read_back(p.spec_code(), p.content(), params_bytes(rest.skip(1)));
        if acc.len() > 0 {
            assert(all[k - 1] == acc.last());
        }
        assert(acc.push(p) + rest.skip(1) =~= all);
        lemma_params_read_back(strict, acc.push(p), rest.skip(1));
    }
}

/// Decoding undoes encoding: a well-formed FPDU is read back from its wire form, strictly as well
/// as leniently.
pub proof fn law_decode_inverts_encode(f: FpduV, strict: bool)
    requires
        well_formed(f, strict),
        f.wire_len() <= MAX_FPDU_LEN,
    ensures
        FpduV::decoded(f.encoding(), strict) == Ok::<_, Fault>(f),
{
    let bytes = f.encoding();
    law_kind_codes_round_trip(f.kind);
    assert(bytes.skip(HEADER_LEN as int) =~= f.body());
    assert(bytes[0] == f.header()[0] && bytes[1] == f.header()[1] && bytes[2] == f.header()[2]
        && bytes[3] == f.header()[3] && bytes[4] == f.header()[4] && bytes[5] == f.header()[5]);
    assert(bytes[0] * 256 + bytes[1] == bytes.len());
    if f.kind.spec_is_data() {
        assert(f.params =~= Seq::empty());
    } else {
        assert(f.data =~= Seq::empty());
        assert(Seq::empty() + f.params =~= f.params);
        lemma_params_read_back(strict, Seq::empty(), f.params);
    }
}

/// Items that were read are readable and no longer than the bytes they were read from.
proof fn lemma_read_items_wf(pgi: Pgi, strict: bool, s: Seq<u8>, acc: Items)
    requires
        items_readable(pgi, acc, strict),
    ensures
        spec_read_items(pgi, strict, s, acc) matches Ok(items) ==> {
            &&& items_readable(pgi, items, strict)
            &&& items.len() >= acc.len()
            &&& s.len() > 0 ==> items.len() > acc.len()
            &&& items_bytes(items).len() <= items_bytes(acc).len() + s.len()
        },
    decreases s.len(),
{
    if s.len() > 0 {
        if let Ok((code, value, rest)) = spec_read_unit(s) {
            if let Some(pi) = Pi::spec_from_code(code) {
                let next = acc.push((pi, value));
                assert(next.drop_last() =~= acc);
                assert(unit_bytes(pi.spec_code(), value).len() + rest.len() <= s.len());
                let ok = !strict || (pgi.spec_contains(pi) && (acc.len() == 0 || code
                    > acc.last().0.spec_code()));
                if ok {
                    assert(pi.spec_code() == code);
                    assert(items_readable(pgi, next, strict)) by {
                        assert forall|i: int| 0 <= i < next.len() implies (#[trigger] next[i]).1.len()
                            > 0 by {
                            if i < acc.len() {
                                assert(next[i] == acc[i]);
                            }
                        }
                        if strict {
                            assert forall|i: int| 0 <= i < next.len() implies pgi.spec_contains(
                                (#[trigger] next[i]).0,
                            ) by {
                                if i < acc.len() {
                                    assert(next[i] == acc[i]);
                                }
                            }
                            assert forall|i: int, j: int| 0 <= i < j < next.len() implies (
                            #[trigger] next[i]).0.spec_code() < (#[trigger] next[j]).0.spec_code() by {
                                if j < acc.len() {
                                    assert(next[i] == acc[i] && next[j] == acc[j]);
                                } else if i < acc.len() - 1 {
                                    assert(next[i] == acc[i]);
                                    assert(acc[i].0.spec_code() < acc[acc.len() - 1].0.spec_code());
                                }
                            }
                        }
                    }
                    lemma_read_items_wf(pgi, strict, rest, next);
                }
            }
        }
    }
}

proof fn lemma_read_params_wf(strict: bool, s: Seq<u8>, acc: Seq<ParamV>)
    requires
        forall|i: int| 0 <= i < acc.len() ==> param_readable(#[trigger] acc[i], strict),
        strict ==> canonical(acc),
    ensures
        spec_read_params(strict, s, acc) matches Ok(params) ==> {
            &&& forall|i: int| 0 <= i < params.len() ==> param_readable(#[trigger] params[i], strict)
            &&& strict ==> canonical(params)
            &&& params_bytes(params).len() <= params_bytes(acc).len() + s.len()
        },
    decreases s.len(),
{
    if s.len() > 0 {
        if let Ok((code, value, rest)) = spec_read_unit(s) {
            if let Ok(p) = spec_read_param(strict, code, value) {
                let next = acc.push(p);
                assert(next.drop_last() =~= acc);
                assert(p.spec_code() == code);
                if let ParamV::Pgi { pgi, items } = p {
                    lemma_read_items_wf(pgi, strict, value, Seq::empty());
                    assert(items_bytes(Seq::<(Pi, Seq<u8>)>::empty()).len() == 0);
                }
                assert(param_readable(p, strict));
                assert(p.content().len() <= value.len());
                assert(p.bytes().len() + rest.len() <= s.len());
                if !strict || acc.len() == 0 || code > acc.last().spec_code() {
                    assert forall|i: int| 0 <= i < next.len() implies param_readable(
                        #[trigger] next[i],
                        strict,
                    ) by {
                        if i < acc.len() {
                            assert(next[i] == acc[i]);
                        }
                    }
                    if strict {
                        assert forall|i: int, j: int| 0 <= i < j < next.len() implies (
                        #[trigger] next[i]).spec_code() < (#[trigger] next[j]).spec_code() by {
                            if j < acc.len() {
                                assert(next[i] == acc[i] && next[j] == acc[j]);
                            } else if i < acc.len() - 1 {
                                assert(next[i] == acc[i]);
                                assert(acc[i].spec_code() < acc[acc.len() - 1].spec_code());
                            }
                        }
                    }
                    lemma_read_params_wf(strict, rest, next);
                }
            }
        }
    }
}

/// What was decoded is well-formed, fits in a FPDU again, and is what its own wire form decodes to.
pub proof fn law_decoded_is_well_formed(bytes: Seq<u8>, strict: bool)
    requires
        FpduV::decoded(bytes, strict) is Ok,
    ensures
        ({
            let f = FpduV::decoded(bytes, strict)->Ok_0;
            &&& well_formed(f, strict)
            &&& f.wire_len() <= bytes.len() <= MAX_FPDU_LEN
            &&& FpduV::decoded(f.encoding(), strict) == Ok::<_, Fault>(f)
        }),
{
    let f = FpduV::decoded(bytes, strict)->Ok_0;
    if !f.kind.spec_is_data() {
        lemma_read_params_wf(strict, bytes.skip(HEADER_LEN as int), Seq::empty());
        assert(params_bytes(Seq::<ParamV>::empty()).len() == 0);
    }
    law_decode_inverts_encode(f, strict);
}

/// A FPDU that decodes strictly decodes leniently to the same value.
pub proof fn law_strict_implies_lenient(bytes: Seq<u8>)
    requires
        FpduV::decoded(bytes, true) is Ok,
    ensures
        FpduV::decoded(bytes, false) == FpduV::decoded(bytes, true),
{
    lemma_strict_params(bytes.skip(HEADER_LEN as int), Seq::empty());
}

proof fn lemma_strict_items(pgi: Pgi, s: Seq<u8>, acc: Items)
    ensures
        spec_read_items(pgi, true, s, acc) is Ok ==> spec_read_items(pgi, false, s, acc)
            == spec_read_items(pgi, true, s, acc),
    decreases s.len(),
{
    if s.len() > 0 {
        if let Ok((code, value, rest)) = spec_read_unit(s) {
            if let Some(pi) = Pi::spec_from_code(code) {
                lemma_strict_items(pgi, rest, acc.push((pi, value)));
            }
        }
    }
}

proof fn lemma_strict_params(s: Seq<u8>, acc: Seq<ParamV>)
    ensures
        spec_read_params(true, s, acc) is Ok ==> spec_read_params(false, s, acc)
            == spec_read_params(true, s, acc),
    decreases s.len(),
{
    if s.len() > 0 {
        if let Ok((code, value, rest)) = spec_read_unit(s) {
            if let Some(pgi) = Pgi::spec_from_code(code) {
                lemma_strict_items(pgi, value, Seq::empty());
            }
            if let Ok(p) = spec_read_param(true, code, value) {
                lemma_strict_params(rest, acc.push(p));
            }
        }
    }
}

/// Setting a parameter or a group keeps the canonical order.
pub proof fn law_set_keeps_canonical_order(params: Seq<ParamV>, p: ParamV)
    requires
        canonical(params),
    ensures
        canonical(placed(params, p)),
{
    lemma_insertion_point_range(params, p.spec_code());
    let i = insertion_point(params, p.spec_code());
    let out = placed(params, p);
    assert forall|a: int, b: int| 0 <= a < b < out.len() implies (#[trigger] out[a]).spec_code() < (
    #[trigger] out[b]).spec_code() by {
        if out.len() == params.len() {
            assert(out =~= params.update(i, p));
            assert(out[a].spec_code() == params[a].spec_code());
            assert(out[b].spec_code() == params[b].spec_code());
        } else {
            let pa = if a < i {
                a
            } else {
                a - 1
            };
            let pb = if b < i {
                b
            } else {
                b - 1
            };
            if a != i {
                assert(out[a] == params[pa]);
            }
            if b != i {
                assert(out[b] == params[pb]);
            }
            if b == i {
                assert(params[pa].spec_code() < p.spec_code());
            } else if a == i {
                assert(params[i].spec_code() >= p.spec_code());
                if pb > i {
                    assert(params[i].spec_code() < params[pb].spec_code());
                }
            } else {
                assert(params[pa].spec_code() < params[pb].spec_code());
            }
        }
    }
}

proof fn lemma_first_value_none(params: Seq<ParamV>, pi: Pi, grouped: bool)
    requires
        forall|i: int|
            0 <= i < params.len() ==> (#[trigger] params[i]).value_at(pi, grouped) is None,
    ensures
        first_value(params, pi, grouped) is None,
    decreases params.len(),
{
    if params.len() > 0 {
        let front = params.drop_last();
        assert forall|i: int| 0 <= i < front.len() implies (#[trigger] front[i]).value_at(
            pi,
            grouped,
        ) is None by {
            assert(front[i] == params[i]);
        }
        lemma_first_value_none(front, pi, grouped);
        assert(params.last() == params[params.len() - 1]);
    }
}

/// A list in which no unit gives a value to a parameter has no value for it.
pub(crate) proof fn lemma_lookup_none(params: Seq<ParamV>, pi: Pi)
    requires
        forall|i: int| 0 <= i < params.len() ==> (#[trigger] params[i]).value_of(pi) is None,
    ensures
        lookup(params, pi) is None,
{
    lemma_first_value_none(params, pi, false);
    lemma_first_value_none(params, pi, true);
}

/// The value of a parameter at top level is that of the first single unit that gives it one.
proof fn lemma_first_single(params: Seq<ParamV>, pi: Pi, k: int)
    requires
        0 <= k < params.len(),
        params[k].value_at(pi, false) is Some,
        forall|i: int| 0 <= i < k ==> (#[trigger] params[i]).value_at(pi, false) is None,
    ensures
        first_value(params, pi, false) == params[k].value_at(pi, false),
    decreases params.len(),
{
    let d = params.drop_last();
    if k == params.len() - 1 {
        assert forall|i: int| 0 <= i < d.len() implies (#[trigger] d[i]).value_at(
            pi,
            false,
        ) is None by {
            assert(d[i] == params[i]);
        }
        lemma_first_value_none(d, pi, false);
    } else {
        assert(d[k] == params[k]);
        assert forall|i: int| 0 <= i < k implies (#[trigger] d[i]).value_at(pi, false) is None by {
            assert(d[i] == params[i]);
        }
        lemma_first_single(d, pi, k);
    }
}

/// A parameter that was set reads back with the value it was given.
pub proof fn law_get_after_set(f: FpduV, pi: Pi, value: Seq<u8>)
    requires
        canonical(f.params),
    ensures
        f.with_param(pi, value).value(pi) == Some(value),
{
    let p = ParamV::Pi { pi, value };
    let k = insertion_point(f.params, pi.spec_code());
    lemma_insertion_point_range(f.params, pi.spec_code());
    let out = placed(f.params, p);
    assert(out[k] == p);
    assert forall|i: int| 0 <= i < k implies (#[trigger] out[i]).value_at(pi, false) is None by {
        assert(out[i] == f.params[i]);
        assert(f.params[i].spec_code() < pi.spec_code());
    }
    lemma_first_single(out, pi, k);
}

proof fn lemma_first_value_update(params: Seq<ParamV>, pi: Pi, grouped: bool, k: int, p: ParamV)
    requires
        0 <= k < params.len(),
        params[k].value_of(pi) is None,
        p.value_of(pi) is None,
    ensures
        first_value(params.update(k, p), pi, grouped) == first_value(params, pi, grouped),
    decreases params.len(),
{
    let out = params.update(k, p);
    if k == params.len() - 1 {
        assert(out.drop_last() =~= params.drop_last());
    } else {
        lemma_first_value_update(params.drop_last(), pi, grouped, k, p);
        assert(out.drop_last() =~= params.drop_last().update(k, p));
    }
}

proof fn lemma_first_value_insert(params: Seq<ParamV>, pi: Pi, grouped: bool, k: int, p: ParamV)
    requires
        0 <= k <= params.len(),
        p.value_of(pi) is None,
    ensures
        first_value(params.insert(k, p), pi, grouped) == first_value(params, pi, grouped),
    decreases params.len(),
{
    let out = params.insert(k, p);
    if k == params.len() {
        assert(out.drop_last() =~= params);
    } else {
        lemma_first_value_insert(params.drop_last(), pi, grouped, k, p);
        assert(out.drop_last() =~= params.drop_last().insert(k, p));
        assert(out.last() == params.last());
    }
}

/// Setting a parameter leaves the value of every other parameter as it was.
pub proof fn law_set_leaves_other_parameters(f: FpduV, pi: Pi, value: Seq<u8>, other: Pi)
    requires
        other != pi,
    ensures
        f.with_param(pi, value).value(other) == f.value(other),
{
    let p = ParamV::Pi { pi, value };
    let k = insertion_point(f.params, pi.spec_code());
    lemma_insertion_point_range(f.params, pi.spec_code());
    if k < f.params.len() && f.params[k].spec_code() == pi.spec_code() {
        match f.params[k] {
            ParamV::Pi { pi: q, .. } => {
                law_pi_code_round_trip(pi);
                law_pi_code_round_trip(q);
            },
            ParamV::Pgi { pgi, .. } => {
                law_pi_and_pgi_codes_are_disjoint(pi, pgi);
            },
        }
        lemma_first_value_update(f.params, other, false, k, p);
        lemma_first_value_update(f.params, other, true, k, p);
    } else {
        lemma_first_value_insert(f.params, other, false, k, p);
        lemma_first_value_insert(f.params, other, true, k, p);
    }
}

/// Whether items stand in ascending code order.
pub open spec fn items_ascend(items: Items) -> bool {
    forall|i: int, j: int|
        0 <= i < j < items.len() ==> (#[trigger] items[i]).0.spec_code() <= (
        #[trigger] items[j]).0.spec_code()
}

proof fn lemma_item_placed(items: Items, item: (Pi, Seq<u8>))
    requires
        items_ascend(items),
    ensures
        items_ascend(item_placed(items, item)),
        item_placed(items, item).to_multiset() == items.to_multiset().insert(item),
        item_placed(items, item).len() == items.len() + 1,
        forall|i: int|
            0 <= i < item_placed(items, item).len() ==> (#[trigger] item_placed(items, item)[i]) == item
                || items.contains(item_placed(items, item)[i]),
    decreases items.len(),
{
    broadcast use vstd::seq_lib::group_to_multiset_ensures;

    let out = item_placed(items, item);
    if items.len() > 0 && items.last().0.spec_code() > item.0.spec_code() {
        let d = items.drop_last();
        let inner = item_placed(d, item);
        assert(items_ascend(d)) by {
            assert forall|i: int, j: int| 0 <= i < j < d.len() implies (
            #[trigger] d[i]).0.spec_code() <= (#[trigger] d[j]).0.spec_code() by {
                assert(d[i] == items[i] && d[j] == items[j]);
            }
        }
        lemma_item_placed(d, item);
        assert(out == inner.push(items.last()));
        assert(items =~= d.push(items.last()));
        assert(out.to_multiset() =~= items.to_multiset().insert(item));
        assert forall|i: int| 0 <= i < out.len() implies (#[trigger] out[i]) == item
            || items.contains(out[i]) by {
            if i < inner.len() {
                assert(out[i] == inner[i]);
                if inner[i] != item {
                    let k = choose|k: int| 0 <= k < d.len() && d[k] == inner[i];
                    assert(items[k] == inner[i]);
                }
            } else {
                assert(out[i] == items[items.len() - 1]);
            }
        }
        assert forall|i: int, j: int| 0 <= i < j < out.len() implies (
        #[trigger] out[i]).0.spec_code() <= (#[trigger] out[j]).0.spec_code() by {
            assert(out[i] == inner[i]);
            if j < inner.len() {
                assert(out[j] == inner[j]);
            } else {
                if inner[i] != item {
                    let k = choose|k: int| 0 <= k < d.len() && d[k] == inner[i];
                    assert(items[k] == inner[i]);
                    assert(items[k].0.spec_code() <= items[items.len() - 1].0.spec_code());
                }
            }
        }
    } else {
        assert(out == items.push(item));
        assert forall|i: int| 0 <= i < out.len() implies (#[trigger] out[i]) == item
            || items.contains(out[i]) by {
            if i < items.len() {
                assert(out[i] == items[i]);
            }
        }
        assert forall|i: int, j: int| 0 <= i < j < out.len() implies (
        #[trigger] out[i]).0.spec_code() <= (#[trigger] out[j]).0.spec_code() by {
            assert(out[i] == items[i]);
            if j < items.len() {
                assert(out[j] == items[j]);
            } else if i < items.len() - 1 {
                assert(items[i].0.spec_code() <= items[items.len() - 1].0.spec_code());
            }
        }
    }
}

/// The items of a group that was set stand in code order, and are those that were given.
pub proof fn law_group_items_are_sorted(items: Items)
    ensures
        items_ascend(items_sorted(items)),
        items_sorted(items).to_multiset() == items.to_multiset(),
    decreases items.len(),
{
    broadcast use vstd::seq_lib::group_to_multiset_ensures;

    if items.len() > 0 {
        law_group_items_are_sorted(items.drop_last());
        lemma_item_placed(items_sorted(items.drop_last()), items.last());
        assert(items =~= items.drop_last().push(items.last()));
    }
}

} // verus!
