//! What the shared services promise: who is let in, what is selected from a list and in which order,
//! and what a pattern becomes.

use crate::datapath::Progress;
use crate::service::audit::{AuditEvent, Failures, OfCategory, Outcome};
use crate::service::http::{admitted, placeholder, replaced, resolved};
use crate::service::progress::ProgressThrottle;
use crate::service::select::{first_passing, last_passing, passing, selected, Criterion};
use crate::service::time::spec_elapsed;
use crate::text::lower;
use vstd::prelude::*;

verus! {

// ---- keys ----

/// `Bearer ` and a key, in bytes.
pub open spec fn bearer_token(key: Seq<u8>) -> Seq<u8> {
    seq![66u8, 101, 97, 114, 101, 114, 32] + key
}

/// A request below `/api/` passes exactly where it gives the configured key, bare or as a bearer
/// token, in its `X-API-Key` header, or, where it has none, in its `Authorization` header. Where
/// no key is configured, and outside `/api/`, every request passes.
pub proof fn law_requests_need_the_key(
    expected: Option<Seq<u8>>,
    path: Seq<char>,
    api_key: Option<Seq<u8>>,
    authorization: Option<Seq<u8>>,
)
    ensures
        ({
            let asked = expected is Some && path.len() >= 5 && path[0] == '/' && path[1] == 'a'
                && path[2] == 'p' && path[3] == 'i' && path[4] == '/';
            let given = match api_key {
                Some(v) => Some(v),
                None => authorization,
            };
            let fits = given matches Some(v) && (v == expected->0 || v == bearer_token(
                expected->0,
            ));
            admitted(expected, path, api_key, authorization) <==> !asked || fits
        }),
{
    let prefix = seq!['/', 'a', 'p', 'i', '/'];
    if path.len() >= 5 {
        let head = path.subrange(0, 5);
        assert(prefix.is_prefix_of(path) <==> head =~= prefix);
        assert(head[0] == path[0] && head[1] == path[1] && head[2] == path[2] && head[3] == path[3]
            && head[4] == path[4]);
    }
    if let Some(key) = expected {
        assert(crate::service::http::bearer() =~= seq![66u8, 101, 97, 114, 101, 114, 32]);
    }
}

// ---- selection ----

/// The records that pass are exactly those of the list that do, each as often as it is there and in
/// the order of the list; a limit keeps the first of them.
pub proof fn law_selection_keeps_the_order<T, C: Criterion<T>>(c: C, list: Seq<T>, limit: nat)
    ensures
        passing(c, list) == list.filter(|t: T| c.passes(t)),
        selected(c, list, limit).is_prefix_of(passing(c, list)),
        selected(c, list, limit).len() == if passing(c, list).len() <= limit {
            passing(c, list).len()
        } else {
            limit
        },
{
    lemma_passing_filters(c, list);
    let all = passing(c, list);
    if all.len() > limit {
        assert(all.take(limit as int) =~= all.subrange(0, limit as int));
    } else {
        assert(all.subrange(0, all.len() as int) =~= all);
    }
}

proof fn lemma_passing_filters<T, C: Criterion<T>>(c: C, list: Seq<T>)
    ensures
        passing(c, list) == list.filter(|t: T| c.passes(t)),
    decreases list.len(),
{
    reveal(Seq::filter);
    if list.len() > 0 {
        lemma_passing_filters(c, list.drop_last());
    }
}

/// The first record that passes is the first: it passes, none before it does, and there is none
/// exactly where no record passes.
pub proof fn law_the_first_is_found<T, C: Criterion<T>>(c: C, list: Seq<T>)
    ensures
        first_passing(c, list) matches Some(i) ==> 0 <= i < list.len() && c.passes(list[i])
            && forall|j: int| 0 <= j < i ==> !c.passes(#[trigger] list[j]),
        first_passing(c, list) is None <==> forall|j: int|
            0 <= j < list.len() ==> !c.passes(#[trigger] list[j]),
    decreases list.len(),
{
    if list.len() > 0 {
        let d = list.drop_last();
        law_the_first_is_found(c, d);
        assert forall|j: int| 0 <= j < d.len() implies d[j] == #[trigger] list[j] by {}
        if first_passing(c, list) is None {
            assert forall|j: int| 0 <= j < list.len() implies !c.passes(#[trigger] list[j]) by {
                if j < d.len() {
                    assert(!c.passes(d[j]));
                }
            }
        } else if first_passing(c, d) is Some {
            let i = first_passing(c, d)->0;
            assert(list[i] == d[i]);
            assert forall|j: int| 0 <= j < i implies !c.passes(#[trigger] list[j]) by {
                assert(!c.passes(d[j]));
            }
        } else {
            assert forall|j: int| 0 <= j < d.len() implies !c.passes(#[trigger] list[j]) by {
                assert(!c.passes(d[j]));
            }
            assert(c.passes(list[list.len() - 1]));
        }
    }
}

/// The last record that passes is the last: it passes, none behind it does, and there is none
/// exactly where no record passes.
pub proof fn law_the_last_is_found<T, C: Criterion<T>>(c: C, list: Seq<T>)
    ensures
        last_passing(c, list) matches Some(i) ==> 0 <= i < list.len() && c.passes(list[i])
            && forall|j: int| i < j < list.len() ==> !c.passes(#[trigger] list[j]),
        last_passing(c, list) is None <==> forall|j: int|
            0 <= j < list.len() ==> !c.passes(#[trigger] list[j]),
    decreases list.len(),
{
    if list.len() > 0 && !c.passes(list.last()) {
        let d = list.drop_last();
        law_the_last_is_found(c, d);
        if let Some(i) = last_passing(c, list) {
            assert(list[i] == d[i]);
            assert forall|j: int| i < j < list.len() implies !c.passes(#[trigger] list[j]) by {
                if j < d.len() {
                    assert(!c.passes(d[j]));
                }
            }
        } else {
            assert forall|j: int| 0 <= j < list.len() implies !c.passes(#[trigger] list[j]) by {
                if j < d.len() {
                    assert(!c.passes(d[j]));
                }
            }
        }
    } else if list.len() > 0 {
        assert(c.passes(list[list.len() - 1]));
    }
}

/// Events are asked for by their category, whatever its case, or all of them; failures are the
/// events that failed.
pub proof fn law_events_are_found_by_category(c: OfCategory<'_>, e: AuditEvent)
    ensures
        c.category is None ==> c.passes(e),
        c.category matches Some(t) ==> (c.passes(e) <==> lower(e.category@) == lower(t@)),
        (Failures {  }).passes(e) <==> e.outcome == Outcome::Failure,
{
}

// ---- patterns ----

/// The first occurrence of a word is replaced, what stands before it stays, and the rest is dealt
/// with in the same way.
pub proof fn law_every_occurrence_is_replaced(
    before: Seq<char>,
    word: Seq<char>,
    rest: Seq<char>,
    with: Seq<char>,
)
    requires
        word.len() > 0,
        forall|i: int|
            0 <= i < before.len() ==> !word.is_prefix_of(
                #[trigger] (before + word + rest).skip(i),
            ),
    ensures
        replaced(before + word + rest, word, with) == before + with + replaced(rest, word, with),
    decreases before.len(),
{
    let s = before + word + rest;
    if before.len() == 0 {
        assert(s =~= word + rest);
        assert(s.subrange(0, word.len() as int) =~= word);
        assert(s.skip(word.len() as int) =~= rest);
        assert(before + with + replaced(rest, word, with) =~= with + replaced(rest, word, with));
    } else {
        assert(s.skip(0) =~= s);
        let b = before.skip(1);
        assert(s.skip(1) =~= b + word + rest);
        assert forall|i: int| 0 <= i < b.len() implies !word.is_prefix_of(
            #[trigger] (b + word + rest).skip(i),
        ) by {
            assert((b + word + rest).skip(i) =~= s.skip(i + 1));
        }
        law_every_occurrence_is_replaced(b, word, rest, with);
        assert(seq![s[0]] + (b + with + replaced(rest, word, with)) =~= before + with + replaced(
            rest,
            word,
            with,
        ));
    }
}

/// A pattern that is a placeholder becomes its value, where nothing of the value is itself a
/// placeholder of a later name; without values a pattern stays as it is.
pub proof fn law_placeholders_become_values(name: Seq<char>, value: Seq<char>, pattern: Seq<char>)
    ensures
        resolved(placeholder(name), seq![(name, value)]) == value,
        resolved(pattern, Seq::empty()) == pattern,
        placeholder(name) == seq!['$', '{'] + name + seq!['}'],
{
    reveal_strlit("${");
    reveal_strlit("}");
    let p = placeholder(name);
    assert("${"@ =~= seq!['$', '{']);
    assert("}"@ =~= seq!['}']);
    let one = seq![(name, value)];
    assert(one.drop_last() =~= Seq::<(Seq<char>, Seq<char>)>::empty());
    let none = Seq::<char>::empty();
    assert(none + p + none =~= p);
    law_every_occurrence_is_replaced(none, p, none, value);
    assert(replaced(none, p, value) =~= none);
    assert(none + value + none =~= value);
    assert(resolved(p, one.drop_last()) == p);
    assert(resolved(p, one) == replaced(p, placeholder(one.last().0), one.last().1));
}

// ---- progress and time ----

/// Progress is recorded exactly where a synchronisation point was passed, a megabyte came in, or a
/// second has gone by since the last record.
pub proof fn law_progress_is_recorded_in_steps(t: ProgressThrottle, p: Progress, idle_ms: u64)
    ensures
        t.spec_due(p, idle_ms) <==> p.sync != t.sync || p.data_bytes >= t.bytes + 1_048_576
            || idle_ms >= 1000,
{
}

/// The time between two instants is what has to be added to the first to reach the second.
pub proof fn law_elapsed_time_reaches_the_end(start: i64, end: i64)
    requires
        i64::MIN <= end - start <= i64::MAX,
    ensures
        spec_elapsed(Some(start), Some(end)) matches Some(d) && start + d == end,
        spec_elapsed(None, Some(end)) is None,
        spec_elapsed(Some(start), None) is None,
{
}

} // verus!
