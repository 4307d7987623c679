//! Selection of records from a list.

use vstd::prelude::*;

verus! {

/// A test on records.
pub trait Criterion<T> {
    /// Whether a record passes.
    spec fn passes(&self, t: T) -> bool;

    /// Whether a record passes.
    fn test(&self, t: &T) -> (r: bool)
        ensures
            r == self.passes(*t),
    ;
}

/// Records that pass a test, in their order.
pub open spec fn passing<T, C: Criterion<T>>(c: C, list: Seq<T>) -> Seq<T>
    decreases list.len(),
{
    if list.len() == 0 {
        Seq::empty()
    } else if c.passes(list.last()) {
        passing(c, list.drop_last()).push(list.last())
    } else {
        passing(c, list.drop_last())
    }
}

/// The first records that pass a test, at most `limit` of them.
pub open spec fn selected<T, C: Criterion<T>>(c: C, list: Seq<T>, limit: nat) -> Seq<T> {
    let all = passing(c, list);
    if all.len() <= limit {
        all
    } else {
        all.take(limit as int)
    }
}

/// Select the first records that pass a test, at most `limit` of them.
pub fn select<T, C: Criterion<T>>(c: &C, list: Vec<T>, limit: usize) -> (r: Vec<T>)
    ensures
        r@ == selected(*c, list@, limit as nat),
{
    let mut out: Vec<T> = Vec::new();
    let ghost all = list@;
    proof {
        assert(all.take(0) =~= Seq::empty());
    }
    for t in it: list
        invariant
            it.seq() == all,
            out@ == selected(*c, all.take(it.index() as int), limit as nat),
    {
        proof {
            let n = it.index() as int;
            assert(all.take(n + 1).drop_last() =~= all.take(n));
            assert(all.take(n + 1).last() == t);
        }
        let ghost before = out@;
        if out.len() < limit && c.test(&t) {
            out.push(t);
        }
        proof {
            let n = it.index() as int;
            let p = passing(*c, all.take(n));
            let q = passing(*c, all.take(n + 1));
            if p.len() >= limit {
                assert(q.take(limit as int) =~= p.take(limit as int));
                assert(p.len() == limit ==> p.take(limit as int) =~= p);
                assert(q.len() == limit ==> q.take(limit as int) =~= q);
            }
            assert(out@ == selected(*c, all.take(n + 1), limit as nat));
        }
    }
    proof {
        assert(all.take(all.len() as int) =~= all);
    }
    out
}

/// Whether some record passes a test.
pub fn any<T, C: Criterion<T>>(c: &C, list: &Vec<T>) -> (r: bool)
    ensures
        r == exists|i: int| 0 <= i < list.len() && c.passes(#[trigger] list@[i]),
{
    let mut i: usize = 0;
    while i < list.len()
        invariant
            i <= list.len(),
            forall|j: int| 0 <= j < i ==> !c.passes(#[trigger] list@[j]),
        decreases list.len() - i,
    {
        if c.test(&list[i]) {
            return true;
        }
        i += 1;
    }
    false
}

/// Position of the first record that passes a test, if there is one.
pub open spec fn first_passing<T, C: Criterion<T>>(c: C, list: Seq<T>) -> Option<int>
    decreases list.len(),
{
    if list.len() == 0 {
        None
    } else if first_passing(c, list.drop_last()) is Some {
        first_passing(c, list.drop_last())
    } else if c.passes(list.last()) {
        Some(list.len() - 1)
    } else {
        None
    }
}

proof fn lemma_first_stable<T, C: Criterion<T>>(c: C, list: Seq<T>, n: int)
    requires
        0 <= n <= list.len(),
        first_passing(c, list.take(n)) is Some,
    ensures
        first_passing(c, list) == first_passing(c, list.take(n)),
    decreases list.len() - n,
{
    if n == list.len() {
        assert(list.take(n) =~= list);
    } else {
        assert(list.take(n + 1).drop_last() =~= list.take(n));
        lemma_first_stable(c, list, n + 1);
    }
}

/// Find the first record that passes a test.
pub fn find<'a, T, C: Criterion<T>>(c: &C, list: &'a Vec<T>) -> (r: Option<&'a T>)
    ensures
        match first_passing(*c, list@) {
            Some(i) => 0 <= i < list.len() && r == Some(&list@[i]),
            None => r is None,
        },
{
    let mut i: usize = 0;
    proof {
        assert(list@.take(0) =~= Seq::empty());
    }
    while i < list.len()
        invariant
            i <= list.len(),
            first_passing(*c, list@.take(i as int)) is None,
        decreases list.len() - i,
    {
        proof {
            assert(list@.take(i + 1).drop_last() =~= list@.take(i as int));
            assert(list@.take(i + 1).last() == list@[i as int]);
        }
        if c.test(&list[i]) {
            proof {
                lemma_first_stable(*c, list@, i + 1);
            }
            return Some(&list[i]);
        }
        i += 1;
    }
    proof {
        assert(list@.take(i as int) =~= list@);
    }
    None
}

/// Position of the last record that passes a test, if there is one.
pub open spec fn last_passing<T, C: Criterion<T>>(c: C, list: Seq<T>) -> Option<int>
    decreases list.len(),
{
    if list.len() == 0 {
        None
    } else if c.passes(list.last()) {
        Some(list.len() - 1)
    } else {
        last_passing(c, list.drop_last())
    }
}

/// Find the last record that passes a test.
pub fn find_last<'a, T, C: Criterion<T>>(c: &C, list: &'a Vec<T>) -> (r: Option<&'a T>)
    ensures
        match last_passing(*c, list@) {
            Some(i) => 0 <= i < list.len() && r == Some(&list@[i]),
            None => r is None,
        },
{
    let mut n: usize = list.len();
    proof {
        assert(list@.take(n as int) =~= list@);
    }
    while n > 0
        invariant
            n <= list.len(),
            last_passing(*c, list@) == last_passing(*c, list@.take(n as int)),
        decreases n,
    {
        proof {
            assert(list@.take(n as int).drop_last() =~= list@.take(n - 1));
            assert(list@.take(n as int).last() == list@[n - 1]);
        }
        if c.test(&list[n - 1]) {
            return Some(&list[n - 1]);
        }
        n -= 1;
    }
    None
}

/// Count the records that pass a test.
pub fn count<T, C: Criterion<T>>(c: &C, list: &Vec<T>) -> (r: usize)
    ensures
        r == passing(*c, list@).len(),
        r <= list.len(),
{
    let mut n: usize = 0;
    let mut i: usize = 0;
    proof {
        assert(list@.take(0) =~= Seq::empty());
    }
    while i < list.len()
        invariant
            n <= i <= list.len(),
            n == passing(*c, list@.take(i as int)).len(),
        decreases list.len() - i,
    {
        proof {
            assert(list@.take(i + 1).drop_last() =~= list@.take(i as int));
            assert(list@.take(i + 1).last() == list@[i as int]);
        }
        if c.test(&list[i]) {
            n += 1;
        }
        i += 1;
    }
    proof {
        assert(list@.take(i as int) =~= list@);
    }
    n
}

// ---- laws ----

/// What is selected passes the test and comes from the list, and nothing that passes is left out
/// where the limit leaves room.
pub proof fn law_selection_is_exact<T, C: Criterion<T>>(c: C, list: Seq<T>, limit: nat)
    ensures
        selected(c, list, limit).len() <= limit,
        forall|i: int|
            0 <= i < selected(c, list, limit).len() ==> c.passes(
                #[trigger] selected(c, list, limit)[i],
            ) && list.contains(selected(c, list, limit)[i]),
        passing(c, list).len() <= limit ==> forall|i: int|
            0 <= i < list.len() && c.passes(#[trigger] list[i]) ==> selected(
                c,
                list,
                limit,
            ).contains(list[i]),
{
    lemma_passing(c, list);
}

proof fn lemma_passing<T, C: Criterion<T>>(c: C, list: Seq<T>)
    ensures
        passing(c, list).len() <= list.len(),
        forall|i: int|
            0 <= i < passing(c, list).len() ==> c.passes(#[trigger] passing(c, list)[i])
                && list.contains(passing(c, list)[i]),
        forall|i: int|
            0 <= i < list.len() && c.passes(#[trigger] list[i]) ==> passing(c, list).contains(
                list[i],
            ),
    decreases list.len(),
{
    if list.len() > 0 {
        let front = list.drop_last();
        lemma_passing(c, front);
        let p = passing(c, front);
        let q = passing(c, list);
        assert forall|i: int| 0 <= i < q.len() implies c.passes(#[trigger] q[i])
            && list.contains(q[i]) by {
            if i < p.len() {
                assert(q[i] == p[i]);
                let j = choose|j: int| 0 <= j < front.len() && front[j] == p[i];
                assert(list[j] == p[i]);
            } else {
                assert(list[list.len() - 1] == q[i]);
            }
        }
        assert forall|i: int| 0 <= i < list.len() && c.passes(#[trigger] list[i]) implies q.contains(
            list[i],
        ) by {
            if i < front.len() {
                assert(front[i] == list[i]);
                assert(p.contains(front[i]));
                let j = choose|j: int| 0 <= j < p.len() && p[j] == front[i];
                assert(q[j] == list[i]);
            } else {
                assert(q[q.len() - 1] == list[i]);
            }
        }
    }
}

} // verus!
