//! Synchronisation point bookkeeping used for resynchronisation and restarts.

use std::collections::BTreeMap;
use vstd::prelude::*;
use vstd::std_specs::btree::increasing_seq;
use vstd::std_specs::cmp::OrdSpec;
use vstd::std_specs::iter::IteratorSpec;

verus! {

/// Position of a synchronisation point in a transfer.
#[derive(Debug, Clone, Copy, PartialEq, Eq, Structural)]
pub struct Checkpoint {
    /// Synchronisation point number (0 = beginning of the file).
    pub sync: u32,
    /// Offset in the physical file.
    pub file_offset: u64,
    /// Data bytes transmitted so far (PI 27 semantics).
    pub data_bytes: u64,
    /// Articles transmitted so far.
    pub articles: u64,
}

impl Checkpoint {
    /// The beginning of a file.
    pub open spec fn beginning() -> Checkpoint {
        Checkpoint { sync: 0, file_offset: 0, data_bytes: 0, articles: 0 }
    }
}

impl Default for Checkpoint {
    fn default() -> (r: Self)
        ensures
            r == Checkpoint::beginning(),
    {
        Checkpoint { sync: 0, file_offset: 0, data_bytes: 0, articles: 0 }
    }
}

/// Checkpoints of a transfer, and the number of the last one that the peer acknowledged.
#[verifier::ext_equal]
pub struct CheckpointsV {
    /// Checkpoints by synchronisation point number.
    pub points: Map<u32, Checkpoint>,
    /// Last acknowledged number, 0 for none.
    pub acknowledged: u32,
}

impl CheckpointsV {
    /// No checkpoint yet.
    pub open spec fn empty() -> CheckpointsV {
        CheckpointsV { points: Map::empty(), acknowledged: 0 }
    }

    /// Checkpoints with one more.
    pub open spec fn recorded(self, cp: Checkpoint) -> CheckpointsV {
        CheckpointsV { points: self.points.insert(cp.sync, cp), ..self }
    }

    /// Checkpoint of a number; number 0 is always the beginning of the file.
    pub open spec fn at(self, sync: u32) -> Option<Checkpoint> {
        if sync == 0 {
            Some(Checkpoint::beginning())
        } else if self.points.contains_key(sync) {
            Some(self.points[sync])
        } else {
            None
        }
    }

    /// Checkpoint of a number, or the beginning of the file where there is none.
    pub open spec fn at_or_beginning(self, sync: u32) -> Checkpoint {
        match self.at(sync) {
            Some(cp) => cp,
            None => Checkpoint::beginning(),
        }
    }

    /// Last acknowledged checkpoint.
    pub open spec fn last_acknowledged(self) -> Option<Checkpoint> {
        if self.acknowledged != 0 && self.points.contains_key(self.acknowledged) {
            Some(self.points[self.acknowledged])
        } else {
            None
        }
    }

    /// Whether `k` is the largest number recorded.
    pub open spec fn is_last(self, k: u32) -> bool {
        self.points.contains_key(k) && forall|j: u32| #[trigger]
            self.points.contains_key(j) ==> j <= k
    }

    /// Checkpoints after an acknowledgement: what precedes the last acknowledged number is
    /// forgotten.
    pub open spec fn after_acknowledge(self, sync: u32) -> CheckpointsV {
        let acknowledged = if self.acknowledged >= sync {
            self.acknowledged
        } else {
            sync
        };
        CheckpointsV {
            points: Map::new(
                |k: u32| self.points.contains_key(k) && k >= acknowledged,
                |k: u32| self.points[k],
            ),
            acknowledged,
        }
    }

    /// Whether every checkpoint stands under its own number.
    pub open spec fn keyed(self) -> bool {
        numbered(self.points)
    }
}

/// Whether every checkpoint of a map stands under its own number.
pub open spec fn numbered(points: Map<u32, Checkpoint>) -> bool {
    forall|k: u32| #[trigger] points.contains_key(k) ==> points[k].sync == k
}

/// Storage of the checkpoints of one transfer.
pub trait CheckpointStore {
    /// Stored checkpoints.
    spec fn stored(&self) -> CheckpointsV;

    /// Record a checkpoint.
    fn record(&mut self, cp: Checkpoint)
        ensures
            final(self).stored() == old(self).stored().recorded(cp),
    ;

    /// Look a checkpoint up by synchronisation point number (0 returns the default checkpoint).
    fn get(&self, sync: u32) -> (r: Option<Checkpoint>)
        ensures
            r == self.stored().at(sync),
    ;

    /// Last recorded checkpoint.
    fn last(&self) -> (r: Option<Checkpoint>)
        ensures
            r is None <==> self.stored().points.is_empty(),
            r matches Some(cp) ==> exists|k: u32| #[trigger]
                self.stored().is_last(k) && self.stored().points[k] == cp,
    ;

    /// Last checkpoint acknowledged by the peer (sender side).
    fn last_acknowledged(&self) -> (r: Option<Checkpoint>)
        ensures
            r == self.stored().last_acknowledged(),
    ;

    /// Mark checkpoints up to `sync` as acknowledged.
    fn acknowledge(&mut self, sync: u32)
        ensures
            final(self).stored() == old(self).stored().after_acknowledge(sync),
    ;

    /// Forget everything (transfer completed).
    fn clear(&mut self)
        ensures
            final(self).stored() == CheckpointsV::empty(),
    ;
}

/// Whether checkpoints stand in strictly ascending order of their numbers.
pub open spec fn ascending(list: Seq<Checkpoint>) -> bool {
    forall|i: int, j: int|
        0 <= i < j < list.len() ==> (#[trigger] list[i]).sync < (#[trigger] list[j]).sync
}

/// Whether a list holds a checkpoint of the given number.
pub open spec fn holds(list: Seq<Checkpoint>, sync: u32) -> bool {
    exists|i: int| 0 <= i < list.len() && (#[trigger] list[i]).sync == sync
}

/// Checkpoint of a number in a list that holds one.
pub open spec fn find(list: Seq<Checkpoint>, sync: u32) -> Checkpoint {
    list[choose|i: int| 0 <= i < list.len() && (#[trigger] list[i]).sync == sync]
}

/// Checkpoints of a list by their numbers.
pub open spec fn by_number(list: Seq<Checkpoint>) -> Map<u32, Checkpoint> {
    Map::new(|k: u32| holds(list, k), |k: u32| find(list, k))
}

pub(crate) proof fn lemma_find(list: Seq<Checkpoint>, i: int)
    requires
        ascending(list),
        0 <= i < list.len(),
    ensures
        holds(list, list[i].sync),
        find(list, list[i].sync) == list[i],
        by_number(list).contains_key(list[i].sync),
        by_number(list)[list[i].sync] == list[i],
{
    let sync = list[i].sync;
    let k = choose|k: int| 0 <= k < list.len() && (#[trigger] list[k]).sync == sync;
    if k < i {
        assert(list[k].sync < list[i].sync);
    } else if i < k {
        assert(list[i].sync < list[k].sync);
    }
}

/// In-memory checkpoint store.
#[derive(Debug)]
pub struct MemoryCheckpoints {
    points: BTreeMap<u32, Checkpoint>,
    acknowledged: u32,
}

impl View for MemoryCheckpoints {
    type V = CheckpointsV;

    closed spec fn view(&self) -> CheckpointsV {
        CheckpointsV { points: self.points@, acknowledged: self.acknowledged }
    }
}

impl Default for MemoryCheckpoints {
    fn default() -> (r: Self)
        ensures
            r@ == CheckpointsV::empty(),
    {
        MemoryCheckpoints::new()
    }
}

/// Checkpoints of a map in ascending order of their numbers.
fn in_order(map: &BTreeMap<u32, Checkpoint>) -> (r: Vec<Checkpoint>)
    requires
        numbered(map@),
    ensures
        ascending(r@),
        by_number(r@) == map@,
{
    let mut out: Vec<Checkpoint> = Vec::new();
    let entries = map.iter();
    let ghost all = entries.remaining();
    proof {
        let numbers = all.map_values(|kv: (&u32, &Checkpoint)| *kv.0);
        assert forall|i: int, j: int| 0 <= i < j < all.len() implies *(#[trigger] all[i]).0 < *(
        #[trigger] all[j]).0 by {
            assert(numbers[i] == *all[i].0 && numbers[j] == *all[j].0);
            assert(increasing_seq(numbers));
            assert(numbers[i].cmp_spec(&numbers[j]) is Less);
        }
    }
    for entry in it: entries
        invariant
            it.seq() == all,
            out@.len() == it.index(),
            forall|j: int| 0 <= j < out@.len() ==> #[trigger] out@[j] == *all[j].1,
    {
        out.push(*entry.1);
    }
    proof {
        assert forall|j: int| 0 <= j < out@.len() implies map@.contains_key(
            (#[trigger] out@[j]).sync,
        ) && map@[out@[j].sync] == out@[j] && out@[j].sync == *all[j].0 by {
            assert(map@.contains_key(*all[j].0));
        }
        assert(ascending(out@));
        assert forall|k: u32| map@.contains_key(k) implies holds(out@, k) by {
            let j = choose|j: int| 0 <= j < all.len() && all[j] == (&k, &map@[k]);
            assert(all.contains((&k, &map@[k])));
            assert(out@[j].sync == k);
        }
        assert forall|k: u32| by_number(out@).contains_key(k) implies by_number(out@)[k]
            == map@[k] by {
            let j = choose|j: int| 0 <= j < out@.len() && (#[trigger] out@[j]).sync == k;
            lemma_find(out@, j);
        }
        assert(by_number(out@) =~= map@);
    }
    out
}

impl MemoryCheckpoints {
    #[verifier::type_invariant]
    closed spec fn wf(self) -> bool {
        self@.keyed()
    }

    /// Empty store.
    #[must_use]
    pub fn new() -> (r: Self)
        ensures
            r@ == CheckpointsV::empty(),
    {
        MemoryCheckpoints { points: BTreeMap::new(), acknowledged: 0 }
    }

    /// A store with the given checkpoints, recorded one after the other.
    #[must_use]
    pub fn from_parts(points: &[Checkpoint], acknowledged: u32) -> (r: Self)
        ensures
            r@ == (CheckpointsV {
                acknowledged,
                ..points@.fold_left(
                    CheckpointsV::empty(),
                    |v: CheckpointsV, cp: Checkpoint| v.recorded(cp),
                )
            }),
    {
        let mut map: BTreeMap<u32, Checkpoint> = BTreeMap::new();
        let mut i: usize = 0;
        let ghost f = |v: CheckpointsV, cp: Checkpoint| v.recorded(cp);
        let ghost mut v = CheckpointsV::empty();
        proof {
            assert(points@.take(0) =~= Seq::empty());
        }
        while i < points.len()
            invariant
                i <= points.len(),
                v.keyed(),
                v.points == map@,
                f == (|v: CheckpointsV, cp: Checkpoint| v.recorded(cp)),
                v == points@.take(i as int).fold_left(CheckpointsV::empty(), f),
            decreases points.len() - i,
        {
            map.insert(points[i].sync, points[i]);
            proof {
                let next = points@.take(i + 1);
                assert(next.drop_last() =~= points@.take(i as int));
                assert(next.fold_left(CheckpointsV::empty(), f) == f(v, points@[i as int])) by {
                    reveal_with_fuel(Seq::fold_left, 2);
                }
                v = v.recorded(points@[i as int]);
            }
            i += 1;
        }
        proof {
            assert(points@.take(i as int) =~= points@);
        }
        MemoryCheckpoints { points: map, acknowledged }
    }

    /// Number of the last acknowledged checkpoint, 0 for none.
    #[must_use]
    pub fn acknowledged(&self) -> (r: u32)
        ensures
            r == self@.acknowledged,
    {
        self.acknowledged
    }

    /// All recorded checkpoints in order of their numbers.
    #[must_use]
    pub fn all(&self) -> (r: Vec<Checkpoint>)
        ensures
            ascending(r@),
            by_number(r@) == self@.points,
    {
        proof {
            use_type_invariant(self);
        }
        in_order(&self.points)
    }
}

impl CheckpointStore for MemoryCheckpoints {
    open spec fn stored(&self) -> CheckpointsV {
        self@
    }

    fn record(&mut self, cp: Checkpoint) {
        proof {
            use_type_invariant(&*self);
        }
        let mut map: BTreeMap<u32, Checkpoint> = BTreeMap::new();
        core::mem::swap(&mut self.points, &mut map);
        map.insert(cp.sync, cp);
        self.points = map;
    }

    fn get(&self, sync: u32) -> (r: Option<Checkpoint>) {
        if sync == 0 {
            return Some(Checkpoint::default());
        }
        match self.points.get(&sync) {
            Some(cp) => Some(*cp),
            None => None,
        }
    }

    fn last(&self) -> (r: Option<Checkpoint>) {
        let list = self.all();
        let n: usize = list.len();
        if n == 0 {
            proof {
                assert(self@.points =~= Map::empty());
            }
            return None;
        }
        proof {
            let k = list@[n - 1].sync;
            lemma_find(list@, n - 1);
            assert forall|j: u32| #[trigger] self@.points.contains_key(j) implies j <= k by {
                assert(holds(list@, j));
                let i = choose|i: int| 0 <= i < list@.len() && (#[trigger] list@[i]).sync == j;
                if i < n - 1 {
                    assert(list@[i].sync < list@[n - 1].sync);
                }
            }
            assert(self.stored().is_last(k));
            assert(self.stored().points[k] == list@[n - 1]);
        }
        Some(list[n - 1])
    }

    fn last_acknowledged(&self) -> (r: Option<Checkpoint>) {
        if self.acknowledged == 0 {
            return None;
        }
        self.get(self.acknowledged)
    }

    fn acknowledge(&mut self, sync: u32) {
        let acknowledged: u32 = if self.acknowledged >= sync {
            self.acknowledged
        } else {
            sync
        };
        let list = self.all();
        let ghost goal = self@.after_acknowledge(sync);
        let mut keep: BTreeMap<u32, Checkpoint> = BTreeMap::new();
        let mut i: usize = 0;
        while i < list.len()
            invariant
                i <= list.len(),
                ascending(list@),
                by_number(list@) == old(self)@.points,
                goal == old(self)@.after_acknowledge(sync),
                acknowledged == goal.acknowledged,
                forall|k: u32| #[trigger]
                    keep@.contains_key(k) ==> goal.points.contains_key(k) && keep@[k]
                        == goal.points[k],
                forall|j: int|
                    0 <= j < i && (#[trigger] list@[j]).sync >= acknowledged
                        ==> keep@.contains_key(list@[j].sync),
            decreases list.len() - i,
        {
            proof {
                lemma_find(list@, i as int);
            }
            if list[i].sync >= acknowledged {
                keep.insert(list[i].sync, list[i]);
            }
            i += 1;
        }
        proof {
            assert forall|k: u32| goal.points.contains_key(k) implies keep@.contains_key(k) by {
                assert(holds(list@, k));
                let j = choose|j: int| 0 <= j < list@.len() && (#[trigger] list@[j]).sync == k;
                assert(keep@.contains_key(list@[j].sync));
            }
            assert(keep@ =~= goal.points);
            use_type_invariant(&*self);
        }
        self.points = keep;
        self.acknowledged = acknowledged;
    }

    fn clear(&mut self) {
        self.points = BTreeMap::new();
        self.acknowledged = 0;
    }
}

/// A recorded checkpoint is found under its number, and every other one stays as it was.
pub proof fn law_get_after_record(v: CheckpointsV, cp: Checkpoint, other: u32)
    requires
        cp.sync != 0,
    ensures
        v.recorded(cp).at(cp.sync) == Some(cp),
        other != cp.sync ==> v.recorded(cp).at(other) == v.at(other),
{
}

/// An acknowledgement keeps the acknowledged checkpoint and all later ones, forgets the earlier
/// ones, and never moves back.
pub proof fn law_acknowledge_forgets_only_the_past(v: CheckpointsV, sync: u32, other: u32)
    requires
        other != 0,
    ensures
        ({
            let w = v.after_acknowledge(sync);
            &&& w.acknowledged >= v.acknowledged
            &&& w.acknowledged >= sync
            &&& other >= w.acknowledged ==> w.at(other) == v.at(other)
            &&& other < w.acknowledged ==> w.at(other) is None
            &&& w.after_acknowledge(sync) == w
        }),
{
    let w = v.after_acknowledge(sync);
    assert(w.after_acknowledge(sync).points =~= w.points);
}

/// Recording and acknowledging keep every checkpoint under its own number.
pub proof fn law_checkpoints_stay_keyed(v: CheckpointsV, cp: Checkpoint, sync: u32)
    requires
        v.keyed(),
    ensures
        v.recorded(cp).keyed(),
        v.after_acknowledge(sync).keyed(),
{
}

} // verus!
