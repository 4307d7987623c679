//! Clustering: names, membership, the leader lease and the replication of configuration changes.

use crate::text::{dec, push_decimal, same};
use crate::service::http::between;
use vstd::prelude::*;
use vstd::string::StringExecFns;

verus! {

/// Cluster error.
#[derive(Debug, PartialEq, Eq)]
pub enum ClusterError {
    /// Connection / NATS error.
    Nats(String),
}

impl ClusterError {
    /// Rendering of the error.
    #[must_use]
    pub fn text(&self) -> (r: String)
        ensures
            r@ == "nats: "@ + self->Nats_0@,
    {
        match self {
            ClusterError::Nats(e) => {
                let mut out = "nats: ".to_owned();
                out.append(e.as_str());
                out
            },
        }
    }
}

/// Cluster configuration.
#[derive(Debug, PartialEq, Eq)]
pub struct ClusterConfig {
    /// NATS server URL (e.g. `nats://nats:4222`).
    pub url: String,
    /// Logical cluster name (namespaces the buckets and subjects).
    pub name: String,
    /// This node's identifier.
    pub node_id: String,
    /// This node's reachable address (host:port of the admin API).
    pub node_addr: String,
    /// Software version.
    pub version: String,
    /// Heartbeat interval, in milliseconds.
    pub heartbeat_ms: u64,
}

/// Names that a cluster uses.
#[derive(Debug, PartialEq, Eq)]
pub struct ClusterNames {
    /// Bucket of the members.
    pub members: String,
    /// Bucket of the leader lease.
    pub leader: String,
    /// Subject of the configuration changes.
    pub config: String,
    /// Subject of the snapshots.
    pub sync: String,
}

/// Lifetimes in a cluster, in milliseconds.
#[derive(Debug, Clone, Copy, PartialEq, Eq, Structural)]
pub struct ClusterTimes {
    /// Age at which a member is gone.
    pub member_age: u64,
    /// Age at which the leader lease is free.
    pub lease_age: u64,
    /// Time between two looks at the lease.
    pub lease_tick: u64,
}

impl ClusterConfig {
    /// Names that the cluster uses.
    #[must_use]
    pub fn names(&self) -> (r: ClusterNames)
        ensures
            r.members@ == "pesit_"@ + self.name@ + "_members"@,
            r.leader@ == "pesit_"@ + self.name@ + "_leader"@,
            r.config@ == "pesit."@ + self.name@ + ".config"@,
            r.sync@ == "pesit."@ + self.name@ + ".sync"@,
    {
        ClusterNames {
            members: between("pesit_", self.name.as_str(), "_members"),
            leader: between("pesit_", self.name.as_str(), "_leader"),
            config: between("pesit.", self.name.as_str(), ".config"),
            sync: between("pesit.", self.name.as_str(), ".sync"),
        }
    }

    /// Lifetimes in the cluster: a member is gone after three missed heartbeats, the lease is free
    /// after two, and is looked at twice per heartbeat.
    #[must_use]
    pub fn times(&self) -> (r: ClusterTimes)
        requires
            self.heartbeat_ms <= u64::MAX / 3,
        ensures
            r.member_age == self.heartbeat_ms * 3,
            r.lease_age == self.heartbeat_ms * 2,
            r.lease_tick == self.heartbeat_ms / 2,
    {
        ClusterTimes {
            member_age: self.heartbeat_ms * 3,
            lease_age: self.heartbeat_ms * 2,
            lease_tick: self.heartbeat_ms / 2,
        }
    }

    /// What this node tells about itself, `secs` seconds after the epoch.
    #[must_use]
    pub fn member(&self, secs: u64) -> (r: MemberInfo)
        ensures
            r.node_id@ == self.node_id@,
            r.addr@ == self.node_addr@,
            r.version@ == self.version@,
            r.last_seen@ == "@"@ + dec(secs as nat),
    {
        let mut last_seen = "@".to_owned();
        push_decimal(&mut last_seen, secs);
        MemberInfo {
            node_id: self.node_id.clone(),
            addr: self.node_addr.clone(),
            version: self.version.clone(),
            last_seen,
        }
    }
}

/// Membership information published by each node.
#[derive(Debug, PartialEq, Eq)]
pub struct MemberInfo {
    /// Node identifier.
    pub node_id: String,
    /// Admin API address.
    pub addr: String,
    /// Software version.
    pub version: String,
    /// Last heartbeat.
    pub last_seen: String,
}

// ---- the leader lease ----

/// What to do with the leader lease.
#[derive(Debug, Clone, Copy, PartialEq, Eq, Structural)]
pub enum LeaseStep {
    /// This node holds it: renew it and lead.
    Renew,
    /// Another node holds it: follow.
    Follow,
    /// Nobody holds it: try to create it, and lead where that succeeds.
    Claim,
}

/// What to do with the leader lease, given who holds it.
#[must_use]
pub fn lease_step(holder: Option<&str>, node_id: &str) -> (r: LeaseStep)
    ensures
        r == (match holder {
            Some(h) => if h@ == node_id@ {
                LeaseStep::Renew
            } else {
                LeaseStep::Follow
            },
            None => LeaseStep::Claim,
        }),
{
    match holder {
        Some(h) => {
            if same(h, node_id) {
                LeaseStep::Renew
            } else {
                LeaseStep::Follow
            }
        },
        None => LeaseStep::Claim,
    }
}

/// Whether this node leads after a step; `created` tells whether the lease could be created.
#[verifier::allow_in_spec]
#[must_use]
pub fn leads(step: LeaseStep, created: bool) -> bool
    returns
        step == LeaseStep::Renew || (step == LeaseStep::Claim && created),
{
    match step {
        LeaseStep::Renew => true,
        LeaseStep::Follow => false,
        LeaseStep::Claim => created,
    }
}

/// Whether scheduled work runs here: on the leader, or on a node that stands alone.
#[verifier::allow_in_spec]
#[must_use]
pub fn runs_schedules(leader: Option<bool>) -> bool
    returns
        leader != Some(false),
{
    match leader {
        Some(l) => l,
        None => true,
    }
}

/// While one node holds the lease, no other one leads.
pub proof fn law_lease_holder_leads_alone(
    holder: Seq<char>,
    a: Seq<char>,
    b: Seq<char>,
    a_step: LeaseStep,
    b_step: LeaseStep,
    created: bool,
)
    requires
        a != b,
        a_step == (if holder == a {
            LeaseStep::Renew
        } else {
            LeaseStep::Follow
        }),
        b_step == (if holder == b {
            LeaseStep::Renew
        } else {
            LeaseStep::Follow
        }),
    ensures
        !(leads(a_step, created) && leads(b_step, created)),
{
}

// ---- configuration changes ----

/// Store tables replicated live across the cluster (listeners stay node-local).
pub const CLUSTER_TABLES: [&'static str; 4] = [
    "partners",
    "virtual_files",
    "remote_partners",
    "schedules",
];

/// Whether a table is replicated across the cluster.
pub open spec fn replicated(table: Seq<char>) -> bool {
    table == "partners"@ || table == "virtual_files"@ || table == "remote_partners"@ || table
        == "schedules"@
}

/// Whether a table is replicated across the cluster.
#[must_use]
pub fn is_replicated(table: &str) -> (r: bool)
    ensures
        r == replicated(table@),
{
    same(table, "partners") || same(table, "virtual_files") || same(table, "remote_partners")
        || same(table, "schedules")
}

/// A configuration change to replicate across the cluster.
#[derive(Debug, PartialEq, Eq)]
pub struct ConfigChange {
    /// Originating node.
    pub origin: String,
    /// `put` or `delete`.
    pub op: String,
    /// Store table.
    pub table: String,
    /// Row key.
    pub key: String,
    /// Row document (for `put`), as JSON text.
    pub doc: Option<String>,
}

/// What a configuration change does to the local store.
#[derive(Debug, Clone, Copy, PartialEq, Eq, Structural)]
pub enum ChangeStep {
    /// Nothing: it is our own, its table is not replicated, or it has no document.
    Ignore,
    /// Delete the row.
    Delete,
    /// Write the row.
    Put,
}

impl ConfigChange {
    /// What the change does to the store of a node.
    pub open spec fn spec_step(self, node_id: Seq<char>) -> ChangeStep {
        if self.origin@ == node_id || !replicated(self.table@) {
            ChangeStep::Ignore
        } else if self.op@ == "delete"@ {
            ChangeStep::Delete
        } else if self.doc is Some {
            ChangeStep::Put
        } else {
            ChangeStep::Ignore
        }
    }

    /// What the change does to the store of a node.
    #[must_use]
    pub fn step(&self, node_id: &str) -> (r: ChangeStep)
        ensures
            r == self.spec_step(node_id@),
    {
        if same(self.origin.as_str(), node_id) || !is_replicated(self.table.as_str()) {
            return ChangeStep::Ignore;
        }
        if same(self.op.as_str(), "delete") {
            return ChangeStep::Delete;
        }
        match &self.doc {
            Some(_) => ChangeStep::Put,
            None => ChangeStep::Ignore,
        }
    }

    /// A change that this node announces.
    #[must_use]
    pub fn announce(node_id: &str, op: &str, table: &str, key: &str, doc: Option<String>) -> (r:
        Self)
        ensures
            r.origin@ == node_id@,
            r.op@ == op@,
            r.table@ == table@,
            r.key@ == key@,
            r.doc == doc,
    {
        ConfigChange {
            origin: node_id.to_owned(),
            op: op.to_owned(),
            table: table.to_owned(),
            key: key.to_owned(),
            doc,
        }
    }
}

/// A node never applies its own changes.
pub proof fn law_own_changes_are_ignored(c: ConfigChange)
    ensures
        c.spec_step(c.origin@) == ChangeStep::Ignore,
{
}

// ---- members ----

/// Order of texts, character by character.
pub open spec fn text_before(a: Seq<char>, b: Seq<char>) -> bool
    decreases a.len(),
{
    if b.len() == 0 {
        false
    } else if a.len() == 0 {
        true
    } else if a[0] != b[0] {
        (a[0] as u32) < (b[0] as u32)
    } else {
        text_before(a.skip(1), b.skip(1))
    }
}

/// Whether a text comes before another one, character by character.
pub fn is_before(a: &str, b: &str) -> (r: bool)
    ensures
        r == text_before(a@, b@),
{
    let x = crate::text::chars_of(a);
    let y = crate::text::chars_of(b);
    let mut i: usize = 0;
    proof {
        assert(a@.skip(0) =~= a@);
        assert(b@.skip(0) =~= b@);
    }
    loop
        invariant
            i <= x.len(),
            i <= y.len(),
            x@ == a@,
            y@ == b@,
            text_before(a@, b@) == text_before(a@.skip(i as int), b@.skip(i as int)),
        decreases x.len() - i,
    {
        if i == y.len() {
            return false;
        }
        if i == x.len() {
            return true;
        }
        proof {
            assert(a@.skip(i as int).skip(1) =~= a@.skip(i + 1));
            assert(b@.skip(i as int).skip(1) =~= b@.skip(i + 1));
        }
        if x[i] != y[i] {
            return (x[i] as u32) < (y[i] as u32);
        }
        i += 1;
    }
}

proof fn lemma_char_order(a: char, b: char)
    ensures
        a == b <==> a as u32 == b as u32,
{
}

/// The order of texts is strict and total.
pub proof fn law_text_order(a: Seq<char>, b: Seq<char>, c: Seq<char>)
    ensures
        !(text_before(a, b) && text_before(b, a)),
        a == b || text_before(a, b) || text_before(b, a),
        !text_before(a, a),
        text_before(a, b) && text_before(b, c) ==> text_before(a, c),
    decreases a.len() + b.len() + c.len(),
{
    if a.len() > 0 && b.len() > 0 {
        lemma_char_order(a[0], b[0]);
    }
    if b.len() > 0 && c.len() > 0 {
        lemma_char_order(b[0], c[0]);
    }
    if a.len() > 0 && c.len() > 0 {
        lemma_char_order(a[0], c[0]);
    }
    let cut = |s: Seq<char>|
        if s.len() > 0 {
            s.skip(1)
        } else {
            s
        };
    if a.len() + b.len() + c.len() > 0 {
        law_text_order(cut(a), cut(b), cut(c));
        if a.len() > 0 && b.len() > 0 && a[0] == b[0] && a.skip(1) == b.skip(1) {
            assert(a =~= seq![a[0]] + a.skip(1));
            assert(b =~= seq![b[0]] + b.skip(1));
        }
    }
    if a.len() == 0 && b.len() == 0 {
        assert(a =~= b);
    }
    if a.len() > 0 {
        lemma_text_order_self(a);
    }
}

proof fn lemma_text_order_self(a: Seq<char>)
    ensures
        !text_before(a, a),
    decreases a.len(),
{
    if a.len() > 0 {
        lemma_text_order_self(a.skip(1));
    }
}

/// Whether members stand in the order of their identifiers.
pub open spec fn members_ordered(list: Seq<MemberInfo>) -> bool {
    forall|i: int, j: int|
        0 <= i < j < list.len() ==> !text_before(
            (#[trigger] list[j]).node_id@,
            (#[trigger] list[i]).node_id@,
        )
}

/// The members of an identifier, in their order.
pub open spec fn members_of(list: Seq<MemberInfo>, node_id: Seq<char>) -> Seq<MemberInfo>
    decreases list.len(),
{
    if list.len() == 0 {
        Seq::empty()
    } else if list.last().node_id@ == node_id {
        members_of(list.drop_last(), node_id).push(list.last())
    } else {
        members_of(list.drop_last(), node_id)
    }
}

/// A member goes behind the others of its identifier where only other identifiers follow it.
proof fn lemma_inserted_member(list: Seq<MemberInfo>, k: int, m: MemberInfo, node_id: Seq<char>)
    requires
        0 <= k <= list.len(),
        forall|j: int| k <= j < list.len() ==> (#[trigger] list[j]).node_id@ != m.node_id@,
    ensures
        members_of(list.insert(k, m), node_id) == members_of(list.push(m), node_id),
    decreases list.len(),
{
    let out = list.insert(k, m);
    assert(list.push(m).drop_last() =~= list);
    if k == list.len() {
        assert(out =~= list.push(m));
    } else {
        let front = list.drop_last();
        assert forall|j: int| k <= j < front.len() implies (#[trigger] front[j]).node_id@
            != m.node_id@ by {
            assert(front[j] == list[j]);
        }
        lemma_inserted_member(front, k, m, node_id);
        assert(front.push(m).drop_last() =~= front);
        assert(out.drop_last() =~= front.insert(k, m));
        assert(out.last() == list.last());
        assert(list.last() == list[list.len() - 1]);
        let step = if list.last().node_id@ == node_id {
            members_of(front, node_id).push(list.last())
        } else {
            members_of(front, node_id)
        };
        assert(members_of(list, node_id) == step);
        assert(members_of(front.push(m), node_id) == if m.node_id@ == node_id {
            members_of(front, node_id).push(m)
        } else {
            members_of(front, node_id)
        });
    }
}

proof fn lemma_insert_multiset<T>(s: Seq<T>, k: int, v: T)
    requires
        0 <= k <= s.len(),
    ensures
        s.insert(k, v).to_multiset() == s.to_multiset().insert(v),
        s.push(v).to_multiset() == s.to_multiset().insert(v),
{
    let t = s.insert(k, v);
    assert(t.remove(k) =~= s);
    t.to_multiset_ensures();
    s.to_multiset_ensures();
    assert(t[k] == v);
    assert(t.contains(v));
    assert(t.to_multiset() =~= t.to_multiset().remove(v).insert(v));
}

/// Put members in the order of their identifiers. Those of one identifier keep their order.
#[must_use]
pub fn sort_members(members: Vec<MemberInfo>) -> (r: Vec<MemberInfo>)
    ensures
        members_ordered(r@),
        r@.to_multiset() == members@.to_multiset(),
        forall|id: Seq<char>| #[trigger] members_of(r@, id) == members_of(members@, id),
{
    let ghost all = members@;
    let mut out: Vec<MemberInfo> = Vec::new();
    proof {
        assert(all.take(0) =~= Seq::empty());
    }
    for m in it: members
        invariant
            it.seq() == all,
            members_ordered(out@),
            out@.to_multiset() == all.take(it.index() as int).to_multiset(),
            forall|id: Seq<char>| #[trigger]
                members_of(out@, id) == members_of(all.take(it.index() as int), id),
    {
        let ghost n = it.index() as int;
        let ghost before = out@;
        let mut k: usize = out.len();
        while k > 0 && is_before(m.node_id.as_str(), out[k - 1].node_id.as_str())
            invariant
                k <= out.len(),
                out@ == before,
                forall|j: int|
                    k <= j < out.len() ==> text_before(
                        m.node_id@,
                        (#[trigger] out@[j]).node_id@,
                    ),
            decreases k,
        {
            k -= 1;
        }
        let ghost v = m;
        out.insert(k, m);
        proof {
            assert(all.take(n + 1) =~= all.take(n).push(v));
            assert(out@ == before.insert(k as int, v));
            lemma_insert_multiset(before, k as int, v);
            lemma_insert_multiset(all.take(n), n, v);
            assert forall|j: int| k <= j < before.len() implies (#[trigger] before[j]).node_id@
                != v.node_id@ by {
                lemma_text_order_self(v.node_id@);
            }
            assert forall|id: Seq<char>| #[trigger] members_of(out@, id) == members_of(
                all.take(n + 1),
                id,
            ) by {
                lemma_inserted_member(before, k as int, v, id);
                assert(before.push(v).drop_last() =~= before);
                assert(all.take(n).push(v).drop_last() =~= all.take(n));
                assert(members_of(before, id) == members_of(all.take(n), id));
            }
            assert forall|i: int, j: int| 0 <= i < j < out@.len() implies !text_before(
                (#[trigger] out@[j]).node_id@,
                (#[trigger] out@[i]).node_id@,
            ) by {
                let x = out@[i];
                let y = out@[j];
                if i < k && j < k {
                    assert(x == before[i] && y == before[j]);
                } else if i < k && j == k {
                    assert(x == before[i]);
                    if i < k - 1 {
                        assert(!text_before(before[k - 1].node_id@, before[i].node_id@));
                        law_text_order(v.node_id@, before[i].node_id@, before[k - 1].node_id@);
                        law_text_order(before[i].node_id@, before[k - 1].node_id@, before[i].node_id@);
                    }
                } else if i < k && j > k {
                    assert(x == before[i] && y == before[j - 1]);
                } else if i == k {
                    assert(y == before[j - 1]);
                    law_text_order(v.node_id@, y.node_id@, v.node_id@);
                } else {
                    assert(x == before[i - 1] && y == before[j - 1]);
                }
            }
        }
    }
    proof {
        assert(all.take(all.len() as int) =~= all);
    }
    out
}

} // verus!
