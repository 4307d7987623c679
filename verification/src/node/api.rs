//! Rules of the inbound REST API: which requests are valid, and what they change.

use crate::client::api::{blank, is_blank};
use crate::io::capped;
use crate::node::model::{
    Partner, PesitServerConfig, RemotePartner, ServerStatus, TransferRecord, TransferStatus,
    VirtualFile,
};
use crate::service::http::{between, ApiError, ApiErrorV};
use crate::service::select::{any, count, passing, select, selected, Criterion};
use crate::text::{dec, opt_text, push_decimal, same, to_upper, upper};
use vstd::prelude::*;
use vstd::string::StringExecFns;

verus! {

// ---- configuration entities ----

/// A configuration entity stored by id.
pub trait Entity: Sized {
    /// What the entity is called.
    spec fn spec_kind() -> Seq<char>;

    /// Identifier.
    spec fn spec_id(&self) -> Seq<char>;

    /// Creation time.
    spec fn spec_created(&self) -> Option<Seq<char>>;

    /// Update time.
    spec fn spec_updated(&self) -> Option<Seq<char>>;

    /// Whether two entities are the same but for their identifiers and times.
    spec fn alike(&self, other: &Self) -> bool;

    /// Likeness carries over.
    proof fn law_alike(a: &Self, b: &Self, c: &Self)
        ensures
            a.alike(b) && b.alike(c) ==> a.alike(c),
    ;

    /// What the entity is called.
    fn kind() -> (r: &'static str)
        ensures
            r@ == Self::spec_kind(),
    ;

    /// Identifier.
    fn id(&self) -> (r: &str)
        ensures
            r@ == self.spec_id(),
    ;

    /// Set the identifier.
    fn set_id(&mut self, id: &str)
        ensures
            final(self).spec_id() == id@,
            final(self).spec_created() == old(self).spec_created(),
            final(self).spec_updated() == old(self).spec_updated(),
            final(self).alike(&*old(self)),
    ;

    /// Note that the entity was written at a time. The creation time of one that was not created
    /// just now is kept.
    fn touch(&mut self, created: bool, now: &str)
        ensures
            final(self).spec_id() == old(self).spec_id(),
            final(self).spec_created() == (if created || old(self).spec_created() is None {
                Some(now@)
            } else {
                old(self).spec_created()
            }),
            final(self).spec_updated() == Some(now@),
            final(self).alike(&*old(self)),
    ;
}

impl Entity for Partner {
    open spec fn spec_kind() -> Seq<char> {
        "Partner"@
    }

    open spec fn spec_id(&self) -> Seq<char> {
        self.id@
    }

    open spec fn spec_created(&self) -> Option<Seq<char>> {
        opt_text(self.created_at)
    }

    open spec fn spec_updated(&self) -> Option<Seq<char>> {
        opt_text(self.updated_at)
    }

    open spec fn alike(&self, other: &Self) -> bool {
        *self == (Partner {
            id: self.id,
            created_at: self.created_at,
            updated_at: self.updated_at,
            ..*other
        })
    }

    proof fn law_alike(a: &Self, b: &Self, c: &Self) {
    }

    fn kind() -> (r: &'static str) {
        "Partner"
    }

    fn id(&self) -> (r: &str) {
        self.id.as_str()
    }

    fn set_id(&mut self, id: &str) {
        self.id = id.to_owned();
    }

    fn touch(&mut self, created: bool, now: &str) {
        if created || self.created_at.is_none() {
            self.created_at = Some(now.to_owned());
        }
        self.updated_at = Some(now.to_owned());
    }
}

impl Entity for VirtualFile {
    open spec fn spec_kind() -> Seq<char> {
        "Virtual file"@
    }

    open spec fn spec_id(&self) -> Seq<char> {
        self.id@
    }

    open spec fn spec_created(&self) -> Option<Seq<char>> {
        opt_text(self.created_at)
    }

    open spec fn spec_updated(&self) -> Option<Seq<char>> {
        opt_text(self.updated_at)
    }

    open spec fn alike(&self, other: &Self) -> bool {
        *self == (VirtualFile {
            id: self.id,
            created_at: self.created_at,
            updated_at: self.updated_at,
            ..*other
        })
    }

    proof fn law_alike(a: &Self, b: &Self, c: &Self) {
    }

    fn kind() -> (r: &'static str) {
        "Virtual file"
    }

    fn id(&self) -> (r: &str) {
        self.id.as_str()
    }

    fn set_id(&mut self, id: &str) {
        self.id = id.to_owned();
    }

    fn touch(&mut self, created: bool, now: &str) {
        if created || self.created_at.is_none() {
            self.created_at = Some(now.to_owned());
        }
        self.updated_at = Some(now.to_owned());
    }
}

impl Entity for RemotePartner {
    open spec fn spec_kind() -> Seq<char> {
        "Remote partner"@
    }

    open spec fn spec_id(&self) -> Seq<char> {
        self.id@
    }

    open spec fn spec_created(&self) -> Option<Seq<char>> {
        opt_text(self.created_at)
    }

    open spec fn spec_updated(&self) -> Option<Seq<char>> {
        opt_text(self.updated_at)
    }

    open spec fn alike(&self, other: &Self) -> bool {
        *self == (RemotePartner {
            id: self.id,
            created_at: self.created_at,
            updated_at: self.updated_at,
            ..*other
        })
    }

    proof fn law_alike(a: &Self, b: &Self, c: &Self) {
    }

    fn kind() -> (r: &'static str) {
        "Remote partner"
    }

    fn id(&self) -> (r: &str) {
        self.id.as_str()
    }

    fn set_id(&mut self, id: &str) {
        self.id = id.to_owned();
    }

    fn touch(&mut self, created: bool, now: &str) {
        if created || self.created_at.is_none() {
            self.created_at = Some(now.to_owned());
        }
        self.updated_at = Some(now.to_owned());
    }
}

/// Error of an entity that is not known.
pub open spec fn unknown_entity(kind: Seq<char>, id: Seq<char>) -> ApiErrorV {
    ApiErrorV::not_found(kind + " '"@ + id + "' not found"@)
}

/// Error of an entity that is not known.
#[must_use]
pub fn entity_not_found<T: Entity>(id: &str) -> (r: ApiError)
    ensures
        r@ == unknown_entity(T::spec_kind(), id@),
{
    let mut text = between(T::kind(), " '", id);
    text.append("' not found");
    ApiError::not_found(text)
}

/// Check an entity: it needs an identifier.
pub fn validate<T: Entity>(body: &T) -> (r: Result<(), ApiError>)
    ensures
        r is Ok <==> !blank(body.spec_id()),
        r is Err ==> r->Err_0@ == ApiErrorV::bad_request("id is required"@),
{
    if is_blank(body.id()) {
        return Err(ApiError::bad_request("id is required".to_owned()));
    }
    Ok(())
}

/// Create an entity; `taken` tells whether its identifier is in use.
pub fn create<T: Entity>(body: T, taken: bool, now: &str) -> (r: Result<T, ApiError>)
    ensures
        if blank(body.spec_id()) {
            r is Err && r->Err_0@ == ApiErrorV::bad_request("id is required"@)
        } else if taken {
            r is Err && r->Err_0@ == ApiErrorV::conflict(
                T::spec_kind() + " '"@ + body.spec_id() + "' already exists"@,
            )
        } else {
            &&& r is Ok
            &&& r->Ok_0.spec_id() == body.spec_id()
            &&& r->Ok_0.spec_created() == Some(now@)
            &&& r->Ok_0.spec_updated() == Some(now@)
            &&& r->Ok_0.alike(&body)
        },
{
    match validate(&body) {
        Ok(()) => {},
        Err(e) => {
            return Err(e);
        },
    }
    if taken {
        let mut text = between(T::kind(), " '", body.id());
        text.append("' already exists");
        return Err(ApiError::conflict(text));
    }
    let mut body = body;
    body.touch(true, now);
    Ok(body)
}

/// Update an entity under its identifier; `known` tells whether it exists.
pub fn update<T: Entity>(body: T, id: &str, known: bool, now: &str) -> (r: Result<T, ApiError>)
    ensures
        if !known {
            r is Err && r->Err_0@ == unknown_entity(T::spec_kind(), id@)
        } else if blank(id@) {
            r is Err && r->Err_0@ == ApiErrorV::bad_request("id is required"@)
        } else {
            &&& r is Ok
            &&& r->Ok_0.spec_id() == id@
            &&& r->Ok_0.spec_created() == (if body.spec_created() is None {
                Some(now@)
            } else {
                body.spec_created()
            })
            &&& r->Ok_0.spec_updated() == Some(now@)
            &&& r->Ok_0.alike(&body)
        },
{
    if !known {
        return Err(entity_not_found::<T>(id));
    }
    let ghost asked = body;
    let mut body = body;
    body.set_id(id);
    let ghost named = body;
    match validate(&body) {
        Ok(()) => {},
        Err(e) => {
            return Err(e);
        },
    }
    body.touch(false, now);
    proof {
        T::law_alike(&body, &named, &asked);
    }
    Ok(body)
}

// ---- listeners ----

/// Smallest entity size of a listener.
pub const MIN_ENTITY_SIZE: u16 = 64;

/// Largest acknowledgement window of a listener.
pub const MAX_SYNC_WINDOW: u8 = 16;

/// What is wrong with a listener, if anything is.
pub open spec fn listener_fault(cfg: PesitServerConfig) -> Option<Seq<char>> {
    if blank(cfg.server_id@) {
        Some("serverId is required"@)
    } else if cfg.port == 0 {
        Some("port is required"@)
    } else if cfg.max_entity_size < MIN_ENTITY_SIZE {
        Some("maxEntitySize must be at least 64"@)
    } else if cfg.sync_window > MAX_SYNC_WINDOW {
        Some("syncWindow must be between 0 and 16"@)
    } else {
        None
    }
}

/// Check a listener.
pub fn validate_server(cfg: &PesitServerConfig) -> (r: Result<(), ApiError>)
    ensures
        match listener_fault(*cfg) {
            None => r is Ok,
            Some(text) => r is Err && r->Err_0@ == ApiErrorV::bad_request(text),
        },
{
    if is_blank(cfg.server_id.as_str()) {
        return Err(ApiError::bad_request("serverId is required".to_owned()));
    }
    if cfg.port == 0 {
        return Err(ApiError::bad_request("port is required".to_owned()));
    }
    if cfg.max_entity_size < MIN_ENTITY_SIZE {
        return Err(ApiError::bad_request("maxEntitySize must be at least 64".to_owned()));
    }
    if cfg.sync_window > MAX_SYNC_WINDOW {
        return Err(ApiError::bad_request("syncWindow must be between 0 and 16".to_owned()));
    }
    Ok(())
}

/// Listeners on a port of an address.
#[derive(Debug)]
pub struct OnPort<'a> {
    /// Port.
    pub port: u16,
    /// Bind address.
    pub bind_address: &'a str,
}

impl<'a> Criterion<PesitServerConfig> for OnPort<'a> {
    open spec fn passes(&self, c: PesitServerConfig) -> bool {
        c.port == self.port && c.bind_address@ == self.bind_address@
    }

    fn test(&self, c: &PesitServerConfig) -> (r: bool) {
        c.port == self.port && same(c.bind_address.as_str(), self.bind_address)
    }
}

/// Whether a port of an address is in use.
pub open spec fn port_taken(others: Seq<PesitServerConfig>, port: u16, address: Seq<char>) -> bool {
    exists|i: int|
        0 <= i < others.len() && (#[trigger] others[i]).port == port && others[i].bind_address@
            == address
}

/// Create a listener: a valid one whose identifier (`taken`) and port are free.
pub fn create_server(
    cfg: PesitServerConfig,
    taken: bool,
    others: &Vec<PesitServerConfig>,
    number: u64,
    now: &str,
) -> (r: Result<PesitServerConfig, ApiError>)
    ensures
        match listener_fault(cfg) {
            Some(text) => r is Err && r->Err_0@ == ApiErrorV::bad_request(text),
            None => if taken {
                r is Err && r->Err_0@ == ApiErrorV::conflict(
                    "server '"@ + cfg.server_id@ + "' already exists"@,
                )
            } else if port_taken(others@, cfg.port, cfg.bind_address@) {
                r is Err && r->Err_0@ == ApiErrorV::conflict(
                    "port "@ + dec(cfg.port as nat) + " is already used by another server"@,
                )
            } else {
                &&& r is Ok
                &&& r->Ok_0 == (PesitServerConfig {
                    id: Some(number),
                    created_at: r->Ok_0.created_at,
                    updated_at: r->Ok_0.updated_at,
                    status: ServerStatus::Stopped,
                    ..cfg
                })
                &&& opt_text(r->Ok_0.created_at) == Some(now@)
                &&& opt_text(r->Ok_0.updated_at) == Some(now@)
            },
        },
{
    match validate_server(&cfg) {
        Ok(()) => {},
        Err(e) => {
            return Err(e);
        },
    }
    if taken {
        return Err(
            ApiError::conflict(between("server '", cfg.server_id.as_str(), "' already exists")),
        );
    }
    let clash = {
        let c = OnPort { port: cfg.port, bind_address: cfg.bind_address.as_str() };
        any(&c, others)
    };
    if clash {
        let mut text = "port ".to_owned();
        push_decimal(&mut text, cfg.port as u64);
        text.append(" is already used by another server");
        return Err(ApiError::conflict(text));
    }
    let mut cfg = cfg;
    cfg.id = Some(number);
    cfg.created_at = Some(now.to_owned());
    cfg.updated_at = Some(now.to_owned());
    cfg.status = ServerStatus::Stopped;
    Ok(cfg)
}

/// Update a listener: it keeps its identifiers, its times and its status.
pub fn update_server(
    existing: PesitServerConfig,
    cfg: PesitServerConfig,
    id: String,
    now: String,
) -> (r: Result<PesitServerConfig, ApiError>)
    ensures
        match listener_fault(PesitServerConfig { server_id: id, ..cfg }) {
            Some(text) => r is Err && r->Err_0@ == ApiErrorV::bad_request(text),
            None => r == Ok::<PesitServerConfig, ApiError>(
                PesitServerConfig {
                    server_id: id,
                    id: existing.id,
                    created_at: existing.created_at,
                    last_started_at: existing.last_started_at,
                    last_stopped_at: existing.last_stopped_at,
                    status: existing.status,
                    updated_at: Some(now),
                    ..cfg
                },
            ),
        },
{
    let mut cfg = cfg;
    cfg.server_id = id;
    match validate_server(&cfg) {
        Ok(()) => {},
        Err(e) => {
            return Err(e);
        },
    }
    cfg.id = existing.id;
    cfg.created_at = existing.created_at;
    cfg.last_started_at = existing.last_started_at;
    cfg.last_stopped_at = existing.last_stopped_at;
    cfg.status = existing.status;
    cfg.updated_at = Some(now);
    Ok(cfg)
}

/// Error of a listener that is not known.
#[must_use]
pub fn unknown_server(id: &str) -> (r: ApiError)
    ensures
        r@ == ApiErrorV::not_found("server '"@ + id@ + "' not found"@),
{
    ApiError::not_found(between("server '", id, "' not found"))
}

// ---- transfers ----

/// Transfer list filters.
#[derive(Debug, PartialEq, Eq)]
pub struct TransferQuery {
    /// Maximum number of records (newest first).
    pub limit: Option<usize>,
    /// Direction filter.
    pub direction: Option<String>,
    /// Status filter.
    pub status: Option<String>,
    /// Partner filter.
    pub partner_id: Option<String>,
    /// Listener filter.
    pub server_id: Option<String>,
}

impl Default for TransferQuery {
    fn default() -> (r: Self)
        ensures
            r.limit is None && r.direction is None && r.status is None,
            r.partner_id is None && r.server_id is None,
    {
        TransferQuery { limit: None, direction: None, status: None, partner_id: None, server_id: None }
    }
}

/// Records that a query asks for; direction and status are compared in upper case.
#[derive(Debug)]
pub struct QueriedTransfers<'a> {
    /// The filters.
    pub query: &'a TransferQuery,
}

fn text_wanted(wanted: &Option<String>, have: &Option<String>) -> (r: bool)
    ensures
        r == (*wanted matches Some(w) ==> opt_text(*have) == Some(w@)),
{
    match wanted {
        Some(w) => match have {
            Some(h) => same(h.as_str(), w.as_str()),
            None => false,
        },
        None => true,
    }
}

impl<'a> Criterion<TransferRecord> for QueriedTransfers<'a> {
    open spec fn passes(&self, t: TransferRecord) -> bool {
        &&& self.query.direction matches Some(d) ==> t.direction is Some
            && t.direction->0.spec_name() == upper(d@)
        &&& self.query.status matches Some(s) ==> t.status.spec_name() == upper(s@)
        &&& self.query.partner_id matches Some(p) ==> opt_text(t.partner_id) == Some(p@)
        &&& self.query.server_id matches Some(s) ==> opt_text(t.server_id) == Some(s@)
    }

    fn test(&self, t: &TransferRecord) -> (r: bool) {
        match &self.query.direction {
            Some(d) => {
                let wanted = to_upper(d.as_str());
                match t.direction {
                    Some(x) => {
                        if !same(x.name(), wanted.as_str()) {
                            return false;
                        }
                    },
                    None => {
                        return false;
                    },
                }
            },
            None => {},
        }
        match &self.query.status {
            Some(s) => {
                let wanted = to_upper(s.as_str());
                if !same(t.status.name(), wanted.as_str()) {
                    return false;
                }
            },
            None => {},
        }
        text_wanted(&self.query.partner_id, &t.partner_id) && text_wanted(
            &self.query.server_id,
            &t.server_id,
        )
    }
}

/// Records listed where the query does not say how many.
pub const DEFAULT_LISTED: usize = 100;

/// The records that a query asks for, of a list with the newest first.
#[must_use]
pub fn filter_transfers(records: Vec<TransferRecord>, q: &TransferQuery) -> (r: Vec<TransferRecord>)
    ensures
        r@ == selected(
            QueriedTransfers { query: q },
            records@,
            (match q.limit {
                Some(n) => n,
                None => DEFAULT_LISTED,
            }) as nat,
        ),
{
    let c = QueriedTransfers { query: q };
    select(&c, records, q.limit.unwrap_or(DEFAULT_LISTED))
}

/// Transfers under way.
#[derive(Debug)]
pub struct ActiveTransfers {}

impl Criterion<TransferRecord> for ActiveTransfers {
    open spec fn passes(&self, t: TransferRecord) -> bool {
        t.status == TransferStatus::Initiated || t.status == TransferStatus::InProgress || t.status
            == TransferStatus::Paused
    }

    fn test(&self, t: &TransferRecord) -> (r: bool) {
        t.status == TransferStatus::Initiated || t.status == TransferStatus::InProgress || t.status
            == TransferStatus::Paused
    }
}

/// The transfers under way.
#[must_use]
pub fn active_transfers(records: Vec<TransferRecord>) -> (r: Vec<TransferRecord>)
    ensures
        r@ == selected(ActiveTransfers {  }, records@, usize::MAX as nat),
{
    let c = ActiveTransfers {  };
    select(&c, records, usize::MAX)
}

/// Records of a status.
#[derive(Debug)]
pub struct OfStatus {
    /// The status.
    pub status: TransferStatus,
}

impl Criterion<TransferRecord> for OfStatus {
    open spec fn passes(&self, t: TransferRecord) -> bool {
        t.status == self.status
    }

    fn test(&self, t: &TransferRecord) -> (r: bool) {
        t.status == self.status
    }
}

/// Number of records of a status.
pub open spec fn of_status(records: Seq<TransferRecord>, status: TransferStatus) -> nat {
    passing(OfStatus { status }, records).len()
}

fn count_status(records: &Vec<TransferRecord>, status: TransferStatus) -> (r: usize)
    ensures
        r == of_status(records@, status),
{
    let c = OfStatus { status };
    count(&c, records)
}

/// Bytes of the completed transfers, up to the largest machine number.
pub open spec fn completed_bytes(records: Seq<TransferRecord>) -> u64
    decreases records.len(),
{
    if records.len() == 0 {
        0
    } else {
        let rest = completed_bytes(records.drop_last());
        if records.last().status == TransferStatus::Completed {
            capped(rest, records.last().bytes_transferred as nat)
        } else {
            rest
        }
    }
}

/// Counts of transfers.
#[derive(Debug, Clone, Copy, PartialEq, Eq, Structural)]
pub struct RecordStats {
    /// All.
    pub total: usize,
    /// Completed.
    pub completed: usize,
    /// Failed.
    pub failed: usize,
    /// Initiated or in progress.
    pub in_progress: usize,
    /// Interrupted.
    pub interrupted: usize,
    /// Cancelled.
    pub cancelled: usize,
    /// Bytes of the completed transfers.
    pub bytes_transferred: u64,
}

/// Every record is in one status.
pub proof fn law_statuses_add_up(records: Seq<TransferRecord>)
    ensures
        of_status(records, TransferStatus::Initiated) + of_status(
            records,
            TransferStatus::InProgress,
        ) + of_status(records, TransferStatus::Paused) + of_status(
            records,
            TransferStatus::Interrupted,
        ) + of_status(records, TransferStatus::Completed) + of_status(
            records,
            TransferStatus::Failed,
        ) + of_status(records, TransferStatus::Cancelled) == records.len(),
    decreases records.len(),
{
    if records.len() > 0 {
        law_statuses_add_up(records.drop_last());
    }
}

/// Count transfers.
#[must_use]
pub fn transfer_stats(records: &Vec<TransferRecord>) -> (r: RecordStats)
    ensures
        r.total == records.len(),
        r.completed == of_status(records@, TransferStatus::Completed),
        r.failed == of_status(records@, TransferStatus::Failed),
        r.in_progress == of_status(records@, TransferStatus::InProgress) + of_status(
            records@,
            TransferStatus::Initiated,
        ),
        r.interrupted == of_status(records@, TransferStatus::Interrupted),
        r.cancelled == of_status(records@, TransferStatus::Cancelled),
        r.bytes_transferred == completed_bytes(records@),
{
    proof {
        law_statuses_add_up(records@);
    }
    let mut bytes: u64 = 0;
    let mut i: usize = 0;
    proof {
        assert(records@.take(0) =~= Seq::empty());
    }
    while i < records.len()
        invariant
            i <= records.len(),
            bytes == completed_bytes(records@.take(i as int)),
        decreases records.len() - i,
    {
        proof {
            assert(records@.take(i + 1).drop_last() =~= records@.take(i as int));
            assert(records@.take(i + 1).last() == records@[i as int]);
        }
        if records[i].status == TransferStatus::Completed {
            bytes = bytes.saturating_add(records[i].bytes_transferred);
        }
        i += 1;
    }
    proof {
        assert(records@.take(i as int) =~= records@);
    }
    RecordStats {
        total: records.len(),
        completed: count_status(records, TransferStatus::Completed),
        failed: count_status(records, TransferStatus::Failed),
        in_progress: count_status(records, TransferStatus::InProgress) + count_status(
            records,
            TransferStatus::Initiated,
        ),
        interrupted: count_status(records, TransferStatus::Interrupted),
        cancelled: count_status(records, TransferStatus::Cancelled),
        bytes_transferred: bytes,
    }
}

/// Error of the cancellation of a transfer that is not under way; `status` names its status.
#[must_use]
pub fn not_in_progress(id: &str, status: &str) -> (r: ApiError)
    ensures
        r@ == ApiErrorV::conflict(
            "transfer '"@ + id@ + "' is not in progress (status "@ + status@ + ")"@,
        ),
{
    let mut text = between("transfer '", id, "' is not in progress (status ");
    text.append(status);
    text.append(")");
    ApiError::conflict(text)
}

} // verus!
