//! Rules of the outbound REST API: which requests are valid, and what they change.

use crate::client::model::{Partner, PesitServer, TransferHistory, TransferStatus};
use crate::service::http::{between, ApiError, ApiErrorV};
use crate::service::select::{any, count, find, first_passing, passing, select, selected, Criterion};
use crate::text::{opt_text, same, starts_with, to_upper, trim, trimmed, upper};
use vstd::prelude::*;

verus! {

// ---- servers ----

/// Whether a text is blank.
pub open spec fn blank(t: Seq<char>) -> bool {
    trimmed(t).len() == 0
}

/// Whether a text is blank.
pub fn is_blank(t: &str) -> (r: bool)
    ensures
        r == blank(t@),
{
    let x = trim(t);
    x.as_str().is_empty()
}

/// What is wrong with a server, if anything is.
pub open spec fn server_fault(s: PesitServer) -> Option<Seq<char>> {
    if blank(s.name@) {
        Some("name is required"@)
    } else if blank(s.host@) {
        Some("host is required"@)
    } else if s.port == 0 {
        Some("port is required"@)
    } else {
        None
    }
}

/// Check a server.
pub fn validate_server(s: &PesitServer) -> (r: Result<(), ApiError>)
    ensures
        match server_fault(*s) {
            None => r is Ok,
            Some(text) => r is Err && r->Err_0@ == ApiErrorV::bad_request(text),
        },
{
    if is_blank(s.name.as_str()) {
        return Err(ApiError::bad_request("name is required".to_owned()));
    }
    if is_blank(s.host.as_str()) {
        return Err(ApiError::bad_request("host is required".to_owned()));
    }
    if s.port == 0 {
        return Err(ApiError::bad_request("port is required".to_owned()));
    }
    Ok(())
}

/// A server whose TLS flags tell what is configured.
pub open spec fn with_tls_flags(s: PesitServer) -> PesitServer {
    PesitServer {
        truststore_configured: s.ca_file is Some,
        keystore_configured: s.cert_file is Some && s.key_file is Some,
        ..s
    }
}

/// Bring the TLS flags of a server up to date.
pub fn refresh_tls_flags(s: &mut PesitServer)
    ensures
        *final(s) == with_tls_flags(*old(s)),
{
    s.truststore_configured = s.ca_file.is_some();
    s.keystore_configured = s.cert_file.is_some() && s.key_file.is_some();
}

/// Servers of a name.
#[derive(Debug)]
pub struct OfName<'a> {
    /// The name.
    pub name: &'a str,
}

impl<'a> Criterion<PesitServer> for OfName<'a> {
    open spec fn passes(&self, s: PesitServer) -> bool {
        s.name@ == self.name@
    }

    fn test(&self, s: &PesitServer) -> (r: bool) {
        same(s.name.as_str(), self.name)
    }
}

/// Servers that are enabled.
#[derive(Debug)]
pub struct EnabledServers {}

impl Criterion<PesitServer> for EnabledServers {
    open spec fn passes(&self, s: PesitServer) -> bool {
        s.enabled
    }

    fn test(&self, s: &PesitServer) -> (r: bool) {
        s.enabled
    }
}

/// The servers that are enabled.
#[must_use]
pub fn enabled_servers(all: Vec<PesitServer>) -> (r: Vec<PesitServer>)
    ensures
        r@ == selected(EnabledServers {  }, all@, usize::MAX as nat),
{
    let c = EnabledServers {  };
    select(&c, all, usize::MAX)
}

/// Find a server by its name, where none has that identifier.
pub fn find_server<'a>(all: &'a Vec<PesitServer>, name: &str) -> (r: Result<&'a PesitServer, ApiError>)
    ensures
        match first_passing(OfName { name }, all@) {
            Some(i) => 0 <= i < all.len() && r == Ok::<&PesitServer, ApiError>(&all@[i]),
            None => r is Err && r->Err_0@ == ApiErrorV::not_found(
                "server '"@ + name@ + "' not found"@,
            ),
        },
{
    let c = OfName { name };
    match find(&c, all) {
        Some(s) => Ok(s),
        None => Err(ApiError::not_found(between("server '", name, "' not found"))),
    }
}

/// Whether a name is taken.
pub open spec fn name_taken(all: Seq<PesitServer>, name: Seq<char>) -> bool {
    exists|i: int| 0 <= i < all.len() && (#[trigger] all[i]).name@ == name
}

/// Create a server: a valid one whose name is free.
pub fn create_server(all: &Vec<PesitServer>, s: PesitServer, id: String, now: &str) -> (r: Result<
    PesitServer,
    ApiError,
>)
    ensures
        match server_fault(s) {
            Some(text) => r is Err && r->Err_0@ == ApiErrorV::bad_request(text),
            None => if name_taken(all@, s.name@) {
                r is Err && r->Err_0@ == ApiErrorV::conflict(
                    "server '"@ + s.name@ + "' already exists"@,
                )
            } else {
                &&& r is Ok
                &&& r->Ok_0 == with_tls_flags(
                    PesitServer {
                        id,
                        created_at: r->Ok_0.created_at,
                        updated_at: r->Ok_0.updated_at,
                        ..s
                    },
                )
                &&& opt_text(r->Ok_0.created_at) == Some(now@)
                &&& opt_text(r->Ok_0.updated_at) == Some(now@)
            },
        },
{
    match validate_server(&s) {
        Ok(()) => {},
        Err(e) => {
            return Err(e);
        },
    }
    let taken = {
        let c = OfName { name: s.name.as_str() };
        any(&c, all)
    };
    if taken {
        return Err(
            ApiError::conflict(between("server '", s.name.as_str(), "' already exists")),
        );
    }
    let mut s = s;
    s.id = id;
    s.created_at = Some(now.to_owned());
    s.updated_at = Some(now.to_owned());
    refresh_tls_flags(&mut s);
    Ok(s)
}

/// Update a server: it keeps its identifier and its creation time, and the certificates that the
/// update does not name.
pub fn update_server(existing: PesitServer, s: PesitServer, now: String) -> (r: Result<
    PesitServer,
    ApiError,
>)
    ensures
        match server_fault(s) {
            Some(text) => r is Err && r->Err_0@ == ApiErrorV::bad_request(text),
            None => r == Ok::<PesitServer, ApiError>(
                with_tls_flags(
                    PesitServer {
                        id: existing.id,
                        created_at: existing.created_at,
                        updated_at: Some(now),
                        ca_file: if s.ca_file is None {
                            existing.ca_file
                        } else {
                            s.ca_file
                        },
                        cert_file: if s.cert_file is None {
                            existing.cert_file
                        } else {
                            s.cert_file
                        },
                        key_file: if s.cert_file is None {
                            existing.key_file
                        } else {
                            s.key_file
                        },
                        ..s
                    },
                ),
            ),
        },
{
    match validate_server(&s) {
        Ok(()) => {},
        Err(e) => {
            return Err(e);
        },
    }
    let mut s = s;
    s.id = existing.id;
    s.created_at = existing.created_at;
    s.updated_at = Some(now);
    if s.ca_file.is_none() {
        s.ca_file = existing.ca_file;
    }
    if s.cert_file.is_none() {
        s.cert_file = existing.cert_file;
        s.key_file = existing.key_file;
    }
    refresh_tls_flags(&mut s);
    Ok(s)
}

/// Whether a list of servers is another one in which exactly the servers of an identifier are
/// the default, and the ones that changed carry the time.
pub open spec fn default_moved(
    old_list: Seq<PesitServer>,
    new_list: Seq<PesitServer>,
    target_id: Seq<char>,
    now: Seq<char>,
) -> bool {
    &&& old_list.len() == new_list.len()
    &&& forall|i: int|
        0 <= i < old_list.len() ==> default_moved_at(old_list[i], #[trigger] new_list[i], target_id, now)
}

/// One server of [`default_moved`].
pub open spec fn default_moved_at(
    a: PesitServer,
    b: PesitServer,
    target_id: Seq<char>,
    now: Seq<char>,
) -> bool {
    let is_target = a.id@ == target_id;
    &&& b == (PesitServer { default_server: is_target, updated_at: b.updated_at, ..a })
    &&& a.default_server == is_target ==> b.updated_at == a.updated_at
    &&& a.default_server != is_target ==> opt_text(b.updated_at) == Some(now)
}

/// Make the server of an identifier the default one. Gives back the positions of the servers that
/// changed.
pub fn set_default(all: &mut Vec<PesitServer>, target_id: &str, now: &str) -> (r: Vec<usize>)
    ensures
        default_moved(old(all)@, final(all)@, target_id@, now@),
        forall|i: int|
            0 <= i < old(all).len() ==> (r@.contains(i as usize) <==> (
            #[trigger] old(all)@[i]).default_server != (old(all)@[i].id@ == target_id@)),
        forall|k: int| 0 <= k < r.len() ==> (#[trigger] r@[k]) < old(all).len(),
        forall|k: int, l: int| 0 <= k < l < r.len() ==> (#[trigger] r@[k]) < (#[trigger] r@[l]),
{
    let ghost before = all@;
    let mut changed: Vec<usize> = Vec::new();
    let mut i: usize = 0;
    while i < all.len()
        invariant
            i <= all.len(),
            all.len() == before.len(),
            before == old(all)@,
            forall|j: int|
                0 <= j < i ==> default_moved_at(before[j], #[trigger] all@[j], target_id@, now@),
            forall|j: int| i <= j < all.len() ==> before[j] == #[trigger] all@[j],
            forall|j: int|
                0 <= j < i ==> (changed@.contains(j as usize) <==> (
                #[trigger] before[j]).default_server != (before[j].id@ == target_id@)),
            forall|k: int| 0 <= k < changed.len() ==> (#[trigger] changed@[k]) < i,
            forall|k: int, l: int|
                0 <= k < l < changed.len() ==> (#[trigger] changed@[k]) < (#[trigger] changed@[l]),
        decreases all.len() - i,
    {
        let is_target = same(all[i].id.as_str(), target_id);
        let ghost list = changed@;
        if all[i].default_server != is_target {
            let stamp = Some(now.to_owned());
            let o = &mut all[i];
            o.default_server = is_target;
            o.updated_at = stamp;
            changed.push(i);
            proof {
                assert(changed@[list.len() as int] == i);
            }
        }
        proof {
            assert forall|j: int| 0 <= j < i + 1 implies (changed@.contains(j as usize) <==> (
            #[trigger] before[j]).default_server != (before[j].id@ == target_id@)) by {
                if j < i {
                    if list.contains(j as usize) {
                        let k = choose|k: int| 0 <= k < list.len() && list[k] == j as usize;
                        assert(changed@[k] == j as usize);
                    }
                    if changed@.contains(j as usize) {
                        let k = choose|k: int| 0 <= k < changed.len() && changed@[k] == j as usize;
                        assert(k < list.len());
                        assert(list[k] == j as usize);
                    }
                } else {
                    if changed@.contains(i) {
                        let k = choose|k: int| 0 <= k < changed.len() && changed@[k] == i;
                        assert(changed@.len() > list.len() || list[k] < i);
                    }
                }
            }
        }
        i += 1;
    }
    changed
}

/// A new default server takes the place of the others: the ones that were it change.
pub fn clear_default(s: &mut PesitServer) -> (r: bool)
    ensures
        r == old(s).default_server,
        *final(s) == (PesitServer { default_server: false, ..*old(s) }),
{
    let was = s.default_server;
    s.default_server = false;
    was
}

// ---- certificates ----

/// Number of places at which a byte string occurs, overlaps included.
pub open spec fn occurrences(data: Seq<u8>, word: Seq<u8>) -> nat
    decreases data.len(),
{
    if data.len() == 0 {
        if word.len() == 0 {
            1
        } else {
            0
        }
    } else {
        let rest = occurrences(data.skip(1), word);
        if word.is_prefix_of(data) {
            rest + 1
        } else {
            rest
        }
    }
}

fn count_word(data: &[u8], word: &[u8]) -> (r: usize)
    requires
        word.len() > 0,
    ensures
        r == occurrences(data@, word@),
        r <= data.len(),
{
    let mut i: usize = data.len();
    let mut n: usize = 0;
    proof {
        assert(data@.skip(i as int) =~= Seq::<u8>::empty());
    }
    while i > 0
        invariant
            i <= data.len(),
            word.len() > 0,
            n == occurrences(data@.skip(i as int), word@),
            n <= data.len() - i,
        decreases i,
    {
        i -= 1;
        let rest = vstd::slice::slice_subrange(data, i, data.len());
        proof {
            assert(rest@ =~= data@.skip(i as int));
            assert(data@.skip(i as int).skip(1) =~= data@.skip(i + 1));
        }
        if starts_with(rest, word) {
            n += 1;
        }
    }
    proof {
        assert(data@.skip(0) =~= data@);
    }
    n
}

/// `-----BEGIN `.
pub open spec fn pem_begin() -> Seq<u8> {
    seq![0x2d, 0x2d, 0x2d, 0x2d, 0x2d, 0x42, 0x45, 0x47, 0x49, 0x4e, 0x20]
}

/// `-----BEGIN CERTIFICATE-----`.
pub open spec fn pem_certificate() -> Seq<u8> {
    pem_begin() + seq![
        0x43,
        0x45,
        0x52,
        0x54,
        0x49,
        0x46,
        0x49,
        0x43,
        0x41,
        0x54,
        0x45,
        0x2d,
        0x2d,
        0x2d,
        0x2d,
        0x2d,
    ]
}

/// Whether a file holds PEM data.
#[must_use]
pub fn is_pem(data: &[u8]) -> (r: bool)
    ensures
        r == (occurrences(data@, pem_begin()) > 0),
{
    let word: [u8; 11] = [0x2d, 0x2d, 0x2d, 0x2d, 0x2d, 0x42, 0x45, 0x47, 0x49, 0x4e, 0x20];
    proof {
        assert(word@ =~= pem_begin());
    }
    count_word(data, word.as_slice()) > 0
}

/// Number of certificates in a PEM file.
#[must_use]
pub fn rustls_pem_count(data: &[u8]) -> (r: usize)
    ensures
        r == occurrences(data@, pem_certificate()),
{
    let word: [u8; 27] = [
        0x2d,
        0x2d,
        0x2d,
        0x2d,
        0x2d,
        0x42,
        0x45,
        0x47,
        0x49,
        0x4e,
        0x20,
        0x43,
        0x45,
        0x52,
        0x54,
        0x49,
        0x46,
        0x49,
        0x43,
        0x41,
        0x54,
        0x45,
        0x2d,
        0x2d,
        0x2d,
        0x2d,
        0x2d,
    ];
    proof {
        assert(word@ =~= pem_certificate());
    }
    count_word(data, word.as_slice())
}

/// Check an uploaded truststore: the number of its certificates, or why it is refused.
pub fn check_truststore(data: &[u8], name: &str) -> (r: Result<usize, String>)
    ensures
        if occurrences(data@, pem_begin()) == 0 {
            r is Err && r->Err_0@ == "'"@ + name@
                + "' is not a PEM file: PKCS#12 truststores are not supported, upload the CA certificate(s) in PEM format"@
        } else if occurrences(data@, pem_certificate()) == 0 {
            r is Err && r->Err_0@ == "no certificate found in the uploaded file"@
        } else {
            r is Ok && r->Ok_0 == occurrences(data@, pem_certificate())
        },
{
    if !is_pem(data) {
        return Err(
            between(
                "'",
                name,
                "' is not a PEM file: PKCS#12 truststores are not supported, upload the CA certificate(s) in PEM format",
            ),
        );
    }
    let n: usize = rustls_pem_count(data);
    if n == 0 {
        return Err("no certificate found in the uploaded file".to_owned());
    }
    Ok(n)
}

/// Check an uploaded keystore: why it is refused, if it is.
pub fn check_keystore(data: &[u8], name: &str) -> (r: Result<(), String>)
    ensures
        r is Ok <==> occurrences(data@, pem_begin()) > 0,
        r is Err ==> r->Err_0@ == "'"@ + name@
            + "' is not a PEM file: upload a PEM bundle containing the client certificate and its private key"@,
{
    if !is_pem(data) {
        return Err(
            between(
                "'",
                name,
                "' is not a PEM file: upload a PEM bundle containing the client certificate and its private key",
            ),
        );
    }
    Ok(())
}

/// Note that a truststore was stored: TLS is switched on.
pub fn install_truststore(s: &mut PesitServer, path: String, now: String)
    ensures
        *final(s) == with_tls_flags(
            PesitServer {
                ca_file: Some(path),
                tls_enabled: true,
                updated_at: Some(now),
                ..*old(s)
            },
        ),
{
    s.ca_file = Some(path);
    s.tls_enabled = true;
    refresh_tls_flags(s);
    s.updated_at = Some(now);
}

/// Note that a keystore was stored: one file holds the certificate and its key.
pub fn install_keystore(s: &mut PesitServer, path: &str, now: String)
    ensures
        *final(s) == with_tls_flags(
            PesitServer {
                cert_file: final(s).cert_file,
                key_file: final(s).key_file,
                updated_at: Some(now),
                ..*old(s)
            },
        ),
        opt_text(final(s).cert_file) == Some(path@),
        opt_text(final(s).key_file) == Some(path@),
{
    s.cert_file = Some(path.to_owned());
    s.key_file = Some(path.to_owned());
    refresh_tls_flags(s);
    s.updated_at = Some(now);
}

/// Note that the truststore was removed. Gives its path back, if there was one.
pub fn remove_truststore(s: &mut PesitServer) -> (r: Option<String>)
    ensures
        r == old(s).ca_file,
        *final(s) == with_tls_flags(PesitServer { ca_file: None, ..*old(s) }),
{
    let mut path: Option<String> = None;
    core::mem::swap(&mut s.ca_file, &mut path);
    refresh_tls_flags(s);
    path
}

// ---- partners ----

/// Whether a partner identifier is taken.
pub open spec fn partner_taken(all: Seq<Partner>, partner_id: Seq<char>) -> bool {
    exists|i: int| 0 <= i < all.len() && (#[trigger] all[i]).partner_id@ == partner_id
}

/// Create a partner: one with an identifier that is free.
pub fn create_partner(all: &Vec<Partner>, p: Partner, id: String, now: &str) -> (r: Result<
    Partner,
    ApiError,
>)
    ensures
        if blank(p.partner_id@) {
            r is Err && r->Err_0@ == ApiErrorV::bad_request("partnerId is required"@)
        } else if partner_taken(all@, p.partner_id@) {
            r is Err && r->Err_0@ == ApiErrorV::conflict(
                "partner '"@ + p.partner_id@ + "' already exists"@,
            )
        } else {
            &&& r is Ok
            &&& r->Ok_0 == (Partner {
                id,
                created_at: r->Ok_0.created_at,
                updated_at: r->Ok_0.updated_at,
                ..p
            })
            &&& opt_text(r->Ok_0.created_at) == Some(now@)
            &&& opt_text(r->Ok_0.updated_at) == Some(now@)
        },
{
    if is_blank(p.partner_id.as_str()) {
        return Err(ApiError::bad_request("partnerId is required".to_owned()));
    }
    let taken = {
        let c = crate::client::engine::OfPartner { partner_id: p.partner_id.as_str() };
        any(&c, all)
    };
    if taken {
        return Err(
            ApiError::conflict(between("partner '", p.partner_id.as_str(), "' already exists")),
        );
    }
    let mut p = p;
    p.id = id;
    p.created_at = Some(now.to_owned());
    p.updated_at = Some(now.to_owned());
    Ok(p)
}

/// Update a partner: it keeps its identifier and its creation time.
#[must_use]
pub fn update_partner(existing: Partner, p: Partner, now: String) -> (r: Partner)
    ensures
        r == (Partner {
            id: existing.id,
            created_at: existing.created_at,
            updated_at: Some(now),
            ..p
        }),
{
    let mut p = p;
    p.id = existing.id;
    p.created_at = existing.created_at;
    p.updated_at = Some(now);
    p
}

// ---- transfers ----

/// List filters.
#[derive(Debug, PartialEq, Eq)]
pub struct ListQuery {
    /// Maximum records (newest first).
    pub limit: Option<usize>,
    /// Status filter.
    pub status: Option<String>,
    /// Direction filter.
    pub direction: Option<String>,
}

impl Default for ListQuery {
    fn default() -> (r: Self)
        ensures
            r.limit is None && r.status is None && r.direction is None,
    {
        ListQuery { limit: None, status: None, direction: None }
    }
}

/// Transfers of a status and a direction; names are compared in upper case.
#[derive(Debug)]
pub struct ListedTransfers<'a> {
    /// The filters.
    pub query: &'a ListQuery,
}

impl<'a> Criterion<TransferHistory> for ListedTransfers<'a> {
    open spec fn passes(&self, h: TransferHistory) -> bool {
        &&& self.query.status matches Some(s) ==> h.status.spec_name() == upper(s@)
        &&& self.query.direction matches Some(d) ==> h.direction is Some
            && h.direction->0.spec_name() == upper(d@)
    }

    fn test(&self, h: &TransferHistory) -> (r: bool) {
        match &self.query.status {
            Some(s) => {
                let wanted = to_upper(s.as_str());
                if !same(h.status.name(), wanted.as_str()) {
                    return false;
                }
            },
            None => {},
        }
        match &self.query.direction {
            Some(d) => {
                let wanted = to_upper(d.as_str());
                match h.direction {
                    Some(x) => same(x.name(), wanted.as_str()),
                    None => false,
                }
            },
            None => true,
        }
    }
}

/// Records listed where the query does not say how many.
pub const DEFAULT_LISTED: usize = 100;

/// The transfers that a query asks for, of a list with the newest first.
#[must_use]
pub fn list_transfers(all: Vec<TransferHistory>, query: &ListQuery) -> (r: Vec<TransferHistory>)
    ensures
        r@ == selected(
            ListedTransfers { query },
            all@,
            (match query.limit {
                Some(n) => n,
                None => DEFAULT_LISTED,
            }) as nat,
        ),
{
    let c = ListedTransfers { query };
    select(&c, all, query.limit.unwrap_or(DEFAULT_LISTED))
}

/// Transfers of a correlation identifier.
#[derive(Debug)]
pub struct Correlated<'a> {
    /// Correlation identifier.
    pub id: &'a str,
}

impl<'a> Criterion<TransferHistory> for Correlated<'a> {
    open spec fn passes(&self, h: TransferHistory) -> bool {
        opt_text(h.correlation_id) == Some(self.id@)
    }

    fn test(&self, h: &TransferHistory) -> (r: bool) {
        match &h.correlation_id {
            Some(c) => same(c.as_str(), self.id),
            None => false,
        }
    }
}

/// The transfers of a correlation identifier; there has to be one.
pub fn by_correlation(all: Vec<TransferHistory>, id: &str) -> (r: Result<
    Vec<TransferHistory>,
    ApiError,
>)
    ensures
        ({
            let found = selected(Correlated { id }, all@, usize::MAX as nat);
            if found.len() == 0 {
                r is Err && r->Err_0@ == ApiErrorV::not_found(
                    "no transfer with correlation id '"@ + id@ + "'"@,
                )
            } else {
                r is Ok && r->Ok_0@ == found
            }
        }),
{
    let c = Correlated { id };
    let found = select(&c, all, usize::MAX);
    if found.len() == 0 {
        return Err(
            ApiError::not_found(between("no transfer with correlation id '", id, "'")),
        );
    }
    Ok(found)
}

/// Transfers that may be resumed: stopped behind a synchronisation point.
#[derive(Debug)]
pub struct Resumable {}

impl Criterion<TransferHistory> for Resumable {
    open spec fn passes(&self, h: TransferHistory) -> bool {
        h.last_sync_point > 0 && h.status.is_resumable()
    }

    fn test(&self, h: &TransferHistory) -> (r: bool) {
        h.last_sync_point > 0 && h.status.is_resumable()
    }
}

/// The transfers that may be resumed.
#[must_use]
pub fn resumable(all: Vec<TransferHistory>) -> (r: Vec<TransferHistory>)
    ensures
        r@ == selected(Resumable {  }, all@, usize::MAX as nat),
{
    let c = Resumable {  };
    select(&c, all, usize::MAX)
}

/// Transfers of a status.
#[derive(Debug)]
pub struct InStatus {
    /// The status.
    pub status: TransferStatus,
}

impl Criterion<TransferHistory> for InStatus {
    open spec fn passes(&self, h: TransferHistory) -> bool {
        h.status == self.status
    }

    fn test(&self, h: &TransferHistory) -> (r: bool) {
        h.status == self.status
    }
}

/// Bytes of the completed transfers, up to the largest machine number.
pub open spec fn completed_bytes(all: Seq<TransferHistory>) -> u64
    decreases all.len(),
{
    if all.len() == 0 {
        0
    } else {
        let rest = completed_bytes(all.drop_last());
        if all.last().status == TransferStatus::Completed {
            crate::io::capped(rest, all.last().bytes_transferred as nat)
        } else {
            rest
        }
    }
}

/// Counts of transfers.
#[derive(Debug, Clone, Copy, PartialEq, Eq, Structural)]
pub struct TransferStats {
    /// All.
    pub total: usize,
    /// Completed.
    pub completed: usize,
    /// Failed.
    pub failed: usize,
    /// Running or queued.
    pub in_progress: usize,
    /// Cancelled.
    pub cancelled: usize,
    /// Interrupted.
    pub interrupted: usize,
    /// Bytes of the completed transfers.
    pub bytes_transferred: u64,
}

/// Number of transfers of a status.
pub open spec fn in_status(all: Seq<TransferHistory>, status: TransferStatus) -> nat {
    passing(InStatus { status }, all).len()
}

fn count_status(all: &Vec<TransferHistory>, status: TransferStatus) -> (r: usize)
    ensures
        r == in_status(all@, status),
{
    let c = InStatus { status };
    count(&c, all)
}

/// Every transfer is in one status.
pub proof fn law_statuses_add_up(all: Seq<TransferHistory>)
    ensures
        in_status(all, TransferStatus::Pending) + in_status(all, TransferStatus::InProgress)
            + in_status(all, TransferStatus::Completed) + in_status(all, TransferStatus::Failed)
            + in_status(all, TransferStatus::Cancelled) + in_status(
            all,
            TransferStatus::Interrupted,
        ) == all.len(),
    decreases all.len(),
{
    if all.len() > 0 {
        law_statuses_add_up(all.drop_last());
    }
}

/// Count transfers.
#[must_use]
pub fn stats(all: &Vec<TransferHistory>) -> (r: TransferStats)
    ensures
        r.total == all.len(),
        r.completed == in_status(all@, TransferStatus::Completed),
        r.failed == in_status(all@, TransferStatus::Failed),
        r.in_progress == in_status(all@, TransferStatus::InProgress) + in_status(
            all@,
            TransferStatus::Pending,
        ),
        r.cancelled == in_status(all@, TransferStatus::Cancelled),
        r.interrupted == in_status(all@, TransferStatus::Interrupted),
        r.bytes_transferred == completed_bytes(all@),
{
    proof {
        law_statuses_add_up(all@);
    }
    let mut bytes: u64 = 0;
    let mut i: usize = 0;
    proof {
        assert(all@.take(0) =~= Seq::empty());
    }
    while i < all.len()
        invariant
            i <= all.len(),
            bytes == completed_bytes(all@.take(i as int)),
        decreases all.len() - i,
    {
        proof {
            assert(all@.take(i + 1).drop_last() =~= all@.take(i as int));
            assert(all@.take(i + 1).last() == all@[i as int]);
        }
        if all[i].status == TransferStatus::Completed {
            bytes = bytes.saturating_add(all[i].bytes_transferred);
        }
        i += 1;
    }
    proof {
        assert(all@.take(i as int) =~= all@);
    }
    TransferStats {
        total: all.len(),
        completed: count_status(all, TransferStatus::Completed),
        failed: count_status(all, TransferStatus::Failed),
        in_progress: count_status(all, TransferStatus::InProgress) + count_status(
            all,
            TransferStatus::Pending,
        ),
        cancelled: count_status(all, TransferStatus::Cancelled),
        interrupted: count_status(all, TransferStatus::Interrupted),
        bytes_transferred: bytes,
    }
}

// ---- laws ----

/// Once a default server is set, it is the only one: where identifiers are unique, no other
/// server is the default.
pub proof fn law_one_default_server(
    before: Seq<PesitServer>,
    after: Seq<PesitServer>,
    target_id: Seq<char>,
    now: Seq<char>,
)
    requires
        default_moved(before, after, target_id, now),
        forall|i: int, j: int|
            0 <= i < j < before.len() ==> (#[trigger] before[i]).id@ != (#[trigger] before[j]).id@,
    ensures
        forall|i: int, j: int|
            0 <= i < j < after.len() ==> !((#[trigger] after[i]).default_server && (
            #[trigger] after[j]).default_server),
{
    assert forall|i: int, j: int| 0 <= i < j < after.len() implies !((
    #[trigger] after[i]).default_server && (#[trigger] after[j]).default_server) by {
        assert(before[i].id@ != before[j].id@);
    }
}

} // verus!
