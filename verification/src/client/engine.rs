//! Outbound transfers: from a request to the session that carries it out, and to its outcome.

use crate::article::RecordFormat;
use crate::builder::{FileSpec, FileSpecV};
use crate::checkpoint::Checkpoint;
use crate::client::model::{
    MessageRequest, Partner, PesitServer, TransferDirection, TransferHistory, TransferRequest,
    TransferStatus,
};
use crate::datapath::{DataEnd, Progress};
use crate::diag::Diagnostic;
use crate::ebcdic::{
    from_ebcdic, law_translation_is_undone, to_ebcdic, translated, FROM_EBCDIC, TO_EBCDIC,
};
use crate::error::SessionError;
use crate::fpdu::bytes_to_vec;
use crate::kind::FpduKind;
use crate::message::{opt_vec, MessageOutcome};
use crate::params::{AccessType, ArticleFormat, Compression, SyncOption, Version};
use crate::requester::{Preconnect, RequesterConfig, TransferOutcome, TransferSpec};
use crate::service::audit::{AuditEvent, Outcome};
use crate::service::http::{between, ApiError, ApiErrorV};
use crate::service::ident::{text_of_utf8, utf8_lossy};
use crate::service::select::{find, first_passing, Criterion};
use crate::text::{
    copy_opt, dec, filled, filled_str, join_path, joined_path, lower, non_empty, opt_str, opt_text,
    push_decimal, same, to_lower,
};
use crate::tls::{TlsClientSettings, TlsVersion};
use crate::transport::Framing;
use vstd::prelude::*;
use vstd::string::StringExecFns;

verus! {

/// Engine settings.
#[derive(Debug, PartialEq, Eq)]
pub struct EngineSettings {
    /// Checkpoint directory.
    pub checkpoint_dir: String,
    /// Default directory for received files when `filename` is relative or absent.
    pub receive_dir: String,
    /// Default PeSIT identifier (PI 3) when the request has no `partnerId`.
    pub requester_id: String,
    /// Default synchronisation interval in KB.
    pub sync_interval_kb: u16,
    /// Acknowledgement window.
    pub sync_window: u8,
    /// Default record length.
    pub record_length: u32,
    /// Default maximum entity size (PI 25).
    pub max_entity_size: u16,
    /// TLS client settings used when a server has none of its own.
    pub tls_defaults: TlsClientSettings,
}

// ---- servers and credentials ----

/// Servers of a name or an identifier.
#[derive(Debug)]
pub struct NamedServer<'a> {
    /// Name or identifier.
    pub name: &'a str,
}

impl<'a> Criterion<PesitServer> for NamedServer<'a> {
    open spec fn passes(&self, s: PesitServer) -> bool {
        s.name@ == self.name@ || s.id@ == self.name@
    }

    fn test(&self, s: &PesitServer) -> (r: bool) {
        same(s.name.as_str(), self.name) || same(s.id.as_str(), self.name)
    }
}

/// Default servers that are enabled.
#[derive(Debug)]
pub struct DefaultServer {}

impl Criterion<PesitServer> for DefaultServer {
    open spec fn passes(&self, s: PesitServer) -> bool {
        s.default_server && s.enabled
    }

    fn test(&self, s: &PesitServer) -> (r: bool) {
        s.default_server && s.enabled
    }
}

/// Position of the server that a name stands for: the first of that name or identifier, or the
/// default one where there is no name.
pub open spec fn server_position(servers: Seq<PesitServer>, name: Option<&str>) -> Option<int> {
    if name is Some && name->0@.len() > 0 {
        first_passing(NamedServer { name: name->0 }, servers)
    } else {
        first_passing(DefaultServer {  }, servers)
    }
}

/// Resolve a server by name, id, or the default one.
pub fn resolve_server<'a>(servers: &'a Vec<PesitServer>, name: Option<&str>) -> (r: Result<
    &'a PesitServer,
    ApiError,
>)
    ensures
        match server_position(servers@, name) {
            Some(i) => 0 <= i < servers.len() && r == Ok::<&PesitServer, ApiError>(&servers@[i]),
            None => r is Err && r->Err_0@ == ApiErrorV::not_found(
                "server '"@ + (match name {
                    Some(n) => n@,
                    None => "<default>"@,
                }) + "' not found"@,
            ),
        },
{
    let found = match filled_str(name) {
        Some(n) => {
            let c = NamedServer { name: n };
            proof {
                assert(c.name@ == name->0@);
                lemma_same_name(servers@, n, name->0);
            }
            find(&c, servers)
        },
        None => {
            let c = DefaultServer {  };
            find(&c, servers)
        },
    };
    match found {
        Some(s) => Ok(s),
        None => {
            let shown = match name {
                Some(n) => n,
                None => "<default>",
            };
            Err(ApiError::not_found(between("server '", shown, "' not found")))
        },
    }
}

proof fn lemma_same_name(servers: Seq<PesitServer>, a: &str, b: &str)
    requires
        a@ == b@,
    ensures
        first_passing(NamedServer { name: a }, servers) == first_passing(
            NamedServer { name: b },
            servers,
        ),
    decreases servers.len(),
{
    if servers.len() > 0 {
        lemma_same_name(servers.drop_last(), a, b);
    }
}

/// Credentials of a PeSIT identifier.
#[derive(Debug)]
pub struct OfPartner<'a> {
    /// PeSIT identifier.
    pub partner_id: &'a str,
}

impl<'a> Criterion<Partner> for OfPartner<'a> {
    open spec fn passes(&self, p: Partner) -> bool {
        p.partner_id@ == self.partner_id@
    }

    fn test(&self, p: &Partner) -> (r: bool) {
        same(p.partner_id.as_str(), self.partner_id)
    }
}

/// Password of a PeSIT identifier: the one given, else that of its credentials.
pub open spec fn spec_password(
    partners: Seq<Partner>,
    partner_id: &str,
    explicit: Option<Seq<char>>,
) -> Option<Seq<char>> {
    match non_empty(explicit) {
        Some(p) => Some(p),
        None => match first_passing(OfPartner { partner_id }, partners) {
            Some(i) => non_empty(opt_text(partners[i].password)),
            None => None,
        },
    }
}

/// Password to use for a PeSIT identifier.
#[must_use]
pub fn password_for(partners: &Vec<Partner>, partner_id: &str, explicit: Option<&str>) -> (r:
    Option<String>)
    ensures
        opt_text(r) == spec_password(partners@, partner_id, opt_str(explicit)),
{
    match filled_str(explicit) {
        Some(p) => Some(p.to_owned()),
        None => {
            let c = OfPartner { partner_id };
            match find(&c, partners) {
                Some(p) => match filled(&p.password) {
                    Some(t) => Some(t.to_owned()),
                    None => None,
                },
                None => None,
            }
        },
    }
}

/// PeSIT identifier of a request: its own, else the default one.
pub open spec fn spec_identity(asked: Option<Seq<char>>, default_id: Seq<char>) -> Seq<char> {
    match non_empty(asked) {
        Some(p) => p,
        None => default_id,
    }
}

/// PeSIT identifier of a request.
#[must_use]
pub fn identity(asked: &Option<String>, default_id: &str) -> (r: String)
    ensures
        r@ == spec_identity(opt_text(*asked), default_id@),
{
    match filled(asked) {
        Some(p) => p.to_owned(),
        None => default_id.to_owned(),
    }
}

// ---- sessions ----

/// At least a second, in milliseconds.
pub open spec fn at_least_a_second(ms: u64) -> u64 {
    if ms < 1000 {
        1000
    } else {
        ms
    }
}

fn second_or_more(ms: u64) -> (r: u64)
    ensures
        r == at_least_a_second(ms),
{
    if ms < 1000 {
        1000
    } else {
        ms
    }
}

/// Value of an optional setting, or its default.
pub open spec fn or_default<T>(o: Option<T>, d: T) -> T {
    match o {
        Some(x) => x,
        None => d,
    }
}

impl EngineSettings {
    /// Session parameters of a request towards a server.
    #[must_use]
    pub fn requester_config(
        &self,
        server: &PesitServer,
        partner_id: &str,
        password: Option<String>,
        req: &TransferRequest,
        access: AccessType,
    ) -> (r: RequesterConfig)
        ensures
            r.requester_id@ == partner_id@,
            r.server_id@ == server.server_id@,
            r.password == password,
            r.version == Version::E,
            r.sync == (if or_default(req.sync_points_enabled, true) {
                SyncOption {
                    interval_kb: req.spec_sync_interval_kb(self.sync_interval_kb),
                    window: self.sync_window,
                }
            } else {
                SyncOption::none()
            }),
            r.resync == or_default(req.resync_enabled, true),
            r.crc == or_default(req.crc_enabled, server.crc_enabled),
            r.compression == (if or_default(req.compression_enabled, false) {
                Compression::Mixed
            } else {
                Compression::Off
            }),
            r.max_entity == or_default(req.max_entity_size, self.max_entity_size),
            r.multi_article,
            match non_empty(opt_text(server.preconnect_id)) {
                Some(id) => r.preconnect is Some && r.preconnect->0.identifier@ == id
                    && r.preconnect->0.password@ == or_default(
                    opt_text(server.preconnect_password),
                    Seq::empty(),
                ),
                None => r.preconnect is None,
            },
            r.timeout_ms == at_least_a_second(server.read_timeout),
            r.free_message is None,
            r.access == access,
    {
        let sync = if req.sync_points_enabled.unwrap_or(true) {
            SyncOption {
                interval_kb: req.sync_interval_kb(self.sync_interval_kb),
                window: self.sync_window,
            }
        } else {
            SyncOption::none()
        };
        let compression = if req.compression_enabled.unwrap_or(false) {
            Compression::Mixed
        } else {
            Compression::Off
        };
        let preconnect = match filled(&server.preconnect_id) {
            Some(id) => {
                let password = match &server.preconnect_password {
                    Some(p) => p.clone(),
                    None => String::new(),
                };
                Some(Preconnect { identifier: id.to_owned(), password })
            },
            None => None,
        };
        RequesterConfig {
            requester_id: partner_id.to_owned(),
            server_id: server.server_id.clone(),
            password,
            version: Version::E,
            sync,
            resync: req.resync_enabled.unwrap_or(true),
            crc: req.crc_enabled.unwrap_or(server.crc_enabled),
            compression,
            max_entity: req.max_entity_size.unwrap_or(self.max_entity_size),
            multi_article: true,
            preconnect,
            timeout_ms: second_or_more(server.read_timeout),
            free_message: None,
            access,
        }
    }

    /// TLS settings towards a server; what the server leaves open comes from the defaults.
    #[must_use]
    pub fn tls_settings(&self, server: &PesitServer) -> (r: TlsClientSettings)
        ensures
            opt_text(r.ca_file) == first_text(server.ca_file, self.tls_defaults.ca_file),
            opt_text(r.cert_file) == first_text(server.cert_file, self.tls_defaults.cert_file),
            opt_text(r.key_file) == first_text(server.key_file, self.tls_defaults.key_file),
            r.verify_hostname == Some(server.hostname_verification),
            r.insecure == (server.insecure || self.tls_defaults.insecure),
            r.min_version == Some(or_default(self.tls_defaults.min_version, TlsVersion::V1_2)),
    {
        let d = &self.tls_defaults;
        let min_version = match d.min_version {
            Some(v) => v,
            None => TlsVersion::V1_2,
        };
        TlsClientSettings {
            ca_file: first_of(&server.ca_file, &d.ca_file),
            cert_file: first_of(&server.cert_file, &d.cert_file),
            key_file: first_of(&server.key_file, &d.key_file),
            verify_hostname: Some(server.hostname_verification),
            insecure: server.insecure || d.insecure,
            min_version: Some(min_version),
        }
    }

    /// Where a received file goes: where the request says, relative to the directory for received
    /// files, else into that directory under the name of the virtual file and the time.
    #[must_use]
    pub fn receive_path(&self, filename: Option<&str>, remote: &str, compact_now: &str) -> (r: String)
        ensures
            r@ == joined_path(
                self.receive_dir@,
                match non_empty(opt_str(filename)) {
                    Some(f) => f,
                    None => remote@ + "_"@ + compact_now@,
                },
            ),
    {
        match filled_str(filename) {
            Some(f) => join_path(self.receive_dir.as_str(), f),
            None => {
                let name = between(remote, "_", compact_now);
                join_path(self.receive_dir.as_str(), name.as_str())
            },
        }
    }

    /// Attributes of the file of a request.
    pub open spec fn asked_file(
        self,
        req: TransferRequest,
        remote: Seq<char>,
        size: Option<u64>,
        pesit_id: u32,
        resume: bool,
        creation_date: Seq<char>,
    ) -> FileSpecV {
        FileSpecV {
            file_type: or_default(req.file_type, 0),
            file_name: remote,
            transfer_id: pesit_id,
            restarted: resume,
            data_code: if req.ebcdic == Some(true) {
                Some(EBCDIC_DATA)
            } else {
                None
            },
            priority: or_default(req.priority, 0),
            max_entity_size: or_default(req.max_entity_size, self.max_entity_size),
            article_format: ArticleFormat::Variable,
            article_length: article_length_of(or_default(req.record_length, self.record_length)),
            organisation: Some(0),
            reservation_unit: if size is Some {
                Some(0)
            } else {
                None
            },
            max_reservation: match size {
                Some(s) => kb_reserved(s),
                None => 0,
            },
            creation_date: Some(creation_date),
            ..FileSpecV::blank()
        }
    }

    /// Attributes of the file of a request.
    #[must_use]
    pub fn file_spec(
        &self,
        req: &TransferRequest,
        remote: &str,
        size: Option<u64>,
        pesit_id: u32,
        resume: bool,
        creation_date: String,
    ) -> (r: FileSpec)
        ensures
            r@ == self.asked_file(*req, remote@, size, pesit_id, resume, creation_date@),
    {
        let record_length: u32 = req.record_length.unwrap_or(self.record_length);
        let article_length: u16 = if record_length < 1 {
            1
        } else if record_length > 0xFFFF {
            0xFFFF
        } else {
            record_length as u16
        };
        let mut f = FileSpec::default();
        f.file_type = req.file_type.unwrap_or(0);
        f.file_name = remote.to_owned();
        f.transfer_id = pesit_id;
        f.restarted = resume;
        f.data_code = if req.ebcdic.unwrap_or(false) {
            Some(EBCDIC_DATA)
        } else {
            None
        };
        f.priority = req.priority.unwrap_or(0);
        f.max_entity_size = req.max_entity_size.unwrap_or(self.max_entity_size);
        f.article_format = ArticleFormat::Variable;
        f.article_length = article_length;
        f.organisation = Some(0);
        match size {
            Some(s) => {
                f.reservation_unit = Some(0);
                f.max_reservation = if s % 1024 == 0 {
                    s / 1024
                } else {
                    s / 1024 + 1
                };
            },
            None => {
                f.reservation_unit = None;
                f.max_reservation = 0;
            },
        }
        f.creation_date = Some(creation_date);
        f
    }
}

impl EngineSettings {
    /// What a send asks for: the file of its record, from a checkpoint where it restarts.
    #[must_use]
    pub fn send_plan(
        &self,
        history: &TransferHistory,
        req: &TransferRequest,
        restart: Option<Checkpoint>,
        pesit_id: u32,
        creation_date: String,
    ) -> (r: TransferSpec)
        ensures
            r.restart == restart,
            r.file@ == self.asked_file(
                *req,
                or_default(opt_text(history.remote_filename), Seq::empty()),
                history.file_size,
                pesit_id,
                restart is Some,
                creation_date@,
            ),
    {
        let remote = match &history.remote_filename {
            Some(f) => f.clone(),
            None => String::new(),
        };
        TransferSpec {
            file: self.file_spec(
                req,
                remote.as_str(),
                history.file_size,
                pesit_id,
                restart.is_some(),
                creation_date,
            ),
            restart,
        }
    }

    /// What a receive asks for: the file of its record, from a checkpoint where it restarts. Only a
    /// restart names the transfer; the server assigns a new one its identifier.
    #[must_use]
    pub fn receive_plan(
        &self,
        history: &TransferHistory,
        req: &TransferRequest,
        restart: Option<Checkpoint>,
        creation_date: String,
    ) -> (r: TransferSpec)
        ensures
            r.restart == restart,
            r.file@ == self.asked_file(
                *req,
                or_default(opt_text(history.remote_filename), Seq::empty()),
                None,
                if restart is Some {
                    history.pesit_transfer_id
                } else {
                    0
                },
                restart is Some,
                creation_date@,
            ),
    {
        let remote = match &history.remote_filename {
            Some(f) => f.clone(),
            None => String::new(),
        };
        let pesit_id: u32 = if restart.is_some() {
            history.pesit_transfer_id
        } else {
            0
        };
        TransferSpec {
            file: self.file_spec(
                req,
                remote.as_str(),
                None,
                pesit_id,
                restart.is_some(),
                creation_date,
            ),
            restart,
        }
    }
}

/// Checkpoint that a receive restarts from: the last one, where what was received before it is
/// still there.
#[must_use]
pub fn receive_restart(last: Option<Checkpoint>, data_present: bool) -> (r: Option<Checkpoint>)
    ensures
        r == (if data_present {
            last
        } else {
            None::<Checkpoint>
        }),
{
    if data_present {
        last
    } else {
        None
    }
}

/// Article length of a record length: between one and the largest that PI 32 can hold.
pub open spec fn article_length_of(record_length: u32) -> u16 {
    if record_length < 1 {
        1
    } else if record_length > 0xFFFF {
        0xFFFF
    } else {
        record_length as u16
    }
}

/// Space to reserve for a file of `size` bytes, in KB.
pub open spec fn kb_reserved(size: u64) -> u64 {
    if size % 1024 == 0 {
        size / 1024
    } else {
        (size / 1024 + 1) as u64
    }
}

/// The first of two optional texts that is there.
pub open spec fn first_text(a: Option<String>, b: Option<String>) -> Option<Seq<char>> {
    if a is Some {
        opt_text(a)
    } else {
        opt_text(b)
    }
}

fn first_of(a: &Option<String>, b: &Option<String>) -> (r: Option<String>)
    ensures
        opt_text(r) == first_text(*a, *b),
{
    match a {
        Some(t) => Some(t.clone()),
        None => copy_opt(b),
    }
}

/// Address of a server, for a TCP connection.
#[must_use]
pub fn address(server: &PesitServer) -> (r: String)
    ensures
        r@ == server.host@ + ":"@ + dec(server.port as nat),
{
    let mut out = server.host.clone();
    out.append(":");
    push_decimal(&mut out, server.port as u64);
    out
}

/// Time to wait for a TCP connection, in milliseconds.
#[must_use]
pub fn connect_timeout(server: &PesitServer) -> (r: u64)
    ensures
        r == at_least_a_second(server.connection_timeout),
{
    second_or_more(server.connection_timeout)
}

/// Framing towards a server: only TLS connections can do without the length in front.
#[must_use]
pub fn framing(server: &PesitServer) -> (r: Framing)
    ensures
        r == (if server.tls_enabled && !server.tcpip_header {
            Framing::Raw
        } else {
            Framing::LengthPrefixed
        }),
{
    if server.tls_enabled && !server.tcpip_header {
        Framing::Raw
    } else {
        Framing::LengthPrefixed
    }
}

/// Data code of EBCDIC files (PI 16).
pub const EBCDIC_DATA: u8 = 1;

/// An article of a local file as the peer gets it: in EBCDIC where the request asks for that.
pub open spec fn spec_outgoing(req: TransferRequest, article: Seq<u8>) -> Seq<u8> {
    if req.ebcdic == Some(true) {
        translated(TO_EBCDIC, article)
    } else {
        article
    }
}

/// An article of a local file as the peer gets it.
#[must_use]
pub fn outgoing_article(req: &TransferRequest, article: Vec<u8>) -> (r: Vec<u8>)
    ensures
        r@ == spec_outgoing(*req, article@),
{
    if req.ebcdic.unwrap_or(false) {
        to_ebcdic(article.as_slice())
    } else {
        article
    }
}

/// An article of the peer as it stands in the local file: out of EBCDIC where the request asks for
/// that.
pub open spec fn spec_incoming(req: TransferRequest, article: Seq<u8>) -> Seq<u8> {
    if req.ebcdic == Some(true) {
        translated(FROM_EBCDIC, article)
    } else {
        article
    }
}

/// An article of the peer as it stands in the local file.
#[must_use]
pub fn incoming_article(req: &TransferRequest, article: &[u8]) -> (r: Vec<u8>)
    ensures
        r@ == spec_incoming(*req, article@),
{
    if req.ebcdic.unwrap_or(false) {
        from_ebcdic(article)
    } else {
        bytes_to_vec(article)
    }
}

/// Record format of the local file of a request.
#[must_use]
pub fn record_format(req: &TransferRequest) -> (r: RecordFormat)
    ensures
        r == (if or_default(req.text, false) {
            RecordFormat::Tv
        } else {
            RecordFormat::Bu
        }),
{
    if req.text.unwrap_or(false) {
        RecordFormat::Tv
    } else {
        RecordFormat::Bu
    }
}

/// A PeSIT transfer identifier from a counter: three bytes, never zero.
pub open spec fn spec_transfer_id(counter: u64) -> u32 {
    if counter % 0x00FF_FFFF == 0 {
        1
    } else {
        (counter % 0x00FF_FFFF) as u32
    }
}

/// A PeSIT transfer identifier from a counter.
#[must_use]
pub fn next_transfer_id(counter: u64) -> (r: u32)
    ensures
        r == spec_transfer_id(counter),
{
    let n: u64 = counter % 0x00FF_FFFF;
    if n == 0 {
        1
    } else {
        n as u32
    }
}

/// The transfer identifier that a transfer keeps, if any: that of the transfer it restarts.
#[must_use]
pub fn kept_transfer_id(restart: Option<Checkpoint>, known: u32) -> (r: Option<u32>)
    ensures
        r == (if restart is Some && known != 0 {
            Some(known)
        } else {
            None::<u32>
        }),
{
    if restart.is_some() && known != 0 {
        Some(known)
    } else {
        None
    }
}

/// Checkpoint that a send restarts from: the last one the server acknowledged, else the last one.
#[must_use]
pub fn send_restart(acknowledged: Option<Checkpoint>, last: Option<Checkpoint>) -> (r: Option<
    Checkpoint,
>)
    ensures
        r == (if acknowledged is Some {
            acknowledged
        } else {
            last
        }),
{
    match acknowledged {
        Some(cp) => Some(cp),
        None => last,
    }
}

// ---- requests ----

/// Check that a send names its file and its virtual file.
pub fn check_send(req: &TransferRequest) -> (r: Result<(), ApiError>)
    ensures
        r is Ok <==> non_empty(opt_text(req.filename)) is Some && req.spec_virtual_file() is Some,
        r is Err ==> r->Err_0@ == ApiErrorV::bad_request(
            if non_empty(opt_text(req.filename)) is None {
                "filename is required"@
            } else {
                "remoteFilename is required"@
            },
        ),
{
    if filled(&req.filename).is_none() {
        return Err(ApiError::bad_request("filename is required".to_owned()));
    }
    check_receive(req)
}

/// Check that a receive names its virtual file.
pub fn check_receive(req: &TransferRequest) -> (r: Result<(), ApiError>)
    ensures
        r is Ok <==> req.spec_virtual_file() is Some,
        r is Err ==> r->Err_0@ == ApiErrorV::bad_request("remoteFilename is required"@),
{
    if req.virtual_file().is_none() {
        return Err(ApiError::bad_request("remoteFilename is required".to_owned()));
    }
    Ok(())
}

/// Error of a send whose file cannot be looked at.
#[must_use]
pub fn missing_file(local: &str, reason: &str) -> (r: ApiError)
    ensures
        r@ == ApiErrorV::bad_request("file not found: "@ + local@ + " ("@ + reason@ + ")"@),
{
    let mut text = between("file not found: ", local, " (");
    text.append(reason);
    text.append(")");
    ApiError::bad_request(text)
}

/// Error of a send whose file is none.
#[must_use]
pub fn not_a_file(local: &str) -> (r: ApiError)
    ensures
        r@ == ApiErrorV::bad_request(local@ + " is not a regular file"@),
{
    let mut text = local.to_owned();
    text.append(" is not a regular file");
    ApiError::bad_request(text)
}

/// Counters that a resumed transfer takes over.
pub open spec fn takes_over(h: TransferHistory, prev: Option<&TransferHistory>) -> bool {
    match prev {
        Some(p) => h.pesit_transfer_id == p.pesit_transfer_id && h.last_sync_point
            == p.last_sync_point && h.bytes_at_last_sync_point == p.bytes_at_last_sync_point,
        None => h.pesit_transfer_id == 0 && h.last_sync_point == 0 && h.bytes_at_last_sync_point
            == 0,
    }
}

fn open_history(
    id: String,
    server: &PesitServer,
    req: TransferRequest,
    default_id: &str,
    now: &str,
    resume: Option<&TransferHistory>,
) -> (r: TransferHistory)
    ensures
        r.id == id,
        opt_text(r.server_id) == Some(server.id@),
        opt_text(r.server_name) == Some(server.name@),
        opt_text(r.partner_id) == Some(spec_identity(opt_text(req.partner_id), default_id@)),
        opt_text(r.remote_filename) == req.spec_virtual_file(),
        r.bytes_transferred == 0,
        r.status == TransferStatus::InProgress,
        r.error_message is None && r.diagnostic_code is None && r.checksum is None,
        opt_text(r.correlation_id) == opt_text(req.correlation_id),
        r.sync_points_enabled == or_default(req.sync_points_enabled, true),
        r.request == Some(req),
        opt_text(r.started_at) == Some(now@),
        r.completed_at is None,
        opt_text(r.created_at) == Some(now@),
        r.direction is None && r.local_filename is None && r.file_size is None,
        takes_over(r, resume),
{
    let mut h = TransferHistory::new(id);
    h.server_id = Some(server.id.clone());
    h.server_name = Some(server.name.clone());
    h.partner_id = Some(identity(&req.partner_id, default_id));
    h.remote_filename = match req.virtual_file() {
        Some(f) => Some(f.to_owned()),
        None => None,
    };
    h.status = TransferStatus::InProgress;
    h.correlation_id = copy_opt(&req.correlation_id);
    h.sync_points_enabled = req.sync_points_enabled.unwrap_or(true);
    h.started_at = Some(now.to_owned());
    h.created_at = Some(now.to_owned());
    match resume {
        Some(p) => {
            h.pesit_transfer_id = p.pesit_transfer_id;
            h.last_sync_point = p.last_sync_point;
            h.bytes_at_last_sync_point = p.bytes_at_last_sync_point;
        },
        None => {},
    }
    h.request = Some(req);
    h
}

/// Start the record of a send. A resumed one takes over the counters of the transfer before it.
#[must_use]
pub fn submit_send(
    id: String,
    server: &PesitServer,
    req: TransferRequest,
    default_id: &str,
    size: u64,
    now: &str,
    resume: Option<&TransferHistory>,
) -> (r: TransferHistory)
    ensures
        r.id == id,
        opt_text(r.server_id) == Some(server.id@),
        opt_text(r.server_name) == Some(server.name@),
        opt_text(r.partner_id) == Some(spec_identity(opt_text(req.partner_id), default_id@)),
        r.direction == Some(TransferDirection::Send),
        opt_text(r.local_filename) == non_empty(opt_text(req.filename)),
        opt_text(r.remote_filename) == req.spec_virtual_file(),
        r.file_size == Some(size),
        r.bytes_transferred == 0,
        r.status == TransferStatus::InProgress,
        r.error_message is None && r.diagnostic_code is None && r.checksum is None,
        opt_text(r.correlation_id) == opt_text(req.correlation_id),
        r.sync_points_enabled == or_default(req.sync_points_enabled, true),
        r.request == Some(req),
        opt_text(r.started_at) == Some(now@),
        r.completed_at is None,
        opt_text(r.created_at) == Some(now@),
        takes_over(r, resume),
{
    let local = match filled(&req.filename) {
        Some(f) => Some(f.to_owned()),
        None => None,
    };
    let mut h = open_history(id, server, req, default_id, now, resume);
    h.direction = Some(TransferDirection::Send);
    h.local_filename = local;
    h.file_size = Some(size);
    h
}

/// Start the record of a receive. A resumed one takes over the counters and the local file of the
/// transfer before it.
#[must_use]
pub fn submit_receive(
    id: String,
    server: &PesitServer,
    req: TransferRequest,
    default_id: &str,
    local: String,
    now: &str,
    resume: Option<&TransferHistory>,
) -> (r: TransferHistory)
    ensures
        r.id == id,
        opt_text(r.server_id) == Some(server.id@),
        opt_text(r.server_name) == Some(server.name@),
        opt_text(r.partner_id) == Some(spec_identity(opt_text(req.partner_id), default_id@)),
        r.direction == Some(TransferDirection::Receive),
        opt_text(r.local_filename) == (match resume {
            Some(p) => opt_text(p.local_filename),
            None => Some(local@),
        }),
        opt_text(r.remote_filename) == req.spec_virtual_file(),
        r.file_size is None,
        r.bytes_transferred == 0,
        r.status == TransferStatus::InProgress,
        r.error_message is None && r.diagnostic_code is None && r.checksum is None,
        opt_text(r.correlation_id) == opt_text(req.correlation_id),
        r.sync_points_enabled == or_default(req.sync_points_enabled, true),
        r.request == Some(req),
        opt_text(r.started_at) == Some(now@),
        r.completed_at is None,
        opt_text(r.created_at) == Some(now@),
        takes_over(r, resume),
{
    let mut h = open_history(id, server, req, default_id, now, resume);
    h.direction = Some(TransferDirection::Receive);
    h.local_filename = match resume {
        Some(p) => copy_opt(&p.local_filename),
        None => Some(local),
    };
    h
}

/// The request that repeats a transfer.
pub open spec fn repeated(prev: TransferHistory, resume: Option<String>) -> TransferRequest {
    let base = match prev.request {
        Some(q) => q,
        None => TransferRequest::blank(),
    };
    TransferRequest {
        server: if prev.server_id is Some {
            prev.server_id
        } else {
            base.server
        },
        filename: prev.local_filename,
        remote_filename: prev.remote_filename,
        partner_id: prev.partner_id,
        resume_from_transfer_id: resume,
        ..base
    }
}

fn repeat(prev: TransferHistory, resume: Option<String>) -> (r: TransferRequest)
    ensures
        r == repeated(prev, resume),
{
    let mut req = match prev.request {
        Some(q) => q,
        None => TransferRequest::default(),
    };
    match prev.server_id {
        Some(s) => {
            req.server = Some(s);
        },
        None => {},
    }
    req.filename = prev.local_filename;
    req.remote_filename = prev.remote_filename;
    req.partner_id = prev.partner_id;
    req.resume_from_transfer_id = resume;
    req
}

/// The request that retries a finished transfer, from its last checkpoint when possible.
pub fn retry(prev: TransferHistory, id: &str) -> (r: Result<TransferRequest, ApiError>)
    ensures
        r is Ok <==> prev.status.is_final(),
        r matches Ok(q) ==> {
            &&& q == repeated(prev, q.resume_from_transfer_id)
            &&& opt_text(q.resume_from_transfer_id) == (if prev.last_sync_point > 0
                && prev.status.is_resumable() {
                Some(id@)
            } else {
                None::<Seq<char>>
            })
        },
        r is Err ==> r->Err_0@ == ApiErrorV::conflict(
            "transfer '"@ + id@ + "' is still running"@,
        ),
{
    if !prev.status.is_final() {
        return Err(ApiError::conflict(between("transfer '", id, "' is still running")));
    }
    let resume = if prev.last_sync_point > 0 && prev.status.is_resumable() {
        Some(id.to_owned())
    } else {
        None
    };
    Ok(repeat(prev, resume))
}

/// The request that runs a transfer again from its beginning.
#[must_use]
pub fn replay(prev: TransferHistory) -> (r: TransferRequest)
    ensures
        r == repeated(prev, None),
{
    repeat(prev, None)
}

/// Error of a request on a transfer that is not known.
#[must_use]
pub fn unknown_transfer(id: &str) -> (r: ApiError)
    ensures
        r@ == ApiErrorV::not_found("transfer '"@ + id@ + "' not found"@),
{
    ApiError::not_found(between("transfer '", id, "' not found"))
}

/// Error of the cancellation of a transfer that does not run.
#[must_use]
pub fn not_running(id: &str, status: TransferStatus) -> (r: ApiError)
    ensures
        r@ == ApiErrorV::conflict(
            "transfer '"@ + id@ + "' is not running (status "@ + status.spec_variant() + ")"@,
        ),
{
    let mut text = between("transfer '", id, "' is not running (status ");
    text.append(status.variant());
    text.append(")");
    ApiError::conflict(text)
}

// ---- progress ----

/// Record progress.
pub fn apply_progress(h: &mut TransferHistory, p: &Progress, sync_changed: bool)
    ensures
        *final(h) == (TransferHistory {
            bytes_transferred: p.data_bytes,
            file_size: if old(h).file_size is None {
                p.total_hint
            } else {
                old(h).file_size
            },
            last_sync_point: if sync_changed {
                p.sync
            } else {
                old(h).last_sync_point
            },
            bytes_at_last_sync_point: if sync_changed {
                p.data_bytes
            } else {
                old(h).bytes_at_last_sync_point
            },
            ..*old(h)
        }),
{
    h.bytes_transferred = p.data_bytes;
    if h.file_size.is_none() {
        h.file_size = p.total_hint;
    }
    if sync_changed {
        h.last_sync_point = p.sync;
        h.bytes_at_last_sync_point = p.data_bytes;
    }
}

/// Forget the progress of a transfer whose restart was refused, before it is run from the
/// beginning.
pub fn reset_for_full_retry(h: &mut TransferHistory)
    ensures
        *final(h) == (TransferHistory {
            last_sync_point: 0,
            bytes_at_last_sync_point: 0,
            bytes_transferred: 0,
            ..*old(h)
        }),
{
    h.last_sync_point = 0;
    h.bytes_at_last_sync_point = 0;
    h.bytes_transferred = 0;
}

// ---- outcome ----

/// Outcome of a transfer: the bytes moved, how the data phase and the closing phase ended, and
/// the checksum of the file.
pub type Finished = (u64, DataEnd, Diagnostic, Option<String>);

/// Whether a transfer was completed.
pub open spec fn succeeded(outcome: Result<Finished, SessionError>) -> bool {
    outcome matches Ok((_, end, diag, _)) && end == DataEnd::Completed && diag.spec_is_ok()
}

/// What stopped a transfer that was not completed.
pub open spec fn stopping_diag(end: DataEnd, diag: Diagnostic) -> Diagnostic {
    match end {
        DataEnd::Interrupted { diag: d, .. } => d,
        DataEnd::EndedWithError(d) => d,
        DataEnd::Completed => diag,
    }
}

/// Record the end of a transfer. Tells whether it was completed.
pub fn finish(h: &mut TransferHistory, now: String, outcome: Result<Finished, SessionError>) -> (r:
    bool)
    ensures
        r == succeeded(outcome),
        match outcome {
            Ok((bytes, end, diag, checksum)) => if end == DataEnd::Completed
                && diag.spec_is_ok() {
                *final(h) == (TransferHistory {
                    status: TransferStatus::Completed,
                    bytes_transferred: bytes,
                    checksum,
                    file_size: if old(h).file_size is None {
                        Some(bytes)
                    } else {
                        old(h).file_size
                    },
                    completed_at: Some(now),
                    ..*old(h)
                })
            } else {
                &&& *final(h) == (TransferHistory {
                    status: match end {
                        DataEnd::Interrupted { by_peer, .. } => if by_peer {
                            TransferStatus::Interrupted
                        } else {
                            TransferStatus::Cancelled
                        },
                        _ => TransferStatus::Failed,
                    },
                    bytes_transferred: bytes,
                    diagnostic_code: final(h).diagnostic_code,
                    error_message: final(h).error_message,
                    completed_at: Some(now),
                    ..*old(h)
                })
                &&& opt_text(final(h).diagnostic_code) == Some(
                    stopping_diag(end, diag).spec_label(),
                )
                &&& opt_text(final(h).error_message) == Some(stopping_diag(end, diag).spec_text())
            },
            Err(e) => {
                &&& *final(h) == (TransferHistory {
                    status: TransferStatus::Failed,
                    diagnostic_code: final(h).diagnostic_code,
                    error_message: final(h).error_message,
                    completed_at: Some(now),
                    ..*old(h)
                })
                &&& opt_text(final(h).diagnostic_code) == Some(e.spec_abort_diag().spec_label())
                &&& opt_text(final(h).error_message) == Some(e.spec_text())
            },
        },
{
    h.completed_at = Some(now);
    match outcome {
        Ok((bytes, end, diag, checksum)) => {
            h.bytes_transferred = bytes;
            if end == DataEnd::Completed && diag.is_ok() {
                h.status = TransferStatus::Completed;
                h.checksum = checksum;
                if h.file_size.is_none() {
                    h.file_size = Some(bytes);
                }
                return true;
            }
            let stop = match end {
                DataEnd::Interrupted { code: _, diag: d, by_peer } => {
                    h.status = if by_peer {
                        TransferStatus::Interrupted
                    } else {
                        TransferStatus::Cancelled
                    };
                    d
                },
                DataEnd::EndedWithError(d) => {
                    h.status = TransferStatus::Failed;
                    d
                },
                DataEnd::Completed => {
                    h.status = TransferStatus::Failed;
                    diag
                },
            };
            h.diagnostic_code = Some(stop.label());
            h.error_message = Some(stop.text());
            false
        },
        Err(e) => {
            h.status = TransferStatus::Failed;
            h.diagnostic_code = Some(e.abort_diag().label());
            h.error_message = Some(e.text());
            false
        },
    }
}

/// A text, or a dash.
pub open spec fn or_dash(t: Option<Seq<char>>) -> Seq<char> {
    match t {
        Some(t) => t,
        None => "-"@,
    }
}

/// The audit record of a finished transfer.
#[must_use]
pub fn audit_of(h: &TransferHistory, completed: bool, id: String, now: String) -> (r: AuditEvent)
    ensures
        r.id == id,
        r.timestamp == now,
        r.category@ == "transfer"@,
        r.action@ == (match h.direction {
            Some(d) => lower(d.spec_name()),
            None => "transfer"@,
        }),
        opt_text(r.target) == Some(
            or_dash(opt_text(h.local_filename)) + " -> "@ + or_dash(opt_text(h.server_name)),
        ),
        opt_text(r.actor) == opt_text(h.partner_id),
        opt_text(r.detail) == opt_text(h.error_message),
        r.outcome == (if completed {
            Outcome::Success
        } else {
            Outcome::Failure
        }),
{
    let action = match h.direction {
        Some(d) => to_lower(d.name()),
        None => "transfer".to_owned(),
    };
    let local = match &h.local_filename {
        Some(t) => t.as_str(),
        None => "-",
    };
    let server = match &h.server_name {
        Some(t) => t.as_str(),
        None => "-",
    };
    AuditEvent {
        id,
        timestamp: now,
        category: "transfer".to_owned(),
        action,
        target: Some(between(local, " -> ", server)),
        actor: copy_opt(&h.partner_id),
        detail: copy_opt(&h.error_message),
        outcome: if completed {
            Outcome::Success
        } else {
            Outcome::Failure
        },
    }
}

/// Whether an error is the peer refusing a restart at the file-selection phase (CREATE / SELECT),
/// in which case the transfer can be retried from the beginning.
#[must_use]
pub fn is_restart_refusal(e: &SessionError) -> (r: bool)
    ensures
        r == (e is Refused && (e->Refused_request == FpduKind::Create || e->Refused_request
            == FpduKind::Select)),
{
    match e {
        SessionError::Refused { request, .. } => *request == FpduKind::Create || *request
            == FpduKind::Select,
        _ => false,
    }
}

/// Whether a transfer that failed is run again from its beginning: it was a restart, and the peer
/// refused that.
#[must_use]
pub fn starts_over(resumed: bool, e: &SessionError) -> (r: bool)
    ensures
        r == (resumed && e is Refused && (e->Refused_request == FpduKind::Create
            || e->Refused_request == FpduKind::Select)),
{
    resumed && is_restart_refusal(e)
}

/// Outcome of a transfer whose session went through, with the checksum of its file.
#[must_use]
pub fn finished(out: &TransferOutcome, checksum: Option<String>) -> (r: Finished)
    ensures
        r == (out.data.data_bytes, out.data.end, out.diag, checksum),
{
    (out.data.data_bytes, out.data.end, out.diag, checksum)
}

/// How a session is left after an error.
#[derive(Debug, Clone, Copy, PartialEq, Eq, Structural)]
pub enum Leaving {
    /// It is still usable: F.RELEASE.
    Release,
    /// The peer is gone: nothing is sent.
    Drop,
    /// F.ABORT with a diagnostic.
    Abort(Diagnostic),
}

/// How to leave a session after a failed request: a refusal leaves the session usable, anything
/// else is aborted (nothing is sent when the peer already aborted or vanished).
#[must_use]
pub fn close_after_error(e: &SessionError) -> (r: Leaving)
    ensures
        r == (if e is Refused {
            Leaving::Release
        } else if e is Aborted || e is Transport {
            Leaving::Drop
        } else {
            Leaving::Abort(e.spec_abort_diag())
        }),
{
    match e {
        SessionError::Refused { .. } => Leaving::Release,
        SessionError::Aborted { .. } => Leaving::Drop,
        SessionError::Transport(_) => Leaving::Drop,
        _ => Leaving::Abort(e.abort_diag()),
    }
}

// ---- messages ----

/// Start the record of a message of `size` bytes.
#[must_use]
pub fn submit_message(
    id: String,
    server: &PesitServer,
    req: &MessageRequest,
    default_id: &str,
    size: u64,
    now: &str,
) -> (r: TransferHistory)
    ensures
        r == (TransferHistory {
            server_id: r.server_id,
            server_name: r.server_name,
            partner_id: r.partner_id,
            direction: Some(TransferDirection::Message),
            remote_filename: r.remote_filename,
            file_size: Some(size),
            status: TransferStatus::InProgress,
            correlation_id: r.correlation_id,
            started_at: r.started_at,
            created_at: r.created_at,
            ..TransferHistory::blank(id)
        }),
        opt_text(r.server_id) == Some(server.id@),
        opt_text(r.server_name) == Some(server.name@),
        opt_text(r.partner_id) == Some(spec_identity(opt_text(req.partner_id), default_id@)),
        opt_text(r.remote_filename) == opt_text(req.message_name),
        opt_text(r.correlation_id) == opt_text(req.correlation_id),
        opt_text(r.started_at) == Some(now@),
        opt_text(r.created_at) == Some(now@),
{
    let mut h = TransferHistory::new(id);
    h.server_id = Some(server.id.clone());
    h.server_name = Some(server.name.clone());
    h.partner_id = Some(identity(&req.partner_id, default_id));
    h.direction = Some(TransferDirection::Message);
    h.remote_filename = copy_opt(&req.message_name);
    h.file_size = Some(size);
    h.status = TransferStatus::InProgress;
    h.correlation_id = copy_opt(&req.correlation_id);
    h.started_at = Some(now.to_owned());
    h.created_at = Some(now.to_owned());
    h
}

/// The transfer request that stands for a message: its password, and no synchronisation points.
#[must_use]
pub fn message_session(req: &MessageRequest) -> (r: TransferRequest)
    ensures
        r == (TransferRequest {
            password: r.password,
            sync_points_enabled: Some(false),
            ..TransferRequest::blank()
        }),
        opt_text(r.password) == opt_text(req.password),
{
    let mut q = TransferRequest::default();
    q.password = copy_opt(&req.password);
    q.sync_points_enabled = Some(false);
    q
}

/// File attributes that go with a message.
#[must_use]
pub fn message_spec(req: &MessageRequest, counter: u64) -> (r: FileSpec)
    ensures
        r@ == (FileSpecV {
            file_name: match req.message_name {
                Some(n) => n@,
                None => "MESSAGE"@,
            },
            transfer_id: spec_transfer_id(counter),
            ..FileSpecV::blank()
        }),
{
    let mut f = FileSpec::default();
    f.file_name = match &req.message_name {
        Some(n) => n.clone(),
        None => "MESSAGE".to_owned(),
    };
    f.transfer_id = next_transfer_id(counter);
    f
}

/// Record the end of a message. Gives the reply back, where there is one.
pub fn finish_message(
    h: &mut TransferHistory,
    now: String,
    size: u64,
    outcome: Result<MessageOutcome, SessionError>,
) -> (r: Option<String>)
    ensures
        match outcome {
            Ok(m) => if m.diag.spec_is_ok() {
                &&& *final(h) == (TransferHistory {
                    status: TransferStatus::Completed,
                    bytes_transferred: size,
                    completed_at: Some(now),
                    ..*old(h)
                })
                &&& opt_text(r) == (match opt_vec(m.reply) {
                    Some(b) => Some(utf8_lossy(b)),
                    None => None::<Seq<char>>,
                })
            } else {
                &&& r is None
                &&& *final(h) == (TransferHistory {
                    status: TransferStatus::Failed,
                    diagnostic_code: final(h).diagnostic_code,
                    error_message: final(h).error_message,
                    completed_at: Some(now),
                    ..*old(h)
                })
                &&& opt_text(final(h).diagnostic_code) == Some(m.diag.spec_label())
                &&& opt_text(final(h).error_message) == Some(m.diag.spec_text())
            },
            Err(e) => {
                &&& r is None
                &&& *final(h) == (TransferHistory {
                    status: TransferStatus::Failed,
                    diagnostic_code: final(h).diagnostic_code,
                    error_message: final(h).error_message,
                    completed_at: Some(now),
                    ..*old(h)
                })
                &&& opt_text(final(h).diagnostic_code) == Some(e.spec_abort_diag().spec_label())
                &&& opt_text(final(h).error_message) == Some(e.spec_text())
            },
        },
{
    h.completed_at = Some(now);
    match outcome {
        Ok(m) => {
            if m.diag.is_ok() {
                h.status = TransferStatus::Completed;
                h.bytes_transferred = size;
                match m.reply {
                    Some(b) => Some(text_of_utf8(b.as_slice())),
                    None => None,
                }
            } else {
                h.status = TransferStatus::Failed;
                h.diagnostic_code = Some(m.diag.label());
                h.error_message = Some(m.diag.text());
                None
            }
        },
        Err(e) => {
            h.status = TransferStatus::Failed;
            h.diagnostic_code = Some(e.abort_diag().label());
            h.error_message = Some(e.text());
            None
        },
    }
}

// ---- laws ----

/// Transfer identifiers fit the three bytes of PI 13, and are never zero.
pub proof fn law_transfer_ids_are_valid(counter: u64)
    ensures
        1 <= spec_transfer_id(counter) <= 0xFF_FFFF,
{
}

/// Every finished transfer can be retried, and no other one.
pub proof fn law_final_states_can_be_retried(s: TransferStatus)
    ensures
        s.is_resumable() ==> s.is_final(),
        s.is_final() <==> s.is_resumable() || s == TransferStatus::Completed,
{
}

/// A file that is sent and fetched back under the same data code is the file it was, and no
/// article changes its length on the way.
pub proof fn law_translated_articles_come_back(req: TransferRequest, article: Seq<u8>)
    ensures
        spec_incoming(req, spec_outgoing(req, article)) == article,
        spec_outgoing(req, spec_incoming(req, article)) == article,
        spec_outgoing(req, article).len() == article.len(),
        spec_incoming(req, article).len() == article.len(),
{
    law_translation_is_undone(article);
}

} // verus!
