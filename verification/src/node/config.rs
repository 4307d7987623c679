//! Process-level settings.

use crate::client::engine::EngineSettings;
use crate::node::api::Entity;
use crate::node::model::{Partner, PesitServerConfig, RemotePartner, VirtualFile};
use crate::text::{copy_opt, lower, opt_text, same, same_ignoring_case, to_upper, upper};
use crate::tls::{TlsClientSettings, TlsServerSettings, TlsVersion};
use vstd::prelude::*;

verus! {

/// Oldest TLS version that a protocol name stands for.
pub open spec fn spec_min_tls(protocol: Seq<char>) -> TlsVersion {
    let p = upper(protocol);
    if p == "TLSV1.3"@ || p == "TLS1.3"@ || p == "1.3"@ {
        TlsVersion::V1_3
    } else {
        TlsVersion::V1_2
    }
}

/// Oldest TLS version that a protocol name stands for.
#[must_use]
pub fn min_tls(protocol: &str) -> (r: TlsVersion)
    ensures
        r == spec_min_tls(protocol@),
{
    let p = to_upper(protocol);
    if same(p.as_str(), "TLSV1.3") || same(p.as_str(), "TLS1.3") || same(p.as_str(), "1.3") {
        TlsVersion::V1_3
    } else {
        TlsVersion::V1_2
    }
}

/// Shared options of a node.
#[derive(Debug, PartialEq, Eq)]
pub struct NodeOptions {
    /// Admin / server REST API port (partners, virtual files, listeners, inbound records, web UI).
    pub api_port: u16,
    /// Transfer / client REST API port (remote servers, send/receive/message, outbound history).
    pub transfer_port: u16,
    /// REST API bind address.
    pub api_bind: String,
    /// API key required in `X-API-Key` for the admin API (`/api/**`); unset = no authentication.
    pub api_key: Option<String>,
    /// Disable admin API authentication even when a key is set.
    pub security_enabled: bool,
    /// SQLite database file (shared by both roles).
    pub db: String,
    /// Directory for certificate / CA material.
    pub pki_dir: String,
    /// Checkpoint directory for inbound (server) transfers.
    pub checkpoint_dir: String,
    /// Checkpoint directory for outbound (client) transfers.
    pub client_checkpoint_dir: String,
    /// Directory for received files initiated by us (outbound receive).
    pub receive_dir: String,
    /// Directory where uploaded client TLS material is stored.
    pub client_tls_dir: String,
    /// Our default PeSIT identifier (PI 3) when initiating transfers.
    pub client_id: String,
    /// YAML bootstrap file (partners / files / remotePartners / servers).
    pub config: Option<String>,
    /// Auto-rotate managed keystores this many days before expiry (0 = disabled).
    pub cert_rotation_days: i64,
    /// Maximum audit-log entries to retain; the oldest are pruned (0 = unlimited).
    pub audit_max_entries: usize,
    /// Node identifier reported in transfer records and cluster membership.
    pub node_id: String,
    /// NATS URL to join a cluster (e.g. nats://nats:4222); unset = standalone.
    pub cluster_nats: Option<String>,
    /// Cluster name (namespaces NATS buckets and subjects).
    pub cluster_name: String,
    /// Address other nodes use to reach this node's admin API (host:port). Defaults to
    /// $HOSTNAME:api_port.
    pub advertise_addr: Option<String>,
    /// Default synchronisation interval (KB) for outbound transfers.
    pub client_sync_kb: u16,
    /// Acknowledgement window for outbound transfers.
    pub client_sync_window: u8,
    /// Default record length (PI 32) for outbound transfers.
    pub client_record_length: u32,
    /// Default maximum entity size (PI 25) for outbound transfers.
    pub client_max_entity: u16,
    /// Enable TLS on listeners flagged `sslEnabled`.
    pub ssl_enabled: bool,
    /// Server certificate chain (PEM).
    pub ssl_cert: Option<String>,
    /// Server private key (PEM).
    pub ssl_key: Option<String>,
    /// CA certificates used to verify client certificates (PEM).
    pub ssl_ca: Option<String>,
    /// Client authentication for listeners: NONE, WANT or NEED.
    pub ssl_client_auth: String,
    /// Minimum TLS protocol for listeners: TLSv1.2 or TLSv1.3.
    pub ssl_protocol: String,
    /// Default CA bundle (PEM) trusted when connecting to TLS servers.
    pub client_ssl_ca: Option<String>,
    /// Default client certificate (PEM) for mutual TLS.
    pub client_ssl_cert: Option<String>,
    /// Default client private key (PEM).
    pub client_ssl_key: Option<String>,
    /// Skip TLS certificate verification for outbound connections (testing only).
    pub client_ssl_insecure: bool,
    /// Minimum TLS protocol for outbound connections.
    pub client_ssl_protocol: String,
}

impl NodeOptions {
    /// TLS settings for the listeners, when TLS is enabled and configured.
    pub fn listener_tls(&self) -> (r: Result<Option<TlsServerSettings>, String>)
        ensures
            if !self.ssl_enabled {
                r == Ok::<Option<TlsServerSettings>, String>(None)
            } else if self.ssl_cert is None || self.ssl_key is None {
                r is Err && r->Err_0@
                    == "PESIT_SSL_ENABLED is set but PESIT_SSL_CERT_PATH / PESIT_SSL_KEY_PATH are missing"@
            } else {
                &&& r is Ok
                &&& r->Ok_0 is Some
                &&& r->Ok_0->0.cert_file@ == self.ssl_cert->0@
                &&& r->Ok_0->0.key_file@ == self.ssl_key->0@
                &&& opt_text(r->Ok_0->0.ca_file) == opt_text(self.ssl_ca)
                &&& r->Ok_0->0.require_client_cert == (lower(self.ssl_client_auth@) == lower(
                    "NEED"@,
                ))
                &&& r->Ok_0->0.min_version == Some(spec_min_tls(self.ssl_protocol@))
            },
    {
        if !self.ssl_enabled {
            return Ok(None);
        }
        match (&self.ssl_cert, &self.ssl_key) {
            (Some(cert), Some(key)) => Ok(
                Some(
                    TlsServerSettings {
                        cert_file: cert.clone(),
                        key_file: key.clone(),
                        ca_file: copy_opt(&self.ssl_ca),
                        require_client_cert: same_ignoring_case(
                            self.ssl_client_auth.as_str(),
                            "NEED",
                        ),
                        min_version: Some(min_tls(self.ssl_protocol.as_str())),
                    },
                ),
            ),
            _ => Err(
                "PESIT_SSL_ENABLED is set but PESIT_SSL_CERT_PATH / PESIT_SSL_KEY_PATH are missing".to_owned(),
            ),
        }
    }

    /// Default TLS settings used when connecting to a TLS server that has none of its own.
    #[must_use]
    pub fn client_tls_defaults(&self) -> (r: TlsClientSettings)
        ensures
            opt_text(r.ca_file) == opt_text(self.client_ssl_ca),
            opt_text(r.cert_file) == opt_text(self.client_ssl_cert),
            opt_text(r.key_file) == opt_text(self.client_ssl_key),
            r.verify_hostname is None,
            r.insecure == self.client_ssl_insecure,
            r.min_version == Some(spec_min_tls(self.client_ssl_protocol@)),
    {
        TlsClientSettings {
            ca_file: copy_opt(&self.client_ssl_ca),
            cert_file: copy_opt(&self.client_ssl_cert),
            key_file: copy_opt(&self.client_ssl_key),
            verify_hostname: None,
            insecure: self.client_ssl_insecure,
            min_version: Some(min_tls(self.client_ssl_protocol.as_str())),
        }
    }

    /// Settings for the outbound transfer engine.
    #[must_use]
    pub fn engine_settings(&self) -> (r: EngineSettings)
        ensures
            r.checkpoint_dir@ == self.client_checkpoint_dir@,
            r.receive_dir@ == self.receive_dir@,
            r.requester_id@ == self.client_id@,
            r.sync_interval_kb == self.client_sync_kb,
            r.sync_window == self.client_sync_window,
            r.record_length == self.client_record_length,
            r.max_entity_size == self.client_max_entity,
            opt_text(r.tls_defaults.ca_file) == opt_text(self.client_ssl_ca),
            opt_text(r.tls_defaults.cert_file) == opt_text(self.client_ssl_cert),
            opt_text(r.tls_defaults.key_file) == opt_text(self.client_ssl_key),
            r.tls_defaults.verify_hostname is None,
            r.tls_defaults.insecure == self.client_ssl_insecure,
            r.tls_defaults.min_version == Some(spec_min_tls(self.client_ssl_protocol@)),
    {
        EngineSettings {
            checkpoint_dir: self.client_checkpoint_dir.clone(),
            receive_dir: self.receive_dir.clone(),
            requester_id: self.client_id.clone(),
            sync_interval_kb: self.client_sync_kb,
            sync_window: self.client_sync_window,
            record_length: self.client_record_length,
            max_entity_size: self.client_max_entity,
            tls_defaults: self.client_tls_defaults(),
        }
    }

    /// The key that the API asks for, if any: none where security is switched off or the key is
    /// empty.
    #[must_use]
    pub fn effective_api_key(&self) -> (r: Option<&str>)
        ensures
            crate::text::opt_str(r) == (if self.security_enabled {
                crate::text::non_empty(opt_text(self.api_key))
            } else {
                None::<Seq<char>>
            }),
    {
        if self.security_enabled {
            crate::text::filled(&self.api_key)
        } else {
            None
        }
    }

    /// The key that the API asks for, if any, as one that a request can carry: a key with a
    /// character that no header can hold is refused.
    pub fn checked_api_key(&self) -> (r: Result<Option<&str>, String>)
        ensures
            ({
                let key = if self.security_enabled {
                    crate::text::non_empty(opt_text(self.api_key))
                } else {
                    None::<Seq<char>>
                };
                if key is Some && !header_text(key->0) {
                    r is Err && r->Err_0@ == "failed to parse header value"@
                } else {
                    r is Ok && crate::text::opt_str(r->Ok_0) == key
                }
            }),
    {
        match self.effective_api_key() {
            None => Ok(None),
            Some(key) => {
                if is_header_text(key) {
                    Ok(Some(key))
                } else {
                    Err("failed to parse header value".to_owned())
                }
            },
        }
    }
}

/// Whether a header can hold a character: no control character but the tabulator.
pub open spec fn header_char(c: char) -> bool {
    c == '\t' || (c as u32 >= 32 && c as u32 != 127)
}

/// Whether a header can hold a text.
pub open spec fn header_text(t: Seq<char>) -> bool {
    forall|i: int| 0 <= i < t.len() ==> header_char(#[trigger] t[i])
}

fn is_header_text(t: &str) -> (r: bool)
    ensures
        r == header_text(t@),
{
    let chars = crate::text::chars_of(t);
    let mut i: usize = 0;
    while i < chars.len()
        invariant
            i <= chars.len(),
            chars@ == t@,
            forall|k: int| 0 <= k < i ==> header_char(#[trigger] t@[k]),
        decreases chars.len() - i,
    {
        let c: char = chars[i];
        let u: u32 = c as u32;
        if !(c == '\t' || (u >= 32 && u != 127)) {
            proof {
                assert(!header_char(t@[i as int]));
            }
            return false;
        }
        i += 1;
    }
    true
}

/// Optional bootstrap file.
#[derive(Debug, PartialEq, Eq)]
pub struct Bootstrap {
    /// Partners to upsert.
    pub partners: Vec<Partner>,
    /// Virtual files to upsert.
    pub files: Vec<VirtualFile>,
    /// Remote partners to upsert.
    pub remote_partners: Vec<RemotePartner>,
    /// Listeners to upsert.
    pub servers: Vec<PesitServerConfig>,
}

impl Default for Bootstrap {
    fn default() -> (r: Self)
        ensures
            r.partners@.len() == 0,
            r.files@.len() == 0,
            r.remote_partners@.len() == 0,
            r.servers@.len() == 0,
    {
        Bootstrap {
            partners: Vec::new(),
            files: Vec::new(),
            remote_partners: Vec::new(),
            servers: Vec::new(),
        }
    }
}

/// A partner or a virtual file of the bootstrap file, as it is written down: it keeps a creation
/// time that it has.
#[must_use]
pub fn bootstrapped<T: Entity>(body: T, now: &str) -> (r: T)
    ensures
        r.spec_id() == body.spec_id(),
        r.spec_created() == (if body.spec_created() is None {
            Some(now@)
        } else {
            body.spec_created()
        }),
        r.spec_updated() == Some(now@),
        r.alike(&body),
{
    let mut body = body;
    body.touch(false, now);
    body
}

/// A remote partner of the bootstrap file, as it is written down: it keeps a creation time that it
/// has, and its update time.
#[must_use]
pub fn bootstrapped_remote(r: RemotePartner, now: &str) -> (out: RemotePartner)
    ensures
        out == (RemotePartner { created_at: out.created_at, ..r }),
        r.created_at is Some ==> out.created_at == r.created_at,
        r.created_at is None ==> opt_text(out.created_at) == Some(now@),
{
    let mut r = r;
    if r.created_at.is_none() {
        r.created_at = Some(now.to_owned());
    }
    r
}

/// A listener of the bootstrap file, as it is written down: one without a number gets the next
/// one, and it keeps a creation time that it has.
#[must_use]
pub fn bootstrapped_server(s: PesitServerConfig, number: u64, now: &str) -> (out: PesitServerConfig)
    ensures
        out == (PesitServerConfig {
            id: if s.id is None {
                Some(number)
            } else {
                s.id
            },
            created_at: out.created_at,
            updated_at: out.updated_at,
            ..s
        }),
        s.created_at is Some ==> out.created_at == s.created_at,
        s.created_at is None ==> opt_text(out.created_at) == Some(now@),
        opt_text(out.updated_at) == Some(now@),
{
    let mut s = s;
    if s.id.is_none() {
        s.id = Some(number);
    }
    if s.created_at.is_none() {
        s.created_at = Some(now.to_owned());
    }
    s.updated_at = Some(now.to_owned());
    s
}

} // verus!
