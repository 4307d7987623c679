//! Lifecycle of the PeSIT listeners.

use crate::client::engine::at_least_a_second;
use crate::node::model::{PesitServerConfig, ServerStatus, ServerStatusResponse};
use crate::service::http::{between, ApiError, ApiErrorV};
use crate::text::{dec, dec_padded, opt_text, push_decimal, push_decimal_padded};
use crate::tls::TlsServerSettings;
use crate::transport::Framing;
use vstd::prelude::*;
use vstd::string::StringExecFns;

verus! {

/// Manager error.
#[derive(Debug, PartialEq, Eq)]
pub enum ManagerError {
    /// Unknown listener.
    NotFound(String),
    /// Already running.
    AlreadyRunning(String),
    /// Not running.
    NotRunning(String),
    /// Cannot bind.
    Bind(String, String),
    /// TLS misconfiguration.
    Tls(String),
    /// Storage error.
    Store(String),
}

impl ManagerError {
    /// Rendering of the error.
    pub open spec fn spec_text(self) -> Seq<char> {
        match self {
            ManagerError::NotFound(id) => "server '"@ + id@ + "' not found"@,
            ManagerError::AlreadyRunning(id) => "server '"@ + id@ + "' is already running"@,
            ManagerError::NotRunning(id) => "server '"@ + id@ + "' is not running"@,
            ManagerError::Bind(addr, e) => "cannot listen on "@ + addr@ + ": "@ + e@,
            ManagerError::Tls(e) => "TLS: "@ + e@,
            ManagerError::Store(e) => e@,
        }
    }

    /// Rendering of the error.
    #[must_use]
    pub fn text(&self) -> (r: String)
        ensures
            r@ == self.spec_text(),
    {
        match self {
            ManagerError::NotFound(id) => between("server '", id.as_str(), "' not found"),
            ManagerError::AlreadyRunning(id) => between(
                "server '",
                id.as_str(),
                "' is already running",
            ),
            ManagerError::NotRunning(id) => between("server '", id.as_str(), "' is not running"),
            ManagerError::Bind(addr, e) => {
                let mut out = between("cannot listen on ", addr.as_str(), ": ");
                out.append(e.as_str());
                out
            },
            ManagerError::Tls(e) => {
                let mut out = "TLS: ".to_owned();
                out.append(e.as_str());
                out
            },
            ManagerError::Store(e) => e.clone(),
        }
    }

    /// HTTP status of the answer to a request that failed with this error.
    pub open spec fn spec_status(self) -> u16 {
        match self {
            ManagerError::NotFound(_) => 404,
            ManagerError::AlreadyRunning(_) | ManagerError::NotRunning(_) => 409,
            _ => 500,
        }
    }

    /// Answer to a request that failed with this error.
    #[must_use]
    pub fn answer(&self) -> (r: ApiError)
        ensures
            r@ == (ApiErrorV { status: self.spec_status(), message: self.spec_text() }),
    {
        match self {
            ManagerError::NotFound(_) => ApiError::not_found(self.text()),
            ManagerError::AlreadyRunning(_) => ApiError::conflict(self.text()),
            ManagerError::NotRunning(_) => ApiError::conflict(self.text()),
            _ => ApiError::internal(self.text()),
        }
    }
}

/// Process-wide settings needed by listeners.
#[derive(Debug, PartialEq, Eq)]
pub struct ListenerSettings {
    /// Checkpoint directory.
    pub checkpoint_dir: String,
    /// Node identifier.
    pub node_id: String,
    /// TLS settings when TLS is enabled.
    pub tls: Option<TlsServerSettings>,
}

/// Status of a listener; `running` holds the number of its sessions and its port while it runs.
#[must_use]
pub fn status(cfg: &PesitServerConfig, running: Option<(usize, u16)>) -> (r: ServerStatusResponse)
    ensures
        r.server_id@ == cfg.server_id@,
        r.status == (if running is Some {
            ServerStatus::Running
        } else if cfg.status == ServerStatus::Error {
            ServerStatus::Error
        } else {
            ServerStatus::Stopped
        }),
        r.running == running is Some,
        r.active_connections == (match running {
            Some((n, _)) => n,
            None => 0,
        }),
        r.port == (match running {
            Some((_, p)) => p,
            None => cfg.port,
        }),
{
    let status = if running.is_some() {
        ServerStatus::Running
    } else if cfg.status == ServerStatus::Error {
        ServerStatus::Error
    } else {
        ServerStatus::Stopped
    };
    let (active_connections, port) = match running {
        Some((n, p)) => (n, p),
        None => (0, cfg.port),
    };
    ServerStatusResponse {
        server_id: cfg.server_id.clone(),
        status,
        running: running.is_some(),
        active_connections,
        port,
    }
}

/// Record the status of a listener, and when it started or stopped.
pub fn set_status(cfg: &mut PesitServerConfig, status: ServerStatus, now: &str)
    ensures
        *final(cfg) == (PesitServerConfig {
            status,
            updated_at: final(cfg).updated_at,
            last_started_at: final(cfg).last_started_at,
            last_stopped_at: final(cfg).last_stopped_at,
            ..*old(cfg)
        }),
        opt_text(final(cfg).updated_at) == Some(now@),
        opt_text(final(cfg).last_started_at) == (if status == ServerStatus::Running {
            Some(now@)
        } else {
            opt_text(old(cfg).last_started_at)
        }),
        opt_text(final(cfg).last_stopped_at) == (if status == ServerStatus::Stopped {
            Some(now@)
        } else {
            opt_text(old(cfg).last_stopped_at)
        }),
{
    cfg.status = status;
    cfg.updated_at = Some(now.to_owned());
    match status {
        ServerStatus::Running => {
            cfg.last_started_at = Some(now.to_owned());
        },
        ServerStatus::Stopped => {
            cfg.last_stopped_at = Some(now.to_owned());
        },
        _ => {},
    }
}

/// Check that a listener can start: it is known, it does not run, and it has a certificate where
/// it needs one.
pub fn check_start(
    server_id: &str,
    running: bool,
    cfg: Option<&PesitServerConfig>,
    tls_configured: bool,
) -> (r: Result<(), ManagerError>)
    ensures
        if running {
            r is Err && r->Err_0 is AlreadyRunning && r->Err_0->AlreadyRunning_0@ == server_id@
        } else if cfg is None {
            r is Err && r->Err_0 is NotFound && r->Err_0->NotFound_0@ == server_id@
        } else if cfg->0.ssl_enabled && !tls_configured {
            r is Err && r->Err_0 is Tls && r->Err_0->Tls_0@
                == "listener requires TLS but PESIT_SSL_ENABLED / certificate paths are not set"@
        } else {
            r is Ok
        },
{
    if running {
        return Err(ManagerError::AlreadyRunning(server_id.to_owned()));
    }
    match cfg {
        None => Err(ManagerError::NotFound(server_id.to_owned())),
        Some(c) => {
            if c.ssl_enabled && !tls_configured {
                return Err(
                    ManagerError::Tls(
                        "listener requires TLS but PESIT_SSL_ENABLED / certificate paths are not set".to_owned(),
                    ),
                );
            }
            Ok(())
        },
    }
}

/// Why a listener that does not run cannot be stopped.
#[must_use]
pub fn cannot_stop(server_id: &str, known: bool) -> (r: ManagerError)
    ensures
        known ==> r is NotRunning && r->NotRunning_0@ == server_id@,
        !known ==> r is NotFound && r->NotFound_0@ == server_id@,
{
    if known {
        ManagerError::NotRunning(server_id.to_owned())
    } else {
        ManagerError::NotFound(server_id.to_owned())
    }
}

/// Address that a listener listens on.
#[must_use]
pub fn listen_address(cfg: &PesitServerConfig) -> (r: String)
    ensures
        r@ == cfg.bind_address@ + ":"@ + dec(cfg.port as nat),
{
    let mut out = cfg.bind_address.clone();
    out.append(":");
    push_decimal(&mut out, cfg.port as u64);
    out
}

/// Whether one more session is admitted.
#[verifier::allow_in_spec]
#[must_use]
pub fn admits_session(cfg: &PesitServerConfig, active: usize) -> bool
    returns
        active < cfg.max_connections,
{
    active < cfg.max_connections as usize
}

/// Identifier of a session: that of the listener and the number of the connection, in at least six
/// digits.
#[must_use]
pub fn session_id(cfg: &PesitServerConfig, n: u32) -> (r: String)
    ensures
        r@ == cfg.server_id@ + "-"@ + dec_padded(n as nat, 6),
{
    let mut out = cfg.server_id.clone();
    out.append("-");
    push_decimal_padded(&mut out, n as u64, 6);
    out
}

/// PeSIT connection identifier of a session, from 1 to 254.
#[verifier::allow_in_spec]
#[must_use]
pub fn connection_id(n: u32) -> u8
    returns
        (n % 254 + 1) as u8,
{
    (n % 254 + 1) as u8
}

/// Framing of the sessions of a listener: only TLS connections can do without the length in front.
#[must_use]
pub fn framing(cfg: &PesitServerConfig, tls: bool) -> (r: Framing)
    ensures
        r == (if tls && !cfg.tcpip_header {
            Framing::Raw
        } else {
            Framing::LengthPrefixed
        }),
{
    if tls && !cfg.tcpip_header {
        Framing::Raw
    } else {
        Framing::LengthPrefixed
    }
}

/// Watchdog timeout of the sessions of a listener, in milliseconds.
#[must_use]
pub fn read_timeout(cfg: &PesitServerConfig) -> (r: u64)
    ensures
        r == at_least_a_second(cfg.read_timeout),
{
    if cfg.read_timeout < 1000 {
        1000
    } else {
        cfg.read_timeout
    }
}

/// Idle timeout of the sessions of a listener, in milliseconds: the longer of its two timeouts.
#[must_use]
pub fn idle_timeout(cfg: &PesitServerConfig) -> (r: u64)
    ensures
        r == at_least_a_second(
            if cfg.connection_timeout >= cfg.read_timeout {
                cfg.connection_timeout
            } else {
                cfg.read_timeout
            },
        ),
{
    let longer: u64 = if cfg.connection_timeout >= cfg.read_timeout {
        cfg.connection_timeout
    } else {
        cfg.read_timeout
    };
    if longer < 1000 {
        1000
    } else {
        longer
    }
}

/// Connection identifiers are never zero, which stands for "none", and differ between any 254
/// connections in a row.
pub proof fn law_connection_ids_are_valid(n: u32, k: u32)
    requires
        0 < k < 254,
        n + k <= u32::MAX,
    ensures
        1 <= connection_id(n) <= 254,
        connection_id(n) != connection_id((n + k) as u32),
{
    let a = n % 254;
    let b = ((n + k) as u32) % 254;
    assert(a != b) by (nonlinear_arith)
        requires
            a == n % 254,
            b == (n + k) % 254,
            0 < k < 254,
    ;
}

} // verus!
