//! Storage connectors: where files are staged from and to (S3, SFTP, a local directory), and how
//! often a failed operation is tried again.

use crate::service::http::{between, ApiError, ApiErrorV};
use crate::text::{
    chars_of, copy_opt, filled, join_path, joined_path, non_empty, opt_text, same, string_of,
};
use vstd::prelude::*;
use vstd::string::StringExecFns;

verus! {

// ---- errors ----

/// S3 connector error.
#[derive(Debug, PartialEq, Eq)]
pub enum S3Error {
    /// Any S3 / transport failure.
    S3(String),
    /// Local I/O error.
    Io(String),
}

/// SFTP connector error.
#[derive(Debug, PartialEq, Eq)]
pub enum SftpError {
    /// SSH transport error.
    Ssh(String),
    /// SFTP protocol error.
    Sftp(String),
    /// Authentication failed.
    Auth,
    /// Local I/O error.
    Io(String),
}

/// Connector error.
#[derive(Debug, PartialEq, Eq)]
pub enum ConnectorError {
    /// S3 backend error.
    S3(S3Error),
    /// SFTP backend error.
    Sftp(SftpError),
    /// Local backend error.
    Local(String),
}

impl ConnectorError {
    /// Rendering of the error.
    pub open spec fn spec_text(self) -> Seq<char> {
        match self {
            ConnectorError::S3(S3Error::S3(e)) => "s3: "@ + e@,
            ConnectorError::S3(S3Error::Io(e)) => e@,
            ConnectorError::Sftp(SftpError::Ssh(e)) => "ssh: "@ + e@,
            ConnectorError::Sftp(SftpError::Sftp(e)) => "sftp: "@ + e@,
            ConnectorError::Sftp(SftpError::Auth) => "SFTP authentication failed"@,
            ConnectorError::Sftp(SftpError::Io(e)) => e@,
            ConnectorError::Local(e) => "local: "@ + e@,
        }
    }

    /// Rendering of the error.
    #[must_use]
    pub fn text(&self) -> (r: String)
        ensures
            r@ == self.spec_text(),
    {
        match self {
            ConnectorError::S3(S3Error::S3(e)) => behind("s3: ", e.as_str()),
            ConnectorError::S3(S3Error::Io(e)) => e.clone(),
            ConnectorError::Sftp(SftpError::Ssh(e)) => behind("ssh: ", e.as_str()),
            ConnectorError::Sftp(SftpError::Sftp(e)) => behind("sftp: ", e.as_str()),
            ConnectorError::Sftp(SftpError::Auth) => "SFTP authentication failed".to_owned(),
            ConnectorError::Sftp(SftpError::Io(e)) => e.clone(),
            ConnectorError::Local(e) => behind("local: ", e.as_str()),
        }
    }
}

fn behind(head: &str, tail: &str) -> (r: String)
    ensures
        r@ == head@ + tail@,
{
    let mut out = head.to_owned();
    out.append(tail);
    out
}

// ---- paths ----

/// A text without the slashes at its front.
pub open spec fn no_leading_slash(t: Seq<char>) -> Seq<char>
    decreases t.len(),
{
    if t.len() > 0 && t[0] == '/' {
        no_leading_slash(t.skip(1))
    } else {
        t
    }
}

/// A text without the slashes at its end.
pub open spec fn no_trailing_slash(t: Seq<char>) -> Seq<char>
    decreases t.len(),
{
    if t.len() > 0 && t.last() == '/' {
        no_trailing_slash(t.drop_last())
    } else {
        t
    }
}

fn trim_leading(t: &str) -> (r: String)
    ensures
        r@ == no_leading_slash(t@),
{
    let chars = chars_of(t);
    let mut i: usize = 0;
    proof {
        assert(t@.skip(0) =~= t@);
    }
    while i < chars.len() && chars[i] == '/'
        invariant
            i <= chars.len(),
            chars@ == t@,
            no_leading_slash(t@) == no_leading_slash(t@.skip(i as int)),
        decreases chars.len() - i,
    {
        proof {
            assert(t@.skip(i as int).skip(1) =~= t@.skip(i + 1));
        }
        i += 1;
    }
    let r = string_of(vstd::slice::slice_subrange(chars.as_slice(), i, chars.len()));
    proof {
        assert(r@ =~= t@.skip(i as int));
    }
    r
}

fn trim_trailing(t: &str) -> (r: String)
    ensures
        r@ == no_trailing_slash(t@),
{
    let chars = chars_of(t);
    let mut n: usize = chars.len();
    proof {
        assert(t@.take(n as int) =~= t@);
    }
    while n > 0 && chars[n - 1] == '/'
        invariant
            n <= chars.len(),
            chars@ == t@,
            no_trailing_slash(t@) == no_trailing_slash(t@.take(n as int)),
        decreases n,
    {
        proof {
            assert(t@.take(n as int).drop_last() =~= t@.take(n - 1));
        }
        n -= 1;
    }
    let r = string_of(vstd::slice::slice_subrange(chars.as_slice(), 0, n));
    proof {
        assert(r@ =~= t@.take(n as int));
    }
    r
}

/// A local-directory connector.
#[derive(Debug, PartialEq, Eq)]
pub struct LocalConnector {
    base: String,
}

impl LocalConnector {
    /// Base directory.
    pub closed spec fn spec_base(self) -> Seq<char> {
        self.base@
    }

    /// Rooted at `base`.
    #[must_use]
    pub fn new(base: String) -> (r: Self)
        ensures
            r.spec_base() == base@,
    {
        LocalConnector { base }
    }

    /// Base directory.
    #[must_use]
    pub fn base(&self) -> (r: &str)
        ensures
            r@ == self.spec_base(),
    {
        self.base.as_str()
    }

    /// Path of a remote name: below the base, even where the name starts with a slash.
    #[must_use]
    pub fn resolve(&self, remote: &str) -> (r: String)
        ensures
            r@ == joined_path(self.spec_base(), no_leading_slash(remote@)),
    {
        let name = trim_leading(remote);
        join_path(self.base.as_str(), name.as_str())
    }
}

/// Configuration of an S3-compatible bucket.
#[derive(Debug, PartialEq, Eq)]
pub struct S3Config {
    /// Bucket name.
    pub bucket: String,
    /// Region (default `us-east-1`).
    pub region: Option<String>,
    /// Custom endpoint (for MinIO / non-AWS).
    pub endpoint: Option<String>,
    /// Access key id.
    pub access_key: Option<String>,
    /// Secret access key.
    pub secret_key: Option<String>,
    /// Use path-style addressing (required by MinIO).
    pub path_style: bool,
}

impl S3Config {
    /// Region of the bucket.
    #[must_use]
    pub fn region_name(&self) -> (r: String)
        ensures
            r@ == (match self.region {
                Some(t) => t@,
                None => "us-east-1"@,
            }),
    {
        match &self.region {
            Some(t) => t.clone(),
            None => "us-east-1".to_owned(),
        }
    }

    /// Access keys, where both are given.
    #[must_use]
    pub fn keys(&self) -> (r: Option<(&str, &str)>)
        ensures
            match r {
                Some((a, s)) => opt_text(self.access_key) == Some(a@) && opt_text(self.secret_key)
                    == Some(s@),
                None => self.access_key is None || self.secret_key is None,
            },
    {
        match (&self.access_key, &self.secret_key) {
            (Some(a), Some(s)) => Some((a.as_str(), s.as_str())),
            _ => None,
        }
    }
}

/// SFTP configuration.
#[derive(Debug, PartialEq, Eq)]
pub struct SftpConfig {
    /// Host.
    pub host: String,
    /// Port (default 22).
    pub port: u16,
    /// Username.
    pub user: String,
    /// Password.
    pub password: Option<String>,
    /// Base directory prepended to remote paths.
    pub base_path: Option<String>,
}

/// An SFTP connector (a fresh SSH connection is opened per operation).
#[derive(Debug, PartialEq, Eq)]
pub struct SftpConnector {
    cfg: SftpConfig,
}

impl SftpConnector {
    /// Configuration.
    pub closed spec fn spec_config(self) -> SftpConfig {
        self.cfg
    }

    /// Build from configuration.
    #[must_use]
    pub fn new(cfg: SftpConfig) -> (r: Self)
        ensures
            r.spec_config() == cfg,
    {
        SftpConnector { cfg }
    }

    /// Configuration.
    #[must_use]
    pub fn config(&self) -> (r: &SftpConfig)
        ensures
            *r == self.spec_config(),
    {
        &self.cfg
    }

    /// Path of a remote name, behind the base directory where there is one.
    #[must_use]
    pub fn path(&self, remote: &str) -> (r: String)
        ensures
            r@ == (match non_empty(opt_text(self.spec_config().base_path)) {
                Some(base) => no_trailing_slash(base) + "/"@ + no_leading_slash(remote@),
                None => remote@,
            }),
    {
        match filled(&self.cfg.base_path) {
            Some(base) => {
                let dir = trim_trailing(base);
                let name = trim_leading(remote);
                between(dir.as_str(), "/", name.as_str())
            },
            None => remote.to_owned(),
        }
    }

    /// Directory that a connectivity test reads.
    #[must_use]
    pub fn test_directory(&self) -> (r: String)
        ensures
            r@ == (match self.spec_config().base_path {
                Some(base) => base@,
                None => "."@,
            }),
    {
        match &self.cfg.base_path {
            Some(base) => base.clone(),
            None => ".".to_owned(),
        }
    }
}

// ---- connectors ----

/// A configured storage backend.
#[derive(Debug, PartialEq, Eq)]
pub enum Backend {
    /// Local directory.
    Local(LocalConnector),
    /// S3-compatible object storage.
    S3(S3Config),
    /// SFTP server.
    Sftp(SftpConnector),
}

/// Default attempts (initial try plus retries) for a transient connector operation.
pub const DEFAULT_MAX_ATTEMPTS: u32 = 3;

/// Milliseconds before the first retry; doubled after each failed attempt.
pub const RETRY_BASE_DELAY: u64 = 200;

/// A storage connector: a backend plus a retry policy for transient failures.
#[derive(Debug, PartialEq, Eq)]
pub struct Connector {
    backend: Backend,
    max_attempts: u32,
}

impl Connector {
    /// Backend.
    pub closed spec fn spec_backend(self) -> Backend {
        self.backend
    }

    /// Number of attempts.
    pub closed spec fn spec_max_attempts(self) -> u32 {
        self.max_attempts
    }

    fn wrap(backend: Backend) -> (r: Self)
        ensures
            r.spec_backend() == backend,
            r.spec_max_attempts() == DEFAULT_MAX_ATTEMPTS,
    {
        Connector { backend, max_attempts: DEFAULT_MAX_ATTEMPTS }
    }

    /// A local-directory connector.
    #[must_use]
    pub fn local(c: LocalConnector) -> (r: Self)
        ensures
            r.spec_backend() == Backend::Local(c),
            r.spec_max_attempts() == DEFAULT_MAX_ATTEMPTS,
    {
        Connector::wrap(Backend::Local(c))
    }

    /// An S3 connector.
    #[must_use]
    pub fn s3(c: S3Config) -> (r: Self)
        ensures
            r.spec_backend() == Backend::S3(c),
            r.spec_max_attempts() == DEFAULT_MAX_ATTEMPTS,
    {
        Connector::wrap(Backend::S3(c))
    }

    /// An SFTP connector.
    #[must_use]
    pub fn sftp(c: SftpConnector) -> (r: Self)
        ensures
            r.spec_backend() == Backend::Sftp(c),
            r.spec_max_attempts() == DEFAULT_MAX_ATTEMPTS,
    {
        Connector::wrap(Backend::Sftp(c))
    }

    /// Set the number of attempts (clamped to at least 1) for transient failures.
    #[must_use]
    pub fn with_max_attempts(self, attempts: u32) -> (r: Self)
        ensures
            r.spec_backend() == self.spec_backend(),
            r.spec_max_attempts() == (if attempts == 0 {
                1
            } else {
                attempts
            }),
    {
        let max_attempts: u32 = if attempts == 0 {
            1
        } else {
            attempts
        };
        Connector { backend: self.backend, max_attempts }
    }

    /// The backend.
    #[must_use]
    pub fn backend(&self) -> (r: &Backend)
        ensures
            *r == self.spec_backend(),
    {
        &self.backend
    }

    /// Backend kind.
    #[must_use]
    pub fn kind(&self) -> (r: &'static str)
        ensures
            r@ == (match self.spec_backend() {
                Backend::Local(_) => "local"@,
                Backend::S3(_) => "s3"@,
                Backend::Sftp(_) => "sftp"@,
            }),
    {
        match &self.backend {
            Backend::Local(_) => "local",
            Backend::S3(_) => "s3",
            Backend::Sftp(_) => "sftp",
        }
    }

    /// Start an operation: its first attempt.
    #[must_use]
    pub fn attempts(&self) -> (r: Attempts)
        ensures
            r == (Attempts {
                attempt: 1,
                max_attempts: self.spec_max_attempts(),
                delay_ms: RETRY_BASE_DELAY,
            }),
    {
        Attempts { attempt: 1, max_attempts: self.max_attempts, delay_ms: RETRY_BASE_DELAY }
    }
}

/// Attempts of one operation.
#[derive(Debug, Clone, Copy, PartialEq, Eq, Structural)]
pub struct Attempts {
    /// Number of the attempt under way.
    pub attempt: u32,
    /// Attempts in all.
    pub max_attempts: u32,
    /// Milliseconds to wait before the next one.
    pub delay_ms: u64,
}

/// Twice a number, up to the largest machine number.
pub open spec fn doubled(n: u64) -> u64 {
    if n <= u64::MAX / 2 {
        (2 * n) as u64
    } else {
        u64::MAX
    }
}

impl Attempts {
    /// The attempt under way failed: the milliseconds to wait before the next one, or `None` where
    /// it was the last.
    pub fn on_failure(&mut self) -> (r: Option<u64>)
        ensures
            if old(self).attempt < old(self).max_attempts {
                &&& r == Some(old(self).delay_ms)
                &&& *final(self) == (Attempts {
                    attempt: (old(self).attempt + 1) as u32,
                    delay_ms: doubled(old(self).delay_ms),
                    ..*old(self)
                })
            } else {
                r is None && *final(self) == *old(self)
            },
    {
        if self.attempt >= self.max_attempts {
            return None;
        }
        let wait: u64 = self.delay_ms;
        self.attempt = self.attempt + 1;
        self.delay_ms = wait.saturating_add(wait);
        Some(wait)
    }
}

/// Configuration of a connector, as it is stored.
#[derive(Debug, PartialEq, Eq)]
pub struct ConnectorConfig {
    /// Identifier.
    pub id: String,
    /// Kind (`s3`, `sftp`, anything else is local).
    pub kind: String,
    /// Bucket (S3).
    pub bucket: Option<String>,
    /// Region (S3).
    pub region: Option<String>,
    /// Endpoint (S3).
    pub endpoint: Option<String>,
    /// Access key id (S3).
    pub access_key: Option<String>,
    /// Secret access key (S3).
    pub secret_key: Option<String>,
    /// Path-style addressing (S3).
    pub path_style: bool,
    /// Host (SFTP).
    pub host: Option<String>,
    /// Port (SFTP), 0 for the default.
    pub port: u16,
    /// Username (SFTP).
    pub user: Option<String>,
    /// Password (SFTP).
    pub password: Option<String>,
    /// Base directory (SFTP, local).
    pub base_path: Option<String>,
}

/// Whether a connector is the one that a configuration asks for.
pub open spec fn configured(c: Connector, cfg: ConnectorConfig) -> bool {
    &&& c.spec_max_attempts() == DEFAULT_MAX_ATTEMPTS
    &&& match c.spec_backend() {
        Backend::S3(s) => {
            &&& cfg.kind@ == "s3"@
            &&& opt_text(cfg.bucket) == Some(s.bucket@)
            &&& opt_text(s.region) == opt_text(cfg.region)
            &&& opt_text(s.endpoint) == opt_text(cfg.endpoint)
            &&& opt_text(s.access_key) == opt_text(cfg.access_key)
            &&& opt_text(s.secret_key) == opt_text(cfg.secret_key)
            &&& s.path_style == cfg.path_style
        },
        Backend::Sftp(s) => {
            &&& cfg.kind@ == "sftp"@ && cfg.kind@ != "s3"@
            &&& opt_text(cfg.host) == Some(s.spec_config().host@)
            &&& s.spec_config().port == (if cfg.port == 0 {
                22
            } else {
                cfg.port
            })
            &&& s.spec_config().user@ == (match cfg.user {
                Some(u) => u@,
                None => Seq::empty(),
            })
            &&& opt_text(s.spec_config().password) == opt_text(cfg.password)
            &&& opt_text(s.spec_config().base_path) == opt_text(cfg.base_path)
        },
        Backend::Local(l) => {
            &&& cfg.kind@ != "s3"@ && cfg.kind@ != "sftp"@
            &&& l.spec_base() == (match cfg.base_path {
                Some(b) => b@,
                None => "/"@,
            })
        },
    }
}

/// Build a connector from its configuration.
pub fn from_config(cfg: &ConnectorConfig) -> (r: Result<Connector, ApiError>)
    ensures
        if cfg.kind@ == "s3"@ && non_empty(opt_text(cfg.bucket)) is None {
            r is Err && r->Err_0@ == ApiErrorV::bad_request("S3 connector needs a bucket"@)
        } else if cfg.kind@ != "s3"@ && cfg.kind@ == "sftp"@ && non_empty(opt_text(cfg.host)) is None {
            r is Err && r->Err_0@ == ApiErrorV::bad_request("SFTP connector needs a host"@)
        } else {
            r is Ok && configured(r->Ok_0, *cfg)
        },
{
    if same(cfg.kind.as_str(), "s3") {
        let bucket = match filled(&cfg.bucket) {
            Some(b) => b.to_owned(),
            None => {
                return Err(ApiError::bad_request("S3 connector needs a bucket".to_owned()));
            },
        };
        return Ok(
            Connector::s3(
                S3Config {
                    bucket,
                    region: copy_opt(&cfg.region),
                    endpoint: copy_opt(&cfg.endpoint),
                    access_key: copy_opt(&cfg.access_key),
                    secret_key: copy_opt(&cfg.secret_key),
                    path_style: cfg.path_style,
                },
            ),
        );
    }
    if same(cfg.kind.as_str(), "sftp") {
        let host = match filled(&cfg.host) {
            Some(h) => h.to_owned(),
            None => {
                return Err(ApiError::bad_request("SFTP connector needs a host".to_owned()));
            },
        };
        let user = match &cfg.user {
            Some(u) => u.clone(),
            None => String::new(),
        };
        return Ok(
            Connector::sftp(
                SftpConnector::new(
                    SftpConfig {
                        host,
                        port: if cfg.port == 0 {
                            22
                        } else {
                            cfg.port
                        },
                        user,
                        password: copy_opt(&cfg.password),
                        base_path: copy_opt(&cfg.base_path),
                    },
                ),
            ),
        );
    }
    let base = match &cfg.base_path {
        Some(b) => b.clone(),
        None => "/".to_owned(),
    };
    Ok(Connector::local(LocalConnector::new(base)))
}

/// Error of a connector that is not known.
#[must_use]
pub fn unknown_connector(id: &str) -> (r: ApiError)
    ensures
        r@ == ApiErrorV::not_found("connector '"@ + id@ + "' not found"@),
{
    ApiError::not_found(between("connector '", id, "' not found"))
}

// ---- laws ----

/// State of the attempts of an operation after a number of failures.
pub open spec fn after_failures(a: Attempts, n: nat) -> Attempts
    decreases n,
{
    if n == 0 {
        a
    } else {
        let b = after_failures(a, (n - 1) as nat);
        if b.attempt < b.max_attempts {
            Attempts { attempt: (b.attempt + 1) as u32, delay_ms: doubled(b.delay_ms), ..b }
        } else {
            b
        }
    }
}

/// An operation is tried as often as its policy says, and no more: the failure of attempt `n` is
/// followed by another attempt exactly where `n` is below the limit.
pub proof fn law_attempts_are_bounded(a: Attempts, n: nat)
    requires
        a.attempt == 1,
        a.max_attempts >= 1,
    ensures
        ({
            let b = after_failures(a, n);
            &&& b.max_attempts == a.max_attempts
            &&& b.attempt == (if n < a.max_attempts {
                n + 1
            } else {
                a.max_attempts as nat
            })
        }),
    decreases n,
{
    if n > 0 {
        law_attempts_are_bounded(a, (n - 1) as nat);
    }
}

/// The wait doubles with every failure: 200 ms, 400 ms, 800 ms and so on.
pub proof fn law_waits_double(a: Attempts, n: nat)
    requires
        a.attempt == 1,
        a.delay_ms == RETRY_BASE_DELAY,
        n < a.max_attempts,
        n <= 32,
    ensures
        after_failures(a, n).delay_ms == RETRY_BASE_DELAY * vstd::arithmetic::power2::pow2(n),
    decreases n,
{
    vstd::arithmetic::power2::lemma2_to64();
    if n > 0 {
        law_waits_double(a, (n - 1) as nat);
        law_attempts_are_bounded(a, (n - 1) as nat);
        vstd::arithmetic::power2::lemma_pow2_unfold(n);
        vstd::arithmetic::power2::lemma_pow2_strictly_increases((n - 1) as nat, 32);
    }
}

} // verus!
