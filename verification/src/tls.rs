//! TLS settings of PeSIT connections.

use crate::article::byte_strings;
use crate::text::{chars_of, lower, lower_char, to_lower_char};
use vstd::prelude::*;
use vstd::string::StringExecFns;

verus! {

/// TLS protocol versions.
#[derive(Debug, Clone, Copy, PartialEq, Eq, Structural)]
pub enum TlsVersion {
    /// TLS 1.2.
    V1_2,
    /// TLS 1.3.
    V1_3,
}

/// TLS client (requester side) settings.
#[derive(Debug, PartialEq, Eq)]
pub struct TlsClientSettings {
    /// PEM file with the CA certificates used to verify the server (system roots when absent).
    pub ca_file: Option<String>,
    /// PEM file with the client certificate chain (mutual TLS).
    pub cert_file: Option<String>,
    /// PEM file with the client private key (mutual TLS).
    pub key_file: Option<String>,
    /// Verify that the server certificate matches the host name (default true).
    pub verify_hostname: Option<bool>,
    /// Skip certificate verification altogether (testing only).
    pub insecure: bool,
    /// Minimum TLS version (default 1.2).
    pub min_version: Option<TlsVersion>,
}

impl Default for TlsClientSettings {
    fn default() -> (r: Self)
        ensures
            r.ca_file is None && r.cert_file is None && r.key_file is None,
            r.verify_hostname is None && !r.insecure && r.min_version is None,
    {
        TlsClientSettings {
            ca_file: None,
            cert_file: None,
            key_file: None,
            verify_hostname: None,
            insecure: false,
            min_version: None,
        }
    }
}

/// How a TLS client judges the certificate of a server.
#[derive(Debug, Clone, Copy, PartialEq, Eq, Structural)]
pub enum ServerCheck {
    /// Not at all.
    Nothing,
    /// The chain, and that it names the host.
    ChainAndName,
    /// The chain only.
    Chain,
}

impl TlsClientSettings {
    /// How the certificate of the server is judged.
    #[must_use]
    pub fn server_check(&self) -> (r: ServerCheck)
        ensures
            r == (if self.insecure {
                ServerCheck::Nothing
            } else if self.verify_hostname == Some(false) {
                ServerCheck::Chain
            } else {
                ServerCheck::ChainAndName
            }),
    {
        if self.insecure {
            ServerCheck::Nothing
        } else {
            match self.verify_hostname {
                Some(false) => ServerCheck::Chain,
                _ => ServerCheck::ChainAndName,
            }
        }
    }

    /// Whether the client shows a certificate: it needs both the certificate and its key.
    #[must_use]
    pub fn shows_certificate(&self) -> (r: bool)
        ensures
            r == (self.cert_file is Some && self.key_file is Some),
    {
        self.cert_file.is_some() && self.key_file.is_some()
    }
}

/// TLS server (responder side) settings.
#[derive(Debug, PartialEq, Eq)]
pub struct TlsServerSettings {
    /// PEM file with the server certificate chain.
    pub cert_file: String,
    /// PEM file with the server private key.
    pub key_file: String,
    /// PEM file with the CA certificates used to verify client certificates.
    pub ca_file: Option<String>,
    /// Require a client certificate (mutual TLS).
    pub require_client_cert: bool,
    /// Minimum TLS version (default 1.2).
    pub min_version: Option<TlsVersion>,
}

impl Default for TlsServerSettings {
    fn default() -> (r: Self)
        ensures
            r.cert_file@ == ""@ && r.key_file@ == ""@ && r.ca_file is None,
            !r.require_client_cert && r.min_version is None,
    {
        TlsServerSettings {
            cert_file: "".to_owned(),
            key_file: "".to_owned(),
            ca_file: None,
            require_client_cert: false,
            min_version: None,
        }
    }
}

/// Whether only TLS 1.3 is spoken; TLS 1.2 is spoken too otherwise.
#[verifier::allow_in_spec]
#[must_use]
pub fn tls13_only(min: Option<TlsVersion>) -> bool
    returns
        min == Some(TlsVersion::V1_3),
{
    match min {
        Some(TlsVersion::V1_3) => true,
        _ => false,
    }
}

// ---- file names ----

/// Position behind the last `/`.
pub open spec fn behind_slash(s: Seq<char>) -> int
    decreases s.len(),
{
    if s.len() == 0 {
        0
    } else if s.last() == '/' {
        s.len() as int
    } else {
        behind_slash(s.drop_last())
    }
}

proof fn lemma_behind_slash(s: Seq<char>)
    ensures
        0 <= behind_slash(s) <= s.len(),
        behind_slash(s) > 0 ==> s[behind_slash(s) - 1] == '/',
    decreases s.len(),
{
    if s.len() > 0 && s.last() != '/' {
        lemma_behind_slash(s.drop_last());
    }
}

/// File name of a path: its last component, where empty components and `.` do not count. A path
/// whose last component is `..` has none.
pub open spec fn file_name(path: Seq<char>) -> Option<Seq<char>>
    decreases path.len(),
    via file_name_shrinks
{
    let at = behind_slash(path);
    let last = path.skip(at);
    if last.len() == 0 || last == seq!['.'] {
        if at == 0 {
            None
        } else {
            file_name(path.take(at - 1))
        }
    } else if last == seq!['.', '.'] {
        None
    } else {
        Some(last)
    }
}

#[via_fn]
proof fn file_name_shrinks(path: Seq<char>) {
    lemma_behind_slash(path);
}

/// Position of the last `.`, if there is one.
pub open spec fn last_dot(s: Seq<char>) -> Option<int>
    decreases s.len(),
{
    if s.len() == 0 {
        None
    } else if s.last() == '.' {
        Some(s.len() - 1)
    } else {
        last_dot(s.drop_last())
    }
}

/// Extension of a path: what follows the last `.` of its file name, unless that is its first
/// character.
pub open spec fn extension(path: Seq<char>) -> Option<Seq<char>> {
    match file_name(path) {
        None => None,
        Some(name) => match last_dot(name) {
            None => None,
            Some(i) => if i == 0 {
                None
            } else {
                Some(name.skip(i + 1))
            },
        },
    }
}

/// Whether a path looks like a PEM file.
pub open spec fn spec_is_pem(path: Seq<char>) -> bool {
    match extension(path) {
        Some(e) => lower(e) == seq!['p', 'e', 'm'] || lower(e) == seq!['c', 'r', 't'] || lower(e)
            == seq!['k', 'e', 'y'],
        None => false,
    }
}

fn ends_with_word(chars: &Vec<char>, at: usize, end: usize, a: char, b: char, c: char) -> (r: bool)
    requires
        at <= end <= chars.len(),
    ensures
        r == (lower(chars@.subrange(at as int, end as int)) == seq![a, b, c]),
{
    let ghost e = lower(chars@.subrange(at as int, end as int));
    if end - at != 3 {
        proof {
            assert(e.len() == end - at);
        }
        return false;
    }
    let r = to_lower_char(chars[at]) == a && to_lower_char(chars[at + 1]) == b && to_lower_char(
        chars[at + 2],
    ) == c;
    proof {
        assert(e[0] == lower_char(chars@[at as int]));
        assert(e[1] == lower_char(chars@[at + 1]));
        assert(e[2] == lower_char(chars@[at + 2]));
        if r {
            assert(e =~= seq![a, b, c]);
        }
    }
    r
}

/// Whether a path looks like a PEM file (used by configuration validation).
#[must_use]
pub fn is_pem(path: &str) -> (r: bool)
    ensures
        r == spec_is_pem(path@),
{
    let chars = chars_of(path);
    let mut end: usize = chars.len();
    proof {
        assert(path@.take(end as int) =~= path@);
    }
    loop
        invariant
            end <= chars.len(),
            chars@ == path@,
            spec_is_pem(path@) == spec_is_pem(path@.take(end as int)),
        decreases end,
    {
        let ghost front = path@.take(end as int);
        let mut at: usize = end;
        proof {
            assert(front.take(at as int) =~= front);
        }
        while at > 0 && chars[at - 1] != '/'
            invariant
                at <= end <= chars.len(),
                chars@ == path@,
                front == path@.take(end as int),
                behind_slash(front) == behind_slash(front.take(at as int)),
            decreases at,
        {
            proof {
                assert(front.take(at as int).drop_last() =~= front.take(at - 1));
                assert(front.take(at as int).last() == path@[at - 1]);
            }
            at -= 1;
        }
        let ghost name = front.skip(at as int);
        proof {
            if at > 0 {
                assert(front.take(at as int).last() == path@[at - 1]);
            }
            assert(behind_slash(front) == at);
            assert(name =~= path@.subrange(at as int, end as int));
        }
        if at == end || (end - at == 1 && chars[at] == '.') {
            proof {
                assert(at != end ==> name =~= seq!['.']);
            }
            if at == 0 {
                return false;
            }
            proof {
                assert(front.take(at - 1) =~= path@.take(at - 1));
                lemma_same_extension(front);
            }
            end = at - 1;
            continue ;
        }
        if end - at == 2 && chars[at] == '.' && chars[at + 1] == '.' {
            proof {
                assert(name =~= seq!['.', '.']);
            }
            return false;
        }
        proof {
            if end - at == 1 {
                assert(name[0] != '.');
                assert(seq!['.'][0] == '.');
            }
            if end - at == 2 {
                assert(name[0] == path@[at as int] && name[1] == path@[at + 1]);
                assert(seq!['.', '.'][0] == '.' && seq!['.', '.'][1] == '.');
            }
            assert(file_name(front) == Some(name));
        }
        let mut dot: usize = end;
        proof {
            assert(name.take(dot - at) =~= name);
        }
        while dot > at && chars[dot - 1] != '.'
            invariant
                at <= dot <= end <= chars.len(),
                chars@ == path@,
                name == path@.subrange(at as int, end as int),
                last_dot(name) == last_dot(name.take(dot - at)),
            decreases dot,
        {
            proof {
                assert(name.take(dot - at).drop_last() =~= name.take(dot - at - 1));
                assert(name.take(dot - at).last() == path@[dot - 1]);
            }
            dot -= 1;
        }
        if dot <= at + 1 {
            proof {
                if dot == at + 1 {
                    assert(name.take(1).last() == path@[at as int]);
                } else {
                    assert(name.take(0) =~= Seq::<char>::empty());
                }
            }
            return false;
        }
        proof {
            assert(name.take(dot - at).last() == path@[dot - 1]);
            assert(last_dot(name) == Some(dot - at - 1));
            assert(name.skip(dot - at) =~= path@.subrange(dot as int, end as int));
        }
        return ends_with_word(&chars, dot, end, 'p', 'e', 'm') || ends_with_word(
            &chars,
            dot,
            end,
            'c',
            'r',
            't',
        ) || ends_with_word(&chars, dot, end, 'k', 'e', 'y');
    }
}

proof fn lemma_same_extension(path: Seq<char>)
    ensures
        ({
            let at = behind_slash(path);
            let last = path.skip(at);
            (last.len() == 0 || last == seq!['.']) && at > 0 ==> spec_is_pem(path) == spec_is_pem(
                path.take(at - 1),
            )
        }),
{
}

// ---- certificates and keys ----

/// Certificates in a PEM text, as rustls-pemfile reads it; `None` where it cannot be read.
pub uninterp spec fn pem_certificates(data: Seq<u8>) -> Option<Seq<Seq<u8>>>;

/// `rustls_pemfile::certs`: the DER bytes of the certificates in a PEM text, in their order, or
/// nothing where a section cannot be read.
#[verifier::external_body]
fn read_certs(data: &[u8]) -> (r: Option<Vec<Vec<u8>>>)
    ensures
        match r {
            Some(l) => pem_certificates(data@) == Some(byte_strings(l@)),
            None => pem_certificates(data@) is None,
        },
{
    let mut text = data;
    let all: Result<Vec<_>, _> = rustls_pemfile::certs(&mut text).collect();
    all.ok().map(|l| l.into_iter().map(|c| c.to_vec()).collect())
}

fn bad_pem(path: &str) -> (r: String)
    ensures
        r@ == "invalid PEM in "@ + path@,
{
    let mut text = "invalid PEM in ".to_owned();
    text.append(path);
    text
}

/// Certificates of a PEM file (DER).
pub fn parse_certs(path: &str, data: &[u8]) -> (r: Result<Vec<Vec<u8>>, String>)
    ensures
        match pem_certificates(data@) {
            Some(l) => r is Ok && byte_strings(r->Ok_0@) == l,
            None => r is Err && r->Err_0@ == "invalid PEM in "@ + path@,
        },
{
    match read_certs(data) {
        Some(l) => Ok(l),
        None => Err(bad_pem(path)),
    }
}

/// Encodings of a private key.
#[derive(Debug, Clone, Copy, PartialEq, Eq, Structural)]
pub enum KeyKind {
    /// PKCS#1 (RSA).
    Pkcs1,
    /// SEC1 (elliptic curves).
    Sec1,
    /// PKCS#8.
    Pkcs8,
    /// Another one.
    Other,
}

/// A private key: its encoding and its bytes.
#[derive(Debug, PartialEq, Eq)]
pub struct PrivateKey {
    /// Encoding.
    pub kind: KeyKind,
    /// DER bytes.
    pub der: Vec<u8>,
}

/// First private key in a PEM text, as rustls-pemfile reads it: `None` where a section before it
/// cannot be read, `Some(None)` where there is none.
pub uninterp spec fn pem_private_key(data: Seq<u8>) -> Option<Option<(KeyKind, Seq<u8>)>>;

/// A private key by its value.
pub open spec fn key_view(k: Option<PrivateKey>) -> Option<(KeyKind, Seq<u8>)> {
    match k {
        Some(k) => Some((k.kind, k.der@)),
        None => None,
    }
}

/// `rustls_pemfile::private_key`: the first private key in a PEM text, if there is one, or
/// nothing where a section before it cannot be read.
#[verifier::external_body]
fn read_private_key(data: &[u8]) -> (r: Option<Option<PrivateKey>>)
    ensures
        match r {
            Some(k) => pem_private_key(data@) == Some(key_view(k)),
            None => pem_private_key(data@) is None,
        },
{
    let mut text = data;
    let found = rustls_pemfile::private_key(&mut text).ok()?;
    Some(found.map(|k| PrivateKey {
        kind: match &k {
            rustls::pki_types::PrivateKeyDer::Pkcs1(_) => KeyKind::Pkcs1,
            rustls::pki_types::PrivateKeyDer::Sec1(_) => KeyKind::Sec1,
            rustls::pki_types::PrivateKeyDer::Pkcs8(_) => KeyKind::Pkcs8,
            _ => KeyKind::Other,
        },
        der: k.secret_der().to_vec(),
    }))
}

/// Private key of a PEM file.
pub fn parse_key(path: &str, data: &[u8]) -> (r: Result<PrivateKey, String>)
    ensures
        match pem_private_key(data@) {
            Some(Some((kind, der))) => r is Ok && r->Ok_0.kind == kind && r->Ok_0.der@ == der,
            _ => r is Err && r->Err_0@ == "invalid PEM in "@ + path@,
        },
{
    match read_private_key(data) {
        Some(Some(k)) => Ok(k),
        _ => Err(bad_pem(path)),
    }
}

// ---- server names ----

/// [`rustls::pki_types::ServerName`], a host name or an address to hold a certificate against.
#[verifier::external_type_specification]
#[verifier::external_body]
pub struct ExServerName<'a>(rustls::pki_types::ServerName<'a>);

/// Server name that a text is, as rustls reads it; `None` where it is none.
pub uninterp spec fn server_name_of(host: Seq<char>) -> Option<
    rustls::pki_types::ServerName<'static>,
>;

/// `rustls::pki_types::ServerName::try_from` on a text: the server name, or nothing where the text
/// is neither a host name nor an address.
#[verifier::external_body]
fn read_server_name(host: &str) -> (r: Option<rustls::pki_types::ServerName<'static>>)
    ensures
        r == server_name_of(host@),
{
    rustls::pki_types::ServerName::try_from(host.to_owned()).ok()
}

/// Parse a server name for SNI / verification.
pub fn server_name(host: &str) -> (r: Result<rustls::pki_types::ServerName<'static>, String>)
    ensures
        match server_name_of(host@) {
            Some(n) => r == Ok::<rustls::pki_types::ServerName<'static>, String>(n),
            None => r is Err && r->Err_0@ == "invalid server name "@ + host@,
        },
{
    match read_server_name(host) {
        Some(n) => Ok(n),
        None => {
            let mut text = "invalid server name ".to_owned();
            text.append(host);
            Err(text)
        },
    }
}

} // verus!
