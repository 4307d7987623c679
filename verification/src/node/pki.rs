//! Certificates: serial numbers and revocation, expiry and rotation, and the answers to failed
//! requests.

use crate::node::json::{
    array_of, count_member, count_of, elements, member, member_of, string_of_value, string_value,
    text_member, text_of,
};
use crate::node::model::comma;
use crate::service::http::{ApiError, ApiErrorV};
use crate::service::select::{any, selected, Criterion};
use crate::service::time::{parse_millis, rfc2822_instant, rfc2822_millis, rfc3339_millis};
use crate::text::{
    chars_of, hex_char, hex_pair, hex_text, lower, lower_char, opt_text, same, same_ignoring_case,
    string_of, to_lower_char, trim, trimmed,
};
use vstd::prelude::*;
use vstd::string::StringExecFns;

verus! {

// ---- serial numbers ----

/// Whether a character is a hexadecimal digit.
pub open spec fn hex_digit(c: char) -> bool {
    ('0' <= c && c <= '9') || ('a' <= c && c <= 'f') || ('A' <= c && c <= 'F')
}

/// A serial number as its hexadecimal digits in lower case; everything else is dropped.
pub open spec fn normalized(s: Seq<char>) -> Seq<char>
    decreases s.len(),
{
    if s.len() == 0 {
        Seq::empty()
    } else if hex_digit(s.last()) {
        normalized(s.drop_last()).push(lower_char(s.last()))
    } else {
        normalized(s.drop_last())
    }
}

fn digits_of(s: &str) -> (r: Vec<char>)
    ensures
        r@ == normalized(s@),
{
    let chars = chars_of(s);
    let mut out: Vec<char> = Vec::new();
    let mut i: usize = 0;
    proof {
        assert(s@.take(0) =~= Seq::empty());
    }
    while i < chars.len()
        invariant
            i <= chars.len(),
            chars@ == s@,
            out@ == normalized(s@.take(i as int)),
        decreases chars.len() - i,
    {
        proof {
            assert(s@.take(i + 1).drop_last() =~= s@.take(i as int));
            assert(s@.take(i + 1).last() == s@[i as int]);
        }
        let c = chars[i];
        if ('0' <= c && c <= '9') || ('a' <= c && c <= 'f') || ('A' <= c && c <= 'F') {
            out.push(to_lower_char(c));
        }
        i += 1;
    }
    proof {
        assert(s@.take(i as int) =~= s@);
    }
    out
}

/// A serial number as its hexadecimal digits in lower case (colons, blanks and the like dropped).
#[must_use]
pub fn normalize_serial(s: &str) -> (r: String)
    ensures
        r@ == normalized(s@),
{
    let digits = digits_of(s);
    string_of(digits.as_slice())
}

/// Value of a hexadecimal digit in lower case.
pub open spec fn digit_value(c: char) -> u8 {
    if '0' <= c && c <= '9' {
        (c as u8 - 48) as u8
    } else if 'a' <= c && c <= 'f' {
        (c as u8 - 87) as u8
    } else {
        0
    }
}

fn value_of_digit(c: char) -> (r: u8)
    ensures
        r == digit_value(c),
        r < 16,
{
    if '0' <= c && c <= '9' {
        c as u8 - 48
    } else if 'a' <= c && c <= 'f' {
        c as u8 - 87
    } else {
        0
    }
}

/// Bytes of a serial number: its digits in pairs. One without digits, or with an odd number of
/// them, has none.
pub open spec fn serial_bytes(s: Seq<char>) -> Option<Seq<u8>> {
    let h = normalized(s);
    if h.len() == 0 || h.len() % 2 != 0 {
        None
    } else {
        Some(pair_values(h))
    }
}

/// Values of digits in pairs.
pub open spec fn pair_values(h: Seq<char>) -> Seq<u8> {
    Seq::new(
        h.len() / 2,
        |i: int| (16 * digit_value(h[2 * i]) + digit_value(h[2 * i + 1])) as u8,
    )
}

/// Bytes of a serial number.
#[must_use]
pub fn hex_to_bytes(hex: &str) -> (r: Option<Vec<u8>>)
    ensures
        crate::message::opt_vec(r) == serial_bytes(hex@),
{
    let h = digits_of(hex);
    if h.len() == 0 || h.len() % 2 != 0 {
        return None;
    }
    let mut out: Vec<u8> = Vec::new();
    let mut i: usize = 0;
    while i < h.len()
        invariant
            i <= h.len(),
            i % 2 == 0,
            h.len() % 2 == 0,
            h@ == normalized(hex@),
            out@.len() == i / 2,
            forall|j: int| 0 <= j < out@.len() ==> #[trigger] out@[j] == pair_values(h@)[j],
        decreases h.len() - i,
    {
        let hi: u8 = value_of_digit(h[i]);
        let lo: u8 = value_of_digit(h[i + 1]);
        out.push(16 * hi + lo);
        proof {
            assert(2 * (i / 2) == i);
            assert(out@[(i / 2) as int] == pair_values(h@)[(i / 2) as int]);
        }
        i += 2;
    }
    proof {
        assert(out@ =~= pair_values(h@));
    }
    Some(out)
}

/// A revoked-certificate record.
#[derive(Debug, PartialEq, Eq)]
pub struct RevokedEntry {
    /// Serial number (hex).
    pub serial: String,
    /// Revocation time (RFC 3339).
    pub revoked_at: String,
}

/// Records of a serial number.
#[derive(Debug)]
pub struct OfSerial<'a> {
    /// Normalized serial number.
    pub serial: &'a str,
}

impl<'a> Criterion<RevokedEntry> for OfSerial<'a> {
    open spec fn passes(&self, e: RevokedEntry) -> bool {
        e.serial@ == self.serial@
    }

    fn test(&self, e: &RevokedEntry) -> (r: bool) {
        same(e.serial.as_str(), self.serial)
    }
}

/// Whether a serial number is on the list.
pub open spec fn is_revoked(list: Seq<RevokedEntry>, serial: Seq<char>) -> bool {
    exists|i: int| 0 <= i < list.len() && (#[trigger] list[i]).serial@ == serial
}

/// Put a serial number on the list, unless it is there. Tells whether the list has changed.
pub fn revoke(list: &mut Vec<RevokedEntry>, serial: &str, now: String) -> (r: Result<bool, String>)
    ensures
        if normalized(serial@).len() == 0 {
            r is Err && r->Err_0@ == "invalid serial"@ && final(list)@ == old(list)@
        } else if is_revoked(old(list)@, normalized(serial@)) {
            r == Ok::<bool, String>(false) && final(list)@ == old(list)@
        } else {
            &&& r == Ok::<bool, String>(true)
            &&& final(list)@.len() == old(list)@.len() + 1
            &&& final(list)@.drop_last() == old(list)@
            &&& final(list)@.last().serial@ == normalized(serial@)
            &&& final(list)@.last().revoked_at == now
        },
{
    let norm = normalize_serial(serial);
    if norm.as_str().is_empty() {
        return Err("invalid serial".to_owned());
    }
    let known = {
        let c = OfSerial { serial: norm.as_str() };
        any(&c, list)
    };
    if known {
        return Ok(false);
    }
    list.push(RevokedEntry { serial: norm, revoked_at: now });
    proof {
        assert(list@.drop_last() =~= old(list)@);
    }
    Ok(true)
}

/// Whole seconds of a number of milliseconds, towards zero.
pub open spec fn whole_seconds(ms: i64) -> i64 {
    if ms >= 0 {
        (ms / 1000) as i64
    } else {
        (-((-ms) / 1000)) as i64
    }
}

fn seconds_of(ms: i64) -> (r: i64)
    requires
        ms > i64::MIN,
    ensures
        r == whole_seconds(ms),
{
    if ms >= 0 {
        ms / 1000
    } else {
        -((-ms) / 1000)
    }
}

/// Seconds since the epoch of a revocation; zero where its time cannot be read.
#[must_use]
pub fn revoked_seconds(e: &RevokedEntry) -> (r: i64)
    ensures
        r == (match rfc3339_millis(e.revoked_at@) {
            Some(ms) => whole_seconds(ms),
            None => 0,
        }),
{
    match parse_millis(e.revoked_at.as_str()) {
        Some(ms) => seconds_of(ms),
        None => 0,
    }
}

/// The entries of a revocation list: the serial numbers that have bytes, each with its time.
pub open spec fn crl_entries(list: Seq<RevokedEntry>) -> Seq<(Seq<u8>, i64)>
    decreases list.len(),
{
    if list.len() == 0 {
        Seq::empty()
    } else {
        let front = crl_entries(list.drop_last());
        let e = list.last();
        match serial_bytes(e.serial@) {
            Some(b) => front.push(
                (
                    b,
                    match rfc3339_millis(e.revoked_at@) {
                        Some(ms) => whole_seconds(ms),
                        None => 0,
                    },
                ),
            ),
            None => front,
        }
    }
}

/// Value of the entries of a revocation list.
pub open spec fn entries_view(v: Seq<(Vec<u8>, i64)>) -> Seq<(Seq<u8>, i64)> {
    v.map_values(|e: (Vec<u8>, i64)| (e.0@, e.1))
}

/// The entries of a revocation list.
#[must_use]
pub fn build_crl_entries(list: &Vec<RevokedEntry>) -> (r: Vec<(Vec<u8>, i64)>)
    ensures
        entries_view(r@) == crl_entries(list@),
{
    let mut out: Vec<(Vec<u8>, i64)> = Vec::new();
    let mut i: usize = 0;
    proof {
        assert(list@.take(0) =~= Seq::empty());
        assert(entries_view(out@) =~= Seq::empty());
    }
    while i < list.len()
        invariant
            i <= list.len(),
            entries_view(out@) == crl_entries(list@.take(i as int)),
        decreases list.len() - i,
    {
        proof {
            assert(list@.take(i + 1).drop_last() =~= list@.take(i as int));
            assert(list@.take(i + 1).last() == list@[i as int]);
        }
        match hex_to_bytes(list[i].serial.as_str()) {
            Some(b) => {
                let at: i64 = revoked_seconds(&list[i]);
                let ghost before = entries_view(out@);
                let ghost bv = b@;
                out.push((b, at));
                proof {
                    assert(entries_view(out@) =~= before.push((bv, at)));
                }
            },
            None => {},
        }
        i += 1;
    }
    proof {
        assert(list@.take(i as int) =~= list@);
    }
    out
}

// ---- expiry and rotation ----

/// A keystore and the end of its certificate (RFC 2822).
#[derive(Debug, PartialEq, Eq)]
pub struct KeystoreExpiry {
    /// Name.
    pub name: String,
    /// End of validity.
    pub not_after: String,
}

/// Milliseconds of a day.
pub const DAY_MILLIS: i64 = 86_400_000;

/// Keystores whose certificate ends by a time.
#[derive(Debug)]
pub struct ExpiringBy {
    /// The time.
    pub horizon: i64,
}

impl Criterion<KeystoreExpiry> for ExpiringBy {
    open spec fn passes(&self, k: KeystoreExpiry) -> bool {
        rfc2822_instant(k.not_after@) matches Some(ms) && ms <= self.horizon
    }

    fn test(&self, k: &KeystoreExpiry) -> (r: bool) {
        match rfc2822_millis(k.not_after.as_str()) {
            Some(ms) => ms <= self.horizon,
            None => false,
        }
    }
}

/// The keystores whose certificate ends within a number of days.
#[must_use]
pub fn expiring_keystores(all: Vec<KeystoreExpiry>, now: i64, days: i64) -> (r: Vec<KeystoreExpiry>)
    requires
        i64::MIN <= days * DAY_MILLIS <= i64::MAX,
        i64::MIN <= now + days * DAY_MILLIS <= i64::MAX,
    ensures
        r@ == selected(
            ExpiringBy { horizon: (now + days * DAY_MILLIS) as i64 },
            all@,
            usize::MAX as nat,
        ),
{
    let c = ExpiringBy { horizon: now + days * DAY_MILLIS };
    crate::service::select::select(&c, all, usize::MAX)
}

/// Common name in the parts of a subject: what follows the first `CN=`.
pub open spec fn common_name(subject: Seq<char>) -> Option<Seq<char>>
    decreases subject.len(),
    via common_name_shrinks
{
    let i = comma(subject);
    let part = trimmed(subject.take(i));
    if part.len() >= 3 && part[0] == 'C' && part[1] == 'N' && part[2] == '=' {
        Some(part.skip(3))
    } else if i < subject.len() {
        common_name(subject.skip(i + 1))
    } else {
        None
    }
}

#[via_fn]
proof fn common_name_shrinks(subject: Seq<char>) {
    crate::node::model::lemma_comma(subject);
}

/// Common name of a subject; the subject itself where it has none.
#[must_use]
pub fn cn_of(subject: &str) -> (r: String)
    ensures
        r@ == (match common_name(subject@) {
            Some(n) => n,
            None => subject@,
        }),
{
    let chars = chars_of(subject);
    let mut at: usize = 0;
    proof {
        assert(subject@.skip(0) =~= subject@);
    }
    loop
        invariant
            at <= chars.len(),
            chars@ == subject@,
            common_name(subject@) == common_name(subject@.skip(at as int)),
        decreases chars.len() - at,
    {
        let ghost rest = subject@.skip(at as int);
        let mut end: usize = at;
        proof {
            assert(rest.skip(0) =~= rest);
        }
        while end < chars.len() && chars[end] != ','
            invariant
                at <= end <= chars.len(),
                chars@ == subject@,
                rest == subject@.skip(at as int),
                comma(rest) == end - at + comma(rest.skip(end - at)),
            decreases chars.len() - end,
        {
            proof {
                assert(rest.skip(end - at).skip(1) =~= rest.skip(end + 1 - at));
                assert(rest.skip(end - at)[0] == subject@[end as int]);
            }
            end += 1;
        }
        proof {
            if end < chars.len() {
                assert(rest.skip(end - at)[0] == subject@[end as int]);
            }
            assert(comma(rest) == end - at);
        }
        let part = string_of(vstd::slice::slice_subrange(chars.as_slice(), at, end));
        let text = trim(part.as_str());
        proof {
            assert(part@ =~= rest.take(end - at));
        }
        let t = chars_of(text.as_str());
        if t.len() >= 3 && t[0] == 'C' && t[1] == 'N' && t[2] == '=' {
            let r = string_of(vstd::slice::slice_subrange(t.as_slice(), 3, t.len()));
            proof {
                assert(r@ =~= trimmed(rest.take(end - at)).skip(3));
            }
            return r;
        }
        if end == chars.len() {
            return subject.to_owned();
        }
        proof {
            assert(rest.skip(end - at + 1) =~= subject@.skip(end + 1));
        }
        at = end + 1;
    }
}

/// How a keystore was issued, as far as that was recorded.
#[derive(Debug, PartialEq, Eq)]
pub struct IssueRecord {
    /// Backend.
    pub backend: Option<String>,
    /// Common name.
    pub common_name: Option<String>,
    /// Alternative names.
    pub sans: Option<Vec<String>>,
    /// Days of validity.
    pub ttl_days: Option<u64>,
}

/// Strings among documents, in their order.
pub open spec fn strings_in(list: Seq<serde_json::Value>) -> Seq<Seq<char>>
    decreases list.len(),
{
    if list.len() == 0 {
        Seq::empty()
    } else {
        match string_value(list.last()) {
            Some(t) => strings_in(list.drop_last()).push(t),
            None => strings_in(list.drop_last()),
        }
    }
}

/// Values of strings.
pub open spec fn strings_view(l: Seq<String>) -> Seq<Seq<char>> {
    l.map_values(|t: String| t@)
}

fn read_strings(list: &[serde_json::Value]) -> (r: Vec<String>)
    ensures
        strings_view(r@) == strings_in(list@),
{
    let mut out: Vec<String> = Vec::new();
    let mut i: usize = 0;
    proof {
        assert(list@.take(0) =~= Seq::empty());
        assert(strings_view(out@) =~= Seq::empty());
    }
    while i < list.len()
        invariant
            i <= list.len(),
            strings_view(out@) == strings_in(list@.take(i as int)),
        decreases list.len() - i,
    {
        let ghost before = out@;
        proof {
            assert(list@.take(i + 1).drop_last() =~= list@.take(i as int));
            assert(list@.take(i + 1).last() == list@[i as int]);
        }
        match string_of_value(&list[i]) {
            Some(t) => {
                out.push(t);
                proof {
                    assert(strings_view(out@) =~= strings_view(before).push(out@.last()@));
                }
            },
            None => {},
        }
        i += 1;
    }
    proof {
        assert(list@.take(i as int) =~= list@);
    }
    out
}

/// How a keystore was issued, as its record says. A keystore without a record says nothing; the
/// alternative names are those that are texts.
#[must_use]
pub fn issue_record(doc: Option<&serde_json::Value>) -> (r: IssueRecord)
    ensures
        ({
            let v = match doc {
                Some(d) => Some(*d),
                None => None,
            };
            let names = match member_of(v, "sans"@) {
                Some(m) => elements(m),
                None => None,
            };
            &&& opt_text(r.backend) == text_of(v, "backend"@)
            &&& opt_text(r.common_name) == text_of(v, "commonName"@)
            &&& match names {
                Some(l) => r.sans is Some && strings_view(r.sans->0@) == strings_in(l),
                None => r.sans is None,
            }
            &&& r.ttl_days == count_of(v, "ttlDays"@)
        }),
{
    match doc {
        None => IssueRecord { backend: None, common_name: None, sans: None, ttl_days: None },
        Some(d) => {
            let names = match member(d, "sans") {
                Some(m) => array_of(m),
                None => None,
            };
            IssueRecord {
                backend: text_member(d, "backend"),
                common_name: text_member(d, "commonName"),
                sans: match names {
                    Some(l) => Some(read_strings(l)),
                    None => None,
                },
                ttl_days: count_member(d, "ttlDays"),
            }
        },
    }
}

/// A request for a certificate.
#[derive(Debug, PartialEq, Eq)]
pub struct CertRequest {
    /// Common name.
    pub common_name: String,
    /// Alternative names.
    pub sans: Vec<String>,
    /// Days of validity.
    pub ttl_days: u32,
    /// For a CA.
    pub is_ca: bool,
    /// For TLS servers.
    pub server_auth: bool,
    /// For TLS clients.
    pub client_auth: bool,
    /// Organization.
    pub organization: Option<String>,
}

/// Days of validity where none were recorded.
pub const DEFAULT_TTL_DAYS: u64 = 365;

/// The request that renews a keystore: its recorded identity, else that of its certificate; and the
/// backend to send it to.
#[must_use]
pub fn rotation_request(meta: IssueRecord, subject: &str, sans: Vec<String>) -> (r: (
    String,
    CertRequest,
))
    ensures
        r.0@ == (match meta.backend {
            Some(b) => b@,
            None => "local"@,
        }),
        r.1.common_name@ == (match meta.common_name {
            Some(n) => n@,
            None => match common_name(subject@) {
                Some(n) => n,
                None => subject@,
            },
        }),
        r.1.sans == (match meta.sans {
            Some(s) => s,
            None => sans,
        }),
        r.1.ttl_days == (match meta.ttl_days {
            Some(n) => n as u32,
            None => DEFAULT_TTL_DAYS as u32,
        }),
        !r.1.is_ca && r.1.server_auth && r.1.client_auth,
        r.1.organization is None,
{
    let backend = match meta.backend {
        Some(b) => b,
        None => "local".to_owned(),
    };
    let name = match meta.common_name {
        Some(n) => n,
        None => cn_of(subject),
    };
    let ttl: u64 = meta.ttl_days.unwrap_or(DEFAULT_TTL_DAYS);
    let request = CertRequest {
        common_name: name,
        sans: match meta.sans {
            Some(s) => s,
            None => sans,
        },
        ttl_days: #[verifier::truncate] (ttl as u32),
        is_ca: false,
        server_auth: true,
        client_auth: true,
        organization: None,
    };
    (backend, request)
}

/// Whether a backend name stands for the vault; the local CA issues otherwise.
#[must_use]
pub fn is_vault(backend: &str) -> (r: bool)
    ensures
        r == (lower(backend@) == lower("vault"@)),
{
    same_ignoring_case(backend, "vault")
}

// ---- answers ----

/// Failures of certificate operations that are told apart.
#[derive(Debug, PartialEq, Eq)]
pub enum PkiFault {
    /// There is no local CA.
    NoCa,
    /// The vault refused.
    Vault(String),
    /// Anything else.
    Other(String),
}

/// Answer to a request that failed.
#[must_use]
pub fn map_pki(e: PkiFault) -> (r: ApiError)
    ensures
        r@ == (match e {
            PkiFault::NoCa => ApiErrorV::bad_request(
                "no local CA configured \u{2014} generate one first"@,
            ),
            PkiFault::Vault(m) => ApiErrorV::bad_request("vault: "@ + m@),
            PkiFault::Other(m) => ApiErrorV::internal(m@),
        }),
{
    match e {
        PkiFault::NoCa => ApiError::bad_request(
            "no local CA configured \u{2014} generate one first".to_owned(),
        ),
        PkiFault::Vault(m) => {
            let mut text = "vault: ".to_owned();
            text.append(m.as_str());
            ApiError::bad_request(text)
        },
        PkiFault::Other(m) => ApiError::internal(m),
    }
}

/// Failures of the certificate store that are told apart.
#[derive(Debug, PartialEq, Eq)]
pub enum StoreFault {
    /// A name is not valid.
    Name(String),
    /// A keystore lacks its certificate or its key.
    MissingKey,
    /// A certificate cannot be read.
    Cert(String),
    /// Storage failed.
    Io(String),
}

/// Answer to a request that failed.
#[must_use]
pub fn map_store(e: StoreFault) -> (r: ApiError)
    ensures
        r@ == (match e {
            StoreFault::Name(n) => ApiErrorV::bad_request("invalid name '"@ + n@ + "'"@),
            StoreFault::MissingKey => ApiErrorV::bad_request(
                "a keystore needs both a certificate and a private key"@,
            ),
            StoreFault::Cert(c) => ApiErrorV::bad_request(c@),
            StoreFault::Io(m) => ApiErrorV::internal(m@),
        }),
{
    match e {
        StoreFault::Name(n) => ApiError::bad_request(
            crate::service::http::between("invalid name '", n.as_str(), "'"),
        ),
        StoreFault::MissingKey => ApiError::bad_request(
            "a keystore needs both a certificate and a private key".to_owned(),
        ),
        StoreFault::Cert(c) => ApiError::bad_request(c),
        StoreFault::Io(m) => ApiError::internal(m),
    }
}

// ---- laws ----

/// Normalizing a serial number twice changes nothing: a normalized one has only lower-case digits.
pub proof fn law_serials_are_normal(s: Seq<char>)
    ensures
        normalized(normalized(s)) == normalized(s),
        forall|i: int|
            0 <= i < normalized(s).len() ==> hex_digit(#[trigger] normalized(s)[i]) && lower_char(
                normalized(s)[i],
            ) == normalized(s)[i],
    decreases s.len(),
{
    if s.len() > 0 {
        law_serials_are_normal(s.drop_last());
        if hex_digit(s.last()) {
            let n = normalized(s);
            assert(n.drop_last() =~= normalized(s.drop_last()));
        }
    }
}

/// The hexadecimal form of a byte string is read back to it.
pub proof fn law_serials_round_trip(bytes: Seq<u8>)
    requires
        bytes.len() > 0,
    ensures
        serial_bytes(hex_text(bytes)) == Some(bytes),
{
    lemma_hex_form(bytes);
    let h = hex_text(bytes);
    lemma_normal_stays(h);
    assert(pair_values(h) =~= bytes);
}

proof fn lemma_digit(d: nat)
    requires
        d < 16,
    ensures
        hex_digit(hex_char(d)),
        lower_char(hex_char(d)) == hex_char(d),
        digit_value(hex_char(d)) == d,
{
}

proof fn lemma_hex_form(bytes: Seq<u8>)
    ensures
        hex_text(bytes).len() == 2 * bytes.len(),
        forall|i: int|
            0 <= i < hex_text(bytes).len() ==> hex_digit(#[trigger] hex_text(bytes)[i])
                && lower_char(hex_text(bytes)[i]) == hex_text(bytes)[i],
        forall|i: int|
            #![trigger bytes[i]]
            0 <= i < bytes.len() ==> bytes[i] == 16 * digit_value(hex_text(bytes)[2 * i])
                + digit_value(hex_text(bytes)[2 * i + 1]),
    decreases bytes.len(),
{
    if bytes.len() > 0 {
        let front = bytes.drop_last();
        lemma_hex_form(front);
        let b = bytes.last();
        lemma_digit((b / 16) as nat);
        lemma_digit((b % 16) as nat);
        let h = hex_text(bytes);
        let g = hex_text(front);
        assert(h == g + hex_pair(b));
        assert forall|i: int| 0 <= i < h.len() implies hex_digit(#[trigger] h[i]) && lower_char(
            h[i],
        ) == h[i] by {
            if i < g.len() {
                assert(h[i] == g[i]);
            } else {
                assert(h[i] == hex_pair(b)[i - g.len()]);
            }
        }
        assert forall|i: int| #![trigger bytes[i]] 0 <= i < bytes.len() implies bytes[i] == 16
            * digit_value(h[2 * i]) + digit_value(h[2 * i + 1]) by {
            if i < front.len() {
                assert(bytes[i] == front[i]);
                assert(h[2 * i] == g[2 * i] && h[2 * i + 1] == g[2 * i + 1]);
            } else {
                assert(h[2 * i] == hex_pair(b)[0] && h[2 * i + 1] == hex_pair(b)[1]);
            }
        }
    }
}

proof fn lemma_normal_stays(h: Seq<char>)
    requires
        forall|i: int|
            0 <= i < h.len() ==> hex_digit(#[trigger] h[i]) && lower_char(h[i]) == h[i],
    ensures
        normalized(h) == h,
    decreases h.len(),
{
    if h.len() > 0 {
        let f = h.drop_last();
        assert forall|i: int| 0 <= i < f.len() implies hex_digit(#[trigger] f[i]) && lower_char(
            f[i],
        ) == f[i] by {
            assert(f[i] == h[i]);
        }
        lemma_normal_stays(f);
        assert(h.last() == h[h.len() - 1]);
        assert(f.push(h.last()) =~= h);
    } else {
        assert(normalized(h) =~= h);
    }
}

} // verus!
