//! Configuration backup and restore: which tables a backup carries, under which key a row is
//! restored, and when a signed bundle is trusted.

use crate::node::json::{
    json_text, member, member_of, remove_member, text_member, text_members, text_of,
    without_member, write_document,
};
use crate::service::http::{ApiError, ApiErrorV};
use crate::text::same;
use vstd::prelude::*;
use vstd::string::StringExecFns;

verus! {

/// Store tables carried in a backup (configuration only, not transfer records).
pub const CONFIG_TABLES: [&'static str; 9] = [
    "partners",
    "virtual_files",
    "remote_partners",
    "servers",
    "remote_servers",
    "client_partners",
    "connectors",
    "schedules",
    "pki",
];

/// Whether a backup carries a table.
pub open spec fn carried(table: Seq<char>) -> bool {
    ||| table == "partners"@
    ||| table == "virtual_files"@
    ||| table == "remote_partners"@
    ||| table == "servers"@
    ||| table == "remote_servers"@
    ||| table == "client_partners"@
    ||| table == "connectors"@
    ||| table == "schedules"@
    ||| table == "pki"@
}

/// Whether a backup carries a table.
#[must_use]
pub fn is_carried(table: &str) -> (r: bool)
    ensures
        r == carried(table@),
{
    same(table, "partners") || same(table, "virtual_files") || same(table, "remote_partners")
        || same(table, "servers") || same(table, "remote_servers") || same(table, "client_partners")
        || same(table, "connectors") || same(table, "schedules") || same(table, "pki")
}

/// Member that holds the key of a row of a table; `None` where all rows have one fixed key.
pub open spec fn key_field(table: Seq<char>) -> Option<Seq<char>> {
    if table == "servers"@ {
        Some("serverId"@)
    } else if table == "pki"@ {
        None
    } else {
        Some("id"@)
    }
}

/// Key of a row of a table, where it has one.
pub open spec fn spec_backup_key(table: Seq<char>, members: Map<Seq<char>, Seq<char>>) -> Option<
    Seq<char>,
> {
    match key_field(table) {
        None => Some("vault"@),
        Some(field) => if members.contains_key(field) {
            Some(members[field])
        } else {
            None
        },
    }
}

/// The store key for a row of `table` (id fields differ across tables).
#[must_use]
pub fn backup_key(table: &str, item: &serde_json::Value) -> (r: Option<String>)
    ensures
        crate::text::opt_text(r) == spec_backup_key(table@, text_members(*item)),
{
    if same(table, "servers") {
        return text_member(item, "serverId");
    }
    if same(table, "pki") {
        return Some("vault".to_owned());
    }
    text_member(item, "id")
}

// ---- signatures ----

/// Text that base64 writes for a byte string, in its standard alphabet with padding.
pub uninterp spec fn base64_text(data: Seq<u8>) -> Seq<char>;

/// Byte string that base64 reads from a text in its standard alphabet with padding, if it does.
pub uninterp spec fn base64_bytes(text: Seq<char>) -> Option<Seq<u8>>;

/// Longest byte string whose base64 form has a length that a machine number can hold.
pub open spec fn encodable(n: nat) -> bool {
    n <= usize::MAX / 2
}

/// `base64::Engine::encode` of the standard engine: the text of the bytes, which the same engine
/// reads back to those bytes.
#[verifier::external_body]
fn encode_base64(data: &[u8]) -> (r: String)
    requires
        encodable(data@.len()),
    ensures
        r@ == base64_text(data@),
        base64_bytes(r@) == Some(data@),
{
    base64::Engine::encode(&base64::engine::general_purpose::STANDARD, data)
}

/// `base64::Engine::decode` of the standard engine: the bytes of the text, or nothing where it is
/// not such a text.
#[verifier::external_body]
fn decode_base64(text: &str) -> (r: Option<Vec<u8>>)
    ensures
        crate::message::opt_vec(r) == base64_bytes(text@),
{
    base64::Engine::decode(&base64::engine::general_purpose::STANDARD, text).ok()
}

/// Written form of a signature.
#[must_use]
pub fn signature_text(signature: &[u8]) -> (r: String)
    requires
        encodable(signature@.len()),
    ensures
        r@ == base64_text(signature@),
        base64_bytes(r@) == Some(signature@),
{
    encode_base64(signature)
}

/// Bytes of a base64 text.
#[must_use]
pub fn bytes_of_base64(text: &str) -> (r: Option<Vec<u8>>)
    ensures
        crate::message::opt_vec(r) == base64_bytes(text@),
{
    decode_base64(text)
}

/// What a bundle says of its signature.
#[derive(Debug, PartialEq, Eq)]
pub struct BundleSignature {
    /// Written form of the signature.
    pub value: Option<String>,
    /// Certificate of the CA that signed, in PEM.
    pub certificate: Option<String>,
}

/// Why the signature of a bundle cannot be looked at, if it cannot; `decoded` are the bytes of its
/// written form.
pub open spec fn signature_fault(s: BundleSignature, decoded: Option<Seq<u8>>) -> Option<Seq<char>> {
    if s.value is None {
        Some("signature has no value"@)
    } else if decoded is None {
        Some("signature is not valid base64"@)
    } else if s.certificate is None {
        Some("signed bundle carries no CA certificate to verify against"@)
    } else {
        None
    }
}

/// Take the signature of a bundle apart: its bytes and the certificate to hold it against. The
/// written form has been read to `decoded`.
pub fn judge_signature(s: BundleSignature, decoded: Option<Vec<u8>>) -> (r: Result<
    (Vec<u8>, String),
    String,
>)
    ensures
        match signature_fault(s, crate::message::opt_vec(decoded)) {
            Some(why) => r is Err && r->Err_0@ == why,
            None => r is Ok && Some((r->Ok_0).0) == decoded && Some((r->Ok_0).1) == s.certificate,
        },
{
    if s.value.is_none() {
        return Err("signature has no value".to_owned());
    }
    let bytes = match decoded {
        Some(b) => b,
        None => {
            return Err("signature is not valid base64".to_owned());
        },
    };
    match s.certificate {
        Some(c) => Ok((bytes, c)),
        None => Err("signed bundle carries no CA certificate to verify against".to_owned()),
    }
}

/// Take the signature of a bundle apart: its bytes and the certificate to hold it against.
pub fn open_signature(s: BundleSignature) -> (r: Result<(Vec<u8>, String), String>)
    ensures
        ({
            let decoded = match s.value {
                Some(v) => base64_bytes(v@),
                None => None,
            };
            match signature_fault(s, decoded) {
                Some(why) => r is Err && r->Err_0@ == why,
                None => r is Ok && Some((r->Ok_0).0@) == decoded && Some((r->Ok_0).1)
                    == s.certificate,
            }
        }),
{
    let decoded = match &s.value {
        Some(v) => decode_base64(v.as_str()),
        None => None,
    };
    judge_signature(s, decoded)
}

/// What a bundle says of its signature, where it has one.
pub open spec fn said_of_signature(bundle: serde_json::Value) -> (Option<Seq<char>>, Option<Seq<char>>) {
    let all = Some(bundle);
    (
        text_of(member_of(all, "signature"@), "value"@),
        text_of(member_of(member_of(all, "pki"@), "ca"@), "certificate"@),
    )
}

/// The signature of a bundle, where it has one: its bytes and the certificate to hold it against.
/// Only an object has members, so a bundle with a signature is one.
pub fn bundle_signature(bundle: &serde_json::Value) -> (r: Result<
    Option<(Vec<u8>, String)>,
    String,
>)
    ensures
        ({
            let (value, certificate) = said_of_signature(*bundle);
            let decoded = match value {
                Some(v) => base64_bytes(v),
                None => None,
            };
            if member_of(Some(*bundle), "signature"@) is None {
                r == Ok::<Option<(Vec<u8>, String)>, String>(None)
            } else if value is None {
                r is Err && r->Err_0@ == "signature has no value"@
            } else if decoded is None {
                r is Err && r->Err_0@ == "signature is not valid base64"@
            } else if certificate is None {
                r is Err && r->Err_0@
                    == "signed bundle carries no CA certificate to verify against"@
            } else {
                r matches Ok(Some((bytes, pem))) && Some(bytes@) == decoded && Some(pem@)
                    == certificate
            }
        }),
{
    let signature = match member(bundle, "signature") {
        Some(s) => s,
        None => {
            return Ok(None);
        },
    };
    let value = text_member(signature, "value");
    let ca = match member(bundle, "pki") {
        Some(p) => member(p, "ca"),
        None => None,
    };
    let certificate = match ca {
        Some(c) => text_member(c, "certificate"),
        None => None,
    };
    match open_signature(BundleSignature { value, certificate }) {
        Ok(opened) => Ok(Some(opened)),
        Err(e) => Err(e),
    }
}

/// The bytes that the signature of a bundle is for: the text of the bundle without its signature.
/// A bundle that has a signature is an object.
pub fn signed_bytes(bundle: &serde_json::Value) -> (r: Result<Vec<u8>, String>)
    ensures
        match without_member(*bundle, "signature"@) {
            None => r is Err && r->Err_0@ == "bundle is not an object"@ && member_of(
                Some(*bundle),
                "signature"@,
            ) is None,
            Some(rest) => match json_text(rest) {
                Ok(b) => r is Ok && r->Ok_0@ == b,
                Err(why) => r is Err && r->Err_0@ == why,
            },
        },
{
    match remove_member(bundle, "signature") {
        Some(rest) => write_document(&rest),
        None => Err("bundle is not an object".to_owned()),
    }
}

/// Verdict on a bundle whose signature was held against its certificate.
pub fn verdict(verified: Result<bool, String>) -> (r: Result<(), String>)
    ensures
        match verified {
            Ok(true) => r is Ok,
            Ok(false) => r is Err && r->Err_0@ == "bundle signature does not verify against its CA"@,
            Err(e) => r == Err::<(), String>(e),
        },
{
    match verified {
        Ok(true) => Ok(()),
        Ok(false) => Err("bundle signature does not verify against its CA".to_owned()),
        Err(e) => Err(e),
    }
}

/// Answer to the restoration of a bundle that is not trusted.
#[must_use]
pub fn rejected(reason: &str) -> (r: ApiError)
    ensures
        r@ == ApiErrorV::bad_request("backup rejected: "@ + reason@),
{
    let mut text = "backup rejected: ".to_owned();
    text.append(reason);
    ApiError::bad_request(text)
}

// ---- laws ----

/// Every table that is replicated across a cluster is carried in a backup.
pub proof fn law_replicated_tables_are_carried(table: Seq<char>)
    requires
        crate::cluster::replicated(table),
    ensures
        carried(table),
{
}

} // verus!
