//! REST helpers: error answers, the API-key check, path patterns.

use crate::text::{chars_of, starts_with};
use vstd::prelude::*;
use vstd::string::StringExecFns;

verus! {

/// Error answer with a HTTP status.
#[derive(Debug, PartialEq, Eq)]
pub struct ApiError {
    /// HTTP status.
    pub status: u16,
    /// Message.
    pub message: String,
}

/// Value of an error answer.
#[verifier::ext_equal]
pub struct ApiErrorV {
    /// HTTP status.
    pub status: u16,
    /// Message.
    pub message: Seq<char>,
}

impl View for ApiError {
    type V = ApiErrorV;

    open spec fn view(&self) -> ApiErrorV {
        ApiErrorV { status: self.status, message: self.message@ }
    }
}

impl ApiErrorV {
    /// 404.
    pub open spec fn not_found(message: Seq<char>) -> ApiErrorV {
        ApiErrorV { status: 404, message }
    }

    /// 400.
    pub open spec fn bad_request(message: Seq<char>) -> ApiErrorV {
        ApiErrorV { status: 400, message }
    }

    /// 409.
    pub open spec fn conflict(message: Seq<char>) -> ApiErrorV {
        ApiErrorV { status: 409, message }
    }

    /// 500.
    pub open spec fn internal(message: Seq<char>) -> ApiErrorV {
        ApiErrorV { status: 500, message }
    }
}

impl ApiError {
    /// 404.
    #[must_use]
    pub fn not_found(what: String) -> (r: Self)
        ensures
            r@ == ApiErrorV::not_found(what@),
    {
        ApiError { status: 404, message: what }
    }

    /// 400.
    #[must_use]
    pub fn bad_request(msg: String) -> (r: Self)
        ensures
            r@ == ApiErrorV::bad_request(msg@),
    {
        ApiError { status: 400, message: msg }
    }

    /// 409.
    #[must_use]
    pub fn conflict(msg: String) -> (r: Self)
        ensures
            r@ == ApiErrorV::conflict(msg@),
    {
        ApiError { status: 409, message: msg }
    }

    /// 500.
    #[must_use]
    pub fn internal(msg: String) -> (r: Self)
        ensures
            r@ == ApiErrorV::internal(msg@),
    {
        ApiError { status: 500, message: msg }
    }
}

/// A text between two others, such as `server 'a' not found`.
pub fn between(head: &str, middle: &str, tail: &str) -> (r: String)
    ensures
        r@ == head@ + middle@ + tail@,
{
    let mut out = head.to_owned();
    out.append(middle);
    out.append(tail);
    out
}

// ---- API key ----

fn same_bytes(a: &[u8], b: &[u8]) -> (r: bool)
    ensures
        r == (a@ == b@),
{
    if a.len() != b.len() {
        return false;
    }
    let r = starts_with(a, b);
    proof {
        assert(a@.subrange(0, b@.len() as int) =~= a@);
    }
    r
}

/// `Bearer `, in front of a key in an `Authorization` header.
pub open spec fn bearer() -> Seq<u8> {
    seq![0x42, 0x65, 0x61, 0x72, 0x65, 0x72, 0x20]
}

/// `/api/`, in front of the paths that ask for a key.
pub open spec fn api_prefix() -> Seq<char> {
    seq!['/', 'a', 'p', 'i', '/']
}

/// Whether a header value gives the key, bare or as a bearer token.
pub open spec fn gives_key(value: Seq<u8>, key: Seq<u8>) -> bool {
    value == key || value == bearer() + key
}

/// Whether a request may pass: no key is asked for, or its path needs none, or one of its headers
/// gives the key. The `Authorization` header only counts where there is no `X-API-Key`.
pub open spec fn admitted(
    expected: Option<Seq<u8>>,
    path: Seq<char>,
    api_key: Option<Seq<u8>>,
    authorization: Option<Seq<u8>>,
) -> bool {
    match expected {
        None => true,
        Some(key) => if !api_prefix().is_prefix_of(path) {
            true
        } else {
            match api_key {
                Some(v) => gives_key(v, key),
                None => match authorization {
                    Some(v) => gives_key(v, key),
                    None => false,
                },
            }
        },
    }
}

fn key_given(value: &[u8], key: &[u8]) -> (r: bool)
    ensures
        r == gives_key(value@, key@),
{
    if same_bytes(value, key) {
        return true;
    }
    let head: [u8; 7] = [0x42, 0x65, 0x61, 0x72, 0x65, 0x72, 0x20];
    proof {
        assert(head@ =~= bearer());
    }
    if !starts_with(value, head.as_slice()) {
        proof {
            assert((bearer() + key@).subrange(0, 7) =~= bearer());
        }
        return false;
    }
    let rest = vstd::slice::slice_subrange(value, 7, value.len());
    let r = same_bytes(rest, key);
    proof {
        assert(value@ =~= value@.subrange(0, 7) + rest@);
        assert((bearer() + key@).subrange(7, 7 + key@.len() as int) =~= key@);
        assert(rest@ == value@.subrange(7, value@.len() as int));
    }
    r
}

fn needs_key(path: &str) -> (r: bool)
    ensures
        r == api_prefix().is_prefix_of(path@),
{
    let chars = chars_of(path);
    let r = chars.len() >= 5 && chars[0] == '/' && chars[1] == 'a' && chars[2] == 'p' && chars[3]
        == 'i' && chars[4] == '/';
    proof {
        if r {
            assert(path@.subrange(0, 5) =~= api_prefix());
        } else if api_prefix().is_prefix_of(path@) {
            let p = path@.subrange(0, 5);
            assert(p[0] == path@[0] && p[1] == path@[1] && p[2] == path@[2] && p[3] == path@[3]
                && p[4] == path@[4]);
        }
    }
    r
}

/// Message of a request that is not admitted.
pub open spec fn missing_key() -> ApiErrorV {
    ApiErrorV { status: 401, message: "invalid or missing API key"@ }
}

/// Enforce `X-API-Key` on `/api/**` when a key is configured.
pub fn require_api_key(
    expected: Option<&[u8]>,
    path: &str,
    api_key: Option<&[u8]>,
    authorization: Option<&[u8]>,
) -> (r: Result<(), ApiError>)
    ensures
        r is Ok <==> admitted(
            crate::builder::opt_bytes(expected),
            path@,
            crate::builder::opt_bytes(api_key),
            crate::builder::opt_bytes(authorization),
        ),
        r is Err ==> r->Err_0@ == missing_key(),
{
    let key = match expected {
        Some(k) => k,
        None => {
            return Ok(());
        },
    };
    if !needs_key(path) {
        return Ok(());
    }
    let provided = match api_key {
        Some(v) => Some(v),
        None => authorization,
    };
    let ok = match provided {
        Some(v) => key_given(v, key),
        None => false,
    };
    if ok {
        Ok(())
    } else {
        Err(ApiError { status: 401, message: "invalid or missing API key".to_owned() })
    }
}

// ---- path patterns ----

/// A text in which every occurrence of `pat` is replaced, from the left.
pub open spec fn replaced(s: Seq<char>, pat: Seq<char>, with: Seq<char>) -> Seq<char>
    decreases s.len(),
{
    if s.len() == 0 || pat.len() == 0 {
        s
    } else if pat.is_prefix_of(s) {
        with + replaced(s.skip(pat.len() as int), pat, with)
    } else {
        seq![s[0]] + replaced(s.skip(1), pat, with)
    }
}

fn matches_at(s: &Vec<char>, at: usize, pat: &Vec<char>) -> (r: bool)
    requires
        at <= s.len(),
    ensures
        r == pat@.is_prefix_of(s@.skip(at as int)),
{
    let ghost tail = s@.skip(at as int);
    if s.len() - at < pat.len() {
        return false;
    }
    let mut i: usize = 0;
    while i < pat.len()
        invariant
            at <= s.len(),
            i <= pat.len() <= s.len() - at,
            tail == s@.skip(at as int),
            forall|j: int| 0 <= j < i ==> tail[j] == pat@[j],
        decreases pat.len() - i,
    {
        if s[at + i] != pat[i] {
            proof {
                assert(tail[i as int] == s@[at + i]);
                assert(tail.subrange(0, pat@.len() as int)[i as int] != pat@[i as int]);
            }
            return false;
        }
        i += 1;
    }
    proof {
        assert(tail.subrange(0, pat@.len() as int) =~= pat@);
    }
    true
}

/// Replace every occurrence of `pat`, from the left.
pub fn replace_all(s: &str, pat: &str, with: &str) -> (r: String)
    ensures
        r@ == replaced(s@, pat@, with@),
{
    let chars = chars_of(s);
    let needle = chars_of(pat);
    if needle.len() == 0 {
        return s.to_owned();
    }
    let mut out = String::new();
    let mut i: usize = 0;
    proof {
        assert(chars@.skip(0) =~= s@);
        assert(out@ + replaced(s@, pat@, with@) =~= replaced(s@, pat@, with@));
    }
    while i < chars.len()
        invariant
            i <= chars.len(),
            chars@ == s@,
            needle@ == pat@,
            pat@.len() > 0,
            out@ + replaced(s@.skip(i as int), pat@, with@) == replaced(s@, pat@, with@),
        decreases chars.len() - i,
    {
        let ghost before = out@;
        let ghost rest = s@.skip(i as int);
        if matches_at(&chars, i, &needle) {
            proof {
                assert(rest.skip(pat@.len() as int) =~= s@.skip(i + pat@.len()));
                assert(pat@.len() <= rest.len());
                assert(before + (with@ + replaced(rest.skip(pat@.len() as int), pat@, with@))
                    =~= (before + with@) + replaced(rest.skip(pat@.len() as int), pat@, with@));
            }
            out.append(with);
            i += needle.len();
        } else {
            proof {
                assert(rest.skip(1) =~= s@.skip(i + 1));
                assert(rest[0] == s@[i as int]);
                assert(before + (seq![rest[0]] + replaced(rest.skip(1), pat@, with@))
                    =~= before.push(rest[0]) + replaced(rest.skip(1), pat@, with@));
            }
            out.push(chars[i]);
            i += 1;
        }
    }
    proof {
        assert(s@.skip(i as int) =~= Seq::<char>::empty());
        assert(out@ + Seq::<char>::empty() =~= out@);
    }
    out
}

/// A placeholder: its name between `${` and `}`.
pub open spec fn placeholder(name: Seq<char>) -> Seq<char> {
    "${"@ + name + "}"@
}

/// A pattern with its placeholders resolved, one name after the other.
pub open spec fn resolved(pattern: Seq<char>, values: Seq<(Seq<char>, Seq<char>)>) -> Seq<char>
    decreases values.len(),
{
    if values.len() == 0 {
        pattern
    } else {
        replaced(
            resolved(pattern, values.drop_last()),
            placeholder(values.last().0),
            values.last().1,
        )
    }
}

/// Names and values of placeholders.
pub open spec fn values_view(values: Seq<(&str, &str)>) -> Seq<(Seq<char>, Seq<char>)> {
    values.map_values(|v: (&str, &str)| (v.0@, v.1@))
}

/// Resolve `${placeholders}` in a path pattern.
#[must_use]
pub fn resolve_placeholders(pattern: &str, values: &[(&str, &str)]) -> (r: String)
    ensures
        r@ == resolved(pattern@, values_view(values@)),
{
    let ghost vv = values_view(values@);
    let mut out = pattern.to_owned();
    let mut i: usize = 0;
    proof {
        assert(vv.take(0) =~= Seq::empty());
    }
    while i < values.len()
        invariant
            i <= values.len(),
            vv == values_view(values@),
            out@ == resolved(pattern@, vv.take(i as int)),
        decreases values.len() - i,
    {
        let (name, value) = values[i];
        let marker = between("${", name, "}");
        proof {
            assert(vv.take(i + 1).drop_last() =~= vv.take(i as int));
            assert(vv.take(i + 1).last() == vv[i as int]);
        }
        out = replace_all(out.as_str(), marker.as_str(), value);
        i += 1;
    }
    proof {
        assert(vv.take(i as int) =~= vv);
    }
    out
}

// ---- laws ----

/// Without a configured key every request passes, and so does every request outside `/api/`.
pub proof fn law_key_is_only_asked_for_under_api(
    expected: Option<Seq<u8>>,
    path: Seq<char>,
    api_key: Option<Seq<u8>>,
    authorization: Option<Seq<u8>>,
)
    ensures
        expected is None || !api_prefix().is_prefix_of(path) ==> admitted(
            expected,
            path,
            api_key,
            authorization,
        ),
        expected is Some && api_prefix().is_prefix_of(path) && api_key is None
            && authorization is None ==> !admitted(expected, path, api_key, authorization),
{
}

/// A pattern that does not hold a placeholder is left as it is.
pub proof fn law_replacement_leaves_the_rest(s: Seq<char>, pat: Seq<char>, with: Seq<char>)
    requires
        forall|i: int| 0 <= i <= s.len() ==> !pat.is_prefix_of(#[trigger] s.skip(i)),
    ensures
        replaced(s, pat, with) == s,
    decreases s.len(),
{
    if s.len() > 0 && pat.len() > 0 {
        assert(s.skip(0) =~= s);
        assert forall|i: int| 0 <= i <= s.skip(1).len() implies !pat.is_prefix_of(
            #[trigger] s.skip(1).skip(i),
        ) by {
            assert(s.skip(1).skip(i) =~= s.skip(i + 1));
        }
        law_replacement_leaves_the_rest(s.skip(1), pat, with);
        assert(seq![s[0]] + s.skip(1) =~= s);
    }
}

} // verus!
