//! Server-side PeSIT behaviour: partner authentication, virtual file resolution, transfer records.

use crate::builder::{FileSpec, FileSpecV};
use crate::checkpoint::Checkpoint;
use crate::client::engine::{kb_reserved, next_transfer_id, or_default, spec_transfer_id};
use crate::datapath::{DataEnd, DataResult, Progress};
use crate::diag::Diagnostic;
use crate::node::model::{
    Partner, PesitServerConfig, TransferDirection, TransferRecord, TransferStatus, VirtualFile,
};
use crate::params::{AccessType as PesitAccess, ArticleFormat, Compression, SyncOption};
use crate::responder::{ConnectAccept, ConnectRequest, Refusal, RefusalV, SessionInfo};
use crate::service::http::{between, resolve_placeholders, resolved, values_view};
use crate::service::select::{find_last, last_passing, Criterion};
use crate::text::{
    chars_of, dec, decimal, filled, join_path, joined_path, lower, non_empty, opt_text,
    push_decimal, same, same_ignoring_case, string_of, trim, trimmed,
};
use vstd::prelude::*;
use vstd::string::StringExecFns;

verus! {

// ---- authentication ----

/// Whether access of a kind is granted to a partner.
pub open spec fn access_granted(p: Partner, access: PesitAccess) -> bool {
    match access {
        PesitAccess::Write => p.access_type.can_write(),
        PesitAccess::Read => p.access_type.can_read(),
        PesitAccess::Mixed => p.access_type.can_read() || p.access_type.can_write(),
    }
}

/// Whether a password that was given is the one that a partner has, if it has one. Blanks around
/// the given one do not count.
pub open spec fn password_fits(expected: Option<Seq<char>>, given: Seq<char>) -> bool {
    match non_empty(expected) {
        Some(p) => trimmed(given) == p,
        None => true,
    }
}

/// Whether a listener accepts a server identifier: its own, up to the case of ASCII letters, or
/// any where one of the two is empty.
pub open spec fn server_accepted(server_id: Seq<char>, asked: Seq<char>) -> bool {
    server_id.len() == 0 || asked.len() == 0 || lower(asked) == lower(server_id)
}

/// Why a connection to a listener is refused, if it is.
pub open spec fn connect_refusal(
    partner: Option<Partner>,
    server_id: Seq<char>,
    req: ConnectRequest,
) -> Option<RefusalV> {
    match partner {
        None => Some(
            RefusalV::told(
                Diagnostic::caller_unknown(),
                "partner '"@ + req.requester@ + "' not configured"@,
            ),
        ),
        Some(p) => if !p.enabled {
            Some(
                RefusalV::told(
                    Diagnostic::caller_not_authorised(),
                    "partner '"@ + p.id@ + "' is disabled"@,
                ),
            )
        } else if !password_fits(
            opt_text(p.password),
            match req.password {
                Some(t) => t@,
                None => Seq::empty(),
            },
        ) {
            Some(
                RefusalV::told(
                    Diagnostic::caller_not_authorised(),
                    "invalid password for partner '"@ + p.id@ + "'"@,
                ),
            )
        } else if req.preconnect is Some && !password_fits(
            opt_text(p.preconnect_password),
            (req.preconnect->0).1@,
        ) {
            Some(
                RefusalV::told(
                    Diagnostic::caller_not_authorised(),
                    "invalid pre-connection password for partner '"@ + p.id@ + "'"@,
                ),
            )
        } else if !access_granted(p, req.access) {
            Some(
                RefusalV::told(
                    Diagnostic::caller_not_authorised(),
                    "partner '"@ + p.id@ + "' not authorised for "@ + req.access.spec_variant()
                        + " access"@,
                ),
            )
        } else if !server_accepted(server_id, req.server@) {
            Some(
                RefusalV::told(
                    Diagnostic::remote_congestion(),
                    "server '"@ + req.server@ + "' is not served by listener '"@ + server_id
                        + "'"@,
                ),
            )
        } else {
            None
        },
    }
}

fn refused(diag: Diagnostic, head: &str, middle: &str, tail: &str) -> (r: Refusal)
    ensures
        r@ == RefusalV::told(diag, head@ + middle@ + tail@),
{
    Refusal::with_message(diag, between(head, middle, tail))
}

fn fits(expected: &Option<String>, given: &str) -> (r: bool)
    ensures
        r == password_fits(opt_text(*expected), given@),
{
    match filled(expected) {
        Some(p) => {
            let t = trim(given);
            same(t.as_str(), p)
        },
        None => true,
    }
}

/// Authenticate a connection request of the partner that was looked up for it.
pub fn authenticate(partner: Option<&Partner>, server: &PesitServerConfig, req: &ConnectRequest) -> (r:
    Result<ConnectAccept, Refusal>)
    ensures
        match connect_refusal(
            match partner {
                Some(p) => Some(*p),
                None => None,
            },
            server.server_id@,
            *req,
        ) {
            Some(why) => r is Err && r->Err_0@ == why,
            None => r == Ok::<ConnectAccept, Refusal>(
                ConnectAccept {
                    sync: if server.sync_points_enabled {
                        SyncOption {
                            interval_kb: server.sync_interval_kb,
                            window: server.sync_window,
                        }
                    } else {
                        SyncOption::none()
                    },
                    resync: server.resync_enabled,
                    compression: or_default(
                        Compression::from_code(server.compression),
                        Compression::Off,
                    ),
                    multi_article: true,
                    max_entity: server.max_entity_size,
                    free_message: None,
                },
            ),
        },
{
    let p = match partner {
        Some(p) => p,
        None => {
            return Err(
                refused(
                    Diagnostic::caller_unknown(),
                    "partner '",
                    req.requester.as_str(),
                    "' not configured",
                ),
            );
        },
    };
    if !p.enabled {
        return Err(
            refused(
                Diagnostic::caller_not_authorised(),
                "partner '",
                p.id.as_str(),
                "' is disabled",
            ),
        );
    }
    let given = match &req.password {
        Some(t) => t.clone(),
        None => String::new(),
    };
    if !fits(&p.password, given.as_str()) {
        return Err(
            refused(
                Diagnostic::caller_not_authorised(),
                "invalid password for partner '",
                p.id.as_str(),
                "'",
            ),
        );
    }
    match &req.preconnect {
        Some(pc) => {
            if !fits(&p.preconnect_password, pc.1.as_str()) {
                return Err(
                    refused(
                        Diagnostic::caller_not_authorised(),
                        "invalid pre-connection password for partner '",
                        p.id.as_str(),
                        "'",
                    ),
                );
            }
        },
        None => {},
    }
    let allowed = match req.access {
        PesitAccess::Write => p.access_type.can_write(),
        PesitAccess::Read => p.access_type.can_read(),
        PesitAccess::Mixed => p.access_type.can_read() || p.access_type.can_write(),
    };
    if !allowed {
        let mut text = between("partner '", p.id.as_str(), "' not authorised for ");
        text.append(req.access.variant());
        text.append(" access");
        return Err(Refusal::with_message(Diagnostic::caller_not_authorised(), text));
    }
    if !server.server_id.as_str().is_empty() && !req.server.as_str().is_empty()
        && !same_ignoring_case(req.server.as_str(), server.server_id.as_str()) {
        let mut text = between("server '", req.server.as_str(), "' is not served by listener '");
        text.append(server.server_id.as_str());
        text.append("'");
        return Err(Refusal::with_message(Diagnostic::remote_congestion(), text));
    }
    let sync = if server.sync_points_enabled {
        SyncOption { interval_kb: server.sync_interval_kb, window: server.sync_window }
    } else {
        SyncOption::none()
    };
    let compression = match Compression::from_code(server.compression) {
        Some(c) => c,
        None => Compression::Off,
    };
    Ok(
        ConnectAccept {
            sync,
            resync: server.resync_enabled,
            compression,
            multi_article: true,
            max_entity: server.max_entity_size,
            free_message: None,
        },
    )
}

// ---- files ----

/// Why a partner may not transfer a file, if it may not.
pub open spec fn partner_refusal(
    partner: Option<Partner>,
    requester: Seq<char>,
    file: Seq<char>,
    write: bool,
) -> Option<RefusalV> {
    match partner {
        None => Some(
            RefusalV::told(
                Diagnostic::caller_unknown(),
                "partner '"@ + requester + "' not configured"@,
            ),
        ),
        Some(p) => if write && !p.access_type.can_write() {
            Some(
                RefusalV::told(
                    Diagnostic::transfer_refused(),
                    "partner '"@ + p.id@ + "' is not allowed to send"@,
                ),
            )
        } else if !write && !p.access_type.can_read() {
            Some(
                RefusalV::told(
                    Diagnostic::transfer_refused(),
                    "partner '"@ + p.id@ + "' is not allowed to receive"@,
                ),
            )
        } else if !p.spec_can_access_file(file) {
            Some(
                RefusalV::told(
                    Diagnostic::transfer_refused(),
                    "partner '"@ + p.id@ + "' may not access '"@ + file + "'"@,
                ),
            )
        } else {
            None
        },
    }
}

/// Check that a partner may send (`write`) or receive a file.
pub fn check_partner<'a>(
    partner: Option<&'a Partner>,
    requester: &str,
    file: &str,
    write: bool,
) -> (r: Result<&'a Partner, Refusal>)
    ensures
        match partner_refusal(
            match partner {
                Some(p) => Some(*p),
                None => None,
            },
            requester@,
            file@,
            write,
        ) {
            Some(why) => r is Err && r->Err_0@ == why,
            None => partner is Some && r == Ok::<&Partner, Refusal>(partner->0),
        },
{
    let p = match partner {
        Some(p) => p,
        None => {
            return Err(
                refused(
                    Diagnostic::caller_unknown(),
                    "partner '",
                    requester,
                    "' not configured",
                ),
            );
        },
    };
    if write {
        if !p.access_type.can_write() {
            return Err(
                refused(
                    Diagnostic::transfer_refused(),
                    "partner '",
                    p.id.as_str(),
                    "' is not allowed to send",
                ),
            );
        }
    } else if !p.access_type.can_read() {
        return Err(
            refused(
                Diagnostic::transfer_refused(),
                "partner '",
                p.id.as_str(),
                "' is not allowed to receive",
            ),
        );
    }
    if !p.can_access_file(file) {
        let mut text = between("partner '", p.id.as_str(), "' may not access '");
        text.append(file);
        text.append("'");
        return Err(Refusal::with_message(Diagnostic::transfer_refused(), text));
    }
    Ok(p)
}

/// Why a virtual file is not written, if it is not.
pub open spec fn create_refusal(vf: Option<VirtualFile>, file: FileSpecV) -> Option<RefusalV> {
    match vf {
        None => Some(
            RefusalV::told(
                Diagnostic::transfer_refused(),
                "virtual file '"@ + file.file_name + "' not configured"@,
            ),
        ),
        Some(vf) => if !vf.enabled || !vf.can_receive() {
            Some(
                RefusalV::told(
                    Diagnostic::transfer_refused(),
                    "virtual file '"@ + vf.id@ + "' does not accept incoming transfers"@,
                ),
            )
        } else if vf.max_file_size > 0 && file.max_reservation * 1024 > vf.max_file_size {
            Some(
                RefusalV::told(
                    Diagnostic::disk_quota(),
                    "file larger than the "@ + dec(vf.max_file_size as nat)
                        + " bytes allowed for '"@ + vf.id@ + "'"@,
                ),
            )
        } else {
            None
        },
    }
}

/// Check that a virtual file may be written.
pub fn check_create<'a>(vf: Option<&'a VirtualFile>, file: &FileSpec) -> (r: Result<
    &'a VirtualFile,
    Refusal,
>)
    ensures
        match create_refusal(
            match vf {
                Some(v) => Some(*v),
                None => None,
            },
            file@,
        ) {
            Some(why) => r is Err && r->Err_0@ == why,
            None => vf is Some && r == Ok::<&VirtualFile, Refusal>(vf->0),
        },
{
    let v = match vf {
        Some(v) => v,
        None => {
            return Err(
                refused(
                    Diagnostic::transfer_refused(),
                    "virtual file '",
                    file.file_name.as_str(),
                    "' not configured",
                ),
            );
        },
    };
    if !v.enabled || !v.can_receive() {
        return Err(
            refused(
                Diagnostic::transfer_refused(),
                "virtual file '",
                v.id.as_str(),
                "' does not accept incoming transfers",
            ),
        );
    }
    if v.max_file_size > 0 && file.max_reservation > v.max_file_size / 1024 {
        let mut text = "file larger than the ".to_owned();
        push_decimal(&mut text, v.max_file_size);
        text.append(" bytes allowed for '");
        text.append(v.id.as_str());
        text.append("'");
        return Err(Refusal::with_message(Diagnostic::disk_quota(), text));
    }
    Ok(v)
}

/// Why a virtual file is not read, if it is not.
pub open spec fn select_refusal(vf: Option<VirtualFile>, file_name: Seq<char>) -> Option<RefusalV> {
    match vf {
        None => Some(
            RefusalV::told(
                Diagnostic::file_not_found(),
                "virtual file '"@ + file_name + "' not configured"@,
            ),
        ),
        Some(vf) => if !vf.enabled || !vf.can_send() {
            Some(
                RefusalV::told(
                    Diagnostic::transfer_refused(),
                    "virtual file '"@ + vf.id@ + "' cannot be read"@,
                ),
            )
        } else {
            None
        },
    }
}

/// Check that a virtual file may be read.
pub fn check_select<'a>(vf: Option<&'a VirtualFile>, file_name: &str) -> (r: Result<
    &'a VirtualFile,
    Refusal,
>)
    ensures
        match select_refusal(
            match vf {
                Some(v) => Some(*v),
                None => None,
            },
            file_name@,
        ) {
            Some(why) => r is Err && r->Err_0@ == why,
            None => vf is Some && r == Ok::<&VirtualFile, Refusal>(vf->0),
        },
{
    let v = match vf {
        Some(v) => v,
        None => {
            return Err(
                refused(
                    Diagnostic::file_not_found(),
                    "virtual file '",
                    file_name,
                    "' not configured",
                ),
            );
        },
    };
    if !v.enabled || !v.can_send() {
        return Err(
            refused(
                Diagnostic::transfer_refused(),
                "virtual file '",
                v.id.as_str(),
                "' cannot be read",
            ),
        );
    }
    Ok(v)
}

/// Refusal of a file that exists and may not be overwritten.
pub fn check_overwrite(vf: &VirtualFile, path: &str, present: bool) -> (r: Result<(), Refusal>)
    ensures
        r is Ok <==> !present || vf.overwrite,
        r is Err ==> r->Err_0@ == RefusalV::told(
            Diagnostic::file_exists(),
            path@ + " already exists"@,
        ),
{
    if present && !vf.overwrite {
        let mut text = path.to_owned();
        text.append(" already exists");
        return Err(Refusal::with_message(Diagnostic::file_exists(), text));
    }
    Ok(())
}

/// Kinds of local file errors that are told apart.
#[derive(Debug, Clone, Copy, PartialEq, Eq, Structural)]
pub enum FileFault {
    /// The file does not exist.
    NotFound,
    /// Access is denied.
    Denied,
    /// Anything else.
    Other,
}

/// Refusal for a local file error.
#[must_use]
pub fn io_refusal(fault: FileFault, what: &str, reason: &str) -> (r: Refusal)
    ensures
        r@ == RefusalV::told(
            match fault {
                FileFault::NotFound => Diagnostic::file_not_found(),
                FileFault::Denied => Diagnostic::cannot_open(),
                FileFault::Other => Diagnostic::system_error(),
            },
            what@ + ": "@ + reason@,
        ),
{
    let diag = match fault {
        FileFault::NotFound => Diagnostic::file_not_found(),
        FileFault::Denied => Diagnostic::cannot_open(),
        FileFault::Other => Diagnostic::system_error(),
    };
    refused(diag, what, ": ", reason)
}

/// PeSIT transfer identifier: the requested one, else one from the counter.
#[must_use]
pub fn pesit_transfer_id(requested: u32, counter: u64) -> (r: u32)
    ensures
        r == (if requested != 0 {
            requested
        } else {
            spec_transfer_id(counter)
        }),
{
    if requested != 0 {
        requested
    } else {
        next_transfer_id(counter)
    }
}

// ---- names ----

/// Whether a character is an ASCII letter or digit.
pub open spec fn alphanumeric(c: char) -> bool {
    ('0' <= c && c <= '9') || ('a' <= c && c <= 'z') || ('A' <= c && c <= 'Z')
}

fn is_alphanumeric(c: char) -> (r: bool)
    ensures
        r == alphanumeric(c),
{
    ('0' <= c && c <= '9') || ('a' <= c && c <= 'z') || ('A' <= c && c <= 'Z')
}

/// A character of a file name; `dots` admits the dot.
pub open spec fn safe_char(c: char, dots: bool) -> char {
    if alphanumeric(c) || c == '_' || c == '-' || (dots && c == '.') {
        c
    } else {
        '_'
    }
}

/// A text in which every character that is not safe in a file name is a `_`.
pub open spec fn safe_name(t: Seq<char>, dots: bool) -> Seq<char> {
    t.map_values(|c: char| safe_char(c, dots))
}

fn make_safe(t: &str, dots: bool) -> (r: String)
    ensures
        r@ == safe_name(t@, dots),
{
    let chars = chars_of(t);
    let mut out = String::new();
    let mut i: usize = 0;
    while i < chars.len()
        invariant
            i <= chars.len(),
            chars@ == t@,
            out@ == safe_name(t@.take(i as int), dots),
        decreases chars.len() - i,
    {
        let c = chars[i];
        if is_alphanumeric(c) || c == '_' || c == '-' || (dots && c == '.') {
            out.push(c);
        } else {
            out.push('_');
        }
        i += 1;
        proof {
            assert(out@ =~= safe_name(t@.take(i as int), dots));
        }
    }
    proof {
        assert(t@.take(i as int) =~= t@);
    }
    out
}

/// Key identifying a transfer across restarts.
pub open spec fn spec_restart_key(requester: Seq<char>, file: Seq<char>, tid: u32) -> Seq<char> {
    safe_name(requester + "_"@ + file + "_"@ + dec(tid as nat), false)
}

/// Key identifying a transfer across restarts.
#[must_use]
pub fn restart_key(requester: &str, file: &str, tid: u32) -> (r: String)
    ensures
        r@ == spec_restart_key(requester@, file@, tid),
{
    let mut text = between(requester, "_", file);
    text.append("_");
    push_decimal(&mut text, tid as u64);
    make_safe(text.as_str(), false)
}

/// Name of a local staging file; `unique` keeps it apart from others.
#[must_use]
pub fn staging_name(unique: &str, name: &str) -> (r: String)
    ensures
        r@ == unique@ + "-"@ + safe_name(name@, true),
{
    let safe = make_safe(name, true);
    between(unique, "-", safe.as_str())
}

/// What the staging file of a transfer is for.
#[must_use]
pub fn staging_purpose(receive: bool, vf: &VirtualFile, tid: u32) -> (r: String)
    ensures
        r@ == (if receive {
            "recv-"@
        } else {
            "send-"@
        }) + vf.id@ + "-"@ + dec(tid as nat),
{
    let head = if receive {
        "recv-"
    } else {
        "send-"
    };
    let mut text = between(head, vf.id.as_str(), "-");
    push_decimal(&mut text, tid as u64);
    text
}

/// The moment that a name is made at, in the forms that patterns use.
#[derive(Debug, PartialEq, Eq)]
pub struct Moment {
    /// `yyyyMMdd_HHmmss`.
    pub timestamp: String,
    /// `yyyy-MM-dd`.
    pub date: String,
    /// `HH-mm-ss`.
    pub time: String,
}

/// Values of the placeholders of a name pattern.
pub open spec fn name_values(
    file: Seq<char>,
    tid: u32,
    at: Moment,
    requester: Seq<char>,
    server_id: Seq<char>,
) -> Seq<(Seq<char>, Seq<char>)> {
    seq![
        ("virtualFile"@, file),
        ("transferId"@, dec(tid as nat)),
        ("timestamp"@, at.timestamp@),
        ("date"@, at.date@),
        ("time"@, at.time@),
        ("partnerId"@, requester),
        ("serverId"@, server_id),
    ]
}

fn resolve_name(
    pattern: &str,
    file: &str,
    tid: u32,
    at: &Moment,
    requester: &str,
    server_id: &str,
) -> (r: String)
    ensures
        r@ == resolved(pattern@, name_values(file@, tid, *at, requester@, server_id@)),
{
    let id = decimal(tid as u64);
    let values = [
        ("virtualFile", file),
        ("transferId", id.as_str()),
        ("timestamp", at.timestamp.as_str()),
        ("date", at.date.as_str()),
        ("time", at.time.as_str()),
        ("partnerId", requester),
        ("serverId", server_id),
    ];
    proof {
        assert(values_view(values@) =~= name_values(file@, tid, *at, requester@, server_id@));
    }
    resolve_placeholders(pattern, values.as_slice())
}

/// Pattern of the names of received files where none is given.
pub const DEFAULT_PATTERN: &'static str = "${virtualFile}_${timestamp}";

/// Where a received file goes.
pub open spec fn spec_receive_path(
    vf: VirtualFile,
    server: PesitServerConfig,
    requester: Seq<char>,
    file: Seq<char>,
    tid: u32,
    at: Moment,
) -> Seq<char> {
    joined_path(
        match non_empty(opt_text(vf.receive_directory)) {
            Some(d) => d,
            None => server.receive_directory@,
        },
        resolved(
            if vf.receive_filename_pattern@.len() == 0 {
                DEFAULT_PATTERN@
            } else {
                vf.receive_filename_pattern@
            },
            name_values(file, tid, at, requester, server.server_id@),
        ),
    )
}

/// Where a received file goes.
#[must_use]
pub fn receive_path(
    vf: &VirtualFile,
    server: &PesitServerConfig,
    requester: &str,
    file: &str,
    tid: u32,
    at: &Moment,
) -> (r: String)
    ensures
        r@ == spec_receive_path(*vf, *server, requester@, file@, tid, *at),
{
    let dir = match filled(&vf.receive_directory) {
        Some(d) => d,
        None => server.receive_directory.as_str(),
    };
    let pattern = if vf.receive_filename_pattern.as_str().is_empty() {
        DEFAULT_PATTERN
    } else {
        vf.receive_filename_pattern.as_str()
    };
    let name = resolve_name(pattern, file, tid, at, requester, server.server_id.as_str());
    join_path(dir, name.as_str())
}

/// The remote key of a file that a connector backs.
#[must_use]
pub fn connector_key(
    vf: &VirtualFile,
    server: &PesitServerConfig,
    requester: &str,
    file: &str,
    tid: u32,
    at: &Moment,
    default_key: &str,
) -> (r: String)
    ensures
        r@ == (match non_empty(opt_text(vf.connector_path)) {
            Some(pattern) => resolved(
                pattern,
                name_values(file@, tid, *at, requester@, server.server_id@),
            ),
            None => default_key@,
        }),
{
    match filled(&vf.connector_path) {
        Some(pattern) => resolve_name(
            pattern,
            file,
            tid,
            at,
            requester,
            server.server_id.as_str(),
        ),
        None => default_key.to_owned(),
    }
}

/// Where a file to send is read from.
#[must_use]
pub fn send_path(vf: &VirtualFile, server: &PesitServerConfig) -> (r: String)
    ensures
        r@ == (match non_empty(opt_text(vf.send_file)) {
            Some(p) => p,
            None => joined_path(server.send_directory@, vf.id@),
        }),
{
    match filled(&vf.send_file) {
        Some(p) => p.to_owned(),
        None => join_path(server.send_directory.as_str(), vf.id.as_str()),
    }
}

// ---- restarts ----

/// Records of an interrupted transfer.
#[derive(Debug)]
pub struct InterruptedTransfer<'a> {
    /// Partner identifier.
    pub partner: &'a str,
    /// Virtual file.
    pub file: &'a str,
    /// PeSIT transfer identifier.
    pub tid: u32,
    /// Listener identifier.
    pub server_id: &'a str,
}

fn is_text(o: &Option<String>, t: &str) -> (r: bool)
    ensures
        r == (opt_text(*o) == Some(t@)),
{
    match o {
        Some(s) => same(s.as_str(), t),
        None => false,
    }
}

impl<'a> Criterion<TransferRecord> for InterruptedTransfer<'a> {
    open spec fn passes(&self, r: TransferRecord) -> bool {
        &&& r.status == TransferStatus::Interrupted
        &&& r.pesit_transfer_id == self.tid
        &&& opt_text(r.partner_id) == Some(self.partner@)
        &&& opt_text(r.filename) == Some(self.file@)
        &&& opt_text(r.server_id) == Some(self.server_id@)
    }

    fn test(&self, r: &TransferRecord) -> (b: bool) {
        r.status == TransferStatus::Interrupted && r.pesit_transfer_id == self.tid && is_text(
            &r.partner_id,
            self.partner,
        ) && is_text(&r.filename, self.file) && is_text(&r.server_id, self.server_id)
    }
}

/// The newest record of an interrupted transfer, of a list with the newest last.
#[must_use]
pub fn interrupted_record<'a>(
    all: &'a Vec<TransferRecord>,
    partner: &str,
    file: &str,
    tid: u32,
    server_id: &str,
) -> (r: Option<&'a TransferRecord>)
    ensures
        match last_passing(InterruptedTransfer { partner, file, tid, server_id }, all@) {
            Some(i) => 0 <= i < all.len() && r == Some(&all@[i]),
            None => r is None,
        },
{
    let c = InterruptedTransfer { partner, file, tid, server_id };
    find_last(&c, all)
}

// ---- attributes ----

/// The first characters of a text.
pub open spec fn shortened(t: Seq<char>, n: nat) -> Seq<char> {
    if t.len() <= n {
        t
    } else {
        t.take(n as int)
    }
}

fn shorten(t: &str, n: usize) -> (r: String)
    ensures
        r@ == shortened(t@, n as nat),
{
    let chars = chars_of(t);
    if chars.len() <= n {
        return t.to_owned();
    }
    let r = string_of(vstd::slice::slice_subrange(chars.as_slice(), 0, n));
    proof {
        assert(r@ =~= t@.take(n as int));
    }
    r
}

/// Longest label that PI 37 can hold.
pub const MAX_LABEL: usize = 80;

/// Attributes of a file that is read, as they are answered.
#[must_use]
pub fn selected_spec(
    file: &FileSpec,
    vf: &VirtualFile,
    tid: u32,
    size: u64,
    creation_date: String,
) -> (r: FileSpec)
    ensures
        r@ == (FileSpecV {
            transfer_id: tid,
            file_type: if file@.file_type != 0 {
                file@.file_type
            } else {
                vf.file_type as u64
            },
            article_format: if vf.spec_variable() {
                ArticleFormat::Variable
            } else {
                ArticleFormat::Fixed
            },
            article_length: if vf.record_length > 0xFFFF {
                0xFFFF
            } else {
                vf.record_length as u16
            },
            organisation: Some(0),
            max_reservation: kb_reserved(size),
            reservation_unit: Some(0),
            creation_date: Some(creation_date@),
            label: match non_empty(opt_text(vf.description)) {
                Some(d) => Some(shortened(d, MAX_LABEL as nat)),
                None => None,
            },
            ..file@
        }),
{
    let mut spec = file.clone();
    spec.transfer_id = tid;
    if spec.file_type == 0 {
        spec.file_type = vf.file_type as u64;
    }
    spec.article_format = if vf.variable() {
        ArticleFormat::Variable
    } else {
        ArticleFormat::Fixed
    };
    spec.article_length = if vf.record_length > 0xFFFF {
        0xFFFF
    } else {
        vf.record_length as u16
    };
    spec.organisation = Some(0);
    spec.max_reservation = if size % 1024 == 0 {
        size / 1024
    } else {
        size / 1024 + 1
    };
    spec.reservation_unit = Some(0);
    spec.creation_date = Some(creation_date);
    spec.label = match filled(&vf.description) {
        Some(d) => Some(shorten(d, MAX_LABEL)),
        None => None,
    };
    spec
}

// ---- records ----

/// Bytes of a reservation in KB, up to the largest machine number.
pub open spec fn reserved_bytes(kb: u64) -> u64 {
    if kb * 1024 <= u64::MAX {
        (kb * 1024) as u64
    } else {
        u64::MAX
    }
}

fn times(n: u64, k: u64) -> (r: u64)
    ensures
        r == (if n * k <= u64::MAX {
            n * k
        } else {
            u64::MAX as int
        }),
{
    match n.checked_mul(k) {
        Some(x) => x,
        None => u64::MAX,
    }
}

/// The record of a new transfer.
#[must_use]
pub fn new_record(
    id: String,
    session: &SessionInfo,
    server: &PesitServerConfig,
    node_id: &str,
    direction: TransferDirection,
    partner: &str,
    file: &FileSpec,
    tid: u32,
    local_path: Option<&str>,
    now: &str,
) -> (r: TransferRecord)
    ensures
        r.id is None,
        r.transfer_id == id,
        r.pesit_transfer_id == tid,
        opt_text(r.session_id) == Some(session.id@),
        opt_text(r.server_id) == Some(server.server_id@),
        opt_text(r.node_id) == Some(node_id@),
        r.direction == Some(direction),
        r.status == TransferStatus::Initiated,
        opt_text(r.partner_id) == Some(partner@),
        opt_text(r.filename) == Some(file@.file_name),
        opt_text(r.local_path) == crate::text::opt_str(local_path),
        r.file_size == (if file@.max_reservation > 0 {
            Some(reserved_bytes(file@.max_reservation))
        } else {
            None::<u64>
        }),
        r.bytes_transferred == 0 && r.progress_percent == 0,
        r.last_sync_point == 0 && r.bytes_at_last_sync_point == 0,
        opt_text(r.started_at) == Some(now@),
        r.completed_at is None,
        opt_text(r.updated_at) == Some(now@),
        opt_text(r.remote_address) == Some(session.remote_addr@),
        r.error_code is None && r.error_message is None && r.checksum is None,
        r.checksum_algorithm@ == "SHA-256"@,
        r.parent_transfer_id is None && r.metadata is None,
{
    let mut r = TransferRecord::default();
    r.transfer_id = id;
    r.pesit_transfer_id = tid;
    r.session_id = Some(session.id.clone());
    r.server_id = Some(server.server_id.clone());
    r.node_id = Some(node_id.to_owned());
    r.direction = Some(direction);
    r.partner_id = Some(partner.to_owned());
    r.filename = Some(file.file_name.clone());
    r.local_path = match local_path {
        Some(p) => Some(p.to_owned()),
        None => None,
    };
    if file.max_reservation > 0 {
        r.file_size = Some(times(file.max_reservation, 1024));
    }
    r.started_at = Some(now.to_owned());
    r.updated_at = Some(now.to_owned());
    r.remote_address = Some(session.remote_addr.clone());
    r
}

/// Note that a record continues an interrupted transfer, from a checkpoint.
pub fn continue_record(r: &mut TransferRecord, parent: Option<String>, restart: Option<Checkpoint>)
    ensures
        *final(r) == (TransferRecord {
            parent_transfer_id: parent,
            bytes_transferred: match restart {
                Some(cp) => cp.data_bytes,
                None => old(r).bytes_transferred,
            },
            last_sync_point: match restart {
                Some(cp) => cp.sync,
                None => old(r).last_sync_point,
            },
            bytes_at_last_sync_point: match restart {
                Some(cp) => cp.data_bytes,
                None => old(r).bytes_at_last_sync_point,
            },
            ..*old(r)
        }),
{
    r.parent_transfer_id = parent;
    match restart {
        Some(cp) => {
            r.bytes_transferred = cp.data_bytes;
            r.last_sync_point = cp.sync;
            r.bytes_at_last_sync_point = cp.data_bytes;
        },
        None => {},
    }
}

/// Complete the record of a message of `size` bytes.
pub fn message_record(r: &mut TransferRecord, text: String, size: u64, now: String)
    ensures
        *final(r) == (TransferRecord {
            status: TransferStatus::Completed,
            bytes_transferred: size,
            completed_at: Some(now),
            metadata: Some(text),
            ..*old(r)
        }),
{
    r.status = TransferStatus::Completed;
    r.bytes_transferred = size;
    r.completed_at = Some(now);
    r.metadata = Some(text);
}

/// Reply to a message, where one is expected: `OK`.
#[must_use]
pub fn message_reply(expects_reply: bool) -> (r: Option<Vec<u8>>)
    ensures
        crate::message::opt_vec(r) == (if expects_reply {
            Some(seq![0x4fu8, 0x4bu8])
        } else {
            None::<Seq<u8>>
        }),
{
    if expects_reply {
        let v: Vec<u8> = vec![0x4f, 0x4b];
        proof {
            assert(v@ =~= seq![0x4fu8, 0x4bu8]);
        }
        Some(v)
    } else {
        None
    }
}

/// Record that the data phase starts from a checkpoint.
pub fn on_started(r: &mut TransferRecord, transfer_id: u32, from: Checkpoint, now: String)
    ensures
        *final(r) == (TransferRecord {
            status: TransferStatus::InProgress,
            pesit_transfer_id: transfer_id,
            bytes_transferred: from.data_bytes,
            last_sync_point: from.sync,
            bytes_at_last_sync_point: from.data_bytes,
            updated_at: Some(now),
            ..*old(r)
        }),
{
    r.status = TransferStatus::InProgress;
    r.pesit_transfer_id = transfer_id;
    r.bytes_transferred = from.data_bytes;
    r.last_sync_point = from.sync;
    r.bytes_at_last_sync_point = from.data_bytes;
    r.updated_at = Some(now);
}

/// Percentage of a total, at most 100. Beyond what can be multiplied, the largest product counts.
pub open spec fn percent(bytes: u64, total: u64) -> u8 {
    let product = if bytes * 100 <= u64::MAX {
        bytes * 100
    } else {
        u64::MAX as int
    };
    if product / (total as int) > 100 {
        100
    } else {
        (product / (total as int)) as u8
    }
}

/// Record progress.
pub fn apply_progress(
    r: &mut TransferRecord,
    p: &Progress,
    total: Option<u64>,
    sync_changed: bool,
    now: String,
)
    ensures
        *final(r) == (TransferRecord {
            status: TransferStatus::InProgress,
            bytes_transferred: p.data_bytes,
            progress_percent: if total is Some && total->0 > 0 {
                percent(p.data_bytes, total->0)
            } else {
                old(r).progress_percent
            },
            file_size: if total is Some && total->0 > 0 {
                total
            } else {
                old(r).file_size
            },
            last_sync_point: if sync_changed {
                p.sync
            } else {
                old(r).last_sync_point
            },
            bytes_at_last_sync_point: if sync_changed {
                p.data_bytes
            } else {
                old(r).bytes_at_last_sync_point
            },
            updated_at: Some(now),
            ..*old(r)
        }),
{
    r.status = TransferStatus::InProgress;
    r.bytes_transferred = p.data_bytes;
    match total {
        Some(t) => {
            if t > 0 {
                let done: u64 = times(p.data_bytes, 100) / t;
                r.progress_percent = if done > 100 {
                    100
                } else {
                    done as u8
                };
                r.file_size = Some(t);
            }
        },
        None => {},
    }
    if sync_changed {
        r.last_sync_point = p.sync;
        r.bytes_at_last_sync_point = p.data_bytes;
    }
    r.updated_at = Some(now);
}

/// Whether the file of an ended transfer is complete.
#[verifier::allow_in_spec]
#[must_use]
pub fn completed(data: &DataResult, diag: Diagnostic) -> bool
    returns
        data.end == DataEnd::Completed && diag.spec_is_ok(),
{
    data.end == DataEnd::Completed && diag.is_ok()
}

/// Whether the file behind the record of an ended transfer is digested: it was received, and is
/// complete.
#[must_use]
pub fn wants_checksum(r: &TransferRecord, data: &DataResult, diag: Diagnostic) -> (b: bool)
    ensures
        b == (completed(data, diag) && r.direction == Some(TransferDirection::Receive)),
{
    completed(data, diag) && (match r.direction {
        Some(TransferDirection::Receive) => true,
        _ => false,
    })
}

/// Explanation of an interruption.
pub open spec fn interruption_text(end: DataEnd) -> Seq<char> {
    match end {
        DataEnd::Interrupted { code, diag, by_peer } => diag.spec_text() + " (end code "@
            + code.spec_variant() + ", by "@ + (if by_peer {
            "partner"@
        } else {
            "operator"@
        }) + ")"@,
        _ => Seq::empty(),
    }
}

/// Record the end of a transfer.
pub fn on_ended(
    r: &mut TransferRecord,
    data: &DataResult,
    diag: Diagnostic,
    checksum: Option<String>,
    now: &str,
)
    ensures
        opt_text(final(r).completed_at) == Some(now@),
        opt_text(final(r).updated_at) == Some(now@),
        if completed(data, diag) {
            *final(r) == (TransferRecord {
                bytes_transferred: data.data_bytes,
                last_sync_point: data.last_sync,
                status: TransferStatus::Completed,
                progress_percent: 100,
                file_size: if old(r).file_size is Some && old(r).file_size->0 > 0 {
                    old(r).file_size
                } else {
                    Some(data.data_bytes)
                },
                checksum,
                completed_at: final(r).completed_at,
                updated_at: final(r).updated_at,
                ..*old(r)
            })
        } else {
            &&& *final(r) == (TransferRecord {
                bytes_transferred: data.data_bytes,
                last_sync_point: data.last_sync,
                status: match data.end {
                    DataEnd::Interrupted { by_peer, .. } => if by_peer {
                        TransferStatus::Interrupted
                    } else {
                        TransferStatus::Cancelled
                    },
                    _ => TransferStatus::Failed,
                },
                error_code: final(r).error_code,
                error_message: final(r).error_message,
                completed_at: final(r).completed_at,
                updated_at: final(r).updated_at,
                ..*old(r)
            })
            &&& opt_text(final(r).error_code) == Some(
                crate::client::engine::stopping_diag(data.end, diag).spec_label(),
            )
            &&& opt_text(final(r).error_message) == Some(
                if data.end is Interrupted {
                    interruption_text(data.end)
                } else {
                    crate::client::engine::stopping_diag(data.end, diag).spec_text()
                },
            )
        },
{
    r.bytes_transferred = data.data_bytes;
    r.completed_at = Some(now.to_owned());
    r.updated_at = Some(now.to_owned());
    r.last_sync_point = data.last_sync;
    if completed(data, diag) {
        r.status = TransferStatus::Completed;
        r.progress_percent = 100;
        match r.file_size {
            Some(s) => {
                if s == 0 {
                    r.file_size = Some(data.data_bytes);
                }
            },
            None => {
                r.file_size = Some(data.data_bytes);
            },
        }
        r.checksum = checksum;
        return ;
    }
    match data.end {
        DataEnd::Interrupted { code, diag: d, by_peer } => {
            r.status = if by_peer {
                TransferStatus::Interrupted
            } else {
                TransferStatus::Cancelled
            };
            let mut text = d.text();
            text.append(" (end code ");
            text.append(code.variant().as_str());
            text.append(", by ");
            text.append(
                if by_peer {
                    "partner"
                } else {
                    "operator"
                },
            );
            text.append(")");
            r.error_code = Some(d.label());
            r.error_message = Some(text);
        },
        DataEnd::EndedWithError(d) => {
            r.status = TransferStatus::Failed;
            r.error_code = Some(d.label());
            r.error_message = Some(d.text());
        },
        DataEnd::Completed => {
            r.status = TransferStatus::Failed;
            r.error_code = Some(diag.label());
            r.error_message = Some(diag.text());
        },
    }
}

/// Record that a transfer failed; one that passed a synchronisation point can be restarted.
pub fn on_failed(r: &mut TransferRecord, message: String, now: &str)
    ensures
        *final(r) == (TransferRecord {
            status: if old(r).last_sync_point > 0 {
                TransferStatus::Interrupted
            } else {
                TransferStatus::Failed
            },
            error_message: Some(message),
            completed_at: final(r).completed_at,
            updated_at: final(r).updated_at,
            ..*old(r)
        }),
        opt_text(final(r).completed_at) == Some(now@),
        opt_text(final(r).updated_at) == Some(now@),
{
    r.status = if r.last_sync_point > 0 {
        TransferStatus::Interrupted
    } else {
        TransferStatus::Failed
    };
    r.completed_at = Some(now.to_owned());
    r.updated_at = Some(now.to_owned());
    r.error_message = Some(message);
}

/// Record the upload of a received file: where it went, or why it failed.
pub fn on_uploaded(
    r: &mut TransferRecord,
    connector: &str,
    remote: &str,
    failure: Option<&str>,
    now: String,
)
    ensures
        match failure {
            None => {
                &&& *final(r) == (TransferRecord {
                    local_path: final(r).local_path,
                    updated_at: Some(now),
                    ..*old(r)
                })
                &&& opt_text(final(r).local_path) == Some(connector@ + ":"@ + remote@)
            },
            Some(e) => {
                &&& *final(r) == (TransferRecord {
                    status: TransferStatus::Failed,
                    error_message: final(r).error_message,
                    updated_at: Some(now),
                    ..*old(r)
                })
                &&& opt_text(final(r).error_message) == Some("connector upload failed: "@ + e@)
            },
        },
{
    match failure {
        None => {
            r.local_path = Some(between(connector, ":", remote));
        },
        Some(e) => {
            r.status = TransferStatus::Failed;
            let mut text = "connector upload failed: ".to_owned();
            text.append(e);
            r.error_message = Some(text);
        },
    }
    r.updated_at = Some(now);
}

// ---- laws ----

/// Nobody is let in unknown, disabled or with a wrong password, nor who asks for another server.
pub proof fn law_only_known_partners_connect(
    partner: Option<Partner>,
    server_id: Seq<char>,
    req: ConnectRequest,
)
    requires
        connect_refusal(partner, server_id, req) is None,
    ensures
        server_accepted(server_id, req.server@),
        partner is Some && partner->0.enabled,
        access_granted(partner->0, req.access),
        partner->0.password matches Some(p) ==> p@.len() > 0 ==> req.password is Some && trimmed(
            req.password->0@,
        ) == p@,
{
    if let Some(p) = partner->0.password {
        if p@.len() > 0 && req.password is None {
            assert(trimmed(Seq::<char>::empty()).len() == 0);
        }
    }
}

/// A partner that may only read never gets to write a file, and the other way round.
pub proof fn law_access_rights_are_enforced(
    p: Partner,
    requester: Seq<char>,
    file: Seq<char>,
    write: bool,
)
    requires
        partner_refusal(Some(p), requester, file, write) is None,
    ensures
        write ==> p.access_type.can_write(),
        !write ==> p.access_type.can_read(),
        p.spec_can_access_file(file),
{
}

/// The key of a transfer is a safe file name: letters, digits, `_` and `-` only.
pub proof fn law_restart_keys_are_safe(requester: Seq<char>, file: Seq<char>, tid: u32)
    ensures
        forall|i: int|
            0 <= i < spec_restart_key(requester, file, tid).len() ==> {
                let c = #[trigger] spec_restart_key(requester, file, tid)[i];
                alphanumeric(c) || c == '_' || c == '-'
            },
{
}

/// Progress never exceeds one hundred percent, and is complete only where everything came.
pub proof fn law_percent_is_bounded(bytes: u64, total: u64)
    requires
        total > 0,
    ensures
        percent(bytes, total) <= 100,
        bytes * 100 <= u64::MAX && bytes < total ==> percent(bytes, total) < 100,
        bytes * 100 <= u64::MAX && bytes >= total ==> percent(bytes, total) == 100,
{
    if bytes * 100 <= u64::MAX {
        assert(bytes < total ==> (bytes * 100) / (total as int) < 100) by (nonlinear_arith)
            requires
                total > 0,
        ;
        assert(bytes >= total ==> (bytes * 100) / (total as int) >= 100) by (nonlinear_arith)
            requires
                total > 0,
        ;
    }
}

} // verus!
