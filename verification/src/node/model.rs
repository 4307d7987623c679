//! Records of the inbound side: partners, virtual files, listeners and transfer records.

use crate::article::RecordFormat;
use crate::client::api::{blank, is_blank};
use crate::text::{chars_of, string_of, trim, trimmed};
use vstd::prelude::*;
use vstd::utf8::encode_utf8;

verus! {

/// Partner access rights.
#[derive(Debug, Clone, Copy, PartialEq, Eq, Default, Structural)]
pub enum AccessType {
    /// Only F.SELECT (the partner reads).
    Read,
    /// Only F.CREATE (the partner writes).
    Write,
    /// Both.
    #[default]
    Both,
}

impl AccessType {
    /// The partner may send files to us.
    #[verifier::allow_in_spec]
    #[must_use]
    pub fn can_write(self) -> bool
        returns
            self == AccessType::Write || self == AccessType::Both,
    {
        match self {
            AccessType::Read => false,
            _ => true,
        }
    }

    /// The partner may read files from us.
    #[verifier::allow_in_spec]
    #[must_use]
    pub fn can_read(self) -> bool
        returns
            self == AccessType::Read || self == AccessType::Both,
    {
        match self {
            AccessType::Write => false,
            _ => true,
        }
    }
}

/// A partner allowed to connect.
#[derive(Debug, PartialEq, Eq)]
pub struct Partner {
    /// Identifier (PI 3 of the CONNECT).
    pub id: String,
    /// Description.
    pub description: Option<String>,
    /// Password (PI 5); empty or absent = no check.
    pub password: Option<String>,
    /// Enabled.
    pub enabled: bool,
    /// Access rights.
    pub access_type: AccessType,
    /// Maximum simultaneous connections.
    pub max_connections: u32,
    /// Comma-separated list of allowed virtual files (glob `*` allowed); empty = all.
    pub allowed_files: Option<String>,
    /// Pre-connection password expected when the partner sends one.
    pub preconnect_password: Option<String>,
    /// Creation time.
    pub created_at: Option<String>,
    /// Update time.
    pub updated_at: Option<String>,
}

impl Default for Partner {
    fn default() -> (r: Self)
        ensures
            r.id@ == ""@,
            r.description is None,
            r.password is None,
            r.enabled,
            r.access_type == AccessType::Both,
            r.max_connections == 10,
            r.allowed_files is None,
            r.preconnect_password is None,
            r.created_at is None,
            r.updated_at is None,
    {
        Partner {
            id: "".to_owned(),
            description: None,
            password: None,
            enabled: true,
            access_type: AccessType::Both,
            max_connections: 10,
            allowed_files: None,
            preconnect_password: None,
            created_at: None,
            updated_at: None,
        }
    }
}

/// Whether a text matches a pattern, byte by byte and up to ASCII case: `*` stands for any bytes,
/// `?` for one.
pub open spec fn globbed(p: Seq<u8>, t: Seq<u8>) -> bool
    decreases p.len() + t.len(),
{
    if p.len() == 0 {
        t.len() == 0
    } else if p[0] == 0x2a {
        globbed(p.skip(1), t) || (t.len() > 0 && globbed(p, t.skip(1)))
    } else if t.len() == 0 {
        false
    } else {
        (p[0] == 0x3f || folded(p[0]) == folded(t[0])) && globbed(p.skip(1), t.skip(1))
    }
}

/// A byte as an ASCII letter in lower case, or as it is.
pub open spec fn folded(b: u8) -> u8 {
    if 0x41 <= b <= 0x5a {
        (b + 0x20) as u8
    } else {
        b
    }
}

fn fold(b: u8) -> (r: u8)
    ensures
        r == folded(b),
{
    if 0x41 <= b && b <= 0x5a {
        b + 0x20
    } else {
        b
    }
}

fn glob_bytes(p: &[u8], t: &[u8]) -> (r: bool)
    ensures
        r == globbed(p@, t@),
    decreases p.len() + t.len(),
{
    if p.len() == 0 {
        return t.len() == 0;
    }
    let p1 = vstd::slice::slice_subrange(p, 1, p.len());
    proof {
        assert(p1@ =~= p@.skip(1));
    }
    if p[0] == 0x2a {
        if glob_bytes(p1, t) {
            return true;
        }
        if t.len() == 0 {
            return false;
        }
        let t1 = vstd::slice::slice_subrange(t, 1, t.len());
        proof {
            assert(t1@ =~= t@.skip(1));
        }
        return glob_bytes(p, t1);
    }
    if t.len() == 0 {
        return false;
    }
    let t1 = vstd::slice::slice_subrange(t, 1, t.len());
    proof {
        assert(t1@ =~= t@.skip(1));
    }
    (p[0] == 0x3f || fold(p[0]) == fold(t[0])) && glob_bytes(p1, t1)
}

/// Minimal glob matching (`*` and `?`).
#[must_use]
pub fn glob_match(pattern: &str, text: &str) -> (r: bool)
    ensures
        r == globbed(encode_utf8(pattern@), encode_utf8(text@)),
{
    glob_bytes(pattern.as_bytes(), text.as_bytes())
}

/// Position of the first comma, or the length.
pub open spec fn comma(s: Seq<char>) -> int
    decreases s.len(),
{
    if s.len() == 0 || s[0] == ',' {
        0
    } else {
        1 + comma(s.skip(1))
    }
}

pub proof fn lemma_comma(s: Seq<char>)
    ensures
        0 <= comma(s) <= s.len(),
    decreases s.len(),
{
    if s.len() > 0 && s[0] != ',' {
        lemma_comma(s.skip(1));
    }
}

/// Whether one of the patterns of a comma-separated list, blanks around it dropped, matches.
pub open spec fn listed(list: Seq<char>, file: Seq<char>) -> bool
    decreases list.len(),
    via listed_shrinks
{
    let i = comma(list);
    globbed(encode_utf8(trimmed(list.take(i))), encode_utf8(file)) || (i < list.len() && listed(
        list.skip(i + 1),
        file,
    ))
}

#[via_fn]
proof fn listed_shrinks(list: Seq<char>, file: Seq<char>) {
    lemma_comma(list);
}

fn is_listed(list: &str, file: &str) -> (r: bool)
    ensures
        r == listed(list@, file@),
{
    let chars = chars_of(list);
    let mut at: usize = 0;
    proof {
        assert(list@.skip(0) =~= list@);
    }
    loop
        invariant
            at <= chars.len(),
            chars@ == list@,
            listed(list@, file@) == listed(list@.skip(at as int), file@),
        decreases chars.len() - at,
    {
        let ghost rest = list@.skip(at as int);
        let mut end: usize = at;
        proof {
            assert(rest.skip(0) =~= rest);
        }
        while end < chars.len() && chars[end] != ','
            invariant
                at <= end <= chars.len(),
                chars@ == list@,
                rest == list@.skip(at as int),
                comma(rest) == end - at + comma(rest.skip(end - at)),
            decreases chars.len() - end,
        {
            proof {
                assert(rest.skip(end - at).skip(1) =~= rest.skip(end + 1 - at));
                assert(rest.skip(end - at)[0] == list@[end as int]);
            }
            end += 1;
        }
        proof {
            if end < chars.len() {
                assert(rest.skip(end - at)[0] == list@[end as int]);
            }
            assert(comma(rest) == end - at);
        }
        let part = string_of(
            vstd::slice::slice_subrange(chars.as_slice(), at, end),
        );
        let pattern = trim(part.as_str());
        proof {
            assert(part@ =~= rest.take(end - at));
        }
        if glob_match(pattern.as_str(), file) {
            return true;
        }
        if end == chars.len() {
            return false;
        }
        proof {
            assert(rest.skip(end - at + 1) =~= list@.skip(end + 1));
        }
        at = end + 1;
    }
}

impl Partner {
    /// Whether `file` is allowed by `allowed_files`; a blank list allows all.
    pub open spec fn spec_can_access_file(self, file: Seq<char>) -> bool {
        match self.allowed_files {
            Some(list) => blank(list@) || listed(list@, file),
            None => true,
        }
    }

    /// Whether `file` is allowed by `allowed_files`.
    #[must_use]
    pub fn can_access_file(&self, file: &str) -> (r: bool)
        ensures
            r == self.spec_can_access_file(file@),
    {
        match &self.allowed_files {
            Some(list) => is_blank(list.as_str()) || is_listed(list.as_str(), file),
            None => true,
        }
    }
}

/// Virtual file direction.
#[derive(Debug, Clone, Copy, PartialEq, Eq, Default, Structural)]
pub enum Direction {
    /// Partners write it (F.CREATE).
    Receive,
    /// Partners read it (F.SELECT).
    Send,
    /// Both.
    #[default]
    Both,
}

/// A virtual (logical) file.
#[derive(Debug, PartialEq, Eq)]
pub struct VirtualFile {
    /// Identifier (PI 12).
    pub id: String,
    /// Description.
    pub description: Option<String>,
    /// Enabled.
    pub enabled: bool,
    /// Direction.
    pub direction: Direction,
    /// Directory where received files are stored (defaults to the server's).
    pub receive_directory: Option<String>,
    /// Physical file sent on F.SELECT.
    pub send_file: Option<String>,
    /// Name pattern of received files (`${virtualFile}`, `${transferId}`, `${timestamp}`,
    /// `${date}`, `${time}`, `${partnerId}`).
    pub receive_filename_pattern: String,
    /// Overwrite an existing file.
    pub overwrite: bool,
    /// Maximum size in bytes (0 = unlimited).
    pub max_file_size: u64,
    /// File type (PI 11).
    pub file_type: u32,
    /// Record length (PI 32).
    pub record_length: u32,
    /// Record format (PI 31): 0x80 variable, 0x00 fixed.
    pub record_format: u32,
    /// Text mode: articles are lines (LF stripped/added) instead of binary chunks.
    pub text: bool,
    /// Remote storage that backs the file (identifier of a connector).
    pub connector: Option<String>,
    /// Name pattern of the file in the remote storage.
    pub connector_path: Option<String>,
    /// Creation time.
    pub created_at: Option<String>,
    /// Update time.
    pub updated_at: Option<String>,
}

impl Default for VirtualFile {
    fn default() -> (r: Self)
        ensures
            r.id@ == ""@,
            r.description is None,
            r.enabled,
            r.direction == Direction::Both,
            r.receive_directory is None,
            r.send_file is None,
            r.receive_filename_pattern@ == "${virtualFile}_${timestamp}"@,
            !r.overwrite,
            r.max_file_size == 0,
            r.file_type == 0,
            r.record_length == 1024,
            r.record_format == 0x80,
            !r.text,
            r.connector is None,
            r.connector_path is None,
            r.created_at is None,
            r.updated_at is None,
    {
        VirtualFile {
            id: "".to_owned(),
            description: None,
            enabled: true,
            direction: Direction::Both,
            receive_directory: None,
            send_file: None,
            receive_filename_pattern: "${virtualFile}_${timestamp}".to_owned(),
            overwrite: false,
            max_file_size: 0,
            file_type: 0,
            record_length: 1024,
            record_format: 0x80,
            text: false,
            connector: None,
            connector_path: None,
            created_at: None,
            updated_at: None,
        }
    }
}

impl VirtualFile {
    /// Partners may write it.
    #[verifier::allow_in_spec]
    #[must_use]
    pub fn can_receive(&self) -> bool
        returns
            self.direction == Direction::Receive || self.direction == Direction::Both,
    {
        match self.direction {
            Direction::Send => false,
            _ => true,
        }
    }

    /// Partners may read it.
    #[verifier::allow_in_spec]
    #[must_use]
    pub fn can_send(&self) -> bool
        returns
            self.direction == Direction::Send || self.direction == Direction::Both,
    {
        match self.direction {
            Direction::Receive => false,
            _ => true,
        }
    }

    /// Whether the records of the file vary in length.
    pub open spec fn spec_variable(self) -> bool {
        self.record_format & 0x80 != 0
    }

    /// Whether the records of the file vary in length.
    #[must_use]
    pub fn variable(&self) -> (r: bool)
        ensures
            r == self.spec_variable(),
    {
        self.record_format & 0x80 != 0
    }

    /// Record format used for the physical file.
    #[must_use]
    pub fn record_format(&self) -> (r: RecordFormat)
        ensures
            r == (match (self.text, self.spec_variable()) {
                (true, true) => RecordFormat::Tv,
                (true, false) => RecordFormat::Tf,
                (false, true) => RecordFormat::Bu,
                (false, false) => RecordFormat::Bf,
            }),
    {
        match (self.text, self.variable()) {
            (true, true) => RecordFormat::Tv,
            (true, false) => RecordFormat::Tf,
            (false, true) => RecordFormat::Bu,
            (false, false) => RecordFormat::Bf,
        }
    }
}

/// A remote partner (server) that this instance can connect to
#[derive(Debug, PartialEq, Eq)]
pub struct RemotePartner {
    /// Identifier.
    pub id: String,
    /// Description.
    pub description: Option<String>,
    /// Host.
    pub host: String,
    /// Port.
    pub port: u16,
    /// Our identifier when connecting (PI 3).
    pub local_partner_id: Option<String>,
    /// Remote identifier (PI 4).
    pub remote_partner_id: Option<String>,
    /// Enabled.
    pub enabled: bool,
    /// Maximum connections.
    pub max_connections: u32,
    /// TLS.
    pub tls_enabled: bool,
    /// Creation time.
    pub created_at: Option<String>,
    /// Update time.
    pub updated_at: Option<String>,
}

impl Default for RemotePartner {
    fn default() -> (r: Self)
        ensures
            r.id@ == ""@,
            r.description is None,
            r.host@ == ""@,
            r.port == 5000,
            r.local_partner_id is None,
            r.remote_partner_id is None,
            r.enabled,
            r.max_connections == 5,
            !r.tls_enabled,
            r.created_at is None,
            r.updated_at is None,
    {
        RemotePartner {
            id: "".to_owned(),
            description: None,
            host: "".to_owned(),
            port: 5000,
            local_partner_id: None,
            remote_partner_id: None,
            enabled: true,
            max_connections: 5,
            tls_enabled: false,
            created_at: None,
            updated_at: None,
        }
    }
}

/// Listener status.
#[derive(Debug, Clone, Copy, PartialEq, Eq, Default, Structural)]
pub enum ServerStatus {
    /// Not listening.
    #[default]
    Stopped,
    /// Starting.
    Starting,
    /// Listening.
    Running,
    /// Stopping.
    Stopping,
    /// Failed to start.
    Error,
}

impl ServerStatus {
    /// Written form.
    pub open spec fn spec_name(self) -> Seq<char> {
        match self {
            ServerStatus::Stopped => "STOPPED"@,
            ServerStatus::Starting => "STARTING"@,
            ServerStatus::Running => "RUNNING"@,
            ServerStatus::Stopping => "STOPPING"@,
            ServerStatus::Error => "ERROR"@,
        }
    }

    /// Written form.
    #[must_use]
    pub fn name(self) -> (r: &'static str)
        ensures
            r@ == self.spec_name(),
    {
        match self {
            ServerStatus::Stopped => "STOPPED",
            ServerStatus::Starting => "STARTING",
            ServerStatus::Running => "RUNNING",
            ServerStatus::Stopping => "STOPPING",
            ServerStatus::Error => "ERROR",
        }
    }
}

/// A PeSIT listener configuration.
#[derive(Debug, PartialEq, Eq)]
pub struct PesitServerConfig {
    /// Numeric identifier (kept for compatibility).
    pub id: Option<u64>,
    /// Identifier (PI 4 accepted by this listener; empty = any).
    pub server_id: String,
    /// TCP port.
    pub port: u16,
    /// Bind address.
    pub bind_address: String,
    /// Protocol version (2 = PeSIT E).
    pub protocol_version: u8,
    /// Maximum simultaneous sessions.
    pub max_connections: u32,
    /// Connection / idle timeout in milliseconds.
    pub connection_timeout: u64,
    /// Read timeout in milliseconds during transfers.
    pub read_timeout: u64,
    /// Default receive directory.
    pub receive_directory: String,
    /// Default send directory.
    pub send_directory: String,
    /// Maximum entity size (PI 25).
    pub max_entity_size: u16,
    /// Synchronisation points.
    pub sync_points_enabled: bool,
    /// Synchronisation interval in KB.
    pub sync_interval_kb: u16,
    /// Acknowledgement window (0 = no ACK(SYN)).
    pub sync_window: u8,
    /// Resynchronisation.
    pub resync_enabled: bool,
    /// Start with the process.
    pub auto_start: bool,
    /// TLS listener (uses the process TLS settings).
    pub ssl_enabled: bool,
    /// Name of a managed keystore to use for this listener's TLS identity (overrides the process cert).
    pub ssl_keystore: Option<String>,
    /// Name of a managed truststore to verify client certificates.
    pub ssl_truststore: Option<String>,
    /// Transport header on TLS connections.
    pub tcpip_header: bool,
    /// Compression capability (0 none, 1 horizontal, 2 vertical, 3 mixed).
    pub compression: u8,
    /// Status.
    pub status: ServerStatus,
    /// Creation time.
    pub created_at: Option<String>,
    /// Update time.
    pub updated_at: Option<String>,
    /// Last start time.
    pub last_started_at: Option<String>,
    /// Last stop time.
    pub last_stopped_at: Option<String>,
}

impl Default for PesitServerConfig {
    fn default() -> (r: Self)
        ensures
            r.id is None,
            r.server_id@ == ""@,
            r.port == 5001,
            r.bind_address@ == "0.0.0.0"@,
            r.protocol_version == 2,
            r.max_connections == 100,
            r.connection_timeout == 30_000,
            r.read_timeout == 60_000,
            r.receive_directory@ == "/data/received"@,
            r.send_directory@ == "/data/send"@,
            r.max_entity_size == 4096,
            r.sync_points_enabled,
            r.sync_interval_kb == 32,
            r.sync_window == 4,
            r.resync_enabled,
            !r.auto_start,
            !r.ssl_enabled,
            r.ssl_keystore is None,
            r.ssl_truststore is None,
            r.tcpip_header,
            r.compression == 0,
            r.status == ServerStatus::Stopped,
            r.created_at is None,
            r.updated_at is None,
            r.last_started_at is None,
            r.last_stopped_at is None,
    {
        PesitServerConfig {
            id: None,
            server_id: "".to_owned(),
            port: 5001,
            bind_address: "0.0.0.0".to_owned(),
            protocol_version: 2,
            max_connections: 100,
            connection_timeout: 30_000,
            read_timeout: 60_000,
            receive_directory: "/data/received".to_owned(),
            send_directory: "/data/send".to_owned(),
            max_entity_size: 4096,
            sync_points_enabled: true,
            sync_interval_kb: 32,
            sync_window: 4,
            resync_enabled: true,
            auto_start: false,
            ssl_enabled: false,
            ssl_keystore: None,
            ssl_truststore: None,
            tcpip_header: true,
            compression: 0,
            status: ServerStatus::Stopped,
            created_at: None,
            updated_at: None,
            last_started_at: None,
            last_stopped_at: None,
        }
    }
}

/// Status response of a listener.
#[derive(Debug, PartialEq, Eq)]
pub struct ServerStatusResponse {
    /// Identifier.
    pub server_id: String,
    /// Status.
    pub status: ServerStatus,
    /// Listening.
    pub running: bool,
    /// Sessions in progress.
    pub active_connections: usize,
    /// Port.
    pub port: u16,
}

/// Transfer direction from the server's point of view.
#[derive(Debug, Clone, Copy, PartialEq, Eq, Structural)]
pub enum TransferDirection {
    /// The partner reads (F.SELECT): the server sends.
    Send,
    /// The partner writes (F.CREATE): the server receives.
    Receive,
    /// A message.
    Message,
}

impl TransferDirection {
    /// Written form.
    pub open spec fn spec_name(self) -> Seq<char> {
        match self {
            TransferDirection::Send => "SEND"@,
            TransferDirection::Receive => "RECEIVE"@,
            TransferDirection::Message => "MESSAGE"@,
        }
    }

    /// Written form.
    #[must_use]
    pub fn name(self) -> (r: &'static str)
        ensures
            r@ == self.spec_name(),
    {
        match self {
            TransferDirection::Send => "SEND",
            TransferDirection::Receive => "RECEIVE",
            TransferDirection::Message => "MESSAGE",
        }
    }
}

/// Transfer status.
#[derive(Debug, Clone, Copy, PartialEq, Eq, Default, Structural)]
pub enum TransferStatus {
    /// Request received.
    #[default]
    Initiated,
    /// Data phase.
    InProgress,
    /// Paused.
    Paused,
    /// Interrupted (restartable).
    Interrupted,
    /// Completed.
    Completed,
    /// Failed.
    Failed,
    /// Cancelled.
    Cancelled,
}

impl TransferStatus {
    /// Written form.
    pub open spec fn spec_name(self) -> Seq<char> {
        match self {
            TransferStatus::Initiated => "INITIATED"@,
            TransferStatus::InProgress => "IN_PROGRESS"@,
            TransferStatus::Paused => "PAUSED"@,
            TransferStatus::Interrupted => "INTERRUPTED"@,
            TransferStatus::Completed => "COMPLETED"@,
            TransferStatus::Failed => "FAILED"@,
            TransferStatus::Cancelled => "CANCELLED"@,
        }
    }

    /// Written form.
    #[must_use]
    pub fn name(self) -> (r: &'static str)
        ensures
            r@ == self.spec_name(),
    {
        match self {
            TransferStatus::Initiated => "INITIATED",
            TransferStatus::InProgress => "IN_PROGRESS",
            TransferStatus::Paused => "PAUSED",
            TransferStatus::Interrupted => "INTERRUPTED",
            TransferStatus::Completed => "COMPLETED",
            TransferStatus::Failed => "FAILED",
            TransferStatus::Cancelled => "CANCELLED",
        }
    }
}

/// A transfer record.
#[derive(Debug, PartialEq, Eq)]
pub struct TransferRecord {
    /// Numeric identifier.
    pub id: Option<u64>,
    /// Transfer identifier (unique key).
    pub transfer_id: String,
    /// PeSIT transfer identifier (PI 13).
    pub pesit_transfer_id: u32,
    /// Session identifier.
    pub session_id: Option<String>,
    /// Listener identifier.
    pub server_id: Option<String>,
    /// Node identifier.
    pub node_id: Option<String>,
    /// Direction.
    pub direction: Option<TransferDirection>,
    /// Status.
    pub status: TransferStatus,
    /// Partner identifier.
    pub partner_id: Option<String>,
    /// Virtual file name.
    pub filename: Option<String>,
    /// Physical path.
    pub local_path: Option<String>,
    /// Announced or actual size.
    pub file_size: Option<u64>,
    /// Bytes transferred.
    pub bytes_transferred: u64,
    /// Progress in percent.
    pub progress_percent: u8,
    /// Last synchronisation point.
    pub last_sync_point: u32,
    /// Bytes at the last synchronisation point.
    pub bytes_at_last_sync_point: u64,
    /// Start time.
    pub started_at: Option<String>,
    /// Completion time.
    pub completed_at: Option<String>,
    /// Update time.
    pub updated_at: Option<String>,
    /// Remote address.
    pub remote_address: Option<String>,
    /// Error code (PeSIT diagnostic).
    pub error_code: Option<String>,
    /// Error message.
    pub error_message: Option<String>,
    /// Checksum of the file.
    pub checksum: Option<String>,
    /// Checksum algorithm.
    pub checksum_algorithm: String,
    /// Parent transfer (restart).
    pub parent_transfer_id: Option<String>,
    /// Free metadata.
    pub metadata: Option<String>,
}

impl Default for TransferRecord {
    fn default() -> (r: Self)
        ensures
            r.id is None,
            r.transfer_id@ == ""@,
            r.pesit_transfer_id == 0,
            r.session_id is None,
            r.server_id is None,
            r.node_id is None,
            r.direction is None,
            r.status == TransferStatus::Initiated,
            r.partner_id is None,
            r.filename is None,
            r.local_path is None,
            r.file_size is None,
            r.bytes_transferred == 0,
            r.progress_percent == 0,
            r.last_sync_point == 0,
            r.bytes_at_last_sync_point == 0,
            r.started_at is None,
            r.completed_at is None,
            r.updated_at is None,
            r.remote_address is None,
            r.error_code is None,
            r.error_message is None,
            r.checksum is None,
            r.checksum_algorithm@ == "SHA-256"@,
            r.parent_transfer_id is None,
            r.metadata is None,
    {
        TransferRecord {
            id: None,
            transfer_id: "".to_owned(),
            pesit_transfer_id: 0,
            session_id: None,
            server_id: None,
            node_id: None,
            direction: None,
            status: TransferStatus::Initiated,
            partner_id: None,
            filename: None,
            local_path: None,
            file_size: None,
            bytes_transferred: 0,
            progress_percent: 0,
            last_sync_point: 0,
            bytes_at_last_sync_point: 0,
            started_at: None,
            completed_at: None,
            updated_at: None,
            remote_address: None,
            error_code: None,
            error_message: None,
            checksum: None,
            checksum_algorithm: "SHA-256".to_owned(),
            parent_transfer_id: None,
            metadata: None,
        }
    }
}

/// Store tables: partners.
pub const PARTNERS: &'static str = "partners";

/// Store tables: virtual files.
pub const FILES: &'static str = "virtual_files";

/// Store tables: remote partners.
pub const REMOTE_PARTNERS: &'static str = "remote_partners";

/// Store tables: listeners.
pub const SERVERS: &'static str = "servers";

/// Store tables: transfers.
pub const TRANSFERS: &'static str = "transfers";

// ---- laws ----

/// `*` matches every text.
pub proof fn law_star_matches_everything(t: Seq<u8>)
    ensures
        globbed(seq![0x2a], t),
    decreases t.len(),
{
    let p = seq![0x2au8];
    assert(p.skip(1) =~= Seq::<u8>::empty());
    if t.len() > 0 {
        law_star_matches_everything(t.skip(1));
    } else {
        assert(globbed(p.skip(1), t));
    }
}

/// A pattern without `*` matches itself in either case, and nothing longer or shorter.
pub proof fn law_plain_patterns_match_themselves(p: Seq<u8>, t: Seq<u8>)
    requires
        forall|i: int| 0 <= i < p.len() ==> #[trigger] p[i] != 0x2a,
    ensures
        globbed(p, t) ==> p.len() == t.len(),
        p == t ==> globbed(p, t),
    decreases p.len(),
{
    if p.len() > 0 && t.len() > 0 {
        assert forall|i: int| 0 <= i < p.skip(1).len() implies #[trigger] p.skip(1)[i] != 0x2a by {
            assert(p.skip(1)[i] == p[i + 1]);
        }
        law_plain_patterns_match_themselves(p.skip(1), t.skip(1));
    }
}

/// A partner without a list, or with a blank one, may access every file.
pub proof fn law_no_list_allows_all(p: Partner, file: Seq<char>)
    requires
        p.allowed_files matches Some(l) ==> blank(l@),
    ensures
        p.spec_can_access_file(file),
{
}

} // verus!
