//! Records of the outbound side: servers, identities, transfer requests and their history.

use crate::service::time::{elapsed_between, opt_instant, spec_elapsed};
use crate::text::{copy_opt, filled_str, non_empty, opt_str, opt_text};
use vstd::prelude::*;

verus! {

/// A remote PeSIT server.
#[derive(Debug, PartialEq, Eq)]
pub struct PesitServer {
    /// Identifier (UUID).
    pub id: String,
    /// Unique name.
    pub name: String,
    /// Host name or address.
    pub host: String,
    /// Port.
    pub port: u16,
    /// PeSIT identifier of the server (PI 4).
    pub server_id: String,
    /// Description.
    pub description: Option<String>,
    /// TLS.
    pub tls_enabled: bool,
    /// Verify the host name against the certificate.
    pub hostname_verification: bool,
    /// Skip certificate verification entirely (testing only).
    pub insecure: bool,
    /// CA bundle (PEM file) used to verify the server certificate.
    pub ca_file: Option<String>,
    /// Client certificate (PEM file) for mutual TLS.
    pub cert_file: Option<String>,
    /// Client private key (PEM file).
    pub key_file: Option<String>,
    /// Transport header on TLS connections.
    pub tcpip_header: bool,
    /// Whether a truststore was uploaded.
    pub truststore_configured: bool,
    /// Whether a keystore was uploaded.
    pub keystore_configured: bool,
    /// TCP connection timeout (ms).
    pub connection_timeout: u64,
    /// Read timeout (ms).
    pub read_timeout: u64,
    /// Enabled.
    pub enabled: bool,
    /// Default server.
    pub default_server: bool,
    /// Use the CRC option (PI 1).
    pub crc_enabled: bool,
    /// Send a pre-connection identification.
    pub preconnect_id: Option<String>,
    /// Pre-connection password.
    pub preconnect_password: Option<String>,
    /// Creation time.
    pub created_at: Option<String>,
    /// Update time.
    pub updated_at: Option<String>,
}

impl Default for PesitServer {
    fn default() -> (r: Self)
        ensures
            r.id@ == ""@ && r.name@ == ""@ && r.host@ == ""@ && r.server_id@ == ""@,
            r.port == 5000,
            r.description is None,
            !r.tls_enabled && r.hostname_verification && !r.insecure && r.tcpip_header,
            r.ca_file is None && r.cert_file is None && r.key_file is None,
            !r.truststore_configured && !r.keystore_configured,
            r.connection_timeout == 30_000 && r.read_timeout == 60_000,
            r.enabled && !r.default_server && !r.crc_enabled,
            r.preconnect_id is None && r.preconnect_password is None,
            r.created_at is None && r.updated_at is None,
    {
        PesitServer {
            id: "".to_owned(),
            name: "".to_owned(),
            host: "".to_owned(),
            port: 5000,
            server_id: "".to_owned(),
            description: None,
            tls_enabled: false,
            hostname_verification: true,
            insecure: false,
            ca_file: None,
            cert_file: None,
            key_file: None,
            tcpip_header: true,
            truststore_configured: false,
            keystore_configured: false,
            connection_timeout: 30_000,
            read_timeout: 60_000,
            enabled: true,
            default_server: false,
            crc_enabled: false,
            preconnect_id: None,
            preconnect_password: None,
            created_at: None,
            updated_at: None,
        }
    }
}

/// Partner credentials (our identity towards a server).
#[derive(Debug, PartialEq, Eq)]
pub struct Partner {
    /// Identifier (UUID).
    pub id: String,
    /// PeSIT identifier (PI 3).
    pub partner_id: String,
    /// Description.
    pub description: Option<String>,
    /// Password (PI 5).
    pub password: Option<String>,
    /// Creation time.
    pub created_at: Option<String>,
    /// Update time.
    pub updated_at: Option<String>,
}

/// Transfer request.
#[derive(Debug, PartialEq, Eq)]
pub struct TransferRequest {
    /// Server name or id (default server when absent).
    pub server: Option<String>,
    /// Our PeSIT identifier (PI 3).
    pub partner_id: Option<String>,
    /// Password (PI 5).
    pub password: Option<String>,
    /// Local file (source when sending, destination when receiving).
    pub filename: Option<String>,
    /// Virtual file name on the server (PI 12).
    pub remote_filename: Option<String>,
    /// Alias of `remoteFilename`.
    pub virtual_file: Option<String>,
    /// File type (PI 11).
    pub file_type: Option<u64>,
    /// Named transfer configuration (unused, kept for compatibility).
    pub transfer_config: Option<String>,
    /// Correlation identifier.
    pub correlation_id: Option<String>,
    /// Compression (PI 21).
    pub compression_enabled: Option<bool>,
    /// Priority (PI 17).
    pub priority: Option<u8>,
    /// Synchronisation points.
    pub sync_points_enabled: Option<bool>,
    /// Synchronisation interval in bytes.
    pub sync_point_interval_bytes: Option<u64>,
    /// Synchronisation interval in KB (values above 65535 are taken as bytes).
    pub sync_point_interval: Option<u64>,
    /// Resynchronisation.
    pub resync_enabled: Option<bool>,
    /// Restart the given transfer from its last checkpoint.
    pub resume_from_transfer_id: Option<String>,
    /// Record length (PI 32).
    pub record_length: Option<u32>,
    /// Text mode (lines instead of binary chunks).
    pub text: Option<bool>,
    /// EBCDIC data code (PI 16 = 1): article bytes are translated between ISO-8859-1 and EBCDIC
    /// (code page 037).
    pub ebcdic: Option<bool>,
    /// CRC option.
    pub crc_enabled: Option<bool>,
    /// Maximum entity size (PI 25).
    pub max_entity_size: Option<u16>,
}

impl TransferRequest {
    /// A request that asks for nothing in particular.
    pub open spec fn blank() -> TransferRequest {
        TransferRequest {
            server: None,
            partner_id: None,
            password: None,
            filename: None,
            remote_filename: None,
            virtual_file: None,
            file_type: None,
            transfer_config: None,
            correlation_id: None,
            compression_enabled: None,
            priority: None,
            sync_points_enabled: None,
            sync_point_interval_bytes: None,
            sync_point_interval: None,
            resync_enabled: None,
            resume_from_transfer_id: None,
            record_length: None,
            text: None,
            ebcdic: None,
            crc_enabled: None,
            max_entity_size: None,
        }
    }

    /// Virtual file name.
    pub open spec fn spec_virtual_file(self) -> Option<Seq<char>> {
        non_empty(
            match self.remote_filename {
                Some(f) => Some(f@),
                None => opt_text(self.virtual_file),
            },
        )
    }

    /// Synchronisation interval in KB.
    pub open spec fn spec_sync_interval_kb(self, default_kb: u16) -> u16 {
        match self.sync_point_interval_bytes {
            Some(b) => whole_kb(b),
            None => match self.sync_point_interval {
                Some(v) => if v > 0xFFFF {
                    whole_kb(v)
                } else if v == 0xFFFF {
                    0xFFFE
                } else if v > 0 {
                    v as u16
                } else {
                    default_kb
                },
                None => default_kb,
            },
        }
    }
}

/// An interval in bytes as whole KB, between one and the largest that can be expressed.
pub open spec fn whole_kb(bytes: u64) -> u16 {
    if bytes / 1024 < 1 {
        1
    } else if bytes / 1024 > 0xFFFE {
        0xFFFE
    } else {
        (bytes / 1024) as u16
    }
}

fn kb_of(bytes: u64) -> (r: u16)
    ensures
        r == whole_kb(bytes),
{
    let kb: u64 = bytes / 1024;
    if kb < 1 {
        1
    } else if kb > 0xFFFE {
        0xFFFE
    } else {
        kb as u16
    }
}

impl Default for TransferRequest {
    fn default() -> (r: Self)
        ensures
            r == TransferRequest::blank(),
    {
        TransferRequest {
            server: None,
            partner_id: None,
            password: None,
            filename: None,
            remote_filename: None,
            virtual_file: None,
            file_type: None,
            transfer_config: None,
            correlation_id: None,
            compression_enabled: None,
            priority: None,
            sync_points_enabled: None,
            sync_point_interval_bytes: None,
            sync_point_interval: None,
            resync_enabled: None,
            resume_from_transfer_id: None,
            record_length: None,
            text: None,
            ebcdic: None,
            crc_enabled: None,
            max_entity_size: None,
        }
    }
}

impl TransferRequest {
    /// Virtual file name.
    #[must_use]
    pub fn virtual_file(&self) -> (r: Option<&str>)
        ensures
            opt_str(r) == self.spec_virtual_file(),
    {
        let name = match &self.remote_filename {
            Some(f) => Some(f.as_str()),
            None => match &self.virtual_file {
                Some(f) => Some(f.as_str()),
                None => None,
            },
        };
        filled_str(name)
    }

    /// Synchronisation interval in KB when enabled.
    #[must_use]
    pub fn sync_interval_kb(&self, default_kb: u16) -> (r: u16)
        ensures
            r == self.spec_sync_interval_kb(default_kb),
    {
        match self.sync_point_interval_bytes {
            Some(b) => {
                return kb_of(b);
            },
            None => {},
        }
        match self.sync_point_interval {
            Some(v) => {
                if v > 0xFFFF {
                    kb_of(v)
                } else if v == 0xFFFF {
                    0xFFFE
                } else if v > 0 {
                    v as u16
                } else {
                    default_kb
                }
            },
            None => default_kb,
        }
    }
}

/// Message request.
#[derive(Debug, PartialEq, Eq)]
pub struct MessageRequest {
    /// Server name or id.
    pub server: Option<String>,
    /// Our PeSIT identifier (PI 3).
    pub partner_id: Option<String>,
    /// Password.
    pub password: Option<String>,
    /// Message text (PI 91).
    pub message: String,
    /// Logical name carried in PGI 9 (PI 12).
    pub message_name: Option<String>,
    /// Correlation identifier.
    pub correlation_id: Option<String>,
    /// Expect a reply.
    pub expects_reply: bool,
}

/// Transfer direction.
#[derive(Debug, Clone, Copy, PartialEq, Eq, Structural)]
pub enum TransferDirection {
    /// F.CREATE / F.WRITE.
    Send,
    /// F.SELECT / F.READ.
    Receive,
    /// F.MESSAGE.
    Message,
}

impl TransferDirection {
    /// Written form.
    pub open spec fn spec_name(self) -> Seq<char> {
        match self {
            TransferDirection::Send => "SEND"@,
            TransferDirection::Receive => "RECEIVE"@,
            TransferDirection::Message => "MESSAGE"@,
        }
    }

    /// Written form.
    #[must_use]
    pub fn name(self) -> (r: &'static str)
        ensures
            r@ == self.spec_name(),
    {
        match self {
            TransferDirection::Send => "SEND",
            TransferDirection::Receive => "RECEIVE",
            TransferDirection::Message => "MESSAGE",
        }
    }
}

/// Transfer status.
#[derive(Debug, Clone, Copy, PartialEq, Eq, Default, Structural)]
pub enum TransferStatus {
    /// Queued.
    #[default]
    Pending,
    /// Running.
    InProgress,
    /// Done.
    Completed,
    /// Failed.
    Failed,
    /// Cancelled by the operator.
    Cancelled,
    /// Interrupted by the server (restartable).
    Interrupted,
}

impl TransferStatus {
    /// Terminal state.
    #[verifier::allow_in_spec]
    #[must_use]
    pub fn is_final(self) -> bool
        returns
            self != TransferStatus::Pending && self != TransferStatus::InProgress,
    {
        match self {
            TransferStatus::Pending => false,
            TransferStatus::InProgress => false,
            _ => true,
        }
    }

    /// Whether a transfer in this state may be resumed.
    #[verifier::allow_in_spec]
    #[must_use]
    pub fn is_resumable(self) -> bool
        returns
            self == TransferStatus::Interrupted || self == TransferStatus::Failed || self
                == TransferStatus::Cancelled,
    {
        match self {
            TransferStatus::Interrupted => true,
            TransferStatus::Failed => true,
            TransferStatus::Cancelled => true,
            _ => false,
        }
    }

    /// Written form.
    pub open spec fn spec_name(self) -> Seq<char> {
        match self {
            TransferStatus::Pending => "PENDING"@,
            TransferStatus::InProgress => "IN_PROGRESS"@,
            TransferStatus::Completed => "COMPLETED"@,
            TransferStatus::Failed => "FAILED"@,
            TransferStatus::Cancelled => "CANCELLED"@,
            TransferStatus::Interrupted => "INTERRUPTED"@,
        }
    }

    /// Written form.
    #[must_use]
    pub fn name(self) -> (r: &'static str)
        ensures
            r@ == self.spec_name(),
    {
        match self {
            TransferStatus::Pending => "PENDING",
            TransferStatus::InProgress => "IN_PROGRESS",
            TransferStatus::Completed => "COMPLETED",
            TransferStatus::Failed => "FAILED",
            TransferStatus::Cancelled => "CANCELLED",
            TransferStatus::Interrupted => "INTERRUPTED",
        }
    }

    /// Name of the variant.
    pub open spec fn spec_variant(self) -> Seq<char> {
        match self {
            TransferStatus::Pending => "Pending"@,
            TransferStatus::InProgress => "InProgress"@,
            TransferStatus::Completed => "Completed"@,
            TransferStatus::Failed => "Failed"@,
            TransferStatus::Cancelled => "Cancelled"@,
            TransferStatus::Interrupted => "Interrupted"@,
        }
    }

    /// Name of the variant.
    #[must_use]
    pub fn variant(self) -> (r: &'static str)
        ensures
            r@ == self.spec_variant(),
    {
        match self {
            TransferStatus::Pending => "Pending",
            TransferStatus::InProgress => "InProgress",
            TransferStatus::Completed => "Completed",
            TransferStatus::Failed => "Failed",
            TransferStatus::Cancelled => "Cancelled",
            TransferStatus::Interrupted => "Interrupted",
        }
    }
}

/// Transfer history record.
#[derive(Debug, PartialEq, Eq)]
pub struct TransferHistory {
    /// Identifier (UUID).
    pub id: String,
    /// Server identifier.
    pub server_id: Option<String>,
    /// Server name.
    pub server_name: Option<String>,
    /// Our PeSIT identifier.
    pub partner_id: Option<String>,
    /// Direction.
    pub direction: Option<TransferDirection>,
    /// Local file.
    pub local_filename: Option<String>,
    /// Virtual file.
    pub remote_filename: Option<String>,
    /// Size.
    pub file_size: Option<u64>,
    /// Bytes transferred.
    pub bytes_transferred: u64,
    /// Status.
    pub status: TransferStatus,
    /// Error message.
    pub error_message: Option<String>,
    /// PeSIT diagnostic (`D2-205`...).
    pub diagnostic_code: Option<String>,
    /// SHA-256 of the file.
    pub checksum: Option<String>,
    /// Correlation identifier.
    pub correlation_id: Option<String>,
    /// Synchronisation points used.
    pub sync_points_enabled: bool,
    /// Last synchronisation point.
    pub last_sync_point: u32,
    /// Bytes at the last synchronisation point.
    pub bytes_at_last_sync_point: u64,
    /// PeSIT transfer identifier (PI 13).
    pub pesit_transfer_id: u32,
    /// Original request (for retries).
    pub request: Option<TransferRequest>,
    /// Start time.
    pub started_at: Option<String>,
    /// Completion time.
    pub completed_at: Option<String>,
    /// Creation time.
    pub created_at: Option<String>,
}

impl TransferHistory {
    /// A history with nothing but an identifier.
    pub open spec fn blank(id: String) -> TransferHistory {
        TransferHistory {
            id,
            server_id: None,
            server_name: None,
            partner_id: None,
            direction: None,
            local_filename: None,
            remote_filename: None,
            file_size: None,
            bytes_transferred: 0,
            status: TransferStatus::Pending,
            error_message: None,
            diagnostic_code: None,
            checksum: None,
            correlation_id: None,
            sync_points_enabled: false,
            last_sync_point: 0,
            bytes_at_last_sync_point: 0,
            pesit_transfer_id: 0,
            request: None,
            started_at: None,
            completed_at: None,
            created_at: None,
        }
    }

    /// A history with nothing but an identifier.
    #[must_use]
    pub fn new(id: String) -> (r: Self)
        ensures
            r == TransferHistory::blank(id),
    {
        TransferHistory {
            id,
            server_id: None,
            server_name: None,
            partner_id: None,
            direction: None,
            local_filename: None,
            remote_filename: None,
            file_size: None,
            bytes_transferred: 0,
            status: TransferStatus::Pending,
            error_message: None,
            diagnostic_code: None,
            checksum: None,
            correlation_id: None,
            sync_points_enabled: false,
            last_sync_point: 0,
            bytes_at_last_sync_point: 0,
            pesit_transfer_id: 0,
            request: None,
            started_at: None,
            completed_at: None,
            created_at: None,
        }
    }
}

impl Default for TransferHistory {
    fn default() -> (r: Self)
        ensures
            r == TransferHistory::blank(r.id),
            r.id@ == ""@,
    {
        TransferHistory::new("".to_owned())
    }
}

/// Answer to a transfer or message request.
#[derive(Debug, PartialEq, Eq)]
pub struct TransferResponse {
    /// Transfer identifier.
    pub transfer_id: String,
    /// Correlation identifier.
    pub correlation_id: Option<String>,
    /// Direction.
    pub direction: Option<TransferDirection>,
    /// Status.
    pub status: TransferStatus,
    /// Server name.
    pub server_name: Option<String>,
    /// Local file.
    pub local_filename: Option<String>,
    /// Virtual file.
    pub remote_filename: Option<String>,
    /// Size.
    pub file_size: Option<u64>,
    /// Bytes transferred.
    pub bytes_transferred: u64,
    /// Checksum.
    pub checksum: Option<String>,
    /// Error message.
    pub error_message: Option<String>,
    /// Diagnostic.
    pub diagnostic_code: Option<String>,
    /// Start.
    pub started_at: Option<String>,
    /// End.
    pub completed_at: Option<String>,
    /// Duration in ms.
    pub duration_ms: Option<i64>,
    /// Reply message (messages only).
    pub reply: Option<String>,
}

impl TransferResponse {
    /// What a history record tells, with the given duration.
    #[must_use]
    pub fn with_duration(h: &TransferHistory, duration_ms: Option<i64>) -> (r: Self)
        ensures
            r.transfer_id@ == h.id@,
            opt_text(r.correlation_id) == opt_text(h.correlation_id),
            r.direction == h.direction,
            r.status == h.status,
            opt_text(r.server_name) == opt_text(h.server_name),
            opt_text(r.local_filename) == opt_text(h.local_filename),
            opt_text(r.remote_filename) == opt_text(h.remote_filename),
            r.file_size == h.file_size,
            r.bytes_transferred == h.bytes_transferred,
            opt_text(r.checksum) == opt_text(h.checksum),
            opt_text(r.error_message) == opt_text(h.error_message),
            opt_text(r.diagnostic_code) == opt_text(h.diagnostic_code),
            opt_text(r.started_at) == opt_text(h.started_at),
            opt_text(r.completed_at) == opt_text(h.completed_at),
            r.duration_ms == duration_ms,
            r.reply is None,
    {
        TransferResponse {
            transfer_id: h.id.clone(),
            correlation_id: copy_opt(&h.correlation_id),
            direction: h.direction,
            status: h.status,
            server_name: copy_opt(&h.server_name),
            local_filename: copy_opt(&h.local_filename),
            remote_filename: copy_opt(&h.remote_filename),
            file_size: h.file_size,
            bytes_transferred: h.bytes_transferred,
            checksum: copy_opt(&h.checksum),
            error_message: copy_opt(&h.error_message),
            diagnostic_code: copy_opt(&h.diagnostic_code),
            started_at: copy_opt(&h.started_at),
            completed_at: copy_opt(&h.completed_at),
            duration_ms,
            reply: None,
        }
    }

    /// What a history record tells. The duration is known once the transfer has started and
    /// ended.
    #[must_use]
    pub fn from(h: &TransferHistory) -> (r: Self)
        ensures
            r.transfer_id@ == h.id@,
            opt_text(r.correlation_id) == opt_text(h.correlation_id),
            r.direction == h.direction,
            r.status == h.status,
            opt_text(r.server_name) == opt_text(h.server_name),
            opt_text(r.local_filename) == opt_text(h.local_filename),
            opt_text(r.remote_filename) == opt_text(h.remote_filename),
            r.file_size == h.file_size,
            r.bytes_transferred == h.bytes_transferred,
            opt_text(r.checksum) == opt_text(h.checksum),
            opt_text(r.error_message) == opt_text(h.error_message),
            opt_text(r.diagnostic_code) == opt_text(h.diagnostic_code),
            opt_text(r.started_at) == opt_text(h.started_at),
            opt_text(r.completed_at) == opt_text(h.completed_at),
            r.duration_ms == spec_elapsed(
                opt_instant(opt_text(h.started_at)),
                opt_instant(opt_text(h.completed_at)),
            ),
            r.reply is None,
    {
        TransferResponse::with_duration(h, elapsed_between(&h.started_at, &h.completed_at))
    }
}

/// Store tables: remote servers we connect to.
pub const SERVERS: &'static str = "remote_servers";

/// Store tables: our identities / credentials towards servers.
pub const PARTNERS: &'static str = "client_partners";

/// Store tables: outbound transfer history.
pub const TRANSFERS: &'static str = "outbound_transfers";

/// A synchronisation interval that is asked for is never zero nor the "undefined" one.
pub proof fn law_requested_interval_is_defined(q: TransferRequest, default_kb: u16)
    requires
        q.sync_point_interval_bytes is Some || (q.sync_point_interval matches Some(v) && v > 0),
    ensures
        1 <= q.spec_sync_interval_kb(default_kb) <= 0xFFFE,
{
}

} // verus!
