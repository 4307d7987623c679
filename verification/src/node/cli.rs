//! One-shot commands: the server they connect to, and the requests they make.

use crate::client::model::{MessageRequest, PesitServer, TransferRequest};
use crate::text::{copy_opt, dec, filled_str, non_empty, opt_str, opt_text, push_decimal};
use vstd::prelude::*;
use vstd::string::StringExecFns;

verus! {

/// Where to connect for one-shot commands.
#[derive(Debug, PartialEq, Eq)]
pub struct Target {
    /// Host.
    pub host: String,
    /// Port.
    pub port: u16,
    /// Server identifier (PI 4).
    pub server_id: String,
    /// Our identifier (PI 3).
    pub partner: Option<String>,
    /// Password (PI 5).
    pub password: Option<String>,
    /// Use TLS.
    pub tls: bool,
    /// Use the CRC option.
    pub crc: bool,
    /// Disable synchronisation points.
    pub no_sync: bool,
    /// Synchronisation interval in KB.
    pub sync_kb: Option<u16>,
    /// Pre-connection identifier.
    pub preconnect_id: Option<String>,
    /// Pre-connection password.
    pub preconnect_password: Option<String>,
    /// No transport header on TLS connections.
    pub no_tcpip_header: bool,
}

/// Name and identifier of the server of one-shot commands.
pub const CLI_SERVER: &'static str = "cli";

impl Target {
    /// The server to connect to.
    #[must_use]
    pub fn server(&self, now: &str) -> (r: PesitServer)
        ensures
            r.id@ == CLI_SERVER@ && r.name@ == CLI_SERVER@,
            r.host@ == self.host@,
            r.port == self.port,
            r.server_id@ == self.server_id@,
            r.description is None,
            r.tls_enabled == self.tls,
            !r.hostname_verification && !r.insecure,
            r.ca_file is None && r.cert_file is None && r.key_file is None,
            r.tcpip_header == !self.no_tcpip_header,
            !r.truststore_configured && !r.keystore_configured,
            r.connection_timeout == 30_000 && r.read_timeout == 60_000,
            r.enabled && !r.default_server,
            r.crc_enabled == self.crc,
            opt_text(r.preconnect_id) == opt_text(self.preconnect_id),
            opt_text(r.preconnect_password) == opt_text(self.preconnect_password),
            opt_text(r.created_at) == Some(now@),
            opt_text(r.updated_at) == Some(now@),
    {
        let mut s = PesitServer::default();
        s.id = CLI_SERVER.to_owned();
        s.name = CLI_SERVER.to_owned();
        s.host = self.host.clone();
        s.port = self.port;
        s.server_id = self.server_id.clone();
        s.tls_enabled = self.tls;
        s.tcpip_header = !self.no_tcpip_header;
        s.crc_enabled = self.crc;
        s.preconnect_id = copy_opt(&self.preconnect_id);
        s.preconnect_password = copy_opt(&self.preconnect_password);
        s.hostname_verification = false;
        s.created_at = Some(now.to_owned());
        s.updated_at = Some(now.to_owned());
        s
    }

    /// The transfer request of a one-shot command; only a send says whether to compress.
    #[must_use]
    pub fn transfer_request(
        &self,
        filename: Option<String>,
        remote: String,
        text: bool,
        compress: Option<bool>,
    ) -> (r: TransferRequest)
        ensures
            r == (TransferRequest {
                server: r.server,
                partner_id: r.partner_id,
                password: r.password,
                filename,
                remote_filename: Some(remote),
                sync_points_enabled: Some(!self.no_sync),
                sync_point_interval: match self.sync_kb {
                    Some(kb) => Some(kb as u64),
                    None => None,
                },
                compression_enabled: compress,
                text: Some(text),
                crc_enabled: Some(self.crc),
                ..TransferRequest::blank()
            }),
            opt_text(r.server) == Some(CLI_SERVER@),
            opt_text(r.partner_id) == opt_text(self.partner),
            opt_text(r.password) == opt_text(self.password),
    {
        let mut q = TransferRequest::default();
        q.server = Some(CLI_SERVER.to_owned());
        q.partner_id = copy_opt(&self.partner);
        q.password = copy_opt(&self.password);
        q.filename = filename;
        q.remote_filename = Some(remote);
        q.sync_points_enabled = Some(!self.no_sync);
        q.sync_point_interval = match self.sync_kb {
            Some(kb) => Some(kb as u64),
            None => None,
        };
        q.compression_enabled = compress;
        q.text = Some(text);
        q.crc_enabled = Some(self.crc);
        q
    }

    /// The message request of a one-shot command.
    #[must_use]
    pub fn message_request(&self, message: String, expects_reply: bool) -> (r: MessageRequest)
        ensures
            opt_text(r.server) == Some(CLI_SERVER@),
            opt_text(r.partner_id) == opt_text(self.partner),
            opt_text(r.password) == opt_text(self.password),
            r.message == message,
            r.message_name is None && r.correlation_id is None,
            r.expects_reply == expects_reply,
    {
        MessageRequest {
            server: Some(CLI_SERVER.to_owned()),
            partner_id: copy_opt(&self.partner),
            password: copy_opt(&self.password),
            message,
            message_name: None,
            correlation_id: None,
            expects_reply,
        }
    }
}

/// Address under which other nodes reach this one: the one given, else the name of the host (or
/// the bind address where that is not known) and the port.
#[must_use]
pub fn advertised_address(
    given: Option<&str>,
    hostname: Option<&str>,
    bind: &str,
    port: u16,
) -> (r: String)
    ensures
        r@ == (match given {
            Some(a) => a@,
            None => (match non_empty(opt_str(hostname)) {
                Some(h) => h,
                None => bind@,
            }) + ":"@ + dec(port as nat),
        }),
{
    match given {
        Some(a) => a.to_owned(),
        None => {
            let host = match filled_str(hostname) {
                Some(h) => h,
                None => bind,
            };
            let mut out = host.to_owned();
            out.append(":");
            push_decimal(&mut out, port as u64);
            out
        },
    }
}

} // verus!
