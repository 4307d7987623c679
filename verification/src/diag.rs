//! Diagnostic codes (PI 2).

use crate::text::{dec, dec_padded, push_decimal, push_decimal_padded};
use vstd::prelude::*;
use vstd::string::StringExecFns;

verus! {

/// A PeSIT diagnostic: one byte error type/severity followed by a 16-bit reason code.
#[derive(Debug, Clone, Copy, PartialEq, Eq, Hash, PartialOrd, Ord, Structural)]
pub struct Diagnostic {
    /// Error type: 0 = success, 1 = transmission, 2 = file/transfer, 3 = connection/protocol.
    pub kind: u8,
    /// Reason code (e.g. 205, 318).
    pub code: u16,
}

impl Diagnostic {
    /// Success.
    #[verifier::allow_in_spec]
    #[must_use]
    pub fn ok() -> Diagnostic
        returns
            (Diagnostic { kind: 0, code: 0 }),
    {
        Diagnostic { kind: 0, code: 0 }
    }

    /// Transmission error.
    #[verifier::allow_in_spec]
    #[must_use]
    pub fn transmission_error() -> Diagnostic
        returns
            (Diagnostic { kind: 1, code: 100 }),
    {
        Diagnostic { kind: 1, code: 100 }
    }

    /// Insufficient file characteristics.
    #[verifier::allow_in_spec]
    #[must_use]
    pub fn insufficient_file_characteristics() -> Diagnostic
        returns
            (Diagnostic { kind: 2, code: 200 }),
    {
        Diagnostic { kind: 2, code: 200 }
    }

    /// System resources temporarily insufficient.
    #[verifier::allow_in_spec]
    #[must_use]
    pub fn system_resources() -> Diagnostic
        returns
            (Diagnostic { kind: 2, code: 201 }),
    {
        Diagnostic { kind: 2, code: 201 }
    }

    /// User resources temporarily insufficient.
    #[verifier::allow_in_spec]
    #[must_use]
    pub fn user_resources() -> Diagnostic
        returns
            (Diagnostic { kind: 2, code: 202 }),
    {
        Diagnostic { kind: 2, code: 202 }
    }

    /// Non-priority transfer.
    #[verifier::allow_in_spec]
    #[must_use]
    pub fn non_priority_transfer() -> Diagnostic
        returns
            (Diagnostic { kind: 2, code: 203 }),
    {
        Diagnostic { kind: 2, code: 203 }
    }

    /// File already exists.
    #[verifier::allow_in_spec]
    #[must_use]
    pub fn file_exists() -> Diagnostic
        returns
            (Diagnostic { kind: 2, code: 204 }),
    {
        Diagnostic { kind: 2, code: 204 }
    }

    /// File not found.
    #[verifier::allow_in_spec]
    #[must_use]
    pub fn file_not_found() -> Diagnostic
        returns
            (Diagnostic { kind: 2, code: 205 }),
    {
        Diagnostic { kind: 2, code: 205 }
    }

    /// Disk quota would be exceeded.
    #[verifier::allow_in_spec]
    #[must_use]
    pub fn disk_quota() -> Diagnostic
        returns
            (Diagnostic { kind: 2, code: 206 }),
    {
        Diagnostic { kind: 2, code: 206 }
    }

    /// File busy.
    #[verifier::allow_in_spec]
    #[must_use]
    pub fn file_busy() -> Diagnostic
        returns
            (Diagnostic { kind: 2, code: 207 }),
    {
        Diagnostic { kind: 2, code: 207 }
    }

    /// File too old.
    #[verifier::allow_in_spec]
    #[must_use]
    pub fn file_too_old() -> Diagnostic
        returns
            (Diagnostic { kind: 2, code: 208 }),
    {
        Diagnostic { kind: 2, code: 208 }
    }

    /// Message of this type not accepted.
    #[verifier::allow_in_spec]
    #[must_use]
    pub fn message_not_accepted() -> Diagnostic
        returns
            (Diagnostic { kind: 2, code: 209 }),
    {
        Diagnostic { kind: 2, code: 209 }
    }

    /// Presentation context negotiation failed.
    #[verifier::allow_in_spec]
    #[must_use]
    pub fn presentation_negotiation() -> Diagnostic
        returns
            (Diagnostic { kind: 2, code: 210 }),
    {
        Diagnostic { kind: 2, code: 210 }
    }

    /// Cannot open file.
    #[verifier::allow_in_spec]
    #[must_use]
    pub fn cannot_open() -> Diagnostic
        returns
            (Diagnostic { kind: 2, code: 211 }),
    {
        Diagnostic { kind: 2, code: 211 }
    }

    /// Cannot close file normally.
    #[verifier::allow_in_spec]
    #[must_use]
    pub fn cannot_close() -> Diagnostic
        returns
            (Diagnostic { kind: 2, code: 212 }),
    {
        Diagnostic { kind: 2, code: 212 }
    }

    /// Blocking input/output error.
    #[verifier::allow_in_spec]
    #[must_use]
    pub fn io_error() -> Diagnostic
        returns
            (Diagnostic { kind: 2, code: 213 }),
    {
        Diagnostic { kind: 2, code: 213 }
    }

    /// Restart point negotiation failed.
    #[verifier::allow_in_spec]
    #[must_use]
    pub fn restart_point_negotiation() -> Diagnostic
        returns
            (Diagnostic { kind: 2, code: 214 }),
    {
        Diagnostic { kind: 2, code: 214 }
    }

    /// System-specific error.
    #[verifier::allow_in_spec]
    #[must_use]
    pub fn system_error() -> Diagnostic
        returns
            (Diagnostic { kind: 2, code: 215 }),
    {
        Diagnostic { kind: 2, code: 215 }
    }

    /// Voluntary premature stop.
    #[verifier::allow_in_spec]
    #[must_use]
    pub fn voluntary_stop() -> Diagnostic
        returns
            (Diagnostic { kind: 2, code: 216 }),
    {
        Diagnostic { kind: 2, code: 216 }
    }

    /// Too many synchronisation points without acknowledgement.
    #[verifier::allow_in_spec]
    #[must_use]
    pub fn too_many_unacked_sync() -> Diagnostic
        returns
            (Diagnostic { kind: 2, code: 217 }),
    {
        Diagnostic { kind: 2, code: 217 }
    }

    /// Resynchronisation impossible.
    #[verifier::allow_in_spec]
    #[must_use]
    pub fn resync_impossible() -> Diagnostic
        returns
            (Diagnostic { kind: 2, code: 218 }),
    {
        Diagnostic { kind: 2, code: 218 }
    }

    /// File space exhausted.
    #[verifier::allow_in_spec]
    #[must_use]
    pub fn file_space_exhausted() -> Diagnostic
        returns
            (Diagnostic { kind: 2, code: 219 }),
    {
        Diagnostic { kind: 2, code: 219 }
    }

    /// Article longer than expected.
    #[verifier::allow_in_spec]
    #[must_use]
    pub fn record_too_long() -> Diagnostic
        returns
            (Diagnostic { kind: 2, code: 220 }),
    {
        Diagnostic { kind: 2, code: 220 }
    }

    /// End of transmission timer expired.
    #[verifier::allow_in_spec]
    #[must_use]
    pub fn end_of_transmission_timeout() -> Diagnostic
        returns
            (Diagnostic { kind: 2, code: 221 }),
    {
        Diagnostic { kind: 2, code: 221 }
    }

    /// Too much data without synchronisation point.
    #[verifier::allow_in_spec]
    #[must_use]
    pub fn too_much_data_without_sync() -> Diagnostic
        returns
            (Diagnostic { kind: 2, code: 222 }),
    {
        Diagnostic { kind: 2, code: 222 }
    }

    /// Abnormal end of transfer.
    #[verifier::allow_in_spec]
    #[must_use]
    pub fn abnormal_end() -> Diagnostic
        returns
            (Diagnostic { kind: 2, code: 223 }),
    {
        Diagnostic { kind: 2, code: 223 }
    }

    /// File larger than announced in F.CREATE.
    #[verifier::allow_in_spec]
    #[must_use]
    pub fn file_larger_than_announced() -> Diagnostic
        returns
            (Diagnostic { kind: 2, code: 224 }),
    {
        Diagnostic { kind: 2, code: 224 }
    }

    /// Application congested, file received but not delivered.
    #[verifier::allow_in_spec]
    #[must_use]
    pub fn application_congested() -> Diagnostic
        returns
            (Diagnostic { kind: 2, code: 225 }),
    {
        Diagnostic { kind: 2, code: 225 }
    }

    /// Transfer refused.
    #[verifier::allow_in_spec]
    #[must_use]
    pub fn transfer_refused() -> Diagnostic
        returns
            (Diagnostic { kind: 2, code: 226 }),
    {
        Diagnostic { kind: 2, code: 226 }
    }

    /// Restart impossible: transfer not restartable.
    #[verifier::allow_in_spec]
    #[must_use]
    pub fn restart_not_restartable() -> Diagnostic
        returns
            (Diagnostic { kind: 2, code: 227 }),
    {
        Diagnostic { kind: 2, code: 227 }
    }

    /// Restart impossible: unknown synchronisation point.
    #[verifier::allow_in_spec]
    #[must_use]
    pub fn restart_unknown_sync() -> Diagnostic
        returns
            (Diagnostic { kind: 2, code: 228 }),
    {
        Diagnostic { kind: 2, code: 228 }
    }

    /// Restart impossible: file modified.
    #[verifier::allow_in_spec]
    #[must_use]
    pub fn restart_file_modified() -> Diagnostic
        returns
            (Diagnostic { kind: 2, code: 229 }),
    {
        Diagnostic { kind: 2, code: 229 }
    }

    /// Restart impossible: delay exceeded.
    #[verifier::allow_in_spec]
    #[must_use]
    pub fn restart_delay_exceeded() -> Diagnostic
        returns
            (Diagnostic { kind: 2, code: 230 }),
    {
        Diagnostic { kind: 2, code: 230 }
    }

    /// No transfer restart context available.
    #[verifier::allow_in_spec]
    #[must_use]
    pub fn no_restart_context() -> Diagnostic
        returns
            (Diagnostic { kind: 2, code: 233 }),
    {
        Diagnostic { kind: 2, code: 233 }
    }

    /// Other file/transfer error.
    #[verifier::allow_in_spec]
    #[must_use]
    pub fn other_file_error() -> Diagnostic
        returns
            (Diagnostic { kind: 2, code: 299 }),
    {
        Diagnostic { kind: 2, code: 299 }
    }

    /// Local communication system congested.
    #[verifier::allow_in_spec]
    #[must_use]
    pub fn local_congestion() -> Diagnostic
        returns
            (Diagnostic { kind: 3, code: 300 }),
    {
        Diagnostic { kind: 3, code: 300 }
    }

    /// Requested identification unknown.
    #[verifier::allow_in_spec]
    #[must_use]
    pub fn caller_unknown() -> Diagnostic
        returns
            (Diagnostic { kind: 3, code: 301 }),
    {
        Diagnostic { kind: 3, code: 301 }
    }

    /// Requester not attached to an SSAP / unauthorised caller.
    #[verifier::allow_in_spec]
    #[must_use]
    pub fn not_attached_to_ssap() -> Diagnostic
        returns
            (Diagnostic { kind: 3, code: 302 }),
    {
        Diagnostic { kind: 3, code: 302 }
    }

    /// Remote communication system congested / called partner unknown.
    #[verifier::allow_in_spec]
    #[must_use]
    pub fn remote_congestion() -> Diagnostic
        returns
            (Diagnostic { kind: 3, code: 303 }),
    {
        Diagnostic { kind: 3, code: 303 }
    }

    /// Requester identification not authorised (security).
    #[verifier::allow_in_spec]
    #[must_use]
    pub fn caller_not_authorised() -> Diagnostic
        returns
            (Diagnostic { kind: 3, code: 304 }),
    {
        Diagnostic { kind: 3, code: 304 }
    }

    /// Negotiation failure: SELECT.
    #[verifier::allow_in_spec]
    #[must_use]
    pub fn select_negotiation() -> Diagnostic
        returns
            (Diagnostic { kind: 3, code: 305 }),
    {
        Diagnostic { kind: 3, code: 305 }
    }

    /// Negotiation failure: RESYNC.
    #[verifier::allow_in_spec]
    #[must_use]
    pub fn resync_negotiation() -> Diagnostic
        returns
            (Diagnostic { kind: 3, code: 306 }),
    {
        Diagnostic { kind: 3, code: 306 }
    }

    /// Negotiation failure: SYNC.
    #[verifier::allow_in_spec]
    #[must_use]
    pub fn sync_negotiation() -> Diagnostic
        returns
            (Diagnostic { kind: 3, code: 307 }),
    {
        Diagnostic { kind: 3, code: 307 }
    }

    /// Version number not supported.
    #[verifier::allow_in_spec]
    #[must_use]
    pub fn version_not_supported() -> Diagnostic
        returns
            (Diagnostic { kind: 3, code: 308 }),
    {
        Diagnostic { kind: 3, code: 308 }
    }

    /// Too many connections already in progress.
    #[verifier::allow_in_spec]
    #[must_use]
    pub fn too_many_connections() -> Diagnostic
        returns
            (Diagnostic { kind: 3, code: 309 }),
    {
        Diagnostic { kind: 3, code: 309 }
    }

    /// Network incident.
    #[verifier::allow_in_spec]
    #[must_use]
    pub fn network_incident() -> Diagnostic
        returns
            (Diagnostic { kind: 3, code: 310 }),
    {
        Diagnostic { kind: 3, code: 310 }
    }

    /// Remote PeSIT protocol error.
    #[verifier::allow_in_spec]
    #[must_use]
    pub fn remote_protocol_error() -> Diagnostic
        returns
            (Diagnostic { kind: 3, code: 311 }),
    {
        Diagnostic { kind: 3, code: 311 }
    }

    /// Closure of service requested by user.
    #[verifier::allow_in_spec]
    #[must_use]
    pub fn service_closed() -> Diagnostic
        returns
            (Diagnostic { kind: 3, code: 312 }),
    {
        Diagnostic { kind: 3, code: 312 }
    }

    /// Connection cut at end of inactivity timer.
    #[verifier::allow_in_spec]
    #[must_use]
    pub fn idle_connection_cut() -> Diagnostic
        returns
            (Diagnostic { kind: 3, code: 313 }),
    {
        Diagnostic { kind: 3, code: 313 }
    }

    /// Unused connection cut to accept a new one.
    #[verifier::allow_in_spec]
    #[must_use]
    pub fn unused_connection_cut() -> Diagnostic
        returns
            (Diagnostic { kind: 3, code: 314 }),
    {
        Diagnostic { kind: 3, code: 314 }
    }

    /// Negotiation failure.
    #[verifier::allow_in_spec]
    #[must_use]
    pub fn negotiation_failure() -> Diagnostic
        returns
            (Diagnostic { kind: 3, code: 315 }),
    {
        Diagnostic { kind: 3, code: 315 }
    }

    /// Connection cut by administration.
    #[verifier::allow_in_spec]
    #[must_use]
    pub fn administrative_cut() -> Diagnostic
        returns
            (Diagnostic { kind: 3, code: 316 }),
    {
        Diagnostic { kind: 3, code: 316 }
    }

    /// Timer expired.
    #[verifier::allow_in_spec]
    #[must_use]
    pub fn timeout() -> Diagnostic
        returns
            (Diagnostic { kind: 3, code: 317 }),
    {
        Diagnostic { kind: 3, code: 317 }
    }

    /// Mandatory parameter absent or illegal parameter content.
    #[verifier::allow_in_spec]
    #[must_use]
    pub fn invalid_parameter() -> Diagnostic
        returns
            (Diagnostic { kind: 3, code: 318 }),
    {
        Diagnostic { kind: 3, code: 318 }
    }

    /// Incorrect number of bytes or articles.
    #[verifier::allow_in_spec]
    #[must_use]
    pub fn invalid_counts() -> Diagnostic
        returns
            (Diagnostic { kind: 3, code: 319 }),
    {
        Diagnostic { kind: 3, code: 319 }
    }

    /// Too many resynchronisations for a transfer.
    #[verifier::allow_in_spec]
    #[must_use]
    pub fn too_many_resync() -> Diagnostic
        returns
            (Diagnostic { kind: 3, code: 320 }),
    {
        Diagnostic { kind: 3, code: 320 }
    }

    /// Call the backup number.
    #[verifier::allow_in_spec]
    #[must_use]
    pub fn call_backup_number() -> Diagnostic
        returns
            (Diagnostic { kind: 3, code: 321 }),
    {
        Diagnostic { kind: 3, code: 321 }
    }

    /// Call back later.
    #[verifier::allow_in_spec]
    #[must_use]
    pub fn call_back_later() -> Diagnostic
        returns
            (Diagnostic { kind: 3, code: 322 }),
    {
        Diagnostic { kind: 3, code: 322 }
    }

    /// Other connection/protocol error.
    #[verifier::allow_in_spec]
    #[must_use]
    pub fn other_connection_error() -> Diagnostic
        returns
            (Diagnostic { kind: 3, code: 399 }),
    {
        Diagnostic { kind: 3, code: 399 }
    }

    /// Text of a known diagnostic.
    pub open spec fn spec_known(self) -> Option<Seq<char>> {
        if self == Self::ok() {
            Some("Success"@)
        } else if self == Self::transmission_error() {
            Some("Transmission error"@)
        } else if self == Self::insufficient_file_characteristics() {
            Some("Insufficient file characteristics"@)
        } else if self == Self::system_resources() {
            Some("System resources temporarily insufficient"@)
        } else if self == Self::user_resources() {
            Some("User resources temporarily insufficient"@)
        } else if self == Self::non_priority_transfer() {
            Some("Non-priority transfer"@)
        } else if self == Self::file_exists() {
            Some("File already exists"@)
        } else if self == Self::file_not_found() {
            Some("File not found"@)
        } else if self == Self::disk_quota() {
            Some("Disk quota would be exceeded"@)
        } else if self == Self::file_busy() {
            Some("File busy"@)
        } else if self == Self::file_too_old() {
            Some("File too old"@)
        } else if self == Self::message_not_accepted() {
            Some("Message of this type not accepted"@)
        } else if self == Self::presentation_negotiation() {
            Some("Presentation context negotiation failed"@)
        } else if self == Self::cannot_open() {
            Some("Cannot open file"@)
        } else if self == Self::cannot_close() {
            Some("Cannot close file normally"@)
        } else if self == Self::io_error() {
            Some("Blocking input/output error"@)
        } else if self == Self::restart_point_negotiation() {
            Some("Restart point negotiation failed"@)
        } else if self == Self::system_error() {
            Some("System-specific error"@)
        } else if self == Self::voluntary_stop() {
            Some("Voluntary premature stop"@)
        } else if self == Self::too_many_unacked_sync() {
            Some("Too many synchronisation points without acknowledgement"@)
        } else if self == Self::resync_impossible() {
            Some("Resynchronisation impossible"@)
        } else if self == Self::file_space_exhausted() {
            Some("File space exhausted"@)
        } else if self == Self::record_too_long() {
            Some("Article longer than expected"@)
        } else if self == Self::end_of_transmission_timeout() {
            Some("End of transmission timer expired"@)
        } else if self == Self::too_much_data_without_sync() {
            Some("Too much data without synchronisation point"@)
        } else if self == Self::abnormal_end() {
            Some("Abnormal end of transfer"@)
        } else if self == Self::file_larger_than_announced() {
            Some("File larger than announced in F.CREATE"@)
        } else if self == Self::application_congested() {
            Some("Application congested, file received but not delivered"@)
        } else if self == Self::transfer_refused() {
            Some("Transfer refused"@)
        } else if self == Self::restart_not_restartable() {
            Some("Restart impossible: transfer not restartable"@)
        } else if self == Self::restart_unknown_sync() {
            Some("Restart impossible: unknown synchronisation point"@)
        } else if self == Self::restart_file_modified() {
            Some("Restart impossible: file modified"@)
        } else if self == Self::restart_delay_exceeded() {
            Some("Restart impossible: delay exceeded"@)
        } else if self == Self::no_restart_context() {
            Some("No transfer restart context available"@)
        } else if self == Self::other_file_error() {
            Some("Other file/transfer error"@)
        } else if self == Self::local_congestion() {
            Some("Local communication system congested"@)
        } else if self == Self::caller_unknown() {
            Some("Requested identification unknown"@)
        } else if self == Self::not_attached_to_ssap() {
            Some("Requester not attached to an SSAP / unauthorised caller"@)
        } else if self == Self::remote_congestion() {
            Some("Remote communication system congested / called partner unknown"@)
        } else if self == Self::caller_not_authorised() {
            Some("Requester identification not authorised (security)"@)
        } else if self == Self::select_negotiation() {
            Some("Negotiation failure: SELECT"@)
        } else if self == Self::resync_negotiation() {
            Some("Negotiation failure: RESYNC"@)
        } else if self == Self::sync_negotiation() {
            Some("Negotiation failure: SYNC"@)
        } else if self == Self::version_not_supported() {
            Some("Version number not supported"@)
        } else if self == Self::too_many_connections() {
            Some("Too many connections already in progress"@)
        } else if self == Self::network_incident() {
            Some("Network incident"@)
        } else if self == Self::remote_protocol_error() {
            Some("Remote PeSIT protocol error"@)
        } else if self == Self::service_closed() {
            Some("Closure of service requested by user"@)
        } else if self == Self::idle_connection_cut() {
            Some("Connection cut at end of inactivity timer"@)
        } else if self == Self::unused_connection_cut() {
            Some("Unused connection cut to accept a new one"@)
        } else if self == Self::negotiation_failure() {
            Some("Negotiation failure"@)
        } else if self == Self::administrative_cut() {
            Some("Connection cut by administration"@)
        } else if self == Self::timeout() {
            Some("Timer expired"@)
        } else if self == Self::invalid_parameter() {
            Some("Mandatory parameter absent or illegal parameter content"@)
        } else if self == Self::invalid_counts() {
            Some("Incorrect number of bytes or articles"@)
        } else if self == Self::too_many_resync() {
            Some("Too many resynchronisations for a transfer"@)
        } else if self == Self::call_backup_number() {
            Some("Call the backup number"@)
        } else if self == Self::call_back_later() {
            Some("Call back later"@)
        } else if self == Self::other_connection_error() {
            Some("Other connection/protocol error"@)
        } else {
            None
        }
    }

    /// Known text, or the generic text of the error type.
    pub open spec fn spec_description(self) -> Seq<char> {
        match self.spec_known() {
            Some(t) => t,
            None => if self.kind == 0 {
                "Success"@
            } else if self.kind == 1 {
                "Transmission error"@
            } else if self.kind == 2 {
                "File or transfer error"@
            } else if self.kind == 3 {
                "Connection or protocol error"@
            } else {
                "Unknown diagnostic"@
            },
        }
    }

    /// Short form: `D3-317`.
    pub open spec fn spec_label(self) -> Seq<char> {
        "D"@ + dec(self.kind as nat) + "-"@ + dec_padded(self.code as nat, 3)
    }

    /// Full form: `D3-317 Timer expired`.
    pub open spec fn spec_text(self) -> Seq<char> {
        self.spec_label() + " "@ + self.spec_description()
    }

    /// Three-byte wire form.
    pub open spec fn spec_bytes(self) -> Seq<u8> {
        seq![self.kind, (self.code / 256) as u8, (self.code % 256) as u8]
    }

    /// Diagnostic of a wire form; missing bytes are taken from the high end of the code.
    pub open spec fn spec_from_bytes(bytes: Seq<u8>) -> Option<Diagnostic> {
        if bytes.len() == 0 {
            None
        } else if bytes.len() == 1 {
            Some(Diagnostic { kind: bytes[0], code: 0 })
        } else if bytes.len() == 2 {
            Some(Diagnostic { kind: bytes[0], code: bytes[1] as u16 })
        } else {
            Some(Diagnostic { kind: bytes[0], code: (bytes[1] * 256 + bytes[2]) as u16 })
        }
    }

    /// Whether the diagnostic denotes success.
    pub open spec fn spec_is_ok(self) -> bool {
        self == Self::ok()
    }

    /// Text of a known diagnostic, or `None`.
    #[must_use]
    pub fn known_description(self) -> (r: Option<&'static str>)
        ensures
            r is Some == self.spec_known() is Some,
            r matches Some(t) ==> self.spec_known() == Some(t@),
    {
        match (self.kind, self.code) {
            (0, 0) => Some("Success"),
            (1, 100) => Some("Transmission error"),
            (2, 200) => Some("Insufficient file characteristics"),
            (2, 201) => Some("System resources temporarily insufficient"),
            (2, 202) => Some("User resources temporarily insufficient"),
            (2, 203) => Some("Non-priority transfer"),
            (2, 204) => Some("File already exists"),
            (2, 205) => Some("File not found"),
            (2, 206) => Some("Disk quota would be exceeded"),
            (2, 207) => Some("File busy"),
            (2, 208) => Some("File too old"),
            (2, 209) => Some("Message of this type not accepted"),
            (2, 210) => Some("Presentation context negotiation failed"),
            (2, 211) => Some("Cannot open file"),
            (2, 212) => Some("Cannot close file normally"),
            (2, 213) => Some("Blocking input/output error"),
            (2, 214) => Some("Restart point negotiation failed"),
            (2, 215) => Some("System-specific error"),
            (2, 216) => Some("Voluntary premature stop"),
            (2, 217) => Some("Too many synchronisation points without acknowledgement"),
            (2, 218) => Some("Resynchronisation impossible"),
            (2, 219) => Some("File space exhausted"),
            (2, 220) => Some("Article longer than expected"),
            (2, 221) => Some("End of transmission timer expired"),
            (2, 222) => Some("Too much data without synchronisation point"),
            (2, 223) => Some("Abnormal end of transfer"),
            (2, 224) => Some("File larger than announced in F.CREATE"),
            (2, 225) => Some("Application congested, file received but not delivered"),
            (2, 226) => Some("Transfer refused"),
            (2, 227) => Some("Restart impossible: transfer not restartable"),
            (2, 228) => Some("Restart impossible: unknown synchronisation point"),
            (2, 229) => Some("Restart impossible: file modified"),
            (2, 230) => Some("Restart impossible: delay exceeded"),
            (2, 233) => Some("No transfer restart context available"),
            (2, 299) => Some("Other file/transfer error"),
            (3, 300) => Some("Local communication system congested"),
            (3, 301) => Some("Requested identification unknown"),
            (3, 302) => Some("Requester not attached to an SSAP / unauthorised caller"),
            (3, 303) => Some("Remote communication system congested / called partner unknown"),
            (3, 304) => Some("Requester identification not authorised (security)"),
            (3, 305) => Some("Negotiation failure: SELECT"),
            (3, 306) => Some("Negotiation failure: RESYNC"),
            (3, 307) => Some("Negotiation failure: SYNC"),
            (3, 308) => Some("Version number not supported"),
            (3, 309) => Some("Too many connections already in progress"),
            (3, 310) => Some("Network incident"),
            (3, 311) => Some("Remote PeSIT protocol error"),
            (3, 312) => Some("Closure of service requested by user"),
            (3, 313) => Some("Connection cut at end of inactivity timer"),
            (3, 314) => Some("Unused connection cut to accept a new one"),
            (3, 315) => Some("Negotiation failure"),
            (3, 316) => Some("Connection cut by administration"),
            (3, 317) => Some("Timer expired"),
            (3, 318) => Some("Mandatory parameter absent or illegal parameter content"),
            (3, 319) => Some("Incorrect number of bytes or articles"),
            (3, 320) => Some("Too many resynchronisations for a transfer"),
            (3, 321) => Some("Call the backup number"),
            (3, 322) => Some("Call back later"),
            (3, 399) => Some("Other connection/protocol error"),
            _ => None,
        }
    }

    /// Build a diagnostic from its type and reason code.
    #[must_use]
    pub fn new(kind: u8, code: u16) -> (r: Self)
        ensures
            r == (Diagnostic { kind, code }),
    {
        Diagnostic { kind, code }
    }

    /// Decode the 3-byte wire form (shorter values are accepted, high bytes assumed zero).
    #[must_use]
    pub fn from_bytes(bytes: &[u8]) -> (r: Option<Self>)
        ensures
            r == Self::spec_from_bytes(bytes@),
    {
        if bytes.len() == 0 {
            None
        } else if bytes.len() == 1 {
            Some(Diagnostic::new(bytes[0], 0))
        } else if bytes.len() == 2 {
            Some(Diagnostic::new(bytes[0], bytes[1] as u16))
        } else {
            Some(Diagnostic::new(bytes[0], bytes[1] as u16 * 256 + bytes[2] as u16))
        }
    }

    /// Encode as the 3-byte PI 2 value.
    #[must_use]
    pub fn to_bytes(self) -> (r: [u8; 3])
        ensures
            r@ == self.spec_bytes(),
    {
        let r: [u8; 3] = [self.kind, (self.code / 256) as u8, (self.code % 256) as u8];
        proof {
            assert(r@ =~= self.spec_bytes());
        }
        r
    }

    /// Whether the diagnostic denotes success.
    #[must_use]
    pub fn is_ok(self) -> (r: bool)
        ensures
            r == self.spec_is_ok(),
    {
        self.kind == 0 && self.code == 0
    }

    /// Description (known text or generic).
    #[must_use]
    pub fn description(self) -> (r: &'static str)
        ensures
            r@ == self.spec_description(),
    {
        match self.known_description() {
            Some(t) => t,
            None => match self.kind {
                0 => "Success",
                1 => "Transmission error",
                2 => "File or transfer error",
                3 => "Connection or protocol error",
                _ => "Unknown diagnostic",
            },
        }
    }

    /// Whether a restart (relance) of the transfer is impossible according to this diagnostic.
    pub open spec fn spec_forbids_restart(self) -> bool {
        ||| self == Self::restart_point_negotiation()
        ||| self == Self::resync_impossible()
        ||| self == Self::restart_not_restartable()
        ||| self == Self::restart_unknown_sync()
        ||| self == Self::restart_file_modified()
        ||| self == Self::restart_delay_exceeded()
        ||| self == Self::no_restart_context()
    }

    /// Whether a restart (relance) of the transfer is impossible according to this diagnostic.
    #[must_use]
    pub fn forbids_restart(self) -> (r: bool)
        ensures
            r == self.spec_forbids_restart(),
    {
        matches!(self.code, 214 | 218 | 227 | 228 | 229 | 230 | 233) && self.kind == 2
    }

    /// Short form: `D3-317`.
    #[must_use]
    pub fn label(self) -> (r: String)
        ensures
            r@ == self.spec_label(),
    {
        let mut out = "D".to_owned();
        push_decimal(&mut out, self.kind as u64);
        out.append("-");
        push_decimal_padded(&mut out, self.code as u64, 3);
        out
    }

    /// Full form: `D3-317 Timer expired`.
    #[must_use]
    pub fn text(self) -> (r: String)
        ensures
            r@ == self.spec_text(),
    {
        let mut out = self.label();
        out.append(" ");
        out.append(self.description());
        out
    }
}

/// A diagnostic survives its wire form.
pub proof fn law_diagnostic_bytes_round_trip(d: Diagnostic)
    ensures
        Diagnostic::spec_from_bytes(d.spec_bytes()) == Some(d),
        d.spec_bytes().len() == 3,
{
}

/// Diagnostics that forbid a restart are file or transfer errors, never a success.
pub proof fn law_restart_is_only_forbidden_by_file_errors(d: Diagnostic)
    requires
        d.spec_forbids_restart(),
    ensures
        d.kind == 2,
        !d.spec_is_ok(),
{
}

} // verus!
