//! Parameter identifiers (PI) and parameter group identifiers (PGI) of PeSIT E.

use crate::text::{dec, push_decimal};
use vstd::prelude::*;
use vstd::string::StringExecFns;

verus! {

/// Kind of a parameter value.
#[derive(Debug, Clone, Copy, PartialEq, Eq, Hash, Structural)]
pub enum ValueKind {
    /// `C`: ASCII character string, trailing blanks not significant.
    Text,
    /// `N`: unsigned binary integer, leading zero bytes removed (at least one byte).
    Number,
    /// `S`: symbolic value, one byte.
    Symbol,
    /// `M`: bit mask (8 to 16 bits).
    Mask,
    /// `D`: date/time as a 12 character string `AAMMJJhhmmss`.
    DateTime,
    /// `A`: aggregate of the above.
    Aggregate,
}

/// Parameter identifier.
#[derive(Debug, Clone, Copy, PartialEq, Eq, Hash, PartialOrd, Ord, Structural)]
pub enum Pi {
    /// PI 1: CRC usage.
    Crc,
    /// PI 2: Diagnostic.
    Diag,
    /// PI 3: Requester identification.
    Requester,
    /// PI 4: Server identification.
    Server,
    /// PI 5: Access control (password).
    AccessControl,
    /// PI 6: Protocol version.
    Version,
    /// PI 7: Synchronisation points option.
    SyncOption,
    /// PI 11: File type.
    FileType,
    /// PI 12: File name.
    FileName,
    /// PI 13: Transfer identifier.
    TransferId,
    /// PI 14: Requested attributes.
    RequestedAttributes,
    /// PI 15: Transfer restarted.
    Restarted,
    /// PI 16: Data code.
    DataCode,
    /// PI 17: Transfer priority.
    Priority,
    /// PI 18: Restart point.
    RestartPoint,
    /// PI 19: End of transfer code.
    EndCode,
    /// PI 20: Synchronisation point number.
    SyncNumber,
    /// PI 21: Compression.
    Compression,
    /// PI 22: Access type.
    AccessType,
    /// PI 23: Resynchronisation.
    Resync,
    /// PI 25: Maximum data entity size.
    MaxEntitySize,
    /// PI 26: Watchdog timer.
    Timeout,
    /// PI 27: Number of data bytes.
    ByteCount,
    /// PI 28: Number of articles.
    ArticleCount,
    /// PI 29: Diagnostic complement.
    DiagComplement,
    /// PI 31: Article format.
    ArticleFormat,
    /// PI 32: Article length.
    ArticleLength,
    /// PI 33: File organisation.
    FileOrganisation,
    /// PI 34: Signature taken into account.
    SignatureFlag,
    /// PI 36: SIT seal.
    SitSeal,
    /// PI 37: File label.
    FileLabel,
    /// PI 38: Key length.
    KeyLength,
    /// PI 39: Key offset.
    KeyOffset,
    /// PI 41: Space reservation unit.
    ReservationUnit,
    /// PI 42: Maximum space reservation.
    MaxReservation,
    /// PI 51: Creation date and time.
    CreationDate,
    /// PI 52: Last extraction date and time.
    ExtractionDate,
    /// PI 61: Client identifier.
    ClientId,
    /// PI 62: Bank identifier.
    BankId,
    /// PI 63: File access control.
    FileAccessControl,
    /// PI 64: Server date and time.
    ServerDate,
    /// PI 71: Authentication type.
    AuthType,
    /// PI 72: Authentication elements.
    AuthElements,
    /// PI 73: Sealing type.
    SealType,
    /// PI 74: Sealing elements.
    SealElements,
    /// PI 75: Encryption type.
    CipherType,
    /// PI 76: Encryption elements.
    CipherElements,
    /// PI 77: Signature type.
    SignatureType,
    /// PI 78: Seal.
    Seal,
    /// PI 79: Signature.
    Signature,
    /// PI 80: Accreditation.
    Accreditation,
    /// PI 81: Signature acknowledgement.
    SignatureAck,
    /// PI 82: Second signature.
    SecondSignature,
    /// PI 83: Second accreditation.
    SecondAccreditation,
    /// PI 91: Message.
    Message,
    /// PI 99: Free message.
    FreeMessage,
}

impl Pi {
    /// All parameter identifiers in ascending code order.
    pub const ALL: [Pi; 56] = [
        Pi::Crc,
        Pi::Diag,
        Pi::Requester,
        Pi::Server,
        Pi::AccessControl,
        Pi::Version,
        Pi::SyncOption,
        Pi::FileType,
        Pi::FileName,
        Pi::TransferId,
        Pi::RequestedAttributes,
        Pi::Restarted,
        Pi::DataCode,
        Pi::Priority,
        Pi::RestartPoint,
        Pi::EndCode,
        Pi::SyncNumber,
        Pi::Compression,
        Pi::AccessType,
        Pi::Resync,
        Pi::MaxEntitySize,
        Pi::Timeout,
        Pi::ByteCount,
        Pi::ArticleCount,
        Pi::DiagComplement,
        Pi::ArticleFormat,
        Pi::ArticleLength,
        Pi::FileOrganisation,
        Pi::SignatureFlag,
        Pi::SitSeal,
        Pi::FileLabel,
        Pi::KeyLength,
        Pi::KeyOffset,
        Pi::ReservationUnit,
        Pi::MaxReservation,
        Pi::CreationDate,
        Pi::ExtractionDate,
        Pi::ClientId,
        Pi::BankId,
        Pi::FileAccessControl,
        Pi::ServerDate,
        Pi::AuthType,
        Pi::AuthElements,
        Pi::SealType,
        Pi::SealElements,
        Pi::CipherType,
        Pi::CipherElements,
        Pi::SignatureType,
        Pi::Seal,
        Pi::Signature,
        Pi::Accreditation,
        Pi::SignatureAck,
        Pi::SecondSignature,
        Pi::SecondAccreditation,
        Pi::Message,
        Pi::FreeMessage,
    ];

    /// Wire code of the parameter.
    pub open spec fn spec_code(self) -> u8 {
        match self {
            Pi::Crc => 1,
            Pi::Diag => 2,
            Pi::Requester => 3,
            Pi::Server => 4,
            Pi::AccessControl => 5,
            Pi::Version => 6,
            Pi::SyncOption => 7,
            Pi::FileType => 11,
            Pi::FileName => 12,
            Pi::TransferId => 13,
            Pi::RequestedAttributes => 14,
            Pi::Restarted => 15,
            Pi::DataCode => 16,
            Pi::Priority => 17,
            Pi::RestartPoint => 18,
            Pi::EndCode => 19,
            Pi::SyncNumber => 20,
            Pi::Compression => 21,
            Pi::AccessType => 22,
            Pi::Resync => 23,
            Pi::MaxEntitySize => 25,
            Pi::Timeout => 26,
            Pi::ByteCount => 27,
            Pi::ArticleCount => 28,
            Pi::DiagComplement => 29,
            Pi::ArticleFormat => 31,
            Pi::ArticleLength => 32,
            Pi::FileOrganisation => 33,
            Pi::SignatureFlag => 34,
            Pi::SitSeal => 36,
            Pi::FileLabel => 37,
            Pi::KeyLength => 38,
            Pi::KeyOffset => 39,
            Pi::ReservationUnit => 41,
            Pi::MaxReservation => 42,
            Pi::CreationDate => 51,
            Pi::ExtractionDate => 52,
            Pi::ClientId => 61,
            Pi::BankId => 62,
            Pi::FileAccessControl => 63,
            Pi::ServerDate => 64,
            Pi::AuthType => 71,
            Pi::AuthElements => 72,
            Pi::SealType => 73,
            Pi::SealElements => 74,
            Pi::CipherType => 75,
            Pi::CipherElements => 76,
            Pi::SignatureType => 77,
            Pi::Seal => 78,
            Pi::Signature => 79,
            Pi::Accreditation => 80,
            Pi::SignatureAck => 81,
            Pi::SecondSignature => 82,
            Pi::SecondAccreditation => 83,
            Pi::Message => 91,
            Pi::FreeMessage => 99,
        }
    }

    /// Parameter of a wire code.
    pub open spec fn spec_from_code(code: u8) -> Option<Pi> {
        if code == 1 {
            Some(Pi::Crc)
        } else if code == 2 {
            Some(Pi::Diag)
        } else if code == 3 {
            Some(Pi::Requester)
        } else if code == 4 {
            Some(Pi::Server)
        } else if code == 5 {
            Some(Pi::AccessControl)
        } else if code == 6 {
            Some(Pi::Version)
        } else if code == 7 {
            Some(Pi::SyncOption)
        } else if code == 11 {
            Some(Pi::FileType)
        } else if code == 12 {
            Some(Pi::FileName)
        } else if code == 13 {
            Some(Pi::TransferId)
        } else if code == 14 {
            Some(Pi::RequestedAttributes)
        } else if code == 15 {
            Some(Pi::Restarted)
        } else if code == 16 {
            Some(Pi::DataCode)
        } else if code == 17 {
            Some(Pi::Priority)
        } else if code == 18 {
            Some(Pi::RestartPoint)
        } else if code == 19 {
            Some(Pi::EndCode)
        } else if code == 20 {
            Some(Pi::SyncNumber)
        } else if code == 21 {
            Some(Pi::Compression)
        } else if code == 22 {
            Some(Pi::AccessType)
        } else if code == 23 {
            Some(Pi::Resync)
        } else if code == 25 {
            Some(Pi::MaxEntitySize)
        } else if code == 26 {
            Some(Pi::Timeout)
        } else if code == 27 {
            Some(Pi::ByteCount)
        } else if code == 28 {
            Some(Pi::ArticleCount)
        } else if code == 29 {
            Some(Pi::DiagComplement)
        } else if code == 31 {
            Some(Pi::ArticleFormat)
        } else if code == 32 {
            Some(Pi::ArticleLength)
        } else if code == 33 {
            Some(Pi::FileOrganisation)
        } else if code == 34 {
            Some(Pi::SignatureFlag)
        } else if code == 36 {
            Some(Pi::SitSeal)
        } else if code == 37 {
            Some(Pi::FileLabel)
        } else if code == 38 {
            Some(Pi::KeyLength)
        } else if code == 39 {
            Some(Pi::KeyOffset)
        } else if code == 41 {
            Some(Pi::ReservationUnit)
        } else if code == 42 {
            Some(Pi::MaxReservation)
        } else if code == 51 {
            Some(Pi::CreationDate)
        } else if code == 52 {
            Some(Pi::ExtractionDate)
        } else if code == 61 {
            Some(Pi::ClientId)
        } else if code == 62 {
            Some(Pi::BankId)
        } else if code == 63 {
            Some(Pi::FileAccessControl)
        } else if code == 64 {
            Some(Pi::ServerDate)
        } else if code == 71 {
            Some(Pi::AuthType)
        } else if code == 72 {
            Some(Pi::AuthElements)
        } else if code == 73 {
            Some(Pi::SealType)
        } else if code == 74 {
            Some(Pi::SealElements)
        } else if code == 75 {
            Some(Pi::CipherType)
        } else if code == 76 {
            Some(Pi::CipherElements)
        } else if code == 77 {
            Some(Pi::SignatureType)
        } else if code == 78 {
            Some(Pi::Seal)
        } else if code == 79 {
            Some(Pi::Signature)
        } else if code == 80 {
            Some(Pi::Accreditation)
        } else if code == 81 {
            Some(Pi::SignatureAck)
        } else if code == 82 {
            Some(Pi::SecondSignature)
        } else if code == 83 {
            Some(Pi::SecondAccreditation)
        } else if code == 91 {
            Some(Pi::Message)
        } else if code == 99 {
            Some(Pi::FreeMessage)
        } else {
            None
        }
    }

    /// Value kind of the parameter.
    pub open spec fn spec_kind(self) -> ValueKind {
        match self {
            Pi::Crc => ValueKind::Symbol,
            Pi::Diag => ValueKind::Aggregate,
            Pi::Requester => ValueKind::Text,
            Pi::Server => ValueKind::Text,
            Pi::AccessControl => ValueKind::Text,
            Pi::Version => ValueKind::Number,
            Pi::SyncOption => ValueKind::Aggregate,
            Pi::FileType => ValueKind::Number,
            Pi::FileName => ValueKind::Text,
            Pi::TransferId => ValueKind::Number,
            Pi::RequestedAttributes => ValueKind::Mask,
            Pi::Restarted => ValueKind::Symbol,
            Pi::DataCode => ValueKind::Symbol,
            Pi::Priority => ValueKind::Symbol,
            Pi::RestartPoint => ValueKind::Number,
            Pi::EndCode => ValueKind::Symbol,
            Pi::SyncNumber => ValueKind::Number,
            Pi::Compression => ValueKind::Aggregate,
            Pi::AccessType => ValueKind::Symbol,
            Pi::Resync => ValueKind::Symbol,
            Pi::MaxEntitySize => ValueKind::Number,
            Pi::Timeout => ValueKind::Number,
            Pi::ByteCount => ValueKind::Number,
            Pi::ArticleCount => ValueKind::Number,
            Pi::DiagComplement => ValueKind::Aggregate,
            Pi::ArticleFormat => ValueKind::Mask,
            Pi::ArticleLength => ValueKind::Number,
            Pi::FileOrganisation => ValueKind::Symbol,
            Pi::SignatureFlag => ValueKind::Number,
            Pi::SitSeal => ValueKind::Number,
            Pi::FileLabel => ValueKind::Text,
            Pi::KeyLength => ValueKind::Number,
            Pi::KeyOffset => ValueKind::Number,
            Pi::ReservationUnit => ValueKind::Symbol,
            Pi::MaxReservation => ValueKind::Number,
            Pi::CreationDate => ValueKind::DateTime,
            Pi::ExtractionDate => ValueKind::DateTime,
            Pi::ClientId => ValueKind::Text,
            Pi::BankId => ValueKind::Text,
            Pi::FileAccessControl => ValueKind::Text,
            Pi::ServerDate => ValueKind::DateTime,
            Pi::AuthType => ValueKind::Aggregate,
            Pi::AuthElements => ValueKind::Number,
            Pi::SealType => ValueKind::Aggregate,
            Pi::SealElements => ValueKind::Number,
            Pi::CipherType => ValueKind::Aggregate,
            Pi::CipherElements => ValueKind::Number,
            Pi::SignatureType => ValueKind::Aggregate,
            Pi::Seal => ValueKind::Number,
            Pi::Signature => ValueKind::Number,
            Pi::Accreditation => ValueKind::Number,
            Pi::SignatureAck => ValueKind::Number,
            Pi::SecondSignature => ValueKind::Number,
            Pi::SecondAccreditation => ValueKind::Number,
            Pi::Message => ValueKind::Text,
            Pi::FreeMessage => ValueKind::Text,
        }
    }

    /// Maximum value length in bytes (0 = unbounded).
    pub open spec fn spec_max_len(self) -> usize {
        match self {
            Pi::Crc => 1,
            Pi::Diag => 3,
            Pi::Requester => 24,
            Pi::Server => 24,
            Pi::AccessControl => 16,
            Pi::Version => 2,
            Pi::SyncOption => 3,
            Pi::FileType => 8,
            Pi::FileName => 76,
            Pi::TransferId => 3,
            Pi::RequestedAttributes => 1,
            Pi::Restarted => 1,
            Pi::DataCode => 1,
            Pi::Priority => 1,
            Pi::RestartPoint => 3,
            Pi::EndCode => 1,
            Pi::SyncNumber => 3,
            Pi::Compression => 2,
            Pi::AccessType => 1,
            Pi::Resync => 1,
            Pi::MaxEntitySize => 2,
            Pi::Timeout => 2,
            Pi::ByteCount => 8,
            Pi::ArticleCount => 4,
            Pi::DiagComplement => 254,
            Pi::ArticleFormat => 1,
            Pi::ArticleLength => 2,
            Pi::FileOrganisation => 1,
            Pi::SignatureFlag => 2,
            Pi::SitSeal => 64,
            Pi::FileLabel => 80,
            Pi::KeyLength => 2,
            Pi::KeyOffset => 2,
            Pi::ReservationUnit => 1,
            Pi::MaxReservation => 4,
            Pi::CreationDate => 12,
            Pi::ExtractionDate => 12,
            Pi::ClientId => 24,
            Pi::BankId => 24,
            Pi::FileAccessControl => 16,
            Pi::ServerDate => 12,
            Pi::AuthType => 3,
            Pi::AuthElements => 0,
            Pi::SealType => 4,
            Pi::SealElements => 0,
            Pi::CipherType => 4,
            Pi::CipherElements => 0,
            Pi::SignatureType => 4,
            Pi::Seal => 0,
            Pi::Signature => 0,
            Pi::Accreditation => 0,
            Pi::SignatureAck => 0,
            Pi::SecondSignature => 0,
            Pi::SecondAccreditation => 0,
            Pi::Message => 4096,
            Pi::FreeMessage => 254,
        }
    }

    /// Human readable name of the parameter.
    pub open spec fn spec_name(self) -> Seq<char> {
        match self {
            Pi::Crc => "CRC usage"@,
            Pi::Diag => "Diagnostic"@,
            Pi::Requester => "Requester identification"@,
            Pi::Server => "Server identification"@,
            Pi::AccessControl => "Access control (password)"@,
            Pi::Version => "Protocol version"@,
            Pi::SyncOption => "Synchronisation points option"@,
            Pi::FileType => "File type"@,
            Pi::FileName => "File name"@,
            Pi::TransferId => "Transfer identifier"@,
            Pi::RequestedAttributes => "Requested attributes"@,
            Pi::Restarted => "Transfer restarted"@,
            Pi::DataCode => "Data code"@,
            Pi::Priority => "Transfer priority"@,
            Pi::RestartPoint => "Restart point"@,
            Pi::EndCode => "End of transfer code"@,
            Pi::SyncNumber => "Synchronisation point number"@,
            Pi::Compression => "Compression"@,
            Pi::AccessType => "Access type"@,
            Pi::Resync => "Resynchronisation"@,
            Pi::MaxEntitySize => "Maximum data entity size"@,
            Pi::Timeout => "Watchdog timer"@,
            Pi::ByteCount => "Number of data bytes"@,
            Pi::ArticleCount => "Number of articles"@,
            Pi::DiagComplement => "Diagnostic complement"@,
            Pi::ArticleFormat => "Article format"@,
            Pi::ArticleLength => "Article length"@,
            Pi::FileOrganisation => "File organisation"@,
            Pi::SignatureFlag => "Signature taken into account"@,
            Pi::SitSeal => "SIT seal"@,
            Pi::FileLabel => "File label"@,
            Pi::KeyLength => "Key length"@,
            Pi::KeyOffset => "Key offset"@,
            Pi::ReservationUnit => "Space reservation unit"@,
            Pi::MaxReservation => "Maximum space reservation"@,
            Pi::CreationDate => "Creation date and time"@,
            Pi::ExtractionDate => "Last extraction date and time"@,
            Pi::ClientId => "Client identifier"@,
            Pi::BankId => "Bank identifier"@,
            Pi::FileAccessControl => "File access control"@,
            Pi::ServerDate => "Server date and time"@,
            Pi::AuthType => "Authentication type"@,
            Pi::AuthElements => "Authentication elements"@,
            Pi::SealType => "Sealing type"@,
            Pi::SealElements => "Sealing elements"@,
            Pi::CipherType => "Encryption type"@,
            Pi::CipherElements => "Encryption elements"@,
            Pi::SignatureType => "Signature type"@,
            Pi::Seal => "Seal"@,
            Pi::Signature => "Signature"@,
            Pi::Accreditation => "Accreditation"@,
            Pi::SignatureAck => "Signature acknowledgement"@,
            Pi::SecondSignature => "Second signature"@,
            Pi::SecondAccreditation => "Second accreditation"@,
            Pi::Message => "Message"@,
            Pi::FreeMessage => "Free message"@,
        }
    }

    /// Rendering of the parameter: `PI 12 (File name)`.
    pub open spec fn spec_text(self) -> Seq<char> {
        "PI "@ + dec(self.spec_code() as nat) + " ("@ + self.spec_name() + ")"@
    }

    /// Look a parameter up by its wire code.
    #[must_use]
    pub fn from_code(code: u8) -> (r: Option<Pi>)
        ensures
            r == Self::spec_from_code(code),
            r matches Some(pi) ==> pi.spec_code() == code,
            r is None ==> forall|pi: Pi| pi.spec_code() != code,
    {
        match code {
            1 => Some(Pi::Crc),
            2 => Some(Pi::Diag),
            3 => Some(Pi::Requester),
            4 => Some(Pi::Server),
            5 => Some(Pi::AccessControl),
            6 => Some(Pi::Version),
            7 => Some(Pi::SyncOption),
            11 => Some(Pi::FileType),
            12 => Some(Pi::FileName),
            13 => Some(Pi::TransferId),
            14 => Some(Pi::RequestedAttributes),
            15 => Some(Pi::Restarted),
            16 => Some(Pi::DataCode),
            17 => Some(Pi::Priority),
            18 => Some(Pi::RestartPoint),
            19 => Some(Pi::EndCode),
            20 => Some(Pi::SyncNumber),
            21 => Some(Pi::Compression),
            22 => Some(Pi::AccessType),
            23 => Some(Pi::Resync),
            25 => Some(Pi::MaxEntitySize),
            26 => Some(Pi::Timeout),
            27 => Some(Pi::ByteCount),
            28 => Some(Pi::ArticleCount),
            29 => Some(Pi::DiagComplement),
            31 => Some(Pi::ArticleFormat),
            32 => Some(Pi::ArticleLength),
            33 => Some(Pi::FileOrganisation),
            34 => Some(Pi::SignatureFlag),
            36 => Some(Pi::SitSeal),
            37 => Some(Pi::FileLabel),
            38 => Some(Pi::KeyLength),
            39 => Some(Pi::KeyOffset),
            41 => Some(Pi::ReservationUnit),
            42 => Some(Pi::MaxReservation),
            51 => Some(Pi::CreationDate),
            52 => Some(Pi::ExtractionDate),
            61 => Some(Pi::ClientId),
            62 => Some(Pi::BankId),
            63 => Some(Pi::FileAccessControl),
            64 => Some(Pi::ServerDate),
            71 => Some(Pi::AuthType),
            72 => Some(Pi::AuthElements),
            73 => Some(Pi::SealType),
            74 => Some(Pi::SealElements),
            75 => Some(Pi::CipherType),
            76 => Some(Pi::CipherElements),
            77 => Some(Pi::SignatureType),
            78 => Some(Pi::Seal),
            79 => Some(Pi::Signature),
            80 => Some(Pi::Accreditation),
            81 => Some(Pi::SignatureAck),
            82 => Some(Pi::SecondSignature),
            83 => Some(Pi::SecondAccreditation),
            91 => Some(Pi::Message),
            99 => Some(Pi::FreeMessage),
            _ => None,
        }
    }

    /// Wire code of the parameter.
    #[must_use]
    pub fn code(self) -> (r: u8)
        ensures
            r == self.spec_code(),
    {
        match self {
            Pi::Crc => 1,
            Pi::Diag => 2,
            Pi::Requester => 3,
            Pi::Server => 4,
            Pi::AccessControl => 5,
            Pi::Version => 6,
            Pi::SyncOption => 7,
            Pi::FileType => 11,
            Pi::FileName => 12,
            Pi::TransferId => 13,
            Pi::RequestedAttributes => 14,
            Pi::Restarted => 15,
            Pi::DataCode => 16,
            Pi::Priority => 17,
            Pi::RestartPoint => 18,
            Pi::EndCode => 19,
            Pi::SyncNumber => 20,
            Pi::Compression => 21,
            Pi::AccessType => 22,
            Pi::Resync => 23,
            Pi::MaxEntitySize => 25,
            Pi::Timeout => 26,
            Pi::ByteCount => 27,
            Pi::ArticleCount => 28,
            Pi::DiagComplement => 29,
            Pi::ArticleFormat => 31,
            Pi::ArticleLength => 32,
            Pi::FileOrganisation => 33,
            Pi::SignatureFlag => 34,
            Pi::SitSeal => 36,
            Pi::FileLabel => 37,
            Pi::KeyLength => 38,
            Pi::KeyOffset => 39,
            Pi::ReservationUnit => 41,
            Pi::MaxReservation => 42,
            Pi::CreationDate => 51,
            Pi::ExtractionDate => 52,
            Pi::ClientId => 61,
            Pi::BankId => 62,
            Pi::FileAccessControl => 63,
            Pi::ServerDate => 64,
            Pi::AuthType => 71,
            Pi::AuthElements => 72,
            Pi::SealType => 73,
            Pi::SealElements => 74,
            Pi::CipherType => 75,
            Pi::CipherElements => 76,
            Pi::SignatureType => 77,
            Pi::Seal => 78,
            Pi::Signature => 79,
            Pi::Accreditation => 80,
            Pi::SignatureAck => 81,
            Pi::SecondSignature => 82,
            Pi::SecondAccreditation => 83,
            Pi::Message => 91,
            Pi::FreeMessage => 99,
        }
    }

    /// Value kind of the parameter.
    #[must_use]
    pub fn kind(self) -> (r: ValueKind)
        ensures
            r == self.spec_kind(),
    {
        match self {
            Pi::Crc => ValueKind::Symbol,
            Pi::Diag => ValueKind::Aggregate,
            Pi::Requester => ValueKind::Text,
            Pi::Server => ValueKind::Text,
            Pi::AccessControl => ValueKind::Text,
            Pi::Version => ValueKind::Number,
            Pi::SyncOption => ValueKind::Aggregate,
            Pi::FileType => ValueKind::Number,
            Pi::FileName => ValueKind::Text,
            Pi::TransferId => ValueKind::Number,
            Pi::RequestedAttributes => ValueKind::Mask,
            Pi::Restarted => ValueKind::Symbol,
            Pi::DataCode => ValueKind::Symbol,
            Pi::Priority => ValueKind::Symbol,
            Pi::RestartPoint => ValueKind::Number,
            Pi::EndCode => ValueKind::Symbol,
            Pi::SyncNumber => ValueKind::Number,
            Pi::Compression => ValueKind::Aggregate,
            Pi::AccessType => ValueKind::Symbol,
            Pi::Resync => ValueKind::Symbol,
            Pi::MaxEntitySize => ValueKind::Number,
            Pi::Timeout => ValueKind::Number,
            Pi::ByteCount => ValueKind::Number,
            Pi::ArticleCount => ValueKind::Number,
            Pi::DiagComplement => ValueKind::Aggregate,
            Pi::ArticleFormat => ValueKind::Mask,
            Pi::ArticleLength => ValueKind::Number,
            Pi::FileOrganisation => ValueKind::Symbol,
            Pi::SignatureFlag => ValueKind::Number,
            Pi::SitSeal => ValueKind::Number,
            Pi::FileLabel => ValueKind::Text,
            Pi::KeyLength => ValueKind::Number,
            Pi::KeyOffset => ValueKind::Number,
            Pi::ReservationUnit => ValueKind::Symbol,
            Pi::MaxReservation => ValueKind::Number,
            Pi::CreationDate => ValueKind::DateTime,
            Pi::ExtractionDate => ValueKind::DateTime,
            Pi::ClientId => ValueKind::Text,
            Pi::BankId => ValueKind::Text,
            Pi::FileAccessControl => ValueKind::Text,
            Pi::ServerDate => ValueKind::DateTime,
            Pi::AuthType => ValueKind::Aggregate,
            Pi::AuthElements => ValueKind::Number,
            Pi::SealType => ValueKind::Aggregate,
            Pi::SealElements => ValueKind::Number,
            Pi::CipherType => ValueKind::Aggregate,
            Pi::CipherElements => ValueKind::Number,
            Pi::SignatureType => ValueKind::Aggregate,
            Pi::Seal => ValueKind::Number,
            Pi::Signature => ValueKind::Number,
            Pi::Accreditation => ValueKind::Number,
            Pi::SignatureAck => ValueKind::Number,
            Pi::SecondSignature => ValueKind::Number,
            Pi::SecondAccreditation => ValueKind::Number,
            Pi::Message => ValueKind::Text,
            Pi::FreeMessage => ValueKind::Text,
        }
    }

    /// Maximum value length in bytes (0 = unbounded / implementation defined).
    #[must_use]
    pub fn max_len(self) -> (r: usize)
        ensures
            r == self.spec_max_len(),
    {
        match self {
            Pi::Crc => 1,
            Pi::Diag => 3,
            Pi::Requester => 24,
            Pi::Server => 24,
            Pi::AccessControl => 16,
            Pi::Version => 2,
            Pi::SyncOption => 3,
            Pi::FileType => 8,
            Pi::FileName => 76,
            Pi::TransferId => 3,
            Pi::RequestedAttributes => 1,
            Pi::Restarted => 1,
            Pi::DataCode => 1,
            Pi::Priority => 1,
            Pi::RestartPoint => 3,
            Pi::EndCode => 1,
            Pi::SyncNumber => 3,
            Pi::Compression => 2,
            Pi::AccessType => 1,
            Pi::Resync => 1,
            Pi::MaxEntitySize => 2,
            Pi::Timeout => 2,
            Pi::ByteCount => 8,
            Pi::ArticleCount => 4,
            Pi::DiagComplement => 254,
            Pi::ArticleFormat => 1,
            Pi::ArticleLength => 2,
            Pi::FileOrganisation => 1,
            Pi::SignatureFlag => 2,
            Pi::SitSeal => 64,
            Pi::FileLabel => 80,
            Pi::KeyLength => 2,
            Pi::KeyOffset => 2,
            Pi::ReservationUnit => 1,
            Pi::MaxReservation => 4,
            Pi::CreationDate => 12,
            Pi::ExtractionDate => 12,
            Pi::ClientId => 24,
            Pi::BankId => 24,
            Pi::FileAccessControl => 16,
            Pi::ServerDate => 12,
            Pi::AuthType => 3,
            Pi::AuthElements => 0,
            Pi::SealType => 4,
            Pi::SealElements => 0,
            Pi::CipherType => 4,
            Pi::CipherElements => 0,
            Pi::SignatureType => 4,
            Pi::Seal => 0,
            Pi::Signature => 0,
            Pi::Accreditation => 0,
            Pi::SignatureAck => 0,
            Pi::SecondSignature => 0,
            Pi::SecondAccreditation => 0,
            Pi::Message => 4096,
            Pi::FreeMessage => 254,
        }
    }

    /// Human readable name of the parameter.
    #[must_use]
    pub fn name(self) -> (r: &'static str)
        ensures
            r@ == self.spec_name(),
    {
        match self {
            Pi::Crc => "CRC usage",
            Pi::Diag => "Diagnostic",
            Pi::Requester => "Requester identification",
            Pi::Server => "Server identification",
            Pi::AccessControl => "Access control (password)",
            Pi::Version => "Protocol version",
            Pi::SyncOption => "Synchronisation points option",
            Pi::FileType => "File type",
            Pi::FileName => "File name",
            Pi::TransferId => "Transfer identifier",
            Pi::RequestedAttributes => "Requested attributes",
            Pi::Restarted => "Transfer restarted",
            Pi::DataCode => "Data code",
            Pi::Priority => "Transfer priority",
            Pi::RestartPoint => "Restart point",
            Pi::EndCode => "End of transfer code",
            Pi::SyncNumber => "Synchronisation point number",
            Pi::Compression => "Compression",
            Pi::AccessType => "Access type",
            Pi::Resync => "Resynchronisation",
            Pi::MaxEntitySize => "Maximum data entity size",
            Pi::Timeout => "Watchdog timer",
            Pi::ByteCount => "Number of data bytes",
            Pi::ArticleCount => "Number of articles",
            Pi::DiagComplement => "Diagnostic complement",
            Pi::ArticleFormat => "Article format",
            Pi::ArticleLength => "Article length",
            Pi::FileOrganisation => "File organisation",
            Pi::SignatureFlag => "Signature taken into account",
            Pi::SitSeal => "SIT seal",
            Pi::FileLabel => "File label",
            Pi::KeyLength => "Key length",
            Pi::KeyOffset => "Key offset",
            Pi::ReservationUnit => "Space reservation unit",
            Pi::MaxReservation => "Maximum space reservation",
            Pi::CreationDate => "Creation date and time",
            Pi::ExtractionDate => "Last extraction date and time",
            Pi::ClientId => "Client identifier",
            Pi::BankId => "Bank identifier",
            Pi::FileAccessControl => "File access control",
            Pi::ServerDate => "Server date and time",
            Pi::AuthType => "Authentication type",
            Pi::AuthElements => "Authentication elements",
            Pi::SealType => "Sealing type",
            Pi::SealElements => "Sealing elements",
            Pi::CipherType => "Encryption type",
            Pi::CipherElements => "Encryption elements",
            Pi::SignatureType => "Signature type",
            Pi::Seal => "Seal",
            Pi::Signature => "Signature",
            Pi::Accreditation => "Accreditation",
            Pi::SignatureAck => "Signature acknowledgement",
            Pi::SecondSignature => "Second signature",
            Pi::SecondAccreditation => "Second accreditation",
            Pi::Message => "Message",
            Pi::FreeMessage => "Free message",
        }
    }

    /// Rendering of the parameter: `PI 12 (File name)`.
    #[must_use]
    pub fn text(self) -> (r: String)
        ensures
            r@ == self.spec_text(),
    {
        let mut out = "PI ".to_owned();
        push_decimal(&mut out, self.code() as u64);
        out.append(" (");
        out.append(self.name());
        out.append(")");
        out
    }
}

/// The wire code identifies a parameter: looking it up gives the parameter back.
pub proof fn law_pi_code_round_trip(pi: Pi)
    ensures
        Pi::spec_from_code(pi.spec_code()) == Some(pi),
{
}

/// Parameter and group codes never collide.
pub proof fn law_pi_and_pgi_codes_are_disjoint(pi: Pi, pgi: Pgi)
    ensures
        pi.spec_code() != pgi.spec_code(),
        Pgi::spec_from_code(pi.spec_code()) is None,
        Pi::spec_from_code(pgi.spec_code()) is None,
{
}

/// Parameter group identifier.
#[derive(Debug, Clone, Copy, PartialEq, Eq, Hash, PartialOrd, Ord, Structural)]
pub enum Pgi {
    /// PGI 9, file identifier: PI 3, 4, 11, 12.
    FileId,
    /// PGI 30, logical attributes: PI 31, 32, 33, 34, 36, 37, 38, 39.
    LogicalAttributes,
    /// PGI 40, physical attributes: PI 41, 42.
    PhysicalAttributes,
    /// PGI 50, historical attributes: PI 51, 52.
    HistoricalAttributes,
}

/// The wire code identifies a group: looking it up gives the group back.
pub proof fn law_pgi_code_round_trip(pgi: Pgi)
    ensures
        Pgi::spec_from_code(pgi.spec_code()) == Some(pgi),
{
}

impl Pgi {
    /// All parameter groups in ascending code order.
    pub const ALL: [Pgi; 4] = [
        Pgi::FileId,
        Pgi::LogicalAttributes,
        Pgi::PhysicalAttributes,
        Pgi::HistoricalAttributes,
    ];

    /// Wire code of the group.
    pub open spec fn spec_code(self) -> u8 {
        match self {
            Pgi::FileId => 9,
            Pgi::LogicalAttributes => 30,
            Pgi::PhysicalAttributes => 40,
            Pgi::HistoricalAttributes => 50,
        }
    }

    /// Group of a wire code.
    pub open spec fn spec_from_code(code: u8) -> Option<Pgi> {
        if code == 9 {
            Some(Pgi::FileId)
        } else if code == 30 {
            Some(Pgi::LogicalAttributes)
        } else if code == 40 {
            Some(Pgi::PhysicalAttributes)
        } else if code == 50 {
            Some(Pgi::HistoricalAttributes)
        } else {
            None
        }
    }

    /// Human readable name.
    pub open spec fn spec_name(self) -> Seq<char> {
        match self {
            Pgi::FileId => "File identifier"@,
            Pgi::LogicalAttributes => "Logical attributes"@,
            Pgi::PhysicalAttributes => "Physical attributes"@,
            Pgi::HistoricalAttributes => "Historical attributes"@,
        }
    }

    /// Rendering of the group: `PGI 9 (File identifier)`.
    pub open spec fn spec_text(self) -> Seq<char> {
        "PGI "@ + dec(self.spec_code() as nat) + " ("@ + self.spec_name() + ")"@
    }

    /// Parameters that may appear inside this group, with their mandatory flag.
    pub open spec fn spec_members(self) -> Seq<(Pi, bool)> {
        match self {
            Pgi::FileId => seq![
                (Pi::Requester, false),
                (Pi::Server, false),
                (Pi::FileType, true),
                (Pi::FileName, true),
            ],
            Pgi::LogicalAttributes => seq![
                (Pi::ArticleFormat, false),
                (Pi::ArticleLength, true),
                (Pi::FileOrganisation, false),
                (Pi::SignatureFlag, false),
                (Pi::SitSeal, false),
                (Pi::FileLabel, false),
                (Pi::KeyLength, false),
                (Pi::KeyOffset, false),
            ],
            Pgi::PhysicalAttributes => seq![
                (Pi::ReservationUnit, false),
                (Pi::MaxReservation, true),
            ],
            Pgi::HistoricalAttributes => seq![
                (Pi::CreationDate, true),
                (Pi::ExtractionDate, false),
            ],
        }
    }

    /// Whether `pi` belongs to this group.
    pub open spec fn spec_contains(self, pi: Pi) -> bool {
        exists|i: int| 0 <= i < self.spec_members().len() && (#[trigger] self.spec_members()[i]).0 == pi
    }

    /// Look a group up by its wire code.
    #[must_use]
    pub fn from_code(code: u8) -> (r: Option<Pgi>)
        ensures
            r == Self::spec_from_code(code),
            r matches Some(pgi) ==> pgi.spec_code() == code,
            r is None ==> forall|pgi: Pgi| pgi.spec_code() != code,
    {
        match code {
            9 => Some(Pgi::FileId),
            30 => Some(Pgi::LogicalAttributes),
            40 => Some(Pgi::PhysicalAttributes),
            50 => Some(Pgi::HistoricalAttributes),
            _ => None,
        }
    }

    /// Wire code of the group.
    #[must_use]
    pub fn code(self) -> (r: u8)
        ensures
            r == self.spec_code(),
    {
        match self {
            Pgi::FileId => 9,
            Pgi::LogicalAttributes => 30,
            Pgi::PhysicalAttributes => 40,
            Pgi::HistoricalAttributes => 50,
        }
    }

    /// Human readable name.
    #[must_use]
    pub fn name(self) -> (r: &'static str)
        ensures
            r@ == self.spec_name(),
    {
        match self {
            Pgi::FileId => "File identifier",
            Pgi::LogicalAttributes => "Logical attributes",
            Pgi::PhysicalAttributes => "Physical attributes",
            Pgi::HistoricalAttributes => "Historical attributes",
        }
    }

    /// Rendering of the group: `PGI 9 (File identifier)`.
    #[must_use]
    pub fn text(self) -> (r: String)
        ensures
            r@ == self.spec_text(),
    {
        let mut out = "PGI ".to_owned();
        push_decimal(&mut out, self.code() as u64);
        out.append(" (");
        out.append(self.name());
        out.append(")");
        out
    }

    /// Parameters that may appear inside this group, with their mandatory flag.
    #[must_use]
    pub fn members(self) -> (r: Vec<(Pi, bool)>)
        ensures
            r@ == self.spec_members(),
    {
        let r: Vec<(Pi, bool)> = match self {
            Pgi::FileId => vec![
                (Pi::Requester, false),
                (Pi::Server, false),
                (Pi::FileType, true),
                (Pi::FileName, true),
            ],
            Pgi::LogicalAttributes => vec![
                (Pi::ArticleFormat, false),
                (Pi::ArticleLength, true),
                (Pi::FileOrganisation, false),
                (Pi::SignatureFlag, false),
                (Pi::SitSeal, false),
                (Pi::FileLabel, false),
                (Pi::KeyLength, false),
                (Pi::KeyOffset, false),
            ],
            Pgi::PhysicalAttributes => vec![
                (Pi::ReservationUnit, false),
                (Pi::MaxReservation, true),
            ],
            Pgi::HistoricalAttributes => vec![
                (Pi::CreationDate, true),
                (Pi::ExtractionDate, false),
            ],
        };
        proof {
            assert(r@ =~= self.spec_members());
        }
        r
    }

    /// Whether `pi` belongs to this group.
    #[must_use]
    pub fn contains(self, pi: Pi) -> (r: bool)
        ensures
            r == self.spec_contains(pi),
    {
        let members = self.members();
        let mut i: usize = 0;
        while i < members.len()
            invariant
                i <= members.len(),
                members@ == self.spec_members(),
                forall|k: int| 0 <= k < i ==> (#[trigger] members@[k]).0 != pi,
            decreases members.len() - i,
        {
            if members[i].0 == pi {
                proof {
                    assert(self.spec_members()[i as int].0 == pi);
                }
                return true;
            }
            i += 1;
        }
        false
    }

    /// Group a parameter belongs to, if any.
    #[must_use]
    pub fn of(pi: Pi) -> (r: Option<Pgi>)
        ensures
            r matches Some(g) ==> g.spec_contains(pi),
            r is None ==> forall|g: Pgi| !g.spec_contains(pi),
    {
        if Pgi::FileId.contains(pi) {
            Some(Pgi::FileId)
        } else if Pgi::LogicalAttributes.contains(pi) {
            Some(Pgi::LogicalAttributes)
        } else if Pgi::PhysicalAttributes.contains(pi) {
            Some(Pgi::PhysicalAttributes)
        } else if Pgi::HistoricalAttributes.contains(pi) {
            Some(Pgi::HistoricalAttributes)
        } else {
            None
        }
    }
}

/// A parameter belongs to at most one group.
pub proof fn law_groups_are_disjoint(a: Pgi, b: Pgi, pi: Pi)
    requires
        a.spec_contains(pi),
        b.spec_contains(pi),
    ensures
        a == b,
{
}

/// The members of a group are listed in ascending code order, each once.
pub proof fn law_members_ascend(g: Pgi, i: int, j: int)
    requires
        0 <= i < j < g.spec_members().len(),
    ensures
        g.spec_members()[i].0.spec_code() < g.spec_members()[j].0.spec_code(),
{
}

/// The parameter list is complete and in strictly ascending code order.
pub proof fn law_all_parameters_ascend()
    ensures
        forall|i: int, j: int|
            0 <= i < j < Pi::ALL@.len() ==> (#[trigger] Pi::ALL@[i]).spec_code() < (
            #[trigger] Pi::ALL@[j]).spec_code(),
        forall|pi: Pi| #[trigger] Pi::ALL@.contains(pi),
{
}

} // verus!
