//! Convenience constructors for the FPDUs of the Hors-SIT profile.

use crate::diag::Diagnostic;
use crate::fpdu::{
    bytes_to_vec, encode_num, find_item, item_value, items_view, latin_of, lookup_group, num_bytes,
    text_bytes, text_of_latin, text_value, Fpdu, FpduV, Items,
};
use crate::kind::FpduKind;
use crate::params::{
    AccessType, ArticleFormat, Compression, EndCode, FpduExt, RequestedAttributes, SyncOption,
    Version,
};
use crate::pi::{Pgi, Pi};
use crate::text::{copy_opt, filled, filled_str, non_empty, opt_str, opt_text};
use vstd::prelude::*;

verus! {

impl FpduV {
    /// A new FPDU of a kind between two connection ends.
    pub open spec fn between(kind: FpduKind, id_dst: u8, id_src: u8) -> FpduV {
        FpduV::empty(kind).with_connection(id_dst, id_src)
    }

    /// The FPDU with a text parameter, where there is a text.
    pub open spec fn with_opt_string(self, pi: Pi, value: Option<Seq<char>>) -> FpduV {
        match value {
            Some(t) => self.with_string(pi, t),
            None => self,
        }
    }

    /// The FPDU with a one-byte parameter.
    pub open spec fn with_byte(self, pi: Pi, value: u8) -> FpduV {
        self.with_param(pi, seq![value])
    }

    /// The FPDU with a one-byte parameter, where there is a value.
    pub open spec fn with_opt_byte(self, pi: Pi, value: Option<u8>) -> FpduV {
        match value {
            Some(b) => self.with_byte(pi, b),
            None => self,
        }
    }

    /// The FPDU with a numeric parameter, where there is a value.
    pub open spec fn with_opt_number(self, pi: Pi, value: Option<u64>) -> FpduV {
        match value {
            Some(n) => self.with_number(pi, n as nat),
            None => self,
        }
    }

    /// The FPDU with a flag parameter, where the flag is set.
    pub open spec fn with_flag(self, pi: Pi, value: bool) -> FpduV {
        if value {
            self.with_number(pi, 1)
        } else {
            self
        }
    }

    /// The FPDU with a synchronisation option, where it is in use.
    pub open spec fn with_sync(self, sync: SyncOption) -> FpduV {
        if sync.enabled() {
            self.with_param(Pi::SyncOption, sync.spec_bytes())
        } else {
            self
        }
    }

    /// The FPDU with a group, where there is one.
    pub open spec fn with_opt_group(self, pgi: Pgi, items: Option<Items>) -> FpduV {
        match items {
            Some(i) => self.with_group(pgi, i),
            None => self,
        }
    }

    /// The FPDU with a compression, where there is any.
    pub open spec fn with_compression(self, c: Compression) -> FpduV {
        if c != Compression::Off {
            self.with_param(Pi::Compression, c.spec_bytes())
        } else {
            self
        }
    }

    /// The FPDU with a message text, where it is not empty.
    pub open spec fn with_message(self, m: Seq<u8>) -> FpduV {
        if m.len() > 0 {
            self.with_param(Pi::Message, m)
        } else {
            self
        }
    }
}

impl Fpdu {
    fn put_text(self, pi: Pi, value: Option<&str>) -> (r: Self)
        ensures
            r@ == self@.with_opt_string(pi, opt_str(value)),
    {
        match value {
            Some(t) => self.with_text(pi, t),
            None => self,
        }
    }

    fn put_byte(self, pi: Pi, value: Option<u8>) -> (r: Self)
        ensures
            r@ == self@.with_opt_byte(pi, value),
    {
        match value {
            Some(b) => self.with(pi, one_byte(b)),
            None => self,
        }
    }

    fn put_num(self, pi: Pi, value: Option<u64>) -> (r: Self)
        ensures
            r@ == self@.with_opt_number(pi, value),
    {
        match value {
            Some(n) => self.with_num(pi, n),
            None => self,
        }
    }

    fn put_flag(self, pi: Pi, value: bool) -> (r: Self)
        ensures
            r@ == self@.with_flag(pi, value),
    {
        if value {
            self.with_num(pi, 1)
        } else {
            self
        }
    }

    fn put_sync(self, sync: SyncOption) -> (r: Self)
        ensures
            r@ == self@.with_sync(sync),
    {
        if sync.enabled() {
            self.with(Pi::SyncOption, sync.to_bytes())
        } else {
            self
        }
    }

    fn put_compression(self, c: Compression) -> (r: Self)
        ensures
            r@ == self@.with_compression(c),
    {
        if c != Compression::Off {
            let b = c.to_bytes();
            self.with(Pi::Compression, bytes_to_vec(b.as_slice()))
        } else {
            self
        }
    }

    fn put_message(self, m: &[u8]) -> (r: Self)
        ensures
            r@ == self@.with_message(m@),
    {
        if m.len() > 0 {
            self.with(Pi::Message, bytes_to_vec(m))
        } else {
            self
        }
    }
}

fn one_byte(b: u8) -> (r: Vec<u8>)
    ensures
        r@ == seq![b],
{
    let mut v: Vec<u8> = Vec::new();
    v.push(b);
    proof {
        assert(v@ =~= seq![b]);
    }
    v
}

/// Parameters of a CONNECT request.
#[derive(Debug, PartialEq, Eq)]
pub struct ConnectParams {
    /// PI 3.
    pub requester: String,
    /// PI 4.
    pub server: String,
    /// PI 5 (optional password, at most 8 characters, plus optional new password).
    pub password: Option<String>,
    /// PI 6.
    pub version: Version,
    /// PI 7 (omitted when disabled).
    pub sync: SyncOption,
    /// PI 22.
    pub access: AccessType,
    /// PI 23.
    pub resync: bool,
    /// PI 1.
    pub crc: bool,
    /// PI 26 (seconds).
    pub timeout: Option<u16>,
    /// PI 99.
    pub free_message: Option<String>,
}

impl ConnectParams {
    /// The CONNECT FPDU of these parameters.
    pub open spec fn spec_build(self, id_src: u8) -> FpduV {
        FpduV::between(FpduKind::Connect, 0, id_src).with_flag(Pi::Crc, self.crc).with_string(
            Pi::Requester,
            self.requester@,
        ).with_string(Pi::Server, self.server@).with_opt_string(
            Pi::AccessControl,
            non_empty(opt_text(self.password)),
        ).with_number(Pi::Version, self.version.code() as nat).with_sync(self.sync).with_number(
            Pi::AccessType,
            self.access.code() as nat,
        ).with_flag(Pi::Resync, self.resync).with_opt_number(
            Pi::Timeout,
            match self.timeout {
                Some(t) => Some(t as u64),
                None => None,
            },
        ).with_opt_string(Pi::FreeMessage, non_empty(opt_text(self.free_message)))
    }

    /// Build the CONNECT FPDU with the requester connection id `id_src`.
    #[must_use]
    pub fn build(&self, id_src: u8) -> (r: Fpdu)
        ensures
            r@ == self.spec_build(id_src),
    {
        let timeout: Option<u64> = match self.timeout {
            Some(t) => Some(t as u64),
            None => None,
        };
        Fpdu::new(FpduKind::Connect).with_ids(0, id_src).put_flag(Pi::Crc, self.crc).with_text(
            Pi::Requester,
            self.requester.as_str(),
        ).with_text(Pi::Server, self.server.as_str()).put_text(
            Pi::AccessControl,
            filled(&self.password),
        ).with_num(Pi::Version, self.version.code()).put_sync(self.sync).with_num(
            Pi::AccessType,
            self.access.code(),
        ).put_flag(Pi::Resync, self.resync).put_num(Pi::Timeout, timeout).put_text(
            Pi::FreeMessage,
            filled(&self.free_message),
        )
    }
}

/// ACONNECT.
pub open spec fn spec_aconnect(
    id_dst: u8,
    id_src: u8,
    version: Version,
    sync: SyncOption,
    resync: bool,
    free_message: Option<Seq<char>>,
) -> FpduV {
    FpduV::between(FpduKind::Aconnect, id_dst, id_src).with_number(
        Pi::Version,
        version.code() as nat,
    ).with_sync(sync).with_flag(Pi::Resync, resync).with_opt_string(
        Pi::FreeMessage,
        non_empty(free_message),
    )
}

/// Build an ACONNECT.
#[must_use]
pub fn aconnect(
    id_dst: u8,
    id_src: u8,
    version: Version,
    sync: SyncOption,
    resync: bool,
    free_message: Option<&str>,
) -> (r: Fpdu)
    ensures
        r@ == spec_aconnect(id_dst, id_src, version, sync, resync, opt_str(free_message)),
{
    Fpdu::new(FpduKind::Aconnect).with_ids(id_dst, id_src).with_num(
        Pi::Version,
        version.code(),
    ).put_sync(sync).put_flag(Pi::Resync, resync).put_text(
        Pi::FreeMessage,
        filled_str(free_message),
    )
}

/// A FPDU with a diagnostic.
pub open spec fn diag_fpdu(kind: FpduKind, id_dst: u8, id_src: u8, diag: Diagnostic) -> FpduV {
    FpduV::between(kind, id_dst, id_src).with_diagnostic(diag)
}

/// Build an RCONNECT (connection refused).
#[must_use]
pub fn rconnect(id_dst: u8, diag: Diagnostic, free_message: Option<&str>) -> (r: Fpdu)
    ensures
        r@ == diag_fpdu(FpduKind::Rconnect, id_dst, 0, diag).with_opt_string(
            Pi::FreeMessage,
            non_empty(opt_str(free_message)),
        ),
{
    Fpdu::new(FpduKind::Rconnect).with_ids(id_dst, 0).with_diag(diag).put_text(
        Pi::FreeMessage,
        filled_str(free_message),
    )
}

/// Build a RELEASE.
#[must_use]
pub fn release(id_dst: u8, id_src: u8, diag: Diagnostic) -> (r: Fpdu)
    ensures
        r@ == diag_fpdu(FpduKind::Release, id_dst, id_src, diag),
{
    Fpdu::new(FpduKind::Release).with_ids(id_dst, id_src).with_diag(diag)
}

/// Build a RELCONF.
#[must_use]
pub fn relconf(id_dst: u8, id_src: u8) -> (r: Fpdu)
    ensures
        r@ == FpduV::between(FpduKind::Relconf, id_dst, id_src),
{
    Fpdu::new(FpduKind::Relconf).with_ids(id_dst, id_src)
}

/// Build an ABORT.
#[must_use]
pub fn abort(id_dst: u8, id_src: u8, diag: Diagnostic) -> (r: Fpdu)
    ensures
        r@ == diag_fpdu(FpduKind::Abort, id_dst, id_src, diag),
{
    Fpdu::new(FpduKind::Abort).with_ids(id_dst, id_src).with_diag(diag)
}

/// Description of a file for CREATE / SELECT / ACK(SELECT).
#[derive(Debug, PartialEq, Eq)]
pub struct FileSpec {
    /// PI 3 inside PGI 9 (optional).
    pub requester: Option<String>,
    /// PI 4 inside PGI 9 (optional).
    pub server: Option<String>,
    /// PI 11.
    pub file_type: u64,
    /// PI 12.
    pub file_name: String,
    /// PI 13.
    pub transfer_id: u32,
    /// PI 15.
    pub restarted: bool,
    /// PI 16 (0 ASCII, 1 EBCDIC, 2 binary).
    pub data_code: Option<u8>,
    /// PI 17.
    pub priority: u8,
    /// PI 25.
    pub max_entity_size: u16,
    /// PI 31.
    pub article_format: ArticleFormat,
    /// PI 32.
    pub article_length: u16,
    /// PI 33.
    pub organisation: Option<u8>,
    /// PI 37.
    pub label: Option<String>,
    /// PI 41 (0 KB, 1 articles).
    pub reservation_unit: Option<u8>,
    /// PI 42.
    pub max_reservation: u64,
    /// PI 51 (`AAMMJJhhmmss`).
    pub creation_date: Option<String>,
    /// PI 52.
    pub extraction_date: Option<String>,
    /// PI 61.
    pub client_id: Option<String>,
    /// PI 62.
    pub bank_id: Option<String>,
    /// PI 63.
    pub file_access_control: Option<String>,
    /// PI 99.
    pub free_message: Option<String>,
}

/// Value of a file description.
#[verifier::ext_equal]
pub struct FileSpecV {
    /// PI 3 inside PGI 9.
    pub requester: Option<Seq<char>>,
    /// PI 4 inside PGI 9.
    pub server: Option<Seq<char>>,
    /// PI 11.
    pub file_type: u64,
    /// PI 12.
    pub file_name: Seq<char>,
    /// PI 13.
    pub transfer_id: u32,
    /// PI 15.
    pub restarted: bool,
    /// PI 16.
    pub data_code: Option<u8>,
    /// PI 17.
    pub priority: u8,
    /// PI 25.
    pub max_entity_size: u16,
    /// PI 31.
    pub article_format: ArticleFormat,
    /// PI 32.
    pub article_length: u16,
    /// PI 33.
    pub organisation: Option<u8>,
    /// PI 37.
    pub label: Option<Seq<char>>,
    /// PI 41.
    pub reservation_unit: Option<u8>,
    /// PI 42.
    pub max_reservation: u64,
    /// PI 51.
    pub creation_date: Option<Seq<char>>,
    /// PI 52.
    pub extraction_date: Option<Seq<char>>,
    /// PI 61.
    pub client_id: Option<Seq<char>>,
    /// PI 62.
    pub bank_id: Option<Seq<char>>,
    /// PI 63.
    pub file_access_control: Option<Seq<char>>,
    /// PI 99.
    pub free_message: Option<Seq<char>>,
}

impl View for FileSpec {
    type V = FileSpecV;

    open spec fn view(&self) -> FileSpecV {
        FileSpecV {
            requester: opt_text(self.requester),
            server: opt_text(self.server),
            file_type: self.file_type,
            file_name: self.file_name@,
            transfer_id: self.transfer_id,
            restarted: self.restarted,
            data_code: self.data_code,
            priority: self.priority,
            max_entity_size: self.max_entity_size,
            article_format: self.article_format,
            article_length: self.article_length,
            organisation: self.organisation,
            label: opt_text(self.label),
            reservation_unit: self.reservation_unit,
            max_reservation: self.max_reservation,
            creation_date: opt_text(self.creation_date),
            extraction_date: opt_text(self.extraction_date),
            client_id: opt_text(self.client_id),
            bank_id: opt_text(self.bank_id),
            file_access_control: opt_text(self.file_access_control),
            free_message: opt_text(self.free_message),
        }
    }
}

/// The empty list of items, or one item.
pub open spec fn opt_item(pi: Pi, value: Option<Seq<u8>>) -> Items {
    match value {
        Some(v) => seq![(pi, v)],
        None => seq![],
    }
}

/// Wire form of an optional text.
pub open spec fn opt_text_bytes(t: Option<Seq<char>>) -> Option<Seq<u8>> {
    match t {
        Some(s) => Some(text_bytes(s)),
        None => None,
    }
}

/// Wire form of an optional byte.
pub open spec fn opt_byte(b: Option<u8>) -> Option<Seq<u8>> {
    match b {
        Some(c) => Some(seq![c]),
        None => None,
    }
}

impl FileSpecV {
    /// A description without any attribute.
    pub open spec fn blank() -> FileSpecV {
        FileSpecV {
            requester: None,
            server: None,
            file_type: 0,
            file_name: Seq::empty(),
            transfer_id: 0,
            restarted: false,
            data_code: None,
            priority: 0,
            max_entity_size: 0,
            article_format: ArticleFormat::Fixed,
            article_length: 0,
            organisation: None,
            label: None,
            reservation_unit: None,
            max_reservation: 0,
            creation_date: None,
            extraction_date: None,
            client_id: None,
            bank_id: None,
            file_access_control: None,
            free_message: None,
        }
    }

    /// Items of PGI 9.
    pub open spec fn file_id_group(self) -> Items {
        opt_item(Pi::Requester, opt_text_bytes(self.requester)) + opt_item(
            Pi::Server,
            opt_text_bytes(self.server),
        ) + seq![
            (Pi::FileType, num_bytes(self.file_type as nat)),
            (Pi::FileName, text_bytes(self.file_name)),
        ]
    }

    /// Items of PGI 30.
    pub open spec fn logical_group(self) -> Items {
        seq![
            (Pi::ArticleFormat, seq![self.article_format.code()]),
            (Pi::ArticleLength, num_bytes(self.article_length as nat)),
        ] + opt_item(Pi::FileOrganisation, opt_byte(self.organisation)) + opt_item(
            Pi::FileLabel,
            opt_text_bytes(non_empty(self.label)),
        )
    }

    /// Items of PGI 40.
    pub open spec fn physical_group(self) -> Items {
        opt_item(Pi::ReservationUnit, opt_byte(self.reservation_unit)) + seq![
            (Pi::MaxReservation, num_bytes(self.max_reservation as nat)),
        ]
    }

    /// Items of PGI 50, which needs a creation date.
    pub open spec fn historical_group(self) -> Option<Items> {
        match self.creation_date {
            Some(d) => Some(
                seq![(Pi::CreationDate, text_bytes(d))] + opt_item(
                    Pi::ExtractionDate,
                    opt_text_bytes(self.extraction_date),
                ),
            ),
            None => None,
        }
    }

    /// The FPDU with the parameters that follow the groups.
    pub open spec fn common_tail(self, f: FpduV) -> FpduV {
        f.with_opt_string(Pi::ClientId, self.client_id).with_opt_string(
            Pi::BankId,
            self.bank_id,
        ).with_opt_string(Pi::FileAccessControl, self.file_access_control).with_opt_string(
            Pi::FreeMessage,
            non_empty(self.free_message),
        )
    }

    /// CREATE.
    pub open spec fn create(self, id_dst: u8) -> FpduV {
        self.common_tail(
            FpduV::between(FpduKind::Create, id_dst, 0).with_group(
                Pgi::FileId,
                self.file_id_group(),
            ).with_number(Pi::TransferId, self.transfer_id as nat).with_flag(
                Pi::Restarted,
                self.restarted,
            ).with_opt_byte(Pi::DataCode, self.data_code).with_byte(
                Pi::Priority,
                self.priority,
            ).with_number(Pi::MaxEntitySize, self.max_entity_size as nat).with_group(
                Pgi::LogicalAttributes,
                self.logical_group(),
            ).with_group(Pgi::PhysicalAttributes, self.physical_group()).with_opt_group(
                Pgi::HistoricalAttributes,
                self.historical_group(),
            ),
        )
    }

    /// SELECT.
    pub open spec fn select(self, id_dst: u8, attributes: RequestedAttributes) -> FpduV {
        self.common_tail(
            FpduV::between(FpduKind::Select, id_dst, 0).with_group(
                Pgi::FileId,
                self.file_id_group(),
            ).with_number(Pi::TransferId, self.transfer_id as nat).with_opt_byte(
                Pi::RequestedAttributes,
                if attributes.spec_code() != 0 {
                    Some(attributes.spec_code())
                } else {
                    None
                },
            ).with_flag(Pi::Restarted, self.restarted).with_byte(
                Pi::Priority,
                self.priority,
            ).with_number(Pi::MaxEntitySize, self.max_entity_size as nat),
        )
    }

    /// Positive ACK(SELECT).
    pub open spec fn ack_select(self, id_dst: u8, attributes: RequestedAttributes) -> FpduV {
        diag_fpdu(FpduKind::AckSelect, id_dst, 0, Diagnostic::ok()).with_group(
            Pgi::FileId,
            self.file_id_group(),
        ).with_number(Pi::TransferId, self.transfer_id as nat).with_opt_byte(
            Pi::DataCode,
            self.data_code,
        ).with_number(Pi::MaxEntitySize, self.max_entity_size as nat).with_opt_group(
            Pgi::LogicalAttributes,
            if attributes.logical {
                Some(self.logical_group())
            } else {
                None
            },
        ).with_opt_group(
            Pgi::PhysicalAttributes,
            if attributes.physical {
                Some(self.physical_group())
            } else {
                None
            },
        ).with_opt_group(
            Pgi::HistoricalAttributes,
            if attributes.historical {
                self.historical_group()
            } else {
                None
            },
        ).with_opt_string(Pi::ClientId, self.client_id).with_opt_string(
            Pi::BankId,
            self.bank_id,
        ).with_opt_string(Pi::FreeMessage, non_empty(self.free_message))
    }

    /// Description read from a CREATE, SELECT or ACK(SELECT).
    pub open spec fn of(f: FpduV) -> FileSpecV {
        FileSpecV {
            requester: group_text(f, Pgi::FileId, Pi::Requester),
            server: group_text(f, Pgi::FileId, Pi::Server),
            file_type: or_zero(f.number(Pi::FileType)),
            file_name: match f.string(Pi::FileName) {
                Some(t) => t,
                None => Seq::empty(),
            },
            transfer_id: match f.number32(Pi::TransferId) {
                Some(n) => n,
                None => 0,
            },
            restarted: f.number(Pi::Restarted) == Some(1u64),
            data_code: f.first_byte(Pi::DataCode),
            priority: match f.first_byte(Pi::Priority) {
                Some(b) => b,
                None => 0,
            },
            max_entity_size: match f.max_entity_size() {
                Some(n) => n,
                None => 0,
            },
            article_format: match f.value(Pi::ArticleFormat) {
                Some(v) => ArticleFormat::spec_from_bytes(v),
                None => ArticleFormat::Fixed,
            },
            article_length: if or_zero(f.number(Pi::ArticleLength)) <= 0xFFFF {
                or_zero(f.number(Pi::ArticleLength)) as u16
            } else {
                0xFFFF
            },
            organisation: f.first_byte(Pi::FileOrganisation),
            label: f.string(Pi::FileLabel),
            reservation_unit: f.first_byte(Pi::ReservationUnit),
            max_reservation: or_zero(f.number(Pi::MaxReservation)),
            creation_date: f.string(Pi::CreationDate),
            extraction_date: f.string(Pi::ExtractionDate),
            client_id: f.string(Pi::ClientId),
            bank_id: f.string(Pi::BankId),
            file_access_control: f.string(Pi::FileAccessControl),
            free_message: f.string(Pi::FreeMessage),
        }
    }
}

/// A number, or zero where there is none.
pub open spec fn or_zero(n: Option<u64>) -> u64 {
    match n {
        Some(x) => x,
        None => 0,
    }
}

/// Text of an item of a group.
pub open spec fn group_text(f: FpduV, pgi: Pgi, pi: Pi) -> Option<Seq<char>> {
    match lookup_group(f.params, pgi) {
        Some(items) => match item_value(items, pi) {
            Some(v) => Some(text_value(v)),
            None => None,
        },
        None => None,
    }
}

fn push_item(items: &mut Vec<(Pi, Vec<u8>)>, pi: Pi, value: Option<Vec<u8>>)
    ensures
        items_view(final(items)@) == items_view(old(items)@) + opt_item(
            pi,
            match value {
                Some(v) => Some(v@),
                None => None,
            },
        ),
{
    let ghost before = items_view(items@);
    match value {
        Some(v) => {
            let ghost x = (pi, v@);
            items.push((pi, v));
            proof {
                assert(items_view(items@) =~= before.push(x));
                assert(items_view(items@) =~= before + seq![x]);
            }
        },
        None => {
            proof {
                assert(items_view(items@) =~= before + Seq::empty());
            }
        },
    }
}

fn opt_latin(t: Option<&str>) -> (r: Option<Vec<u8>>)
    ensures
        r matches Some(v) ==> opt_text_bytes(opt_str(t)) == Some(v@),
        r is None ==> opt_text_bytes(opt_str(t)) is None,
{
    match t {
        Some(s) => Some(latin_of(s)),
        None => None,
    }
}

fn opt_one_byte(b: Option<u8>) -> (r: Option<Vec<u8>>)
    ensures
        r matches Some(v) ==> opt_byte(b) == Some(v@),
        r is None ==> opt_byte(b) is None,
{
    match b {
        Some(c) => Some(one_byte(c)),
        None => None,
    }
}

fn group_item_text(f: &Fpdu, pgi: Pgi, pi: Pi) -> (r: Option<String>)
    ensures
        opt_text(r) == group_text(f@, pgi, pi),
{
    match f.pgi(pgi) {
        Some(items) => match find_item(items, pi) {
            Some(v) => Some(text_of_latin(v)),
            None => None,
        },
        None => None,
    }
}

impl Default for FileSpec {
    fn default() -> (r: Self)
        ensures
            r@ == FileSpecV::blank(),
    {
        let r = FileSpec {
            requester: None,
            server: None,
            file_type: 0,
            file_name: String::new(),
            transfer_id: 0,
            restarted: false,
            data_code: None,
            priority: 0,
            max_entity_size: 0,
            article_format: ArticleFormat::Fixed,
            article_length: 0,
            organisation: None,
            label: None,
            reservation_unit: None,
            max_reservation: 0,
            creation_date: None,
            extraction_date: None,
            client_id: None,
            bank_id: None,
            file_access_control: None,
            free_message: None,
        };
        proof {
            assert(r@ =~= FileSpecV::blank());
        }
        r
    }
}

impl Clone for FileSpec {
    fn clone(&self) -> (r: Self)
        ensures
            r@ == self@,
    {
        let r = FileSpec {
            requester: copy_opt(&self.requester),
            server: copy_opt(&self.server),
            file_type: self.file_type,
            file_name: self.file_name.clone(),
            transfer_id: self.transfer_id,
            restarted: self.restarted,
            data_code: self.data_code,
            priority: self.priority,
            max_entity_size: self.max_entity_size,
            article_format: self.article_format,
            article_length: self.article_length,
            organisation: self.organisation,
            label: copy_opt(&self.label),
            reservation_unit: self.reservation_unit,
            max_reservation: self.max_reservation,
            creation_date: copy_opt(&self.creation_date),
            extraction_date: copy_opt(&self.extraction_date),
            client_id: copy_opt(&self.client_id),
            bank_id: copy_opt(&self.bank_id),
            file_access_control: copy_opt(&self.file_access_control),
            free_message: copy_opt(&self.free_message),
        };
        proof {
            assert(r@ =~= self@);
        }
        r
    }
}

impl FileSpec {
    fn file_id_group(&self) -> (r: Vec<(Pi, Vec<u8>)>)
        ensures
            items_view(r@) == self@.file_id_group(),
    {
        let mut items: Vec<(Pi, Vec<u8>)> = Vec::new();
        proof {
            assert(items_view(items@) =~= Seq::empty());
        }
        push_item(&mut items, Pi::Requester, opt_latin(crate::text::as_opt_str(&self.requester)));
        push_item(&mut items, Pi::Server, opt_latin(crate::text::as_opt_str(&self.server)));
        push_item(&mut items, Pi::FileType, Some(encode_num(self.file_type)));
        push_item(&mut items, Pi::FileName, Some(latin_of(self.file_name.as_str())));
        proof {
            assert(items_view(items@) =~= self@.file_id_group());
        }
        items
    }

    fn logical_group(&self) -> (r: Vec<(Pi, Vec<u8>)>)
        ensures
            items_view(r@) == self@.logical_group(),
    {
        let mut items: Vec<(Pi, Vec<u8>)> = Vec::new();
        proof {
            assert(items_view(items@) =~= Seq::empty());
        }
        push_item(&mut items, Pi::ArticleFormat, Some(one_byte(self.article_format.code())));
        push_item(&mut items, Pi::ArticleLength, Some(encode_num(self.article_length as u64)));
        push_item(&mut items, Pi::FileOrganisation, opt_one_byte(self.organisation));
        push_item(&mut items, Pi::FileLabel, opt_latin(filled(&self.label)));
        proof {
            assert(items_view(items@) =~= self@.logical_group());
        }
        items
    }

    fn physical_group(&self) -> (r: Vec<(Pi, Vec<u8>)>)
        ensures
            items_view(r@) == self@.physical_group(),
    {
        let mut items: Vec<(Pi, Vec<u8>)> = Vec::new();
        proof {
            assert(items_view(items@) =~= Seq::empty());
        }
        push_item(&mut items, Pi::ReservationUnit, opt_one_byte(self.reservation_unit));
        push_item(&mut items, Pi::MaxReservation, Some(encode_num(self.max_reservation)));
        proof {
            assert(items_view(items@) =~= self@.physical_group());
        }
        items
    }

    fn historical_group(&self) -> (r: Option<Vec<(Pi, Vec<u8>)>>)
        ensures
            r matches Some(v) ==> self@.historical_group() == Some(items_view(v@)),
            r is None ==> self@.historical_group() is None,
    {
        match &self.creation_date {
            Some(d) => {
                let mut items: Vec<(Pi, Vec<u8>)> = Vec::new();
                proof {
                    assert(items_view(items@) =~= Seq::empty());
                }
                push_item(&mut items, Pi::CreationDate, Some(latin_of(d.as_str())));
                push_item(
                    &mut items,
                    Pi::ExtractionDate,
                    opt_latin(crate::text::as_opt_str(&self.extraction_date)),
                );
                proof {
                    assert(items_view(items@) =~= self@.historical_group()->0);
                }
                Some(items)
            },
            None => None,
        }
    }

    fn with_history(&self, f: Fpdu) -> (r: Fpdu)
        ensures
            r@ == f@.with_opt_group(Pgi::HistoricalAttributes, self@.historical_group()),
    {
        match self.historical_group() {
            Some(h) => f.with_pgi(Pgi::HistoricalAttributes, h),
            None => f,
        }
    }

    fn common_tail(&self, f: Fpdu) -> (r: Fpdu)
        ensures
            r@ == self@.common_tail(f@),
    {
        f.put_text(Pi::ClientId, crate::text::as_opt_str(&self.client_id)).put_text(
            Pi::BankId,
            crate::text::as_opt_str(&self.bank_id),
        ).put_text(
            Pi::FileAccessControl,
            crate::text::as_opt_str(&self.file_access_control),
        ).put_text(Pi::FreeMessage, filled(&self.free_message))
    }

    /// Build a CREATE addressed to the server connection `id_dst`.
    #[must_use]
    pub fn create(&self, id_dst: u8) -> (r: Fpdu)
        ensures
            r@ == self@.create(id_dst),
    {
        let f = Fpdu::new(FpduKind::Create).with_ids(id_dst, 0).with_pgi(
            Pgi::FileId,
            self.file_id_group(),
        ).with_num(Pi::TransferId, self.transfer_id as u64).put_flag(
            Pi::Restarted,
            self.restarted,
        ).put_byte(Pi::DataCode, self.data_code).with(
            Pi::Priority,
            one_byte(self.priority),
        ).with_num(Pi::MaxEntitySize, self.max_entity_size as u64).with_pgi(
            Pgi::LogicalAttributes,
            self.logical_group(),
        ).with_pgi(Pgi::PhysicalAttributes, self.physical_group());
        self.common_tail(self.with_history(f))
    }

    /// Build a SELECT addressed to the server connection `id_dst`.
    #[must_use]
    pub fn select(&self, id_dst: u8, attributes: RequestedAttributes) -> (r: Fpdu)
        ensures
            r@ == self@.select(id_dst, attributes),
    {
        let code: u8 = attributes.code();
        let wanted: Option<u8> = if code != 0 {
            Some(code)
        } else {
            None
        };
        let f = Fpdu::new(FpduKind::Select).with_ids(id_dst, 0).with_pgi(
            Pgi::FileId,
            self.file_id_group(),
        ).with_num(Pi::TransferId, self.transfer_id as u64).put_byte(
            Pi::RequestedAttributes,
            wanted,
        ).put_flag(Pi::Restarted, self.restarted).with(
            Pi::Priority,
            one_byte(self.priority),
        ).with_num(Pi::MaxEntitySize, self.max_entity_size as u64);
        self.common_tail(f)
    }

    /// Build a positive ACK(SELECT) describing the selected file.
    #[must_use]
    pub fn ack_select(&self, id_dst: u8, attributes: RequestedAttributes) -> (r: Fpdu)
        ensures
            r@ == self@.ack_select(id_dst, attributes),
    {
        let mut f = Fpdu::new(FpduKind::AckSelect).with_ids(id_dst, 0).with_diag(
            Diagnostic::ok(),
        ).with_pgi(Pgi::FileId, self.file_id_group()).with_num(
            Pi::TransferId,
            self.transfer_id as u64,
        ).put_byte(Pi::DataCode, self.data_code).with_num(
            Pi::MaxEntitySize,
            self.max_entity_size as u64,
        );
        if attributes.logical {
            f = f.with_pgi(Pgi::LogicalAttributes, self.logical_group());
        }
        if attributes.physical {
            f = f.with_pgi(Pgi::PhysicalAttributes, self.physical_group());
        }
        if attributes.historical {
            f = self.with_history(f);
        }
        f.put_text(Pi::ClientId, crate::text::as_opt_str(&self.client_id)).put_text(
            Pi::BankId,
            crate::text::as_opt_str(&self.bank_id),
        ).put_text(Pi::FreeMessage, filled(&self.free_message))
    }

    /// Extract a file specification from a CREATE, SELECT or ACK(SELECT).
    #[must_use]
    pub fn from_fpdu(f: &Fpdu) -> (r: Self)
        ensures
            r@ == FileSpecV::of(f@),
    {
        let file_name = match f.get_text(Pi::FileName) {
            Some(t) => t,
            None => String::new(),
        };
        let article_format = match f.get(Pi::ArticleFormat) {
            Some(v) => ArticleFormat::from_bytes(v),
            None => ArticleFormat::Fixed,
        };
        let article_length: u64 = f.get_num(Pi::ArticleLength).unwrap_or(0);
        let restarted: bool = match f.get_num(Pi::Restarted) {
            Some(n) => n == 1,
            None => false,
        };
        FileSpec {
            requester: group_item_text(f, Pgi::FileId, Pi::Requester),
            server: group_item_text(f, Pgi::FileId, Pi::Server),
            file_type: f.get_num(Pi::FileType).unwrap_or(0),
            file_name,
            transfer_id: f.transfer_id().unwrap_or(0),
            restarted,
            data_code: f.get_byte(Pi::DataCode),
            priority: f.get_byte(Pi::Priority).unwrap_or(0),
            max_entity_size: f.max_entity_size().unwrap_or(0),
            article_format,
            article_length: if article_length <= 0xFFFF {
                article_length as u16
            } else {
                0xFFFF
            },
            organisation: f.get_byte(Pi::FileOrganisation),
            label: text_param(f, Pi::FileLabel),
            reservation_unit: f.get_byte(Pi::ReservationUnit),
            max_reservation: f.get_num(Pi::MaxReservation).unwrap_or(0),
            creation_date: text_param(f, Pi::CreationDate),
            extraction_date: text_param(f, Pi::ExtractionDate),
            client_id: text_param(f, Pi::ClientId),
            bank_id: text_param(f, Pi::BankId),
            file_access_control: text_param(f, Pi::FileAccessControl),
            free_message: text_param(f, Pi::FreeMessage),
        }
    }
}

fn text_param(f: &Fpdu, pi: Pi) -> (r: Option<String>)
    ensures
        opt_text(r) == f@.string(pi),
{
    f.get_text(pi)
}

/// ACK(CREATE).
pub open spec fn spec_ack_create(
    id_dst: u8,
    diag: Diagnostic,
    transfer_id: Option<u32>,
    max_entity_size: u16,
    free_message: Option<Seq<char>>,
) -> FpduV {
    diag_fpdu(FpduKind::AckCreate, id_dst, 0, diag).with_opt_number(
        Pi::TransferId,
        widened(transfer_id),
    ).with_number(Pi::MaxEntitySize, max_entity_size as nat).with_opt_string(
        Pi::FreeMessage,
        non_empty(free_message),
    )
}

/// An optional 32-bit number in 64 bits.
pub open spec fn widened(n: Option<u32>) -> Option<u64> {
    match n {
        Some(x) => Some(x as u64),
        None => None,
    }
}

fn widen(n: Option<u32>) -> (r: Option<u64>)
    ensures
        r == widened(n),
{
    match n {
        Some(x) => Some(x as u64),
        None => None,
    }
}

/// Build an ACK(CREATE).
#[must_use]
pub fn ack_create(
    id_dst: u8,
    diag: Diagnostic,
    transfer_id: Option<u32>,
    max_entity_size: u16,
    free_message: Option<&str>,
) -> (r: Fpdu)
    ensures
        r@ == spec_ack_create(id_dst, diag, transfer_id, max_entity_size, opt_str(free_message)),
{
    Fpdu::new(FpduKind::AckCreate).with_ids(id_dst, 0).with_diag(diag).put_num(
        Pi::TransferId,
        widen(transfer_id),
    ).with_num(Pi::MaxEntitySize, max_entity_size as u64).put_text(
        Pi::FreeMessage,
        filled_str(free_message),
    )
}

/// Build a negative ACK(SELECT).
#[must_use]
pub fn nack_select(id_dst: u8, diag: Diagnostic, free_message: Option<&str>) -> (r: Fpdu)
    ensures
        r@ == diag_fpdu(FpduKind::AckSelect, id_dst, 0, diag).with_opt_string(
            Pi::FreeMessage,
            non_empty(opt_str(free_message)),
        ),
{
    Fpdu::new(FpduKind::AckSelect).with_ids(id_dst, 0).with_diag(diag).put_text(
        Pi::FreeMessage,
        filled_str(free_message),
    )
}

/// Build a DESELECT.
#[must_use]
pub fn deselect(id_dst: u8, diag: Diagnostic) -> (r: Fpdu)
    ensures
        r@ == diag_fpdu(FpduKind::Deselect, id_dst, 0, diag),
{
    Fpdu::new(FpduKind::Deselect).with_ids(id_dst, 0).with_diag(diag)
}

/// Build an ACK(DESELECT).
#[must_use]
pub fn ack_deselect(id_dst: u8, diag: Diagnostic) -> (r: Fpdu)
    ensures
        r@ == diag_fpdu(FpduKind::AckDeselect, id_dst, 0, diag),
{
    Fpdu::new(FpduKind::AckDeselect).with_ids(id_dst, 0).with_diag(diag)
}

/// Build an ORF (open) proposing a compression.
#[must_use]
pub fn orf(id_dst: u8, compression: Compression) -> (r: Fpdu)
    ensures
        r@ == FpduV::between(FpduKind::Orf, id_dst, 0).with_compression(compression),
{
    Fpdu::new(FpduKind::Orf).with_ids(id_dst, 0).put_compression(compression)
}

/// Build an ACK(ORF).
#[must_use]
pub fn ack_orf(id_dst: u8, diag: Diagnostic, compression: Compression) -> (r: Fpdu)
    ensures
        r@ == diag_fpdu(FpduKind::AckOrf, id_dst, 0, diag).with_compression(compression),
{
    Fpdu::new(FpduKind::AckOrf).with_ids(id_dst, 0).with_diag(diag).put_compression(compression)
}

/// Build a CRF (close).
#[must_use]
pub fn crf(id_dst: u8, diag: Diagnostic) -> (r: Fpdu)
    ensures
        r@ == diag_fpdu(FpduKind::Crf, id_dst, 0, diag),
{
    Fpdu::new(FpduKind::Crf).with_ids(id_dst, 0).with_diag(diag)
}

/// Build an ACK(CRF).
#[must_use]
pub fn ack_crf(id_dst: u8, diag: Diagnostic) -> (r: Fpdu)
    ensures
        r@ == diag_fpdu(FpduKind::AckCrf, id_dst, 0, diag),
{
    Fpdu::new(FpduKind::AckCrf).with_ids(id_dst, 0).with_diag(diag)
}

/// Build a READ with the restart point (sync point number, 0 = beginning).
#[must_use]
pub fn read(id_dst: u8, restart_point: u32) -> (r: Fpdu)
    ensures
        r@ == FpduV::between(FpduKind::Read, id_dst, 0).with_number(
            Pi::RestartPoint,
            restart_point as nat,
        ),
{
    Fpdu::new(FpduKind::Read).with_ids(id_dst, 0).with_num(Pi::RestartPoint, restart_point as u64)
}

/// Build an ACK(READ).
#[must_use]
pub fn ack_read(id_dst: u8, diag: Diagnostic) -> (r: Fpdu)
    ensures
        r@ == diag_fpdu(FpduKind::AckRead, id_dst, 0, diag),
{
    Fpdu::new(FpduKind::AckRead).with_ids(id_dst, 0).with_diag(diag)
}

/// Build a WRITE.
#[must_use]
pub fn write(id_dst: u8) -> (r: Fpdu)
    ensures
        r@ == FpduV::between(FpduKind::Write, id_dst, 0),
{
    Fpdu::new(FpduKind::Write).with_ids(id_dst, 0)
}

/// Build an ACK(WRITE) with the restart point chosen by the receiver.
#[must_use]
pub fn ack_write(id_dst: u8, diag: Diagnostic, restart_point: u32) -> (r: Fpdu)
    ensures
        r@ == diag_fpdu(FpduKind::AckWrite, id_dst, 0, diag).with_number(
            Pi::RestartPoint,
            restart_point as nat,
        ),
{
    Fpdu::new(FpduKind::AckWrite).with_ids(id_dst, 0).with_diag(diag).with_num(
        Pi::RestartPoint,
        restart_point as u64,
    )
}

/// Build a DTF.END.
#[must_use]
pub fn dtf_end(id_dst: u8, diag: Diagnostic) -> (r: Fpdu)
    ensures
        r@ == diag_fpdu(FpduKind::DtfEnd, id_dst, 0, diag),
{
    Fpdu::new(FpduKind::DtfEnd).with_ids(id_dst, 0).with_diag(diag)
}

/// SYN.
pub open spec fn spec_syn(id_dst: u8, number: u32) -> FpduV {
    FpduV::between(FpduKind::Syn, id_dst, 0).with_number(Pi::SyncNumber, number as nat)
}

/// Build a SYN.
#[must_use]
pub fn syn(id_dst: u8, number: u32) -> (r: Fpdu)
    ensures
        r@ == spec_syn(id_dst, number),
{
    Fpdu::new(FpduKind::Syn).with_ids(id_dst, 0).with_num(Pi::SyncNumber, number as u64)
}

/// ACK(SYN).
pub open spec fn spec_ack_syn(id_dst: u8, number: u32) -> FpduV {
    FpduV::between(FpduKind::AckSyn, id_dst, 0).with_number(Pi::SyncNumber, number as nat)
}

/// Build an ACK(SYN).
#[must_use]
pub fn ack_syn(id_dst: u8, number: u32) -> (r: Fpdu)
    ensures
        r@ == spec_ack_syn(id_dst, number),
{
    Fpdu::new(FpduKind::AckSyn).with_ids(id_dst, 0).with_num(Pi::SyncNumber, number as u64)
}

/// RESYN.
pub open spec fn spec_resyn(id_dst: u8, diag: Diagnostic, restart_point: u32) -> FpduV {
    diag_fpdu(FpduKind::Resyn, id_dst, 0, diag).with_number(Pi::RestartPoint, restart_point as nat)
}

/// Build a RESYN.
#[must_use]
pub fn resyn(id_dst: u8, diag: Diagnostic, restart_point: u32) -> (r: Fpdu)
    ensures
        r@ == spec_resyn(id_dst, diag, restart_point),
{
    Fpdu::new(FpduKind::Resyn).with_ids(id_dst, 0).with_diag(diag).with_num(
        Pi::RestartPoint,
        restart_point as u64,
    )
}

/// ACK(RESYN).
pub open spec fn spec_ack_resyn(id_dst: u8, restart_point: u32) -> FpduV {
    FpduV::between(FpduKind::AckResyn, id_dst, 0).with_number(
        Pi::RestartPoint,
        restart_point as nat,
    )
}

/// Build an ACK(RESYN).
#[must_use]
pub fn ack_resyn(id_dst: u8, restart_point: u32) -> (r: Fpdu)
    ensures
        r@ == spec_ack_resyn(id_dst, restart_point),
{
    Fpdu::new(FpduKind::AckResyn).with_ids(id_dst, 0).with_num(
        Pi::RestartPoint,
        restart_point as u64,
    )
}

/// IDT.
pub open spec fn spec_idt(id_dst: u8, diag: Diagnostic, code: EndCode) -> FpduV {
    diag_fpdu(FpduKind::Idt, id_dst, 0, diag).with_byte(Pi::EndCode, code.code())
}

/// Build an IDT (interrupt).
#[must_use]
pub fn idt(id_dst: u8, diag: Diagnostic, code: EndCode) -> (r: Fpdu)
    ensures
        r@ == spec_idt(id_dst, diag, code),
{
    Fpdu::new(FpduKind::Idt).with_ids(id_dst, 0).with_diag(diag).with(
        Pi::EndCode,
        one_byte(code.code()),
    )
}

/// Build an ACK(IDT).
#[must_use]
pub fn ack_idt(id_dst: u8) -> (r: Fpdu)
    ensures
        r@ == FpduV::between(FpduKind::AckIdt, id_dst, 0),
{
    Fpdu::new(FpduKind::AckIdt).with_ids(id_dst, 0)
}

/// TRANS.END.
pub open spec fn spec_trans_end(
    id_dst: u8,
    byte_count: Option<u64>,
    article_count: Option<u64>,
) -> FpduV {
    FpduV::between(FpduKind::TransEnd, id_dst, 0).with_opt_number(
        Pi::ByteCount,
        byte_count,
    ).with_opt_number(Pi::ArticleCount, article_count)
}

/// Build a TRANS.END with the optional counters.
#[must_use]
pub fn trans_end(id_dst: u8, byte_count: Option<u64>, article_count: Option<u64>) -> (r: Fpdu)
    ensures
        r@ == spec_trans_end(id_dst, byte_count, article_count),
{
    Fpdu::new(FpduKind::TransEnd).with_ids(id_dst, 0).put_num(Pi::ByteCount, byte_count).put_num(
        Pi::ArticleCount,
        article_count,
    )
}

/// ACK(TRANS.END).
pub open spec fn spec_ack_trans_end(
    id_dst: u8,
    diag: Diagnostic,
    byte_count: Option<u64>,
    article_count: Option<u64>,
) -> FpduV {
    diag_fpdu(FpduKind::AckTransEnd, id_dst, 0, diag).with_opt_number(
        Pi::ByteCount,
        byte_count,
    ).with_opt_number(Pi::ArticleCount, article_count)
}

/// Build an ACK(TRANS.END).
#[must_use]
pub fn ack_trans_end(
    id_dst: u8,
    diag: Diagnostic,
    byte_count: Option<u64>,
    article_count: Option<u64>,
) -> (r: Fpdu)
    ensures
        r@ == spec_ack_trans_end(id_dst, diag, byte_count, article_count),
{
    Fpdu::new(FpduKind::AckTransEnd).with_ids(id_dst, 0).with_diag(diag).put_num(
        Pi::ByteCount,
        byte_count,
    ).put_num(Pi::ArticleCount, article_count)
}

/// MSG, MSGDM: the message stands in PI 91.
pub open spec fn spec_msg(
    kind: FpduKind,
    id_dst: u8,
    spec: FileSpecV,
    expects_reply: bool,
    message: Option<Seq<u8>>,
) -> FpduV {
    FpduV::between(kind, id_dst, 0).with_group(Pgi::FileId, spec.file_id_group()).with_number(
        Pi::TransferId,
        spec.transfer_id as nat,
    ).with_opt_byte(
        Pi::RequestedAttributes,
        if expects_reply {
            Some(1)
        } else {
            None
        },
    ).with_opt_byte(Pi::DataCode, spec.data_code).with_byte(
        Pi::Priority,
        spec.priority,
    ).with_opt_group(Pgi::HistoricalAttributes, spec.historical_group()).with_opt_string(
        Pi::ClientId,
        spec.client_id,
    ).with_opt_string(Pi::BankId, spec.bank_id).with_message(
        match message {
            Some(m) => m,
            None => Seq::empty(),
        },
    )
}

/// Value of an optional byte slice.
pub open spec fn opt_bytes(o: Option<&[u8]>) -> Option<Seq<u8>> {
    match o {
        Some(s) => Some(s@),
        None => None,
    }
}

/// Build a MSG (or MSGDM when `kind` is given) carrying `message` (PI 91).
#[must_use]
pub fn msg(
    kind: FpduKind,
    id_dst: u8,
    spec: &FileSpec,
    expects_reply: bool,
    message: Option<&[u8]>,
) -> (r: Fpdu)
    ensures
        r@ == spec_msg(kind, id_dst, spec@, expects_reply, opt_bytes(message)),
{
    let wanted: Option<u8> = if expects_reply {
        Some(1)
    } else {
        None
    };
    let f = Fpdu::new(kind).with_ids(id_dst, 0).with_pgi(
        Pgi::FileId,
        spec.file_id_group(),
    ).with_num(Pi::TransferId, spec.transfer_id as u64).put_byte(
        Pi::RequestedAttributes,
        wanted,
    ).put_byte(Pi::DataCode, spec.data_code).with(Pi::Priority, one_byte(spec.priority));
    let f = spec.with_history(f).put_text(
        Pi::ClientId,
        crate::text::as_opt_str(&spec.client_id),
    ).put_text(Pi::BankId, crate::text::as_opt_str(&spec.bank_id));
    match message {
        Some(m) => f.put_message(m),
        None => f,
    }
}

/// Build a MSGMM / MSGFM segment.
#[must_use]
pub fn msg_segment(kind: FpduKind, id_dst: u8, segment: &[u8]) -> (r: Fpdu)
    ensures
        r@ == FpduV::between(kind, id_dst, 0).with_message(segment@),
{
    Fpdu::new(kind).with_ids(id_dst, 0).put_message(segment)
}

/// ACK(MSG).
pub open spec fn spec_ack_msg(
    id_dst: u8,
    diag: Diagnostic,
    transfer_id: Option<u32>,
    reply: Option<Seq<u8>>,
) -> FpduV {
    diag_fpdu(FpduKind::AckMsg, id_dst, 0, diag).with_opt_number(
        Pi::TransferId,
        widened(transfer_id),
    ).with_message(
        match reply {
            Some(m) => m,
            None => Seq::empty(),
        },
    )
}

/// Build an ACK(MSG).
#[must_use]
pub fn ack_msg(
    id_dst: u8,
    diag: Diagnostic,
    transfer_id: Option<u32>,
    reply: Option<&[u8]>,
) -> (r: Fpdu)
    ensures
        r@ == spec_ack_msg(id_dst, diag, transfer_id, opt_bytes(reply)),
{
    let f = Fpdu::new(FpduKind::AckMsg).with_ids(id_dst, 0).with_diag(diag).put_num(
        Pi::TransferId,
        widen(transfer_id),
    );
    match reply {
        Some(m) => f.put_message(m),
        None => f,
    }
}

} // verus!
