//! Typed views over frequently used parameter values.

use crate::diag::Diagnostic;
use crate::fpdu::{Fpdu, FpduV};
use crate::pi::Pi;
use crate::text::{dec, dec_padded, push_decimal, push_decimal_padded};
use vstd::prelude::*;
use vstd::string::StringExecFns;

verus! {

/// PeSIT protocol versions carried in PI 6.
#[derive(Debug, Clone, Copy, PartialEq, Eq, Hash, Structural)]
pub enum Version {
    /// Version D (15 November 1987) = 1.
    D,
    /// Version E (14 July 1989) = 2.
    E,
}

impl Version {
    /// PI 6 value.
    #[verifier::allow_in_spec]
    #[must_use]
    pub fn code(self) -> u64
        returns
            (match self {
                Version::D => 1u64,
                Version::E => 2u64,
            }),
    {
        match self {
            Version::D => 1,
            Version::E => 2,
        }
    }

    /// From PI 6 value.
    #[verifier::allow_in_spec]
    #[must_use]
    pub fn from_code(code: u64) -> Option<Self>
        returns
            (if code == 1 {
                Some(Version::D)
            } else if code == 2 {
                Some(Version::E)
            } else {
                None
            }),
    {
        match code {
            1 => Some(Version::D),
            2 => Some(Version::E),
            _ => None,
        }
    }
}

/// Access type negotiated in CONNECT (PI 22).
#[derive(Debug, Clone, Copy, PartialEq, Eq, Hash, Structural)]
pub enum AccessType {
    /// Requester writes (sends) files.
    Write,
    /// Requester reads (receives) files.
    Read,
    /// Both directions during the connection.
    Mixed,
}

impl AccessType {
    /// PI 22 value.
    #[verifier::allow_in_spec]
    #[must_use]
    pub fn code(self) -> u64
        returns
            (match self {
                AccessType::Write => 0u64,
                AccessType::Read => 1u64,
                AccessType::Mixed => 2u64,
            }),
    {
        match self {
            AccessType::Write => 0,
            AccessType::Read => 1,
            AccessType::Mixed => 2,
        }
    }

    /// Name of the variant.
    pub open spec fn spec_variant(self) -> Seq<char> {
        match self {
            AccessType::Write => "Write"@,
            AccessType::Read => "Read"@,
            AccessType::Mixed => "Mixed"@,
        }
    }

    /// Name of the variant.
    #[must_use]
    pub fn variant(self) -> (r: &'static str)
        ensures
            r@ == self.spec_variant(),
    {
        match self {
            AccessType::Write => "Write",
            AccessType::Read => "Read",
            AccessType::Mixed => "Mixed",
        }
    }

    /// From PI 22 value.
    #[verifier::allow_in_spec]
    #[must_use]
    pub fn from_code(code: u64) -> Option<Self>
        returns
            (if code == 0 {
                Some(AccessType::Write)
            } else if code == 1 {
                Some(AccessType::Read)
            } else if code == 2 {
                Some(AccessType::Mixed)
            } else {
                None
            }),
    {
        match code {
            0 => Some(AccessType::Write),
            1 => Some(AccessType::Read),
            2 => Some(AccessType::Mixed),
            _ => None,
        }
    }

    /// Whether writes (CREATE) are allowed.
    #[verifier::allow_in_spec]
    #[must_use]
    pub fn allows_write(self) -> bool
        returns
            self != AccessType::Read,
    {
        matches!(self, AccessType::Write | AccessType::Mixed)
    }

    /// Whether reads (SELECT) are allowed.
    #[verifier::allow_in_spec]
    #[must_use]
    pub fn allows_read(self) -> bool
        returns
            self != AccessType::Write,
    {
        matches!(self, AccessType::Read | AccessType::Mixed)
    }
}

/// Synchronisation points option (PI 7).
#[derive(Debug, Clone, Copy, PartialEq, Eq, Hash, Structural)]
pub struct SyncOption {
    /// Interval between synchronisation points in kilobytes; 0 = no sync points,
    /// 0xFFFF = undefined.
    pub interval_kb: u16,
    /// Acknowledgement window: 0 = no acknowledgement, else the maximum number of
    /// unacknowledged synchronisation points.
    pub window: u8,
}

/// Smaller of two intervals, where an undefined one yields to the other.
pub open spec fn smaller_interval(a: u16, b: u16) -> u16 {
    if a == SyncOption::UNDEFINED_INTERVAL {
        b
    } else if b == SyncOption::UNDEFINED_INTERVAL {
        a
    } else if a <= b {
        a
    } else {
        b
    }
}

impl SyncOption {
    /// "Undefined interval" special value.
    pub const UNDEFINED_INTERVAL: u16 = 0xFFFF;

    /// No synchronisation points.
    #[verifier::allow_in_spec]
    #[must_use]
    pub fn none() -> Self
        returns
            (SyncOption { interval_kb: 0, window: 0 }),
    {
        SyncOption { interval_kb: 0, window: 0 }
    }

    /// Three-byte wire form.
    pub open spec fn spec_bytes(self) -> Seq<u8> {
        seq![(self.interval_kb / 256) as u8, (self.interval_kb % 256) as u8, self.window]
    }

    /// Option of a wire form.
    pub open spec fn spec_from_bytes(v: Seq<u8>) -> Option<SyncOption> {
        if v.len() < 2 {
            None
        } else {
            Some(
                SyncOption {
                    interval_kb: (v[0] * 256 + v[1]) as u16,
                    window: if v.len() == 2 {
                        0
                    } else {
                        v[2]
                    },
                },
            )
        }
    }

    /// Outcome of the negotiation of two proposals.
    pub open spec fn spec_negotiate(proposed: SyncOption, local: SyncOption) -> SyncOption {
        if proposed.interval_kb == 0 || local.interval_kb == 0 {
            SyncOption::none()
        } else {
            SyncOption {
                interval_kb: smaller_interval(proposed.interval_kb, local.interval_kb),
                window: if proposed.window <= local.window {
                    proposed.window
                } else {
                    local.window
                },
            }
        }
    }

    /// Encode as the 3-byte PI 7 value.
    #[must_use]
    pub fn to_bytes(self) -> (r: Vec<u8>)
        ensures
            r@ == self.spec_bytes(),
    {
        let r: Vec<u8> = vec![
            (self.interval_kb / 256) as u8,
            (self.interval_kb % 256) as u8,
            self.window,
        ];
        proof {
            assert(r@ =~= self.spec_bytes());
        }
        r
    }

    /// Decode a PI 7 value (2 or 3 bytes).
    #[must_use]
    pub fn from_bytes(v: &[u8]) -> (r: Option<Self>)
        ensures
            r == Self::spec_from_bytes(v@),
    {
        if v.len() < 2 {
            None
        } else {
            let window: u8 = if v.len() == 2 {
                0
            } else {
                v[2]
            };
            Some(SyncOption { interval_kb: v[0] as u16 * 256 + v[1] as u16, window })
        }
    }

    /// Whether synchronisation points are in use.
    #[verifier::allow_in_spec]
    #[must_use]
    pub fn enabled(self) -> bool
        returns
            self.interval_kb != 0,
    {
        self.interval_kb != 0
    }

    /// Interval in bytes (`None` when disabled or undefined).
    #[verifier::allow_in_spec]
    #[must_use]
    pub fn interval_bytes(self) -> Option<u64>
        returns
            (if self.interval_kb == 0 || self.interval_kb == SyncOption::UNDEFINED_INTERVAL {
                None
            } else {
                Some((self.interval_kb * 1024) as u64)
            }),
    {
        if self.interval_kb == 0 || self.interval_kb == Self::UNDEFINED_INTERVAL {
            None
        } else {
            Some(self.interval_kb as u64 * 1024)
        }
    }

    /// Server-side negotiation: intersection of the requester proposal and local capability:
    /// smallest interval and smallest window win; option only if both want it.
    #[must_use]
    pub fn negotiate(proposed: SyncOption, local: SyncOption) -> (r: SyncOption)
        ensures
            r == Self::spec_negotiate(proposed, local),
    {
        if !proposed.enabled() || !local.enabled() {
            return SyncOption::none();
        }
        let p: u16 = proposed.interval_kb;
        let l: u16 = local.interval_kb;
        let interval_kb: u16 = if p == Self::UNDEFINED_INTERVAL {
            l
        } else if l == Self::UNDEFINED_INTERVAL {
            p
        } else if p <= l {
            p
        } else {
            l
        };
        let window: u8 = if proposed.window <= local.window {
            proposed.window
        } else {
            local.window
        };
        SyncOption { interval_kb, window }
    }
}

/// A synchronisation option survives its wire form.
pub proof fn law_sync_option_round_trip(s: SyncOption)
    ensures
        SyncOption::spec_from_bytes(s.spec_bytes()) == Some(s),
{
}

/// Negotiation is fair to both sides: the order does not matter, the outcome exceeds neither
/// proposal, it is in use only where both want it, and negotiating it again changes nothing.
pub proof fn law_sync_negotiation(a: SyncOption, b: SyncOption)
    ensures
        ({
            let r = SyncOption::spec_negotiate(a, b);
            &&& r == SyncOption::spec_negotiate(b, a)
            &&& r.interval_kb != 0 <==> a.interval_kb != 0 && b.interval_kb != 0
            &&& r.interval_kb <= a.interval_kb && r.interval_kb <= b.interval_kb
            &&& r.window <= a.window && r.window <= b.window
            &&& SyncOption::spec_negotiate(a, r) == r && SyncOption::spec_negotiate(r, b) == r
        }),
{
}

/// Compression negotiation (PI 21).
#[derive(Debug, Clone, Copy, PartialEq, Eq, Hash, Default, Structural)]
pub enum Compression {
    /// No compression.
    #[default]
    Off,
    /// Horizontal (run-length) compression.
    Horizontal,
    /// Vertical (previous article reference) compression.
    Vertical,
    /// Both.
    Mixed,
}

impl Compression {
    /// Two-byte wire form.
    pub open spec fn spec_bytes(self) -> Seq<u8> {
        match self {
            Compression::Off => seq![0u8, 0u8],
            Compression::Horizontal => seq![1u8, 1u8],
            Compression::Vertical => seq![1u8, 2u8],
            Compression::Mixed => seq![1u8, 3u8],
        }
    }

    /// Compression of a wire form.
    pub open spec fn spec_from_bytes(v: Seq<u8>) -> Option<Compression> {
        if v.len() == 0 || v[0] == 0 {
            Some(Compression::Off)
        } else if v == seq![1u8] || v == seq![1u8, 1u8] {
            Some(Compression::Horizontal)
        } else if v == seq![1u8, 2u8] {
            Some(Compression::Vertical)
        } else if v == seq![1u8, 3u8] {
            Some(Compression::Mixed)
        } else {
            None
        }
    }

    /// Whether horizontal strings may be used.
    pub open spec fn has_horizontal(self) -> bool {
        self == Compression::Horizontal || self == Compression::Mixed
    }

    /// Whether vertical strings may be used.
    pub open spec fn has_vertical(self) -> bool {
        self == Compression::Vertical || self == Compression::Mixed
    }

    /// Encode as the 2-byte PI 21 value.
    #[must_use]
    pub fn to_bytes(self) -> (r: [u8; 2])
        ensures
            r@ == self.spec_bytes(),
    {
        let r: [u8; 2] = match self {
            Compression::Off => [0, 0],
            Compression::Horizontal => [1, 1],
            Compression::Vertical => [1, 2],
            Compression::Mixed => [1, 3],
        };
        proof {
            assert(r@ =~= self.spec_bytes());
        }
        r
    }

    /// Decode a PI 21 value.
    #[must_use]
    pub fn from_bytes(v: &[u8]) -> (r: Option<Self>)
        ensures
            r == Self::spec_from_bytes(v@),
    {
        proof {
            assert(v@.len() == 1 && v@[0] == 1 ==> v@ =~= seq![1u8]);
            assert(v@.len() == 2 && v@[0] == 1 && v@[1] == 1 ==> v@ =~= seq![1u8, 1u8]);
            assert(v@.len() == 2 && v@[0] == 1 && v@[1] == 2 ==> v@ =~= seq![1u8, 2u8]);
            assert(v@.len() == 2 && v@[0] == 1 && v@[1] == 3 ==> v@ =~= seq![1u8, 3u8]);
        }
        if v.len() == 0 || v[0] == 0 {
            Some(Compression::Off)
        } else if v[0] != 1 || v.len() > 2 {
            None
        } else if v.len() == 1 {
            Some(Compression::Horizontal)
        } else {
            match v[1] {
                1 => Some(Compression::Horizontal),
                2 => Some(Compression::Vertical),
                3 => Some(Compression::Mixed),
                _ => None,
            }
        }
    }

    /// The part of a request that is supported locally.
    pub open spec fn spec_negotiate(requested: Compression, local: Compression) -> Compression {
        let h = requested.has_horizontal() && local.has_horizontal();
        let v = requested.has_vertical() && local.has_vertical();
        if h && v {
            Compression::Mixed
        } else if h {
            Compression::Horizontal
        } else if v {
            Compression::Vertical
        } else {
            Compression::Off
        }
    }

    /// Server-side negotiation: the answer must be supported locally and not stronger than the
    /// request (a server may downgrade to `Off`).
    #[must_use]
    pub fn negotiate(requested: Compression, local: Compression) -> (r: Compression)
        ensures
            r == Self::spec_negotiate(requested, local),
    {
        match (requested, local) {
            (Compression::Off, _) | (_, Compression::Off) => Compression::Off,
            (Compression::Mixed, l) => l,
            (r, Compression::Mixed) => r,
            (r, l) => if r == l {
                r
            } else {
                Compression::Off
            },
        }
    }

    /// Numeric code (0..3) as used in configuration.
    #[verifier::allow_in_spec]
    #[must_use]
    pub fn code(self) -> u8
        returns
            (match self {
                Compression::Off => 0u8,
                Compression::Horizontal => 1u8,
                Compression::Vertical => 2u8,
                Compression::Mixed => 3u8,
            }),
    {
        match self {
            Compression::Off => 0,
            Compression::Horizontal => 1,
            Compression::Vertical => 2,
            Compression::Mixed => 3,
        }
    }

    /// From configuration code.
    #[verifier::allow_in_spec]
    #[must_use]
    pub fn from_code(code: u8) -> Option<Self>
        returns
            (if code == 0 {
                Some(Compression::Off)
            } else if code == 1 {
                Some(Compression::Horizontal)
            } else if code == 2 {
                Some(Compression::Vertical)
            } else if code == 3 {
                Some(Compression::Mixed)
            } else {
                None
            }),
    {
        match code {
            0 => Some(Compression::Off),
            1 => Some(Compression::Horizontal),
            2 => Some(Compression::Vertical),
            3 => Some(Compression::Mixed),
            _ => None,
        }
    }
}

/// A compression survives its wire form and its configuration code.
pub proof fn law_compression_round_trip(c: Compression)
    ensures
        Compression::spec_from_bytes(c.spec_bytes()) == Some(c),
        Compression::from_code(c.code()) == Some(c),
{
    assert(seq![1u8, 1u8] != seq![1u8, 2u8]) by {
        assert(seq![1u8, 1u8][1] != seq![1u8, 2u8][1]);
    }
    assert(seq![1u8, 1u8] != seq![1u8, 3u8]) by {
        assert(seq![1u8, 1u8][1] != seq![1u8, 3u8][1]);
    }
    assert(seq![1u8, 2u8] != seq![1u8, 3u8]) by {
        assert(seq![1u8, 2u8][1] != seq![1u8, 3u8][1]);
    }
    assert(c.spec_bytes().len() == 2);
}

/// Negotiation is symmetric, and its outcome uses nothing that either side did not ask for.
pub proof fn law_compression_negotiation(a: Compression, b: Compression)
    ensures
        ({
            let r = Compression::spec_negotiate(a, b);
            &&& r == Compression::spec_negotiate(b, a)
            &&& r.has_horizontal() ==> a.has_horizontal() && b.has_horizontal()
            &&& r.has_vertical() ==> a.has_vertical() && b.has_vertical()
            &&& Compression::spec_negotiate(a, a) == a
        }),
{
}

/// Article format (PI 31).
#[derive(Debug, Clone, Copy, PartialEq, Eq, Hash, Default, Structural)]
pub enum ArticleFormat {
    /// Fixed length articles (0x00).
    #[default]
    Fixed,
    /// Variable length articles (0x80).
    Variable,
}

impl ArticleFormat {
    /// PI 31 value.
    #[verifier::allow_in_spec]
    #[must_use]
    pub fn code(self) -> u8
        returns
            (match self {
                ArticleFormat::Fixed => 0x00u8,
                ArticleFormat::Variable => 0x80u8,
            }),
    {
        match self {
            ArticleFormat::Fixed => 0x00,
            ArticleFormat::Variable => 0x80,
        }
    }

    /// Format of a PI 31 value: its most significant bit.
    pub open spec fn spec_from_bytes(v: Seq<u8>) -> ArticleFormat {
        if v.len() > 0 && v[0] >= 0x80 {
            ArticleFormat::Variable
        } else {
            ArticleFormat::Fixed
        }
    }

    /// From PI 31 value (bit 7).
    #[must_use]
    pub fn from_bytes(v: &[u8]) -> (r: Self)
        ensures
            r == Self::spec_from_bytes(v@),
    {
        if v.len() > 0 && v[0] >= 0x80 {
            ArticleFormat::Variable
        } else {
            ArticleFormat::Fixed
        }
    }
}

/// End of transfer code (PI 19) carried by IDT.
#[derive(Debug, Clone, Copy, PartialEq, Eq, Hash, Structural)]
pub enum EndCode {
    /// 4: error, a restart will follow.
    Error,
    /// 8: suspension.
    Suspension,
    /// 12: cancellation by the server.
    CancelByServer,
    /// 16: cancellation by the requester.
    CancelByRequester,
    /// Any other value.
    Other(u8),
}

impl EndCode {
    /// PI 19 value.
    #[verifier::allow_in_spec]
    #[must_use]
    pub fn code(self) -> u8
        returns
            (match self {
                EndCode::Error => 4u8,
                EndCode::Suspension => 8u8,
                EndCode::CancelByServer => 12u8,
                EndCode::CancelByRequester => 16u8,
                EndCode::Other(c) => c,
            }),
    {
        match self {
            EndCode::Error => 4,
            EndCode::Suspension => 8,
            EndCode::CancelByServer => 12,
            EndCode::CancelByRequester => 16,
            EndCode::Other(c) => c,
        }
    }

    /// Name of the variant, with its value where it has one.
    pub open spec fn spec_variant(self) -> Seq<char> {
        match self {
            EndCode::Error => "Error"@,
            EndCode::Suspension => "Suspension"@,
            EndCode::CancelByServer => "CancelByServer"@,
            EndCode::CancelByRequester => "CancelByRequester"@,
            EndCode::Other(c) => "Other("@ + dec(c as nat) + ")"@,
        }
    }

    /// Name of the variant, with its value where it has one.
    #[must_use]
    pub fn variant(self) -> (r: String)
        ensures
            r@ == self.spec_variant(),
    {
        match self {
            EndCode::Error => "Error".to_owned(),
            EndCode::Suspension => "Suspension".to_owned(),
            EndCode::CancelByServer => "CancelByServer".to_owned(),
            EndCode::CancelByRequester => "CancelByRequester".to_owned(),
            EndCode::Other(c) => {
                let mut out = "Other(".to_owned();
                push_decimal(&mut out, c as u64);
                out.append(")");
                out
            },
        }
    }

    /// From PI 19 value.
    #[verifier::allow_in_spec]
    #[must_use]
    pub fn from_code(c: u8) -> Self
        returns
            (if c == 4 {
                EndCode::Error
            } else if c == 8 {
                EndCode::Suspension
            } else if c == 12 {
                EndCode::CancelByServer
            } else if c == 16 {
                EndCode::CancelByRequester
            } else {
                EndCode::Other(c)
            }),
    {
        match c {
            4 => EndCode::Error,
            8 => EndCode::Suspension,
            12 => EndCode::CancelByServer,
            16 => EndCode::CancelByRequester,
            c => EndCode::Other(c),
        }
    }
}

/// Every byte is the value of the end code that is read from it.
pub proof fn law_end_code_round_trip(c: u8)
    ensures
        EndCode::from_code(c).code() == c,
{
}

/// Requested attributes mask (PI 14).
#[derive(Debug, Clone, Copy, PartialEq, Eq, Hash, Default, Structural)]
pub struct RequestedAttributes {
    /// b1: logical attributes (PGI 30).
    pub logical: bool,
    /// b2: physical attributes (PGI 40).
    pub physical: bool,
    /// b3: historical attributes (PGI 50).
    pub historical: bool,
}

impl RequestedAttributes {
    /// All attribute groups.
    #[verifier::allow_in_spec]
    #[must_use]
    pub fn all() -> Self
        returns
            (RequestedAttributes { logical: true, physical: true, historical: true }),
    {
        RequestedAttributes { logical: true, physical: true, historical: true }
    }

    /// PI 14 value: 1 = logical, 2 = physical, 4 = historical.
    pub open spec fn spec_code(self) -> u8 {
        ((if self.logical {
            1int
        } else {
            0int
        }) + (if self.physical {
            2int
        } else {
            0int
        }) + (if self.historical {
            4int
        } else {
            0int
        })) as u8
    }

    /// Attributes of a PI 14 value.
    pub open spec fn spec_from_code(c: u8) -> RequestedAttributes {
        RequestedAttributes {
            logical: c % 2 == 1,
            physical: (c / 2) % 2 == 1,
            historical: (c / 4) % 2 == 1,
        }
    }

    /// PI 14 value (1 = logical, 2 = physical, 4 = historical).
    #[must_use]
    pub fn code(self) -> (r: u8)
        ensures
            r == self.spec_code(),
    {
        let l: u8 = if self.logical {
            1
        } else {
            0
        };
        let p: u8 = if self.physical {
            2
        } else {
            0
        };
        let h: u8 = if self.historical {
            4
        } else {
            0
        };
        l + p + h
    }

    /// From PI 14 value.
    #[must_use]
    pub fn from_code(c: u8) -> (r: Self)
        ensures
            r == Self::spec_from_code(c),
    {
        RequestedAttributes {
            logical: c % 2 == 1,
            physical: (c / 2) % 2 == 1,
            historical: (c / 4) % 2 == 1,
        }
    }
}

/// The mask of requested attributes is read back.
pub proof fn law_requested_attributes_round_trip(a: RequestedAttributes)
    ensures
        RequestedAttributes::spec_from_code(a.spec_code()) == a,
{
}

impl FpduV {
    /// PI 7.
    pub open spec fn sync_option(self) -> Option<SyncOption> {
        match self.value(Pi::SyncOption) {
            Some(v) => SyncOption::spec_from_bytes(v),
            None => None,
        }
    }

    /// PI 21.
    pub open spec fn compression(self) -> Option<Compression> {
        match self.value(Pi::Compression) {
            Some(v) => Compression::spec_from_bytes(v),
            None => None,
        }
    }

    /// PI 22.
    pub open spec fn access_type(self) -> Option<AccessType> {
        match self.number(Pi::AccessType) {
            Some(n) => AccessType::from_code(n),
            None => None,
        }
    }

    /// PI 6.
    pub open spec fn version(self) -> Option<Version> {
        match self.number(Pi::Version) {
            Some(n) => Version::from_code(n),
            None => None,
        }
    }

    /// PI 2 or success if absent.
    pub open spec fn diag_or_ok(self) -> Diagnostic {
        match self.diagnostic() {
            Some(d) => d,
            None => Diagnostic::ok(),
        }
    }

    /// PI 25, at most 65535.
    pub open spec fn max_entity_size(self) -> Option<u16> {
        match self.number(Pi::MaxEntitySize) {
            Some(n) => Some(
                if n <= 0xFFFF {
                    n as u16
                } else {
                    0xFFFF
                },
            ),
            None => None,
        }
    }

    /// A number reduced to 32 bits.
    pub open spec fn number32(self, pi: Pi) -> Option<u32> {
        match self.number(pi) {
            Some(n) => Some((n % 0x1_0000_0000) as u32),
            None => None,
        }
    }

    /// First byte of a parameter.
    pub open spec fn first_byte(self, pi: Pi) -> Option<u8> {
        match self.value(pi) {
            Some(v) => if v.len() > 0 {
                Some(v[0])
            } else {
                None
            },
            None => None,
        }
    }

    /// PI 19.
    pub open spec fn end_code(self) -> Option<EndCode> {
        match self.first_byte(Pi::EndCode) {
            Some(c) => Some(EndCode::from_code(c)),
            None => None,
        }
    }
}

impl Fpdu {
    /// A numeric parameter reduced to 32 bits.
    fn get_num32(&self, pi: Pi) -> (r: Option<u32>)
        ensures
            r == self@.number32(pi),
    {
        match self.get_num(pi) {
            Some(n) => Some((n % 0x1_0000_0000) as u32),
            None => None,
        }
    }

    /// First byte of a parameter, if the parameter is present and not empty.
    #[must_use]
    pub fn get_byte(&self, pi: Pi) -> (r: Option<u8>)
        ensures
            r == self@.first_byte(pi),
    {
        match self.get(pi) {
            Some(v) => if v.len() > 0 {
                Some(v[0])
            } else {
                None
            },
            None => None,
        }
    }
}

/// Extract common values from an FPDU.
pub trait FpduExt {
    /// The FPDU that the values are taken from.
    spec fn fpdu(&self) -> FpduV;

    /// PI 7.
    fn sync_option(&self) -> (r: Option<SyncOption>)
        ensures
            r == self.fpdu().sync_option(),
    ;

    /// PI 21.
    fn compression(&self) -> (r: Option<Compression>)
        ensures
            r == self.fpdu().compression(),
    ;

    /// PI 22.
    fn access_type(&self) -> (r: Option<AccessType>)
        ensures
            r == self.fpdu().access_type(),
    ;

    /// PI 6.
    fn version(&self) -> (r: Option<Version>)
        ensures
            r == self.fpdu().version(),
    ;

    /// PI 2 or success if absent.
    fn diag_or_ok(&self) -> (r: Diagnostic)
        ensures
            r == self.fpdu().diag_or_ok(),
    ;

    /// PI 25.
    fn max_entity_size(&self) -> (r: Option<u16>)
        ensures
            r == self.fpdu().max_entity_size(),
    ;

    /// PI 13.
    fn transfer_id(&self) -> (r: Option<u32>)
        ensures
            r == self.fpdu().number32(Pi::TransferId),
    ;

    /// PI 18.
    fn restart_point(&self) -> (r: Option<u32>)
        ensures
            r == self.fpdu().number32(Pi::RestartPoint),
    ;

    /// PI 20.
    fn sync_number(&self) -> (r: Option<u32>)
        ensures
            r == self.fpdu().number32(Pi::SyncNumber),
    ;

    /// PI 19.
    fn end_code(&self) -> (r: Option<EndCode>)
        ensures
            r == self.fpdu().end_code(),
    ;
}

impl FpduExt for Fpdu {
    open spec fn fpdu(&self) -> FpduV {
        self@
    }

    fn sync_option(&self) -> (r: Option<SyncOption>) {
        match self.get(Pi::SyncOption) {
            Some(v) => SyncOption::from_bytes(v),
            None => None,
        }
    }

    fn compression(&self) -> (r: Option<Compression>) {
        match self.get(Pi::Compression) {
            Some(v) => Compression::from_bytes(v),
            None => None,
        }
    }

    fn access_type(&self) -> (r: Option<AccessType>) {
        match self.get_num(Pi::AccessType) {
            Some(n) => AccessType::from_code(n),
            None => None,
        }
    }

    fn version(&self) -> (r: Option<Version>) {
        match self.get_num(Pi::Version) {
            Some(n) => Version::from_code(n),
            None => None,
        }
    }

    fn diag_or_ok(&self) -> (r: Diagnostic) {
        match self.diag() {
            Some(d) => d,
            None => Diagnostic::ok(),
        }
    }

    fn max_entity_size(&self) -> (r: Option<u16>) {
        match self.get_num(Pi::MaxEntitySize) {
            Some(n) => Some(
                if n <= 0xFFFF {
                    n as u16
                } else {
                    0xFFFF
                },
            ),
            None => None,
        }
    }

    fn transfer_id(&self) -> (r: Option<u32>) {
        self.get_num32(Pi::TransferId)
    }

    fn restart_point(&self) -> (r: Option<u32>) {
        self.get_num32(Pi::RestartPoint)
    }

    fn sync_number(&self) -> (r: Option<u32>) {
        self.get_num32(Pi::SyncNumber)
    }

    fn end_code(&self) -> (r: Option<EndCode>) {
        match self.get_byte(Pi::EndCode) {
            Some(c) => Some(EndCode::from_code(c)),
            None => None,
        }
    }
}

/// Format a `AAMMJJhhmmss` PeSIT date from its components.
#[must_use]
pub fn format_datetime(
    year: u32,
    month: u32,
    day: u32,
    hour: u32,
    min: u32,
    sec: u32,
) -> (r: String)
    ensures
        r@ == dec_padded((year % 100) as nat, 2) + dec_padded(month as nat, 2) + dec_padded(
            day as nat,
            2,
        ) + dec_padded(hour as nat, 2) + dec_padded(min as nat, 2) + dec_padded(sec as nat, 2),
{
    let mut out = String::new();
    push_decimal_padded(&mut out, (year % 100) as u64, 2);
    proof {
        assert(out@ =~= dec_padded((year % 100) as nat, 2));
    }
    push_decimal_padded(&mut out, month as u64, 2);
    push_decimal_padded(&mut out, day as u64, 2);
    push_decimal_padded(&mut out, hour as u64, 2);
    push_decimal_padded(&mut out, min as u64, 2);
    push_decimal_padded(&mut out, sec as u64, 2);
    out
}

} // verus!
