//! Phase byte values (octet 3 of a FPDU).

use vstd::prelude::*;

verus! {

/// Connection phase FPDUs.
pub const CONNECTION: u8 = 0x40;

/// Data FPDUs (DTF, DTFDA, DTFMA, DTFFA).
pub const DATA: u8 = 0x00;

/// Every other FPDU.
pub const OTHER: u8 = 0xC0;

} // verus!
