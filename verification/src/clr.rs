//! Whether a file holds code for the common language runtime of .NET.
use crate::buffer::{le32, read_le32};
use crate::pe::{optional_header_size, pe_offset};
use vstd::prelude::*;

verus! {

/// Where the data directory of the common language runtime starts: the fifteenth of
/// the directories behind the optional header.
pub open spec fn clr_directory(bytes: Seq<u8>, wide: bool) -> int {
    pe_offset(bytes) + 24 + optional_header_size(wide) + 14 * 8
}

/// The file is no shorter than a file with code can be, starts with the letters `MZ`,
/// and has a data directory of the common language runtime with an address.
pub open spec fn holds_clr(bytes: Seq<u8>, wide: bool) -> bool {
    &&& bytes.len() >= 300
    &&& bytes[0] == 0x4d
    &&& bytes[1] == 0x5a
    &&& clr_directory(bytes, wide) + 8 <= bytes.len()
    &&& le32(bytes, clr_directory(bytes, wide)) != 0
}

/// Whether the file holds code for the common language runtime. The headers are those
/// of a 64-bit file where `is64` holds, and those of a 32-bit file where it does not.
pub fn has_clr(bytes: &[u8], is64: bool) -> (holds: bool)
    ensures
        holds == holds_clr(bytes@, is64),
{
    if bytes.len() < 300 || bytes[0] != 0x4d || bytes[1] != 0x5a {
        return false;
    }
    let pe_off: usize = read_le32(bytes, 0x3c) as usize;
    let optional_size: usize = if is64 {
        112
    } else {
        96
    };
    // Counted from the PE headers.
    let com_off: usize = 24 + optional_size + 14 * 8;
    if pe_off > bytes.len() - com_off - 8 {
        return false;
    }
    read_le32(bytes, pe_off + com_off) != 0
}

} // verus!
