//! The parts of a file that are looked at: its import table, its import name tables, its
//! texts and its resources.
use crate::buffer::{le16, le32, lesser};
use crate::pe::{directory_count, optional_header_size, pe_offset, Import};
use crate::sections::{found_at, items_from, Item};
use vstd::prelude::*;

verus! {

/// Where a data directory starts: they lie behind the optional header, eight bytes each.
pub open spec fn directory(bytes: Seq<u8>, wide: bool, index: int) -> int {
    pe_offset(bytes) + 24 + optional_header_size(wide) + 8 * index
}

/// The address in a data directory, zero where there is no such directory.
pub open spec fn directory_address(bytes: Seq<u8>, wide: bool, index: int) -> int {
    if directory_count(bytes, wide) > index {
        le32(bytes, directory(bytes, wide, index))
    } else {
        0
    }
}

/// The text at an address, without the zero at its end. `None` where there is none.
pub open spec fn text_at(bytes: Seq<u8>, address: int) -> Option<Seq<u8>> {
    match found_at(bytes, address) {
        Some((at, end)) => match items_from(bytes, at, end, Item::Byte) {
            Some(length) => Some(bytes.subrange(at, at + length)),
            None => None,
        },
        None => None,
    }
}

/// The place and the number of the import descriptors. `None` where there are none.
pub open spec fn descriptors(bytes: Seq<u8>, wide: bool) -> Option<(int, nat)> {
    let address = directory_address(bytes, wide, 1);
    if address % 4 != 0 {
        None
    } else {
        match found_at(bytes, address) {
            Some((at, end)) => match items_from(bytes, at, end, Item::Descriptor) {
                Some(count) => Some((at, count)),
                None => None,
            },
            None => None,
        }
    }
}

/// One of the import descriptors that start at `at`: the address of the DLL's name and that
/// of the import name table.
pub open spec fn descriptor(bytes: Seq<u8>, at: int, index: int) -> (u32, u32) {
    (le32(bytes, at + 20 * index + 12) as u32, le32(bytes, at + 20 * index) as u32)
}

/// The import descriptors of a file, in order. `None` where there are none.
pub open spec fn import_table(bytes: Seq<u8>, wide: bool) -> Option<Seq<(u32, u32)>> {
    match descriptors(bytes, wide) {
        Some((at, count)) => Some(Seq::new(count, |i: int| descriptor(bytes, at, i))),
        None => None,
    }
}

/// What an import name table consists of.
pub open spec fn table_item(wide: bool) -> Item {
    if wide {
        Item::Wide
    } else {
        Item::Narrow
    }
}

/// The place and the number of the entries of the import name table at an address. `None`
/// where there is no table.
pub open spec fn entries_at(bytes: Seq<u8>, address: int, wide: bool) -> Option<(int, nat)> {
    if address % (if wide {
        8int
    } else {
        4
    }) != 0 {
        None
    } else {
        match found_at(bytes, address) {
            Some((at, end)) => match items_from(bytes, at, end, table_item(wide)) {
                Some(count) => Some((at, count)),
                None => None,
            },
            None => None,
        }
    }
}

/// The place of an entry of an import name table that starts at `at`.
pub open spec fn entry_place(at: int, wide: bool, index: int) -> int {
    if wide {
        at + 8 * index
    } else {
        at + 4 * index
    }
}

/// The entry of an import name table at `at` is for an import by name: its top bit is zero.
pub open spec fn is_by_name(bytes: Seq<u8>, at: int, wide: bool) -> bool {
    le32(
        bytes,
        if wide {
            at + 4
        } else {
            at
        },
    ) < 0x8000_0000
}

/// There is a 16-bit number at an address.
pub open spec fn has_number_at(bytes: Seq<u8>, address: int) -> bool {
    address % 2 == 0 && match found_at(bytes, address) {
        Some((at, end)) => at + 2 <= end,
        None => false,
    }
}

/// What the entry of an import name table at `at` says. An import by name gives an address:
/// that of a 16-bit number, with the name behind it.
pub open spec fn import_at(bytes: Seq<u8>, at: int, wide: bool) -> Import {
    let address = le32(bytes, at);
    if !is_by_name(bytes, at, wide) {
        Import::ByOrdinal(le16(bytes, at) as u16)
    } else if !has_number_at(bytes, address) {
        Import::Unreadable
    } else {
        match text_at(bytes, address + 2) {
            Some(name) => Import::ByName(name),
            None => Import::Unreadable,
        }
    }
}

/// The import name table at an address, entry by entry. `None` where there is none.
pub open spec fn name_table_at(bytes: Seq<u8>, address: int, wide: bool) -> Option<Seq<Import>> {
    match entries_at(bytes, address, wide) {
        Some((at, count)) => Some(
            Seq::new(count, |i: int| import_at(bytes, entry_place(at, wide, i), wide)),
        ),
        None => None,
    }
}

/// The place and the length of the resources: what their data directory gives, as far as
/// the file stores it. `None` where there are none.
pub open spec fn resource_place(bytes: Seq<u8>, wide: bool) -> Option<(int, int)> {
    match found_at(bytes, directory_address(bytes, wide, 2)) {
        Some((at, end)) => Some((at, lesser(le32(bytes, directory(bytes, wide, 2) + 4), end - at))),
        None => None,
    }
}

/// The resources of a file: their bytes, and the address from which the addresses in them
/// count. `None` where there are none.
pub open spec fn resources_of(bytes: Seq<u8>, wide: bool) -> Option<(Seq<u8>, u32)> {
    match resource_place(bytes, wide) {
        Some((at, length)) => Some(
            (bytes.subrange(at, at + length), directory_address(bytes, wide, 2) as u32),
        ),
        None => None,
    }
}

} // verus!
