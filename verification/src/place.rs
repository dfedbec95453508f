//! Where the parts of a file have to lie to be read in place.
//!
//! Numbers are read in place only at addresses that are multiples of their size. The memory
//! that a file is opened in starts at a multiple of eight, so the places in the file decide.
//! Only what is read has to lie in its place.
use crate::buffer::{le32, read_le16, read_le32};
use crate::pe::{has_dos_header, has_headers, pe_offset};
use crate::sections::{count_items, found_at, locate, section_header, Item};
use crate::tables::{
    descriptor, descriptors, directory_address, entries_at, entry_place, import_table, is_by_name,
    resource_place, text_at,
};
use vstd::prelude::*;

verus! {

/// PE headers of 64 bits, where the file could have some, start at a multiple of eight.
pub open spec fn headers_in_place(bytes: Seq<u8>) -> bool {
    has_dos_header(bytes, true) ==> pe_offset(bytes) % 8 == 0
}

/// To look an address up the section headers are read, so they start at a multiple of four.
/// The address zero is not looked up.
pub open spec fn sections_in_place(bytes: Seq<u8>, address: int) -> bool {
    address != 0 ==> section_header(bytes, 0) % 4 == 0
}

/// What is read at an address starts at a multiple of `unit` in the file, where numbers of
/// up to `unit` bytes are read, and no fewer than `size` bytes. Nothing is read at an address
/// that is no multiple of `unit`, nor where fewer bytes are stored.
pub open spec fn data_in_place(bytes: Seq<u8>, address: int, unit: int, size: int) -> bool {
    address % unit == 0 ==> {
        &&& sections_in_place(bytes, address)
        &&& match found_at(bytes, address) {
            Some((at, end)) => at + size <= end ==> at % unit == 0,
            None => true,
        }
    }
}

/// The import descriptors lie in their place.
pub open spec fn descriptors_in_place(bytes: Seq<u8>, wide: bool) -> bool {
    data_in_place(bytes, directory_address(bytes, wide, 1), 4, 20)
}

/// An import name table lies in its place, and so do the numbers before the names that it
/// gives.
pub open spec fn name_table_in_place(bytes: Seq<u8>, address: int, wide: bool) -> bool {
    &&& if wide {
        data_in_place(bytes, address, 8, 8)
    } else {
        data_in_place(bytes, address, 4, 4)
    }
    &&& match entries_at(bytes, address, wide) {
        Some((at, count)) => entries_in_place(bytes, at, count as int, wide),
        None => true,
    }
}

/// The numbers before the names that the entries of an import name table give lie in their
/// places.
pub open spec fn entries_in_place(bytes: Seq<u8>, at: int, count: int, wide: bool) -> bool {
    forall|i: int|
        0 <= i < count ==> #[trigger] entry_in_place(bytes, entry_place(at, wide, i), wide)
}

/// The number before the name that an entry of an import name table gives lies in its place.
pub open spec fn entry_in_place(bytes: Seq<u8>, at: int, wide: bool) -> bool {
    is_by_name(bytes, at, wide) ==> data_in_place(bytes, le32(bytes, at), 2, 2)
}

/// The import name table of a descriptor lies in its place. It is read only where the name
/// of the DLL is.
pub open spec fn descriptor_in_place(bytes: Seq<u8>, desc: (u32, u32), wide: bool) -> bool {
    text_at(bytes, desc.0 as int) is Some ==> name_table_in_place(bytes, desc.1 as int, wide)
}

/// All that is read of the imports lies in its place.
pub open spec fn imports_in_place(bytes: Seq<u8>, wide: bool) -> bool {
    &&& descriptors_in_place(bytes, wide)
    &&& match descriptors(bytes, wide) {
        Some((at, count)) => tables_in_place(bytes, at, count as int, wide),
        None => true,
    }
}

/// The import name tables of import descriptors lie in their places.
pub open spec fn tables_in_place(bytes: Seq<u8>, at: int, count: int, wide: bool) -> bool {
    forall|i: int|
        0 <= i < count ==> #[trigger] descriptor_in_place(bytes, descriptor(bytes, at, i), wide)
}

/// The resources start at a multiple of four, where they are long enough for their root
/// directory.
pub open spec fn resources_in_place(bytes: Seq<u8>, wide: bool) -> bool {
    &&& sections_in_place(bytes, directory_address(bytes, wide, 2))
    &&& match resource_place(bytes, wide) {
        Some((at, length)) => length >= 16 ==> at % 4 == 0,
        None => true,
    }
}

/// The descriptors of an import table lie in their places.
pub proof fn lemma_descriptor_in_place(bytes: Seq<u8>, wide: bool, index: int)
    requires
        imports_in_place(bytes, wide),
        import_table(bytes, wide) is Some,
        0 <= index < import_table(bytes, wide)->0.len(),
    ensures
        descriptor_in_place(bytes, import_table(bytes, wide)->0[index], wide),
{
    let at = (descriptors(bytes, wide)->0).0;
    assert(descriptor_in_place(bytes, descriptor(bytes, at, index), wide));
}

/// A file with import descriptors has its section headers in their place, so that any
/// address can be looked up.
pub proof fn lemma_addresses_in_place(bytes: Seq<u8>, wide: bool, address: int)
    requires
        descriptors_in_place(bytes, wide),
        descriptors(bytes, wide) is Some,
    ensures
        sections_in_place(bytes, address),
{
}

/// Whether PE headers of 64 bits, where the file could have some, start at a multiple of
/// eight.
pub fn are_headers_in_place(bytes: &[u8]) -> (fit: bool)
    ensures
        fit == headers_in_place(bytes@),
{
    if bytes.len() < 64 || read_le16(bytes, 0) != 0x5a4d {
        return true;
    }
    let pe: u32 = read_le32(bytes, 0x3c);
    pe % 4 != 0 || pe > 0x100_0000 || pe as usize + 24 + 112 > bytes.len() || pe % 8 == 0
}

/// The address in a data directory.
fn read_directory(bytes: &[u8], wide: bool, index: usize) -> (address: u32)
    requires
        has_headers(bytes@, wide),
        index < 16,
    ensures
        address == directory_address(bytes@, wide, index as int),
{
    let optional: usize = read_le32(bytes, 0x3c) as usize + 24;
    let size: usize = if wide {
        112
    } else {
        96
    };
    let count: u32 = read_le32(bytes, optional + size - 4);
    if count as usize > index {
        read_le32(bytes, optional + size + 8 * index)
    } else {
        0
    }
}

/// Whether the section headers lie in their place.
fn are_sections_in_place(bytes: &[u8]) -> (fit: bool)
    requires
        has_headers(bytes@, true) || has_headers(bytes@, false),
    ensures
        fit == (section_header(bytes@, 0) % 4 == 0),
{
    let pe: usize = read_le32(bytes, 0x3c) as usize;
    (pe + 24 + read_le16(bytes, pe + 20) as usize) % 4 == 0
}

/// Whether what is read at an address lies in its place.
fn is_data_in_place(bytes: &[u8], address: u32, unit: usize, size: usize) -> (fit: bool)
    requires
        has_headers(bytes@, true) || has_headers(bytes@, false),
        unit == 2 || unit == 4 || unit == 8,
        size <= 20,
    ensures
        fit == data_in_place(bytes@, address as int, unit as int, size as int),
{
    if address as usize % unit != 0 || address == 0 {
        return true;
    }
    if !are_sections_in_place(bytes) {
        return false;
    }
    match locate(bytes, address) {
        Some((at, end)) => end - at < size || at % unit == 0,
        None => true,
    }
}

/// Whether the numbers before the names that the entries of an import name table give lie in
/// their places.
fn are_entries_in_place(bytes: &[u8], start: usize, count: usize, wide: bool) -> (fit: bool)
    requires
        has_headers(bytes@, wide),
        entry_place(start as int, wide, count as int) <= bytes.len(),
    ensures
        fit == entries_in_place(bytes@, start as int, count as int, wide),
{
    let mut i: usize = 0;
    while i < count
        invariant
            has_headers(bytes@, wide),
            entry_place(start as int, wide, count as int) <= bytes.len(),
            i <= count,
            forall|j: int|
                0 <= j < i ==> #[trigger] entry_in_place(
                    bytes@,
                    entry_place(start as int, wide, j),
                    wide,
                ),
        decreases count - i,
    {
        let at: usize = if wide {
            start + 8 * i
        } else {
            start + 4 * i
        };
        if !is_entry_in_place(bytes, at, wide) {
            assert(!entry_in_place(bytes@, entry_place(start as int, wide, i as int), wide));
            return false;
        }
        i += 1;
    }
    true
}

/// Whether the number before the name that an entry of an import name table gives lies in
/// its place.
fn is_entry_in_place(bytes: &[u8], at: usize, wide: bool) -> (fit: bool)
    requires
        has_headers(bytes@, wide),
        entry_place(at as int, wide, 1) <= bytes.len(),
    ensures
        fit == entry_in_place(bytes@, at as int, wide),
{
    let high: u32 = if wide {
        read_le32(bytes, at + 4)
    } else {
        read_le32(bytes, at)
    };
    high >= 0x8000_0000 || is_data_in_place(bytes, read_le32(bytes, at), 2, 2)
}

/// Whether an import name table lies in its place, with the numbers before the names that
/// it gives.
pub fn is_name_table_in_place(bytes: &[u8], address: u32, wide: bool) -> (fit: bool)
    requires
        has_headers(bytes@, wide),
    ensures
        fit == name_table_in_place(bytes@, address as int, wide),
{
    let unit: usize = if wide {
        8
    } else {
        4
    };
    if !is_data_in_place(bytes, address, unit, unit) {
        return false;
    }
    if address as usize % unit != 0 {
        return true;
    }
    let (start, end) = match locate(bytes, address) {
        Some(found) => found,
        None => {
            return true;
        },
    };
    let item = if wide {
        Item::Wide
    } else {
        Item::Narrow
    };
    match count_items(bytes, start, end, item) {
        Some(count) => are_entries_in_place(bytes, start, count, wide),
        None => true,
    }
}

/// Whether there is a text at an address.
fn is_text_at(bytes: &[u8], address: u32) -> (found: bool)
    requires
        has_headers(bytes@, true) || has_headers(bytes@, false),
    ensures
        found == (text_at(bytes@, address as int) is Some),
{
    match locate(bytes, address) {
        Some((at, end)) => count_items(bytes, at, end, Item::Byte).is_some(),
        None => false,
    }
}

/// Whether the import name tables of import descriptors lie in their places.
fn are_tables_in_place(bytes: &[u8], start: usize, count: usize, wide: bool) -> (fit: bool)
    requires
        has_headers(bytes@, wide),
        start + 20 * count <= bytes.len(),
    ensures
        fit == tables_in_place(bytes@, start as int, count as int, wide),
{
    let mut i: usize = 0;
    while i < count
        invariant
            has_headers(bytes@, wide),
            start + 20 * count <= bytes.len(),
            i <= count,
            forall|j: int|
                0 <= j < i ==> #[trigger] descriptor_in_place(
                    bytes@,
                    descriptor(bytes@, start as int, j),
                    wide,
                ),
        decreases count - i,
    {
        let table = read_le32(bytes, start + 20 * i);
        let name = read_le32(bytes, start + 20 * i + 12);
        assert(descriptor(bytes@, start as int, i as int) == (name, table));
        if is_text_at(bytes, name) && !is_name_table_in_place(bytes, table, wide) {
            assert(!descriptor_in_place(bytes@, descriptor(bytes@, start as int, i as int), wide));
            return false;
        }
        i += 1;
    }
    true
}

/// Whether all that is read of the imports lies in its place.
pub fn are_imports_in_place(bytes: &[u8], wide: bool) -> (fit: bool)
    requires
        has_headers(bytes@, wide),
    ensures
        fit == imports_in_place(bytes@, wide),
{
    let address = read_directory(bytes, wide, 1);
    if !is_data_in_place(bytes, address, 4, 20) {
        return false;
    }
    if address % 4 != 0 {
        return true;
    }
    let (start, end) = match locate(bytes, address) {
        Some(found) => found,
        None => {
            return true;
        },
    };
    match count_items(bytes, start, end, Item::Descriptor) {
        Some(count) => are_tables_in_place(bytes, start, count, wide),
        None => true,
    }
}

/// Whether the resources lie in their place.
pub fn are_resources_in_place(bytes: &[u8], wide: bool) -> (fit: bool)
    requires
        has_headers(bytes@, wide),
    ensures
        fit == resources_in_place(bytes@, wide),
{
    let address = read_directory(bytes, wide, 2);
    if address == 0 {
        return true;
    }
    if !are_sections_in_place(bytes) {
        return false;
    }
    match locate(bytes, address) {
        Some((at, end)) => {
            let optional: usize = read_le32(bytes, 0x3c) as usize + 24;
            let size: u32 = if wide {
                read_le32(bytes, optional + 112 + 20)
            } else {
                read_le32(bytes, optional + 96 + 20)
            };
            size < 16 || end - at < 16 || at % 4 == 0
        },
        None => true,
    }
}

} // verus!
