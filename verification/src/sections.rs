//! What lies at an address: a file is stored in sections, and addresses count as they do
//! once each section is loaded at its own address.
use crate::buffer::{greater, le16, le32, read_le16, read_le32};
use crate::pe::{has_headers, pe_offset};
use vstd::prelude::*;

verus! {

/// The number of sections.
pub open spec fn section_count(bytes: Seq<u8>) -> int {
    le16(bytes, pe_offset(bytes) + 6)
}

/// Where the header of a section starts.
pub open spec fn section_header(bytes: Seq<u8>, section: int) -> int {
    pe_offset(bytes) + 24 + le16(bytes, pe_offset(bytes) + 20) + 40 * section
}

/// A section takes in an address: the address is none below that of the section, and is
/// below its end. A section whose end is beyond all addresses takes in none.
pub open spec fn takes_in(bytes: Seq<u8>, section: int, address: int) -> bool {
    let header = section_header(bytes, section);
    let start = le32(bytes, header + 12);
    let end = start + greater(le32(bytes, header + 8), le32(bytes, header + 16));
    start <= address < end < 0x1_0000_0000
}

/// The first section from `from` on that takes in an address.
pub open spec fn section_with(bytes: Seq<u8>, address: int, from: int) -> Option<int>
    decreases section_count(bytes) - from,
{
    if from >= section_count(bytes) {
        None
    } else if takes_in(bytes, from, address) {
        Some(from)
    } else {
        section_with(bytes, address, from + 1)
    }
}

/// What the file stores of a section from an address on: the places in the file where it
/// starts and where the section's data ends. `None` where the data does not lie in the file,
/// or does not reach the address.
pub open spec fn stored_from(bytes: Seq<u8>, section: int, address: int) -> Option<(int, int)> {
    let header = section_header(bytes, section);
    let place = le32(bytes, header + 20);
    let end = place + le32(bytes, header + 16);
    let at = place + address - le32(bytes, header + 12);
    if end < 0x1_0000_0000 && end <= bytes.len() && at <= end {
        Some((at, end))
    } else {
        None
    }
}

/// What the file stores from an address on: the places in the file where it starts and
/// where it ends. Nothing is stored at the address zero.
pub open spec fn found_at(bytes: Seq<u8>, address: int) -> Option<(int, int)> {
    if address == 0 {
        None
    } else {
        match section_with(bytes, address, 0) {
            Some(section) => stored_from(bytes, section, address),
            None => None,
        }
    }
}

/// What consecutive items are made of.
#[derive(Debug, Clone, Copy, PartialEq, Eq, Structural)]
pub enum Item {
    /// The bytes of a text, with a zero at its end.
    Byte,
    /// Four-byte numbers, with a zero at their end.
    Narrow,
    /// Eight-byte numbers, with a zero at their end.
    Wide,
    /// Import descriptors, with one at their end whose fifth number is zero.
    Descriptor,
}

/// The size of an item.
pub open spec fn item_size(item: Item) -> int {
    match item {
        Item::Byte => 1,
        Item::Narrow => 4,
        Item::Wide => 8,
        Item::Descriptor => 20,
    }
}

/// The item at `at` is the one that ends the others.
pub open spec fn is_end(bytes: Seq<u8>, at: int, item: Item) -> bool {
    match item {
        Item::Byte => bytes[at] == 0,
        Item::Narrow => le32(bytes, at) == 0,
        Item::Wide => le32(bytes, at) == 0 && le32(bytes, at + 4) == 0,
        Item::Descriptor => le32(bytes, at + 16) == 0,
    }
}

/// The number of items from `at` on, up to the one that ends them. `None` where none does
/// before `end`.
pub open spec fn items_from(bytes: Seq<u8>, at: int, end: int, item: Item) -> Option<nat>
    decreases end - at,
{
    if at + item_size(item) > end {
        None
    } else if is_end(bytes, at, item) {
        Some(0)
    } else {
        match items_from(bytes, at + item_size(item), end, item) {
            Some(more) => Some(more + 1),
            None => None,
        }
    }
}

/// Finds the first section that takes in an address.
fn find_section(bytes: &[u8], address: u32) -> (found: Option<usize>)
    requires
        has_headers(bytes@, true) || has_headers(bytes@, false),
    ensures
        match found {
            Some(section) => section_with(bytes@, address as int, 0) == Some(section as int)
                && section < section_count(bytes@),
            None => section_with(bytes@, address as int, 0) is None,
        },
{
    let pe: usize = read_le32(bytes, 0x3c) as usize;
    let first: usize = pe + 24 + read_le16(bytes, pe + 20) as usize;
    let count: usize = read_le16(bytes, pe + 6) as usize;
    let mut i: usize = 0;
    while i < count
        invariant
            count == section_count(bytes@),
            count <= 96,
            first == section_header(bytes@, 0),
            section_header(bytes@, count as int) <= bytes.len(),
            i <= count,
            section_with(bytes@, address as int, 0) == section_with(
                bytes@,
                address as int,
                i as int,
            ),
        decreases count - i,
    {
        let header: usize = first + 40 * i;
        assert(header == section_header(bytes@, i as int));
        let size: u32 = read_le32(bytes, header + 8);
        let start: u32 = read_le32(bytes, header + 12);
        let raw_size: u32 = read_le32(bytes, header + 16);
        let length: u32 = if size >= raw_size {
            size
        } else {
            raw_size
        };
        let end: u64 = start as u64 + length as u64;
        if start <= address && (address as u64) < end && end < 0x1_0000_0000 {
            return Some(i);
        }
        i += 1;
    }
    None
}

/// Finds what the file stores from an address on.
pub fn locate(bytes: &[u8], address: u32) -> (found: Option<(usize, usize)>)
    requires
        has_headers(bytes@, true) || has_headers(bytes@, false),
    ensures
        match found {
            Some((at, end)) => found_at(bytes@, address as int) == Some((at as int, end as int))
                && at <= end <= bytes.len(),
            None => found_at(bytes@, address as int) is None,
        },
{
    if address == 0 {
        return None;
    }
    let section = match find_section(bytes, address) {
        Some(section) => section,
        None => {
            return None;
        },
    };
    proof {
        lemma_section_with(bytes@, address as int, 0);
    }
    let pe: usize = read_le32(bytes, 0x3c) as usize;
    let header: usize = pe + 24 + read_le16(bytes, pe + 20) as usize + 40 * section;
    assert(header == section_header(bytes@, section as int));
    assert(header + 40 <= section_header(bytes@, section_count(bytes@)));
    let start: u64 = read_le32(bytes, header + 12) as u64;
    let place: u64 = read_le32(bytes, header + 20) as u64;
    let end: u64 = place + read_le32(bytes, header + 16) as u64;
    let at: u64 = place + (address as u64 - start);
    if end < 0x1_0000_0000 && end <= bytes.len() as u64 && at <= end {
        Some((at as usize, end as usize))
    } else {
        None
    }
}

/// The section that takes in an address does take it in.
proof fn lemma_section_with(bytes: Seq<u8>, address: int, from: int)
    ensures
        section_with(bytes, address, from) matches Some(section) ==> takes_in(
            bytes,
            section,
            address,
        ),
    decreases section_count(bytes) - from,
{
    if from < section_count(bytes) && !takes_in(bytes, from, address) {
        lemma_section_with(bytes, address, from + 1);
    }
}

/// Counts the items from `start` on, up to the one that ends them.
pub fn count_items(bytes: &[u8], start: usize, end: usize, item: Item) -> (count: Option<usize>)
    requires
        start <= end <= bytes.len(),
    ensures
        match count {
            Some(n) => items_from(bytes@, start as int, end as int, item) == Some(n as nat)
                && start + item_size(item) * n + item_size(item) <= end,
            None => items_from(bytes@, start as int, end as int, item) is None,
        },
{
    let size: usize = match item {
        Item::Byte => 1,
        Item::Narrow => 4,
        Item::Wide => 8,
        Item::Descriptor => 20,
    };
    let mut at: usize = start;
    let mut count: usize = 0;
    while end - at >= size
        invariant
            start <= at <= end <= bytes.len(),
            size == item_size(item),
            at == start + item_size(item) * count,
            count <= at - start,
            items_from(bytes@, start as int, end as int, item) == (match items_from(
                bytes@,
                at as int,
                end as int,
                item,
            ) {
                Some(more) => Some((count + more) as nat),
                None => None,
            }),
        decreases end - at,
    {
        let ended = match item {
            Item::Byte => bytes[at] == 0,
            Item::Narrow => read_le32(bytes, at) == 0,
            Item::Wide => read_le32(bytes, at) == 0 && read_le32(bytes, at + 4) == 0,
            Item::Descriptor => read_le32(bytes, at + 16) == 0,
        };
        if ended {
            return Some(count);
        }
        proof {
            assert(item_size(item) * (count + 1) == item_size(item) * count + item_size(item))
                by (nonlinear_arith);
        }
        at += size;
        count += 1;
    }
    None
}

} // verus!
