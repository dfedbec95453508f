//! How the parts of a file are found, and which files are left out.
use crate::blocks::{
    block_length, even_from, first_block, first_nul, languages_walkable, run_fits,
    string_infos_fit, string_tables_fit, strings_walkable, value_length, var_infos_fit, Step,
    ValueLength,
};
use crate::buffer::{le16, le32, lesser};
use crate::laws::lemma_first_nul;
use crate::pe::{has_dos_header, Import};
use crate::place::{
    descriptors_in_place, entries_in_place, entry_in_place, headers_in_place,
    name_table_in_place, resources_in_place,
};
use crate::sections::{
    found_at, is_end, item_size, items_from, section_count, section_with, takes_in, Item,
};
use crate::tables::{
    directory_address, entries_at, entry_place, import_at, import_table, name_table_at,
    resources_of, text_at,
};
use vstd::prelude::*;

verus! {

/// Where the items end is where the first one stands that ends them.
proof fn lemma_items(bytes: Seq<u8>, at: int, end: int, item: Item, n: nat)
    ensures
        items_from(bytes, at, end, item) == Some(n) <==> {
            &&& at + item_size(item) * (n + 1) <= end
            &&& is_end(bytes, at + item_size(item) * n, item)
            &&& forall|m: int|
                0 <= m < n ==> !#[trigger] is_end(bytes, at + item_size(item) * m, item)
        },
    decreases n,
{
    let size = item_size(item);
    assert(size * 0 == 0);
    assert(size * (n + 1) == size * n + size) by (nonlinear_arith);
    assert(size * n >= 0) by (nonlinear_arith)
        requires
            size > 0,
            n >= 0,
    ;
    if n > 0 {
        let next = at + size;
        lemma_items(bytes, next, end, item, (n - 1) as nat);
        assert(next + size * ((n - 1) + 1) == at + size * (n + 1)) by (nonlinear_arith)
            requires
                next == at + size,
        ;
        assert(next + size * (n - 1) == at + size * n) by (nonlinear_arith)
            requires
                next == at + size,
        ;
        assert forall|m: int| next + size * m == at + #[trigger] (size * (m + 1)) by {
            assert(size * (m + 1) == size * m + size) by (nonlinear_arith);
        }
        if items_from(bytes, at, end, item) == Some(n) {
            assert forall|m: int| 0 <= m < n implies !#[trigger] is_end(
                bytes,
                at + size * m,
                item,
            ) by {
                if m > 0 {
                    assert(next + size * (m - 1) == at + size * m) by (nonlinear_arith)
                        requires
                            next == at + size,
                    ;
                    assert(!is_end(bytes, next + size * (m - 1), item));
                }
            }
        }
        if {
            &&& at + size * (n + 1) <= end
            &&& is_end(bytes, at + size * n, item)
            &&& forall|m: int| 0 <= m < n ==> !#[trigger] is_end(bytes, at + size * m, item)
        } {
            assert(!is_end(bytes, at + size * 0, item));
            assert forall|m: int| 0 <= m < n - 1 implies !#[trigger] is_end(
                bytes,
                next + size * m,
                item,
            ) by {
                assert(next + size * m == at + size * (m + 1)) by (nonlinear_arith)
                    requires
                        next == at + size,
                ;
                assert(!is_end(bytes, at + size * (m + 1), item));
            }
        }
    } else {
        assert(at + size * 0 == at);
    }
}

/// The text at an address starts there, holds no zero, and ends with the first zero, which
/// the file has to store.
pub proof fn law_text_at(bytes: Seq<u8>, address: int, text: Seq<u8>)
    ensures
        text_at(bytes, address) == Some(text) <==> (found_at(bytes, address) matches Some(found)
            && {
            &&& found.0 + text.len() < found.1
            &&& text == bytes.subrange(found.0, found.0 + text.len())
            &&& bytes[found.0 + text.len()] == 0
            &&& forall|m: int| 0 <= m < text.len() ==> #[trigger] bytes[found.0 + m] != 0
        }),
{
    if let Some((at, end)) = found_at(bytes, address) {
        let n = text.len();
        lemma_items(bytes, at, end, Item::Byte, n);
        assert(item_size(Item::Byte) * (n + 1) == n + 1);
        assert(item_size(Item::Byte) * n == n);
        if text_at(bytes, address) == Some(text) {
            let length = items_from(bytes, at, end, Item::Byte)->0;
            lemma_items(bytes, at, end, Item::Byte, length);
            lemma_found(bytes, address);
            assert(bytes.subrange(at, at + length).len() == length);
            assert(items_from(bytes, at, end, Item::Byte) == Some(n));
            assert forall|m: int| 0 <= m < n implies #[trigger] bytes[at + m] != 0 by {
                assert(!is_end(bytes, at + item_size(Item::Byte) * m, Item::Byte));
            }
        }
        if {
            &&& at + n < end
            &&& text == bytes.subrange(at, at + n)
            &&& bytes[at + n] == 0
            &&& forall|m: int| 0 <= m < n ==> #[trigger] bytes[at + m] != 0
        } {
            assert forall|m: int| 0 <= m < n implies !#[trigger] is_end(
                bytes,
                at + item_size(Item::Byte) * m,
                Item::Byte,
            ) by {
                assert(bytes[at + m] != 0);
            }
            assert(items_from(bytes, at, end, Item::Byte) == Some(n));
        }
    }
}

/// What is found lies in the file.
proof fn lemma_found(bytes: Seq<u8>, address: int)
    ensures
        found_at(bytes, address) matches Some(found) ==> 0 <= found.0 <= found.1 <= bytes.len(),
{
    lemma_section(bytes, address, 0);
}

/// The section that is chosen for an address is the first that takes it in.
proof fn lemma_section(bytes: Seq<u8>, address: int, from: int)
    requires
        from >= 0,
    ensures
        section_with(bytes, address, from) matches Some(s) ==> {
            &&& from <= s < section_count(bytes)
            &&& takes_in(bytes, s, address)
            &&& forall|j: int| from <= j < s ==> !#[trigger] takes_in(bytes, j, address)
        },
        section_with(bytes, address, from) is None ==> forall|j: int|
            from <= j < section_count(bytes) ==> !#[trigger] takes_in(bytes, j, address),
    decreases section_count(bytes) - from,
{
    if from < section_count(bytes) && !takes_in(bytes, from, address) {
        lemma_section(bytes, address, from + 1);
    }
}

/// An address is looked up in the first section that takes it in, from the start of the
/// section on and as far as the greater of its two sizes. What is found is at the same
/// distance from the start of the section's data, and ends with that data.
pub proof fn law_found_at(bytes: Seq<u8>, address: int, s: int)
    requires
        address > 0,
        0 <= s < section_count(bytes),
        forall|j: int| 0 <= j < s ==> !#[trigger] takes_in(bytes, j, address),
    ensures
        ({
            let header = le32(bytes, 0x3c) + 24 + le16(bytes, le32(bytes, 0x3c) + 20) + 40 * s;
            let start = le32(bytes, header + 12);
            let size = le32(bytes, header + 8);
            let raw_size = le32(bytes, header + 16);
            let place = le32(bytes, header + 20);
            &&& takes_in(bytes, s, address) <==> start <= address && (address < start + size
                || address < start + raw_size) && start + size < 0x1_0000_0000 && start + raw_size
                < 0x1_0000_0000
            &&& takes_in(bytes, s, address) && place + raw_size < 0x1_0000_0000 && place + raw_size
                <= bytes.len() && address - start <= raw_size ==> found_at(bytes, address) == Some(
                (place + (address - start), place + raw_size),
            )
            &&& takes_in(bytes, s, address) && !(place + raw_size < 0x1_0000_0000 && place
                + raw_size <= bytes.len() && address - start <= raw_size) ==> found_at(
                bytes,
                address,
            ) is None
        }),
{
    lemma_section(bytes, address, 0);
    if takes_in(bytes, s, address) {
        assert(section_with(bytes, address, 0) == Some(s));
    }
}

/// Nothing is found at the address zero, nor at one that no section takes in.
pub proof fn law_not_found(bytes: Seq<u8>, address: int)
    requires
        address == 0 || forall|j: int|
            0 <= j < section_count(bytes) ==> !#[trigger] takes_in(bytes, j, address),
    ensures
        found_at(bytes, address) is None,
{
    lemma_section(bytes, address, 0);
}

/// The import table is what its data directory leads to: as many descriptors as there are
/// before the first one whose fifth number is zero, and of each the fourth number, where the
/// name is, and the first, where the name table is.
pub proof fn law_import_table(bytes: Seq<u8>, wide: bool, n: nat)
    ensures
        ({
            let address = directory_address(bytes, wide, 1);
            (import_table(bytes, wide) matches Some(table) && table.len() == n) <==> (address % 4
                == 0 && (found_at(bytes, address) matches Some(found) && {
                &&& found.0 + 20 * (n + 1) <= found.1
                &&& le32(bytes, found.0 + 20 * n + 16) == 0
                &&& forall|m: int|
                    0 <= m < n ==> le32(bytes, #[trigger] (found.0 + 20 * m) + 16) != 0
            }))
        }),
        import_table(bytes, wide) matches Some(table) ==> forall|i: int|
            #![trigger table[i]]
            0 <= i < table.len() ==> {
                let at = (found_at(bytes, directory_address(bytes, wide, 1))->0).0;
                &&& table[i].0 == le32(bytes, at + 20 * i + 12)
                &&& table[i].1 == le32(bytes, at + 20 * i)
            },
{
    let address = directory_address(bytes, wide, 1);
    if let Some((at, end)) = found_at(bytes, address) {
        lemma_items(bytes, at, end, Item::Descriptor, n);
        if items_from(bytes, at, end, Item::Descriptor) == Some(n) {
            assert forall|m: int| 0 <= m < n implies le32(bytes, #[trigger] (at + 20 * m) + 16)
                != 0 by {
                assert(!is_end(
                    bytes,
                    at + item_size(Item::Descriptor) * m,
                    Item::Descriptor,
                ));
            }
        }
        if forall|m: int| 0 <= m < n ==> le32(bytes, #[trigger] (at + 20 * m) + 16) != 0 {
            assert forall|m: int| 0 <= m < n implies !#[trigger] is_end(
                bytes,
                at + item_size(Item::Descriptor) * m,
                Item::Descriptor,
            ) by {
                let place = at + 20 * m;
                assert(le32(bytes, place + 16) != 0);
            }
        }
    }
}

/// An import name table has as many entries as there are before the first one that is zero.
/// Its address is a multiple of their size.
pub proof fn law_name_table(bytes: Seq<u8>, address: int, wide: bool, n: nat)
    ensures
        wide ==> ((name_table_at(bytes, address, wide) matches Some(table) && table.len() == n)
            <==> (address % 8 == 0 && (found_at(bytes, address) matches Some(found) && {
            &&& found.0 + 8 * (n + 1) <= found.1
            &&& le32(bytes, found.0 + 8 * n) == 0 && le32(bytes, found.0 + 8 * n + 4) == 0
            &&& forall|m: int|
                0 <= m < n ==> le32(bytes, #[trigger] (found.0 + 8 * m)) != 0 || le32(
                    bytes,
                    found.0 + 8 * m + 4,
                ) != 0
        }))),
        !wide ==> ((name_table_at(bytes, address, wide) matches Some(table) && table.len() == n)
            <==> (address % 4 == 0 && (found_at(bytes, address) matches Some(found) && {
            &&& found.0 + 4 * (n + 1) <= found.1
            &&& le32(bytes, found.0 + 4 * n) == 0
            &&& forall|m: int| 0 <= m < n ==> le32(bytes, #[trigger] (found.0 + 4 * m)) != 0
        }))),
        name_table_at(bytes, address, wide) matches Some(table) ==> forall|i: int|
            #![trigger table[i]]
            0 <= i < table.len() ==> {
                let at = (found_at(bytes, address)->0).0;
                table[i] == import_at(
                    bytes,
                    if wide {
                        at + 8 * i
                    } else {
                        at + 4 * i
                    },
                    wide,
                )
            },
{
    if let Some((at, end)) = found_at(bytes, address) {
        let item = if wide {
            Item::Wide
        } else {
            Item::Narrow
        };
        lemma_items(bytes, at, end, item, n);
        if items_from(bytes, at, end, item) == Some(n) {
            if wide {
                assert forall|m: int| 0 <= m < n implies le32(bytes, #[trigger] (at + 8 * m)) != 0
                    || le32(bytes, at + 8 * m + 4) != 0 by {
                    assert(!is_end(bytes, at + item_size(item) * m, item));
                }
            } else {
                assert forall|m: int| 0 <= m < n implies le32(bytes, #[trigger] (at + 4 * m))
                    != 0 by {
                    assert(!is_end(bytes, at + item_size(item) * m, item));
                }
            }
        }
        if wide && forall|m: int|
            0 <= m < n ==> le32(bytes, #[trigger] (at + 8 * m)) != 0 || le32(bytes, at + 8 * m + 4)
                != 0 {
            assert forall|m: int| 0 <= m < n implies !#[trigger] is_end(
                bytes,
                at + item_size(item) * m,
                item,
            ) by {
                let place = at + 8 * m;
            }
        }
        if !wide && forall|m: int| 0 <= m < n ==> le32(bytes, #[trigger] (at + 4 * m)) != 0 {
            assert forall|m: int| 0 <= m < n implies !#[trigger] is_end(
                bytes,
                at + item_size(item) * m,
                item,
            ) by {
                let place = at + 4 * m;
            }
        }
    }
}

/// An entry of an import name table with its top bit set imports by number. Any other one
/// imports by the name that stands two bytes behind its address, and cannot be read where
/// that address is odd or gives fewer than two bytes, or where there is no name.
pub proof fn law_import_at(bytes: Seq<u8>, at: int, wide: bool)
    ensures
        ({
            let address = le32(bytes, at);
            let top = le32(
                bytes,
                if wide {
                    at + 4
                } else {
                    at
                },
            );
            let readable = address % 2 == 0 && (found_at(bytes, address) matches Some(found)
                && found.1 - found.0 >= 2) && text_at(bytes, address + 2) is Some;
            &&& top >= 0x8000_0000 ==> import_at(bytes, at, wide) == Import::ByOrdinal(
                le16(bytes, at) as u16,
            )
            &&& top < 0x8000_0000 && readable ==> import_at(bytes, at, wide) == Import::ByName(
                text_at(bytes, address + 2)->0,
            )
            &&& top < 0x8000_0000 && !readable ==> import_at(bytes, at, wide) == Import::Unreadable
        }),
{
}

/// The resources start where the third data directory leads to, and are as long as it says or
/// as the file stores, whichever is less.
pub proof fn law_resources_of(bytes: Seq<u8>, wide: bool)
    ensures
        ({
            let address = directory_address(bytes, wide, 2);
            let size = le32(
                bytes,
                le32(bytes, 0x3c) + 24 + (if wide {
                    112int
                } else {
                    96
                }) + 20,
            );
            &&& resources_of(bytes, wide) is Some <==> found_at(bytes, address) is Some
            &&& found_at(bytes, address) matches Some(found) ==> {
                let r = resources_of(bytes, wide)->0;
                &&& r.1 == address
                &&& size <= found.1 - found.0 ==> r.0 == bytes.subrange(found.0, found.0 + size)
                &&& size > found.1 - found.0 ==> r.0 == bytes.subrange(found.0, found.1)
            }
        }),
{
}

/// A data directory gives an address only where the headers count it among theirs.
pub proof fn law_directories(bytes: Seq<u8>, wide: bool, index: int)
    requires
        0 <= index < 16,
    ensures
        ({
            let optional = le32(bytes, 0x3c) + 24;
            let fixed = if wide {
                112int
            } else {
                96
            };
            let count = le32(bytes, optional + fixed - 4);
            &&& count > index ==> directory_address(bytes, wide, index) == le32(
                bytes,
                optional + fixed + 8 * index,
            )
            &&& count <= index ==> directory_address(bytes, wide, index) == 0
        }),
{
}

/// What is found at an address starts at a multiple of a number, or there are too few bytes of
/// it to be read. The section headers, which are looked through for the address, start at a
/// multiple of four.
pub open spec fn can_be_read(bytes: Seq<u8>, address: int, unit: int, size: int) -> bool {
    address == 0 || address % unit != 0 || {
        &&& (le32(bytes, 0x3c) + 24 + le16(bytes, le32(bytes, 0x3c) + 20)) % 4 == 0
        &&& found_at(bytes, address) matches Some(found) ==> found.1 - found.0 < size || found.0
            % unit == 0
    }
}

/// The number before the name that an entry of an import name table gives can be read. An
/// entry with its top bit set gives none.
pub open spec fn entry_can_be_read(bytes: Seq<u8>, start: int, wide: bool, i: int) -> bool {
    if wide {
        le32(bytes, start + 8 * i + 4) < 0x8000_0000 ==> can_be_read(
            bytes,
            le32(bytes, start + 8 * i),
            2,
            2,
        )
    } else {
        le32(bytes, start + 4 * i) < 0x8000_0000 ==> can_be_read(
            bytes,
            le32(bytes, start + 4 * i),
            2,
            2,
        )
    }
}

/// What has to lie in its place is what is read: headers of 64 bits at a multiple of eight;
/// import descriptors at a multiple of four; the entries of an import name table at one of
/// their size, and the number before each name that it gives at one of two; and resources
/// that are long enough for a directory at one of four.
pub proof fn law_places(bytes: Seq<u8>, wide: bool, address: int)
    ensures
        headers_in_place(bytes) <==> (has_dos_header(bytes, true) ==> le32(bytes, 0x3c) % 8 == 0),
        descriptors_in_place(bytes, wide) <==> can_be_read(
            bytes,
            directory_address(bytes, wide, 1),
            4,
            20,
        ),
        name_table_in_place(bytes, address, wide) <==> {
            &&& wide ==> can_be_read(bytes, address, 8, 8)
            &&& !wide ==> can_be_read(bytes, address, 4, 4)
            &&& name_table_at(bytes, address, wide) matches Some(table) ==> forall|i: int|
                0 <= i < table.len() ==> #[trigger] entry_can_be_read(
                    bytes,
                    (found_at(bytes, address)->0).0,
                    wide,
                    i,
                )
        },
        resources_in_place(bytes, wide) <==> {
            let at = directory_address(bytes, wide, 2);
            at == 0 || {
                &&& (le32(bytes, 0x3c) + 24 + le16(bytes, le32(bytes, 0x3c) + 20)) % 4 == 0
                &&& resources_of(bytes, wide) matches Some(r) ==> r.0.len() < 16 || (found_at(
                    bytes,
                    at,
                )->0).0 % 4 == 0
            }
        },
{
    law_not_found(bytes, 0);
    lemma_found(bytes, directory_address(bytes, wide, 2));
    let start = (found_at(bytes, address)->0).0;
    assert forall|i: int| #[trigger] entry_can_be_read(bytes, start, wide, i) <==> entry_in_place(
        bytes,
        entry_place(start, wide, i),
        wide,
    ) by {}
    if let Some(table) = name_table_at(bytes, address, wide) {
        let count = table.len() as int;
        assert(entries_at(bytes, address, wide) == Some((start, count as nat)));
        if entries_in_place(bytes, start, count, wide) {
            assert forall|i: int| 0 <= i < count implies #[trigger] entry_can_be_read(
                bytes,
                start,
                wide,
                i,
            ) by {
                assert(entry_in_place(bytes, entry_place(start, wide, i), wide));
            }
        }
        if forall|i: int| 0 <= i < count ==> #[trigger] entry_can_be_read(bytes, start, wide, i) {
            assert forall|i: int| 0 <= i < count implies #[trigger] entry_in_place(
                bytes,
                entry_place(start, wide, i),
                wide,
            ) by {
                assert(entry_can_be_read(bytes, start, wide, i));
            }
        }
    }
}

/// Some run of the words starts with a block that has no room for the padding behind its key.
pub open spec fn has_overrun(words: Seq<u16>) -> bool {
    exists|i: int, j: int, unit: ValueLength|
        0 <= i <= j <= words.len() && #[trigger] first_block(words.subrange(i, j), unit) is Overrun
}

/// The parts of a block are runs of its words.
proof fn lemma_block_parts(words: Seq<u16>, unit: ValueLength)
    ensures
        first_block(words, unit) matches Step::Block { key, children, rest } ==> {
            &&& rest.len() < words.len()
            &&& exists|i: int, j: int|
                0 <= i <= j <= words.len() && children == #[trigger] words.subrange(i, j)
            &&& exists|i: int, j: int|
                0 <= i <= j <= words.len() && rest == #[trigger] words.subrange(i, j)
        },
        first_block(words, unit) is Overrun ==> has_overrun(words),
{
    if first_block(words, unit) is Overrun {
        assert(words.subrange(0, words.len() as int) =~= words);
        assert(first_block(words.subrange(0, words.len() as int), unit) is Overrun);
    }
    if let Step::Block { key, children, rest } = first_block(words, unit) {
        let length = block_length(words);
        let key_length = first_nul(words.subrange(3, length));
        lemma_first_nul(words.subrange(3, length));
        let body = even_from(key_length) + 4;
        let value = value_length(words, unit);
        let skipped = lesser(even_from(value), length - body);
        assert(children == words.subrange(body + skipped, length));
        let next = lesser(even_from(length), words.len() as int);
        assert(rest =~= words.subrange(next, words.len() as int));
    }
}

/// A run of a run of words is a run of the words.
proof fn lemma_overrun_within(words: Seq<u16>, part: Seq<u16>)
    requires
        exists|i: int, j: int|
            0 <= i <= j <= words.len() && part == #[trigger] words.subrange(i, j),
        has_overrun(part),
    ensures
        has_overrun(words),
{
    let (i, j) = choose|i: int, j: int|
        0 <= i <= j <= words.len() && part == #[trigger] words.subrange(i, j);
    let (a, b, unit) = choose|a: int, b: int, unit: ValueLength|
        0 <= a <= b <= part.len() && #[trigger] first_block(part.subrange(a, b), unit) is Overrun;
    assert(part.subrange(a, b) =~= words.subrange(i + a, i + b));
    assert(first_block(words.subrange(i + a, i + b), unit) is Overrun);
}

/// A run of blocks without an overrun fits.
proof fn lemma_run_fits(words: Seq<u16>, unit: ValueLength)
    ensures
        !run_fits(words, unit) ==> has_overrun(words),
    decreases words.len(),
{
    lemma_block_parts(words, unit);
    if let Step::Block { key, children, rest } = first_block(words, unit) {
        lemma_run_fits(rest, unit);
        if has_overrun(rest) {
            lemma_overrun_within(words, rest);
        }
    }
}

/// A walk for the languages without an overrun fits.
proof fn lemma_var_infos_fit(words: Seq<u16>)
    ensures
        !var_infos_fit(words) ==> has_overrun(words),
    decreases words.len(),
{
    lemma_block_parts(words, ValueLength::Zero);
    if let Step::Block { key, children, rest } = first_block(words, ValueLength::Zero) {
        lemma_run_fits(children, ValueLength::Bytes);
        lemma_var_infos_fit(rest);
        if has_overrun(children) {
            lemma_overrun_within(words, children);
        }
        if has_overrun(rest) {
            lemma_overrun_within(words, rest);
        }
    }
}

/// A walk over tables of strings without an overrun fits.
proof fn lemma_string_tables_fit(words: Seq<u16>, language: (u16, u16))
    ensures
        !string_tables_fit(words, language) ==> has_overrun(words),
    decreases words.len(),
{
    lemma_block_parts(words, ValueLength::Zero);
    if let Step::Block { key, children, rest } = first_block(words, ValueLength::Zero) {
        lemma_run_fits(children, ValueLength::Words);
        lemma_string_tables_fit(rest, language);
        if has_overrun(children) {
            lemma_overrun_within(words, children);
        }
        if has_overrun(rest) {
            lemma_overrun_within(words, rest);
        }
    }
}

/// A walk for strings without an overrun fits.
proof fn lemma_string_infos_fit(words: Seq<u16>, language: (u16, u16))
    ensures
        !string_infos_fit(words, language) ==> has_overrun(words),
    decreases words.len(),
{
    lemma_block_parts(words, ValueLength::Zero);
    if let Step::Block { key, children, rest } = first_block(words, ValueLength::Zero) {
        lemma_string_tables_fit(children, language);
        lemma_string_infos_fit(rest, language);
        if has_overrun(children) {
            lemma_overrun_within(words, children);
        }
        if has_overrun(rest) {
            lemma_overrun_within(words, rest);
        }
    }
}

/// Version information is left out only where some block in it has no room for the padding
/// behind its key.
pub proof fn law_left_out_version(words: Seq<u16>, language: (u16, u16))
    requires
        !languages_walkable(words) || !strings_walkable(words, language),
    ensures
        has_overrun(words),
{
    lemma_block_parts(words, ValueLength::Bytes);
    if let Step::Block { key, children, rest } = first_block(words, ValueLength::Bytes) {
        lemma_var_infos_fit(children);
        lemma_string_infos_fit(children, language);
        if has_overrun(children) {
            lemma_overrun_within(words, children);
        }
    }
}

} // verus!
