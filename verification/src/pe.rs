//! The PE file format, as `pelite` reads it.
//!
//! The values of `pelite`'s own types are opaque here. Each has a name for what it
//! stands for in plain values, and what a call on it returns is stated over those.
//!
//! `pelite` reads numbers in place, so it matters where bytes lie in memory. A file is
//! only ever opened in memory of eight-byte numbers, which starts at a multiple of eight,
//! and only what lies in its place there is read: built with debug assertions, `pelite`
//! panics on the rest. All that is read then depends on the bytes of the file alone. What
//! is stated holds on a machine that stores numbers low byte first, as the format does, and
//! keeps eight-byte numbers at multiples of eight.
use crate::blocks::{languages_walkable, strings_walkable};
use crate::buffer::{le16, le32, stored};
use crate::place::{
    descriptors_in_place, headers_in_place, name_table_in_place, resources_in_place,
    sections_in_place,
};
use crate::sections::{section_count, section_header};
use crate::tables::{import_table, name_table_at, resources_of, text_at};
use crate::types::text_in;
use pelite::pe32;
use pelite::pe32::Pe as _;
use pelite::pe64;
use pelite::pe64::Pe as _;
use pelite::resources::version_info::{Language, VersionInfo};
use pelite::resources::{Directory, Name, Resources};
use vstd::prelude::*;

verus! {

/// A file that `pelite::pe64` has opened.
#[verifier::external_type_specification]
#[verifier::external_body]
pub struct ExPeFile64<'a>(pe64::PeFile<'a>);

/// A file that `pelite::pe32` has opened.
#[verifier::external_type_specification]
#[verifier::external_body]
pub struct ExPeFile32<'a>(pe32::PeFile<'a>);

/// An import descriptor of a 64-bit file.
#[verifier::external_type_specification]
#[verifier::external_body]
#[verifier::reject_recursive_types(P)]
pub struct ExDesc64<'a, P>(pe64::imports::Desc<'a, P>);

/// An import descriptor of a 32-bit file.
#[verifier::external_type_specification]
#[verifier::external_body]
#[verifier::reject_recursive_types(P)]
pub struct ExDesc32<'a, P>(pe32::imports::Desc<'a, P>);

/// The resources of a file.
#[verifier::external_type_specification]
#[verifier::external_body]
pub struct ExResources<'a>(Resources<'a>);

/// A directory of resources.
#[verifier::external_type_specification]
#[verifier::external_body]
pub struct ExDirectory<'a>(Directory<'a>);

/// The version information among the resources.
#[verifier::external_type_specification]
#[verifier::external_body]
pub struct ExVersionInfo<'a>(VersionInfo<'a>);

/// Where the PE headers start, according to the DOS header.
pub open spec fn pe_offset(bytes: Seq<u8>) -> int {
    le32(bytes, 0x3c)
}

/// The size of the optional header without its data directories.
pub open spec fn optional_header_size(wide: bool) -> int {
    if wide {
        112
    } else {
        96
    }
}

/// The number of data directories that the headers hold: what they say, but sixteen
/// at most.
pub open spec fn directory_count(bytes: Seq<u8>, wide: bool) -> int {
    let count = le32(bytes, pe_offset(bytes) + 24 + optional_header_size(wide) - 4);
    if count <= 16 {
        count
    } else {
        16
    }
}

/// There is a DOS header, and it points to where PE headers of 64 or 32 bits fit in.
pub open spec fn has_dos_header(bytes: Seq<u8>, wide: bool) -> bool {
    &&& bytes.len() >= 64
    &&& le16(bytes, 0) == 0x5a4d
    &&& pe_offset(bytes) % 4 == 0
    &&& pe_offset(bytes) <= 0x100_0000
    &&& pe_offset(bytes) + 24 + optional_header_size(wide) <= bytes.len()
}

/// The headers are those of a PE file, of 64 bits where `wide` holds and of 32 bits
/// where it does not.
pub open spec fn has_headers(bytes: Seq<u8>, wide: bool) -> bool {
    let pe = pe_offset(bytes);
    let optional = pe + 24;
    let directories = optional + optional_header_size(wide);
    let size_of_image = le32(bytes, optional + 56);
    let size_of_headers = le32(bytes, optional + 60);
    &&& has_dos_header(bytes, wide)
    &&& le32(bytes, pe) == 0x4550
    &&& le16(bytes, optional) == (if wide { 0x20bint } else { 0x10b })
    &&& size_of_headers <= bytes.len()
    &&& size_of_headers <= size_of_image
    &&& directories + 8 * directory_count(bytes, wide) <= bytes.len()
    &&& section_count(bytes) <= 96
    &&& section_header(bytes, section_count(bytes)) <= bytes.len()
}

/// The subsystem number in the headers.
pub open spec fn subsystem_number(bytes: Seq<u8>) -> int {
    le16(bytes, pe_offset(bytes) + 24 + 68)
}

/// The bytes of a 64-bit file.
pub uninterp spec fn file64_bytes(file: pe64::PeFile<'_>) -> Seq<u8>;

/// The bytes of a 32-bit file.
pub uninterp spec fn file32_bytes(file: pe32::PeFile<'_>) -> Seq<u8>;

/// `pelite::pe64::PeFile::from_bytes`, on the first `length` bytes of the memory of
/// `words` as `dataview::bytes` gives them: those with the headers of a 64-bit file are
/// opened, and no others. The file holds the bytes it is made from. Headers that would not
/// lie at a multiple of eight are left out.
#[verifier::external_body]
pub(crate) fn open64<'a>(words: &'a [u64], length: usize) -> (file: Option<pe64::PeFile<'a>>)
    requires
        length <= 8 * words@.len(),
        headers_in_place(stored(words@).take(length as int)),
    ensures
        file is Some <==> has_headers(stored(words@).take(length as int), true),
        file matches Some(f) ==> file64_bytes(f) == stored(words@).take(length as int),
{
    pe64::PeFile::from_bytes(&dataview::bytes(words)[..length]).ok()
}

/// `pelite::pe32::PeFile::from_bytes`: as `open64`, for 32-bit files, whose headers may lie
/// at any multiple of four.
#[verifier::external_body]
pub(crate) fn open32<'a>(words: &'a [u64], length: usize) -> (file: Option<pe32::PeFile<'a>>)
    requires
        length <= 8 * words@.len(),
    ensures
        file is Some <==> has_headers(stored(words@).take(length as int), false),
        file matches Some(f) ==> file32_bytes(f) == stored(words@).take(length as int),
{
    pe32::PeFile::from_bytes(&dataview::bytes(words)[..length]).ok()
}

/// `pelite::pe64::Pe::optional_header`: its field `Subsystem` is the number that the
/// headers of the file hold.
#[verifier::external_body]
pub(crate) fn subsystem64(file: &pe64::PeFile<'_>) -> (number: u16)
    ensures
        number == subsystem_number(file64_bytes(*file)),
{
    file.optional_header().Subsystem
}

/// `pelite::pe32::Pe::optional_header`: as `subsystem64`, for 32-bit files.
#[verifier::external_body]
pub(crate) fn subsystem32(file: &pe32::PeFile<'_>) -> (number: u16)
    ensures
        number == subsystem_number(file32_bytes(*file)),
{
    file.optional_header().Subsystem
}

/// The bytes in an optional byte string.
pub open spec fn bytes_in(bytes: Option<Vec<u8>>) -> Option<Seq<u8>> {
    match bytes {
        Some(b) => Some(b@),
        None => None,
    }
}

/// An entry of an import name table.
#[derive(Debug)]
pub enum ImportEntry {
    /// A function that is imported by its name.
    ByName(Vec<u8>),
    /// A function that is imported by its number.
    ByOrdinal(u16),
    /// An entry that cannot be read.
    Unreadable,
}

/// What an `ImportEntry` says.
pub enum Import {
    ByName(Seq<u8>),
    ByOrdinal(u16),
    Unreadable,
}

impl View for ImportEntry {
    type V = Import;

    open spec fn view(&self) -> Import {
        match *self {
            ImportEntry::ByName(name) => Import::ByName(name@),
            ImportEntry::ByOrdinal(number) => Import::ByOrdinal(number),
            ImportEntry::Unreadable => Import::Unreadable,
        }
    }
}

/// What the entries of a table say.
pub open spec fn imports_in(entries: Seq<ImportEntry>) -> Seq<Import> {
    entries.map_values(|e: ImportEntry| e@)
}

/// What the entries of an optional table say.
pub open spec fn entries_in(entries: Option<Vec<ImportEntry>>) -> Option<Seq<Import>> {
    match entries {
        Some(e) => Some(imports_in(e@)),
        None => None,
    }
}

/// An import descriptor of a 64-bit file in plain values: the bytes of the file, the
/// address of the DLL's name and that of the import name table.
pub uninterp spec fn desc64_parts(
    desc: pe64::imports::Desc<'_, pe64::PeFile<'_>>,
) -> (Seq<u8>, u32, u32);

/// `pelite::pe64::Pe::imports`, with the descriptors that `Imports::iter` gives: they
/// are those of the file's import table, in its order, and keep to the file's bytes.
#[verifier::external_body]
pub(crate) fn imports64<'a>(file: &pe64::PeFile<'a>) -> (descs: Option<
    Vec<pe64::imports::Desc<'a, pe64::PeFile<'a>>>,
>)
    requires
        descriptors_in_place(file64_bytes(*file), true),
    ensures
        descs is None <==> import_table(file64_bytes(*file), true) is None,
        descs matches Some(v) ==> v@.len() == import_table(file64_bytes(*file), true)->0.len(),
        descs matches Some(v) ==> forall|i: int|
            0 <= i < v@.len() ==> #[trigger] desc64_parts(v@[i]) == (
                file64_bytes(*file),
                import_table(file64_bytes(*file), true)->0[i].0,
                import_table(file64_bytes(*file), true)->0[i].1,
            ),
{
    file.imports().ok().map(|imports| imports.iter().collect())
}

/// `pelite::pe64::imports::Desc::dll_name`: the text at the address of the name.
#[verifier::external_body]
pub(crate) fn dll_name64(desc: &pe64::imports::Desc<'_, pe64::PeFile<'_>>) -> (name: Option<
    Vec<u8>,
>)
    requires
        sections_in_place(desc64_parts(*desc).0, desc64_parts(*desc).1 as int),
    ensures
        bytes_in(name) == text_at(desc64_parts(*desc).0, desc64_parts(*desc).1 as int),
{
    desc.dll_name().ok().map(|name| name.as_ref().to_vec())
}

/// `pelite::pe64::imports::Desc::int`: the table at the descriptor's address, entry by
/// entry. The numbers in it, and those before the names that it gives, lie in their places.
#[verifier::external_body]
pub(crate) fn name_table64(desc: &pe64::imports::Desc<'_, pe64::PeFile<'_>>) -> (table: Option<
    Vec<ImportEntry>,
>)
    requires
        name_table_in_place(desc64_parts(*desc).0, desc64_parts(*desc).2 as int, true),
    ensures
        entries_in(table) == name_table_at(
            desc64_parts(*desc).0,
            desc64_parts(*desc).2 as int,
            true,
        ),
{
    match desc.int() {
        Ok(table) => Some(table.map(|import| match import {
            Ok(pe64::imports::Import::ByName { name, .. }) => {
                ImportEntry::ByName(name.as_ref().to_vec())
            },
            Ok(pe64::imports::Import::ByOrdinal { ord }) => ImportEntry::ByOrdinal(ord),
            Err(_) => ImportEntry::Unreadable,
        }).collect()),
        Err(_) => None,
    }
}

/// An import descriptor of a 32-bit file in plain values: the bytes of the file, the
/// address of the DLL's name and that of the import name table.
pub uninterp spec fn desc32_parts(
    desc: pe32::imports::Desc<'_, pe32::PeFile<'_>>,
) -> (Seq<u8>, u32, u32);

/// `pelite::pe32::Pe::imports`, with the descriptors that `Imports::iter` gives: they
/// are those of the file's import table, in its order, and keep to the file's bytes.
#[verifier::external_body]
pub(crate) fn imports32<'a>(file: &pe32::PeFile<'a>) -> (descs: Option<
    Vec<pe32::imports::Desc<'a, pe32::PeFile<'a>>>,
>)
    requires
        descriptors_in_place(file32_bytes(*file), false),
    ensures
        descs is None <==> import_table(file32_bytes(*file), false) is None,
        descs matches Some(v) ==> v@.len() == import_table(file32_bytes(*file), false)->0.len(),
        descs matches Some(v) ==> forall|i: int|
            0 <= i < v@.len() ==> #[trigger] desc32_parts(v@[i]) == (
                file32_bytes(*file),
                import_table(file32_bytes(*file), false)->0[i].0,
                import_table(file32_bytes(*file), false)->0[i].1,
            ),
{
    file.imports().ok().map(|imports| imports.iter().collect())
}

/// `pelite::pe32::imports::Desc::dll_name`: the text at the address of the name.
#[verifier::external_body]
pub(crate) fn dll_name32(desc: &pe32::imports::Desc<'_, pe32::PeFile<'_>>) -> (name: Option<
    Vec<u8>,
>)
    requires
        sections_in_place(desc32_parts(*desc).0, desc32_parts(*desc).1 as int),
    ensures
        bytes_in(name) == text_at(desc32_parts(*desc).0, desc32_parts(*desc).1 as int),
{
    desc.dll_name().ok().map(|name| name.as_ref().to_vec())
}

/// `pelite::pe32::imports::Desc::int`: as `name_table64`, for 32-bit files.
#[verifier::external_body]
pub(crate) fn name_table32(desc: &pe32::imports::Desc<'_, pe32::PeFile<'_>>) -> (table: Option<
    Vec<ImportEntry>,
>)
    requires
        name_table_in_place(desc32_parts(*desc).0, desc32_parts(*desc).2 as int, false),
    ensures
        entries_in(table) == name_table_at(
            desc32_parts(*desc).0,
            desc32_parts(*desc).2 as int,
            false,
        ),
{
    match desc.int() {
        Ok(table) => Some(table.map(|import| match import {
            Ok(pe32::imports::Import::ByName { name, .. }) => {
                ImportEntry::ByName(name.as_ref().to_vec())
            },
            Ok(pe32::imports::Import::ByOrdinal { ord }) => ImportEntry::ByOrdinal(ord),
            Err(_) => ImportEntry::Unreadable,
        }).collect()),
        Err(_) => None,
    }
}

/// Optional resources in plain values.
pub open spec fn parts_in(resources: Option<Resources<'_>>) -> Option<(Seq<u8>, u32)> {
    match resources {
        Some(r) => Some(resource_parts(r)),
        None => None,
    }
}

/// The resources of a file in plain values: their bytes, and the address from which the
/// addresses in them count.
pub uninterp spec fn resource_parts(resources: Resources<'_>) -> (Seq<u8>, u32);

/// `pelite::pe64::Pe::resources`: the part of the file that the data directory of the
/// resources gives.
#[verifier::external_body]
pub(crate) fn resources64<'a>(file: &pe64::PeFile<'a>) -> (resources: Option<Resources<'a>>)
    requires
        resources_in_place(file64_bytes(*file), true),
    ensures
        parts_in(resources) == resources_of(file64_bytes(*file), true),
{
    file.resources().ok()
}

/// `pelite::pe32::Pe::resources`: as `resources64`, for 32-bit files.
#[verifier::external_body]
pub(crate) fn resources32<'a>(file: &pe32::PeFile<'a>) -> (resources: Option<Resources<'a>>)
    requires
        resources_in_place(file32_bytes(*file), false),
    ensures
        parts_in(resources) == resources_of(file32_bytes(*file), false),
{
    file.resources().ok()
}

/// The number of entries that the root directory of resources announces.
pub open spec fn root_count(bytes: Seq<u8>) -> int {
    le16(bytes, 12) + le16(bytes, 14)
}

/// The resources hold their root directory whole.
pub open spec fn has_root(bytes: Seq<u8>) -> bool {
    bytes.len() >= 16 && 8 * root_count(bytes) <= bytes.len() - 16
}

/// The entries of the root directory: the number of one that has a number, `None` for
/// one with a name.
pub open spec fn root_ids(bytes: Seq<u8>) -> Seq<Option<u32>> {
    Seq::new(
        root_count(bytes) as nat,
        |i: int|
            {
                let name = le32(bytes, 16 + 8 * i);
                if name < 0x8000_0000 {
                    Some(name as u32)
                } else {
                    None
                }
            },
    )
}

/// The entries of a directory: the number of one that has a number, `None` for one with
/// a name.
pub uninterp spec fn directory_ids(directory: Directory<'_>) -> Seq<Option<u32>>;

/// `pelite::resources::Resources::root`: the root directory, where the resources hold it
/// whole.
#[verifier::external_body]
pub(crate) fn root<'a>(resources: &Resources<'a>) -> (directory: Option<Directory<'a>>)
    ensures
        directory is Some <==> has_root(resource_parts(*resources).0),
        directory matches Some(d) ==> directory_ids(d) == root_ids(resource_parts(*resources).0),
{
    resources.root().ok()
}

/// `pelite::resources::Directory::entries`, with the name that `DirectoryEntry::name`
/// gives of each: an entry without a number has `None`.
#[verifier::external_body]
pub(crate) fn entry_ids(directory: &Directory<'_>) -> (ids: Vec<Option<u32>>)
    ensures
        ids@ == directory_ids(*directory),
{
    directory.entries().map(|entry| match entry.name() {
        Ok(Name::Id(id)) => Some(id),
        Ok(Name::Wide(_)) => None,
        Ok(Name::Str(_)) => None,
        Err(_) => None,
    }).collect()
}

/// The bytes of the version resource, among resources of these bytes and this address.
/// `None` where there is none.
pub uninterp spec fn version_resource(bytes: Seq<u8>, address: u32) -> Option<Seq<u8>>;

/// `pelite::resources::Resources::find_resource` for the first version resource.
#[verifier::external_body]
pub(crate) fn find_version(resources: &Resources<'_>) -> (bytes: Option<Vec<u8>>)
    ensures
        bytes_in(bytes) == version_resource(
            resource_parts(*resources).0,
            resource_parts(*resources).1,
        ),
{
    resources.find_resource(&[Name::VERSION, Name::Id(1)]).ok().map(|bytes| bytes.to_vec())
}

/// The 16-bit numbers that bytes hold, low byte first. An odd last byte is left out.
pub open spec fn words_in(bytes: Seq<u8>) -> Seq<u16> {
    Seq::new(bytes.len() / 2, |i: int| le16(bytes, 2 * i) as u16)
}

/// The words of version information.
pub uninterp spec fn version_words(version: VersionInfo<'_>) -> Seq<u16>;

/// The words of the version information among resources with these parts. `None` where
/// there is none.
pub uninterp spec fn version_info_of(bytes: Seq<u8>, address: u32) -> Option<Seq<u16>>;

/// `pelite::resources::Resources::version_info`: the version information is the version
/// resource, read as words. There is some only where there is that resource, and so only
/// where the root directory lists its type, which is sixteen; that the resource also has to
/// start at a multiple of four is not stated.
#[verifier::external_body]
pub(crate) fn version_info<'a>(resources: &Resources<'a>) -> (version: Option<VersionInfo<'a>>)
    ensures
        version is None <==> version_info_of(
            resource_parts(*resources).0,
            resource_parts(*resources).1,
        ) is None,
        version matches Some(v) ==> Some(version_words(v)) == version_info_of(
            resource_parts(*resources).0,
            resource_parts(*resources).1,
        ),
        version matches Some(v) ==> (version_resource(
            resource_parts(*resources).0,
            resource_parts(*resources).1,
        ) matches Some(b) && version_words(v) == words_in(b)),
        version is Some ==> has_root(resource_parts(*resources).0) && root_ids(
            resource_parts(*resources).0,
        ).contains(Some(16u32)),
{
    resources.version_info().ok()
}

/// The languages that version information lists: for each the numbers of the language
/// and of the character set.
pub uninterp spec fn languages_in(words: Seq<u16>) -> Seq<(u16, u16)>;

/// `pelite::resources::version_info::VersionInfo::translation`: the words decide the
/// languages. It panics on words that it cannot walk.
#[verifier::external_body]
pub(crate) fn languages(version: &VersionInfo<'_>) -> (languages: Vec<(u16, u16)>)
    requires
        languages_walkable(version_words(*version)),
    ensures
        languages@ == languages_in(version_words(*version)),
{
    version.translation().iter().map(|language| (language.lang_id, language.charset_id)).collect()
}

/// The string that version information holds for a language under a key.
pub uninterp spec fn string_in(
    words: Seq<u16>,
    language: (u16, u16),
    key: Seq<char>,
) -> Option<Seq<char>>;

/// `pelite::resources::version_info::VersionInfo::value`: the words, the language and
/// the key decide the string. It panics on words that it cannot walk.
#[verifier::external_body]
pub(crate) fn string_for(version: &VersionInfo<'_>, language: (u16, u16), key: &str) -> (text:
    Option<String>)
    requires
        strings_walkable(version_words(*version), language),
    ensures
        text_in(text) == string_in(version_words(*version), language, key@),
{
    version.value(Language { lang_id: language.0, charset_id: language.1 }, key)
}

} // verus!
