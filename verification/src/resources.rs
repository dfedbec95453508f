//! What the resources of a file say about it.
use crate::blocks::{can_walk_languages, can_walk_strings, languages_walkable, strings_walkable};
use crate::buffer::le16;
use crate::pe::{
    directory_ids, file32_bytes, file64_bytes, has_root, languages_in, parts_in, resource_parts,
    root_ids, string_in, version_info_of, words_in,
};
use crate::pe::{
    entry_ids, find_version, languages, resources32, resources64, root, string_for, version_info,
};
use crate::place::resources_in_place;
use crate::tables::resources_of;
use crate::text::lemma_push_contains;
use crate::types::{version_in, VersionSummary, VersionTexts};
use pelite::pe32;
use pelite::pe64;
use pelite::resources::{Directory, Resources};
use vstd::prelude::*;

verus! {

/// The number of the resource type of dialogs.
pub const DIALOG: u32 = 5;

/// The number of the resource type of version information.
pub const VERSION: u32 = 16;

/// The number of the resource type of icons.
pub const GROUP_ICON: u32 = 14;

/// The number of the resource type of manifests.
pub const MANIFEST: u32 = 24;

/// The types of a file's resources, as its root directory lists them.
pub open spec fn resource_types(resources: Option<(Seq<u8>, u32)>) -> Seq<Option<u32>> {
    match resources {
        Some(r) => if has_root(r.0) {
            root_ids(r.0)
        } else {
            Seq::empty()
        },
        None => Seq::empty(),
    }
}

/// The file lists version information among its resources.
pub open spec fn lists_version(resources: Option<(Seq<u8>, u32)>) -> bool {
    resource_types(resources).contains(Some(VERSION))
}

/// The words of a file's version information. `None` where there is none, or where it cannot
/// be found.
pub open spec fn version_words_of(resources: Option<(Seq<u8>, u32)>) -> Option<Seq<u16>> {
    match resources {
        Some(r) => if lists_version(resources) {
            version_info_of(r.0, r.1)
        } else {
            None
        },
        None => None,
    }
}

/// A summary without any entry.
pub open spec fn empty_summary() -> VersionTexts {
    VersionTexts {
        original_filename: None,
        file_description: None,
        company_name: None,
        product_name: None,
        file_version: None,
    }
}

/// The summary of version information: its entries in the first language it lists. Where it
/// lists none, there are no entries.
pub open spec fn summary_of(words: Seq<u16>) -> VersionTexts {
    if languages_in(words).len() == 0 {
        empty_summary()
    } else {
        let language = languages_in(words)[0];
        VersionTexts {
            original_filename: string_in(words, language, "OriginalFilename"@),
            file_description: string_in(words, language, "FileDescription"@),
            company_name: string_in(words, language, "CompanyName"@),
            product_name: string_in(words, language, "ProductName"@),
            file_version: string_in(words, language, "FileVersion"@),
        }
    }
}

/// The summary of a file's version information: `None` exactly where the file lists none. It
/// has no entries where version information is listed and cannot be found.
pub open spec fn version_of(resources: Option<(Seq<u8>, u32)>) -> Option<VersionTexts> {
    if !lists_version(resources) {
        None
    } else {
        match version_words_of(resources) {
            Some(words) => Some(summary_of(words)),
            None => Some(empty_summary()),
        }
    }
}

/// Wherever a reader finds version information, `version` is its summary.
pub open spec fn sums_up_found(
    version: Option<VersionTexts>,
    resources: Option<(Seq<u8>, u32)>,
) -> bool {
    match resources {
        Some(r) => has_root(r.0) ==> (version_info_of(r.0, r.1) matches Some(words) ==> version
            == Some(summary_of(words))),
        None => true,
    }
}

/// Version information that can be summed up: a reader can walk it for its languages,
/// and for the strings of the first one.
pub open spec fn can_be_summed_up(words: Seq<u16>) -> bool {
    &&& languages_walkable(words)
    &&& languages_in(words).len() > 0 ==> strings_walkable(words, languages_in(words)[0])
}

/// The version information of a file, if there is any, can be summed up.
pub open spec fn version_readable(resources: Option<(Seq<u8>, u32)>) -> bool {
    version_words_of(resources) matches Some(words) ==> can_be_summed_up(words)
}

/// Whether a list of resource types holds that of version information.
pub fn has_version(ids: &Vec<Option<u32>>) -> (found: bool)
    ensures
        found == ids@.contains(Some(VERSION)),
{
    let mut i: usize = 0;
    while i < ids.len()
        invariant
            i <= ids.len(),
            forall|j: int| 0 <= j < i ==> ids@[j] != Some(VERSION),
        decreases ids.len() - i,
    {
        if let Some(id) = ids[i] {
            if id == VERSION {
                assert(ids@[i as int] == Some(VERSION));
                return true;
            }
        }
        i += 1;
    }
    false
}

/// Takes note of the resource types that a report names.
pub fn note_types(
    ids: &Vec<Option<u32>>,
    has_manifest: &mut bool,
    has_dialog: &mut bool,
    has_icon: &mut bool,
)
    ensures
        *final(has_manifest) == (*old(has_manifest) || ids@.contains(Some(MANIFEST))),
        *final(has_dialog) == (*old(has_dialog) || ids@.contains(Some(DIALOG))),
        *final(has_icon) == (*old(has_icon) || ids@.contains(Some(GROUP_ICON))),
{
    let mut i: usize = 0;
    assert(ids@.take(0) =~= Seq::empty());
    while i < ids.len()
        invariant
            i <= ids.len(),
            *has_manifest == (*old(has_manifest) || ids@.take(i as int).contains(Some(MANIFEST))),
            *has_dialog == (*old(has_dialog) || ids@.take(i as int).contains(Some(DIALOG))),
            *has_icon == (*old(has_icon) || ids@.take(i as int).contains(Some(GROUP_ICON))),
        decreases ids.len() - i,
    {
        proof {
            let more = ids@.take(i + 1);
            assert(more =~= ids@.take(i as int).push(ids@[i as int]));
            lemma_push_contains(ids@.take(i as int), ids@[i as int], Some(MANIFEST));
            lemma_push_contains(ids@.take(i as int), ids@[i as int], Some(DIALOG));
            lemma_push_contains(ids@.take(i as int), ids@[i as int], Some(GROUP_ICON));
        }
        match ids[i] {
            Some(id) => {
                if id == DIALOG {
                    *has_dialog = true;
                } else if id == GROUP_ICON {
                    *has_icon = true;
                } else if id == MANIFEST {
                    *has_manifest = true;
                }
            },
            None => {},
        }
        i += 1;
    }
    assert(ids@.take(i as int) =~= ids@);
}

/// Takes note of the resource types in a directory that a report names.
fn enum_rsrc(
    directory: &Directory<'_>,
    has_manifest: &mut bool,
    has_dialog: &mut bool,
    has_icon: &mut bool,
)
    ensures
        *final(has_manifest) == (*old(has_manifest) || directory_ids(*directory).contains(
            Some(MANIFEST),
        )),
        *final(has_dialog) == (*old(has_dialog) || directory_ids(*directory).contains(
            Some(DIALOG),
        )),
        *final(has_icon) == (*old(has_icon) || directory_ids(*directory).contains(
            Some(GROUP_ICON),
        )),
{
    let ids = entry_ids(directory);
    note_types(&ids, has_manifest, has_dialog, has_icon);
}

/// Whether the resources list version information.
fn is_version_listed(resources: &Resources<'_>) -> (found: bool)
    ensures
        found == lists_version(Some(resource_parts(*resources))),
{
    match root(resources) {
        Some(directory) => has_version(&entry_ids(&directory)),
        None => false,
    }
}

/// Sums up the version information among the resources. `None` means that there is none.
fn parse_ver(resources: &Resources<'_>) -> (summary: Option<VersionSummary>)
    requires
        has_root(resource_parts(*resources).0),
        version_readable(Some(resource_parts(*resources))),
    ensures
        summary is None <==> !root_ids(resource_parts(*resources).0).contains(Some(VERSION)),
        version_in(summary) == version_of(Some(resource_parts(*resources))),
        sums_up_found(version_in(summary), Some(resource_parts(*resources))),
{
    let found = version_info(resources);
    if !is_version_listed(resources) {
        return None;
    }
    let mut summary = VersionSummary::default();
    let version = match found {
        Some(version) => version,
        None => {
            return Some(summary);
        },
    };
    let listed = languages(&version);
    if listed.len() == 0 {
        return Some(summary);
    }
    let language = listed[0];
    summary.original_filename = string_for(&version, language, "OriginalFilename");
    summary.file_description = string_for(&version, language, "FileDescription");
    summary.company_name = string_for(&version, language, "CompanyName");
    summary.product_name = string_for(&version, language, "ProductName");
    summary.file_version = string_for(&version, language, "FileVersion");
    Some(summary)
}

/// Takes note of the resource types that a report names, and sums up the version
/// information.
fn analyze_rsrc(
    resources: &Option<Resources<'_>>,
    has_manifest: &mut bool,
    has_dialog: &mut bool,
    has_icon: &mut bool,
) -> (summary: Option<VersionSummary>)
    requires
        version_readable(parts_in(*resources)),
    ensures
        version_in(summary) == version_of(parts_in(*resources)),
        sums_up_found(version_in(summary), parts_in(*resources)),
        *final(has_manifest) == (*old(has_manifest) || resource_types(
            parts_in(*resources),
        ).contains(Some(MANIFEST))),
        *final(has_dialog) == (*old(has_dialog) || resource_types(parts_in(*resources)).contains(
            Some(DIALOG),
        )),
        *final(has_icon) == (*old(has_icon) || resource_types(parts_in(*resources)).contains(
            Some(GROUP_ICON),
        )),
{
    let found = match resources {
        Some(found) => found,
        None => {
            return None;
        },
    };
    let directory = match root(found) {
        Some(directory) => directory,
        None => {
            return None;
        },
    };
    enum_rsrc(&directory, has_manifest, has_dialog, has_icon);
    parse_ver(found)
}

/// Takes note of the resource types of a 64-bit file that a report names, and sums up
/// its version information.
pub(crate) fn analyze_rsrc_impl(
    file: &pe64::PeFile<'_>,
    has_manifest: &mut bool,
    has_dialog: &mut bool,
    has_icon: &mut bool,
) -> (summary: Option<VersionSummary>)
    requires
        resources_in_place(file64_bytes(*file), true),
        version_readable(resources_of(file64_bytes(*file), true)),
    ensures
        version_in(summary) == version_of(resources_of(file64_bytes(*file), true)),
        sums_up_found(version_in(summary), resources_of(file64_bytes(*file), true)),
        *final(has_manifest) == (*old(has_manifest) || resource_types(
            resources_of(file64_bytes(*file), true),
        ).contains(Some(MANIFEST))),
        *final(has_dialog) == (*old(has_dialog) || resource_types(
            resources_of(file64_bytes(*file), true),
        ).contains(Some(DIALOG))),
        *final(has_icon) == (*old(has_icon) || resource_types(
            resources_of(file64_bytes(*file), true),
        ).contains(Some(GROUP_ICON))),
{
    let resources = resources64(file);
    analyze_rsrc(&resources, has_manifest, has_dialog, has_icon)
}

/// Takes note of the resource types of a 32-bit file that a report names, and sums up
/// its version information.
pub(crate) fn analyze_rsrc32(
    file: &pe32::PeFile<'_>,
    has_manifest: &mut bool,
    has_dialog: &mut bool,
    has_icon: &mut bool,
) -> (summary: Option<VersionSummary>)
    requires
        resources_in_place(file32_bytes(*file), false),
        version_readable(resources_of(file32_bytes(*file), false)),
    ensures
        version_in(summary) == version_of(resources_of(file32_bytes(*file), false)),
        sums_up_found(version_in(summary), resources_of(file32_bytes(*file), false)),
        *final(has_manifest) == (*old(has_manifest) || resource_types(
            resources_of(file32_bytes(*file), false),
        ).contains(Some(MANIFEST))),
        *final(has_dialog) == (*old(has_dialog) || resource_types(
            resources_of(file32_bytes(*file), false),
        ).contains(Some(DIALOG))),
        *final(has_icon) == (*old(has_icon) || resource_types(
            resources_of(file32_bytes(*file), false),
        ).contains(Some(GROUP_ICON))),
{
    let resources = resources32(file);
    analyze_rsrc(&resources, has_manifest, has_dialog, has_icon)
}

/// The 16-bit numbers that bytes hold, low byte first.
pub fn words_of(bytes: &Vec<u8>) -> (words: Vec<u16>)
    ensures
        words@ == words_in(bytes@),
{
    let mut words: Vec<u16> = Vec::new();
    let count: usize = bytes.len() / 2;
    let mut i: usize = 0;
    while i < count
        invariant
            count == bytes.len() / 2,
            i <= count,
            words.len() == i,
            forall|j: int| 0 <= j < i ==> words@[j] == le16(bytes@, 2 * j) as u16,
        decreases count - i,
    {
        let word: u16 = bytes[2 * i] as u16 + 0x100 * (bytes[2 * i + 1] as u16);
        words.push(word);
        i += 1;
    }
    assert(words@ =~= words_in(bytes@));
    words
}

/// Whether the version information among the resources, if there is any, can be summed
/// up.
fn can_sum_up(resources: &Option<Resources<'_>>) -> (readable: bool)
    ensures
        readable == version_readable(parts_in(*resources)),
{
    let found = match resources {
        Some(found) => found,
        None => {
            return true;
        },
    };
    if !is_version_listed(found) {
        return true;
    }
    match (version_info(found), find_version(found)) {
        (Some(version), Some(bytes)) => {
            let words = words_of(&bytes);
            if !can_walk_languages(words.as_slice()) {
                return false;
            }
            let listed = languages(&version);
            listed.len() == 0 || can_walk_strings(words.as_slice(), listed[0])
        },
        _ => true,
    }
}

/// Whether the version information of a 64-bit file, if there is any, can be summed up.
pub(crate) fn can_sum_up64(file: &pe64::PeFile<'_>) -> (readable: bool)
    requires
        resources_in_place(file64_bytes(*file), true),
    ensures
        readable == version_readable(resources_of(file64_bytes(*file), true)),
{
    let resources = resources64(file);
    can_sum_up(&resources)
}

/// Whether the version information of a 32-bit file, if there is any, can be summed up.
pub(crate) fn can_sum_up32(file: &pe32::PeFile<'_>) -> (readable: bool)
    requires
        resources_in_place(file32_bytes(*file), false),
    ensures
        readable == version_readable(resources_of(file32_bytes(*file), false)),
{
    let resources = resources32(file);
    can_sum_up(&resources)
}

} // verus!
