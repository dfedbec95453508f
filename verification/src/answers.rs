//! What a report answers, field by field, in terms of the file that it is on.
use crate::analyze::{
    analysis, can_be_analyzed, conclusion, lemma_one_kind, report_of, subsystem_of,
};
use crate::blocks::{languages_walkable, strings_walkable};
use crate::buffer::{le16, le32};
use crate::classify::{
    class_of, core_of, opens_window, report_on, told_by_description, told_by_file_name, CORE_DLLS,
};
use crate::clr::holds_clr;
use crate::imports::{
    all_dll_names, all_services, all_windows, dlls_or_none, imports_of, ImportedDll,
};
use crate::known::{is_core_dll, is_service_function, is_window_function, law_core_dll_names};
use crate::laws::lemma_filter_contains;
use crate::pe::{
    has_headers, has_root, languages_in, root_ids, string_in, version_info_of, Import,
};
use crate::place::{
    descriptor_in_place, descriptors_in_place, headers_in_place, imports_in_place,
    lemma_descriptor_in_place, name_table_in_place, resources_in_place, tables_in_place,
};
use crate::resources::resource_types;
use crate::scans::{
    dll_named, function_named, in_file_order, is_service_import, is_window_import,
    law_scanned_dlls, law_scanned_services, law_scanned_windows,
};
use crate::tables::{descriptor, descriptors, import_table, name_table_at, resources_of, text_at};
use crate::text::{
    lemma_sorted_set_exists, listed, lower_case, occurs_in, sorted_set, strictly_ordered, text_of,
};
use crate::types::{Classification, Report, Subsystem, VersionTexts};
use vstd::prelude::*;

verus! {

/// The name in lower case that an import descriptor of a file leads to, where it can be read.
pub open spec fn file_dll(bytes: Seq<u8>, wide: bool, i: int) -> Option<Seq<char>> {
    match import_table(bytes, wide) {
        Some(table) => if 0 <= i < table.len() {
            match text_at(bytes, table[i].0 as int) {
                Some(name) => Some(lower_case(text_of(name))),
                None => None,
            }
        } else {
            None
        },
        None => None,
    }
}

/// The name of the function that an entry of the name table of an import descriptor is for,
/// where there is such an entry, it is one by name, and the name of the DLL can be read.
pub open spec fn file_function(bytes: Seq<u8>, wide: bool, i: int, k: int) -> Option<Seq<char>> {
    if file_dll(bytes, wide, i) is None {
        None
    } else {
        match name_table_at(bytes, (import_table(bytes, wide)->0)[i].1 as int, wide) {
            Some(entries) => if 0 <= k < entries.len() {
                match entries[k] {
                    Import::ByName(name) => Some(text_of(name)),
                    _ => None,
                }
            } else {
                None
            },
            None => None,
        }
    }
}

/// The imports of a file are all that its import table leads to: one DLL for each descriptor,
/// with the name and the name table that the descriptor gives.
pub proof fn law_imports_are_complete(bytes: Seq<u8>, wide: bool)
    ensures
        imports_of(bytes, wide) is Some <==> import_table(bytes, wide) is Some,
        import_table(bytes, wide) matches Some(table) ==> {
            let dlls = imports_of(bytes, wide)->0;
            &&& dlls.len() == table.len()
            &&& forall|i: int|
                #![trigger dlls[i]]
                0 <= i < table.len() ==> {
                    &&& dlls[i].dll_name == text_at(bytes, table[i].0 as int)
                    &&& dlls[i].dll_name is Some ==> dlls[i].entries == name_table_at(
                        bytes,
                        table[i].1 as int,
                        wide,
                    )
                }
        },
{
}

/// The imports of a file are those that its tables give.
proof fn lemma_file_imports(bytes: Seq<u8>, wide: bool)
    ensures
        forall|i: int|
            #![trigger file_dll(bytes, wide, i)]
            #![trigger dll_named(dlls_or_none(imports_of(bytes, wide)), i)]
            file_dll(bytes, wide, i) == dll_named(dlls_or_none(imports_of(bytes, wide)), i),
        forall|i: int, k: int|
            #![trigger file_function(bytes, wide, i, k)]
            #![trigger function_named(dlls_or_none(imports_of(bytes, wide)), i, k)]
            file_function(bytes, wide, i, k) == function_named(
                dlls_or_none(imports_of(bytes, wide)),
                i,
                k,
            ),
{
    law_imports_are_complete(bytes, wide);
    let dlls = dlls_or_none(imports_of(bytes, wide));
    assert forall|i: int| file_dll(bytes, wide, i) == dll_named(dlls, i) by {
        if 0 <= i < dlls.len() {
            let d = dlls[i];
        }
    }
    assert forall|i: int, k: int| file_function(bytes, wide, i, k) == function_named(
        dlls,
        i,
        k,
    ) by {
        if 0 <= i < dlls.len() {
            let d = dlls[i];
            assert(file_dll(bytes, wide, i) == dll_named(dlls, i));
        }
    }
}

/// The subsystem of a report is told by the number behind the PE headers' start.
pub proof fn law_answer_subsystem(report: Report, bytes: Seq<u8>, wide: bool)
    requires
        report == analysis(bytes, wide),
    ensures
        ({
            let number = le16(bytes, le32(bytes, 0x3c) + 92);
            &&& report.subsystem == Subsystem::Gui <==> number == 2
            &&& report.subsystem == Subsystem::Console <==> number == 3
            &&& report.subsystem == Subsystem::Native <==> number == 1
            &&& number == 0 || number > 3 ==> report.subsystem == Subsystem::Other(number as u16)
        }),
{
}

/// The DLLs of a report are those that some import descriptor of a program with a graphical
/// interface names, and no others. They stand in dictionary order, each once.
pub proof fn law_answer_dlls(report: Report, bytes: Seq<u8>, wide: bool)
    requires
        report == analysis(bytes, wide),
    ensures
        strictly_ordered(report.all_dlls),
        forall|name: Seq<char>| #[trigger]
            report.all_dlls.contains(name) <==> report.subsystem == Subsystem::Gui && exists|i: int|
                #[trigger] file_dll(bytes, wide, i) == Some(name),
        strictly_ordered(report.core_dlls),
        forall|name: Seq<char>| #[trigger]
            report.core_dlls.contains(name) <==> report.all_dlls.contains(name) && is_core_dll(
                name,
            ),
{
    lemma_file_imports(bytes, wide);
    let dlls = lemma_imports_looked_at(report, bytes, wide);
    let names = all_dll_names(dlls);
    lemma_sorted_set_exists(names);
    lemma_core(report.all_dlls);
    let places = law_scanned_dlls(dlls);
    assert forall|name: Seq<char>| #[trigger]
        report.all_dlls.contains(name) <==> report.subsystem == Subsystem::Gui && exists|i: int|
            #[trigger] file_dll(bytes, wide, i) == Some(name) by {
        if report.all_dlls.contains(name) {
            let j = choose|j: int| 0 <= j < names.len() && names[j] == name;
            let i = places[j];
            assert(dll_named(dlls, i) == Some(name));
            assert(file_dll(bytes, wide, i) == Some(name));
        }
        if report.subsystem == Subsystem::Gui && exists|i: int|
            #[trigger] file_dll(bytes, wide, i) == Some(name) {
            let i = choose|i: int| #[trigger] file_dll(bytes, wide, i) == Some(name);
            assert(dll_named(dlls, i) == Some(name));
            let j = choose|j: int| 0 <= j < places.len() && places[j] == i;
            assert(names[j] == name);
            assert(names.contains(name));
        }
    }
}

/// The imports that a report goes by: those of the file where it has a graphical interface,
/// and else none.
proof fn lemma_imports_looked_at(report: Report, bytes: Seq<u8>, wide: bool) -> (dlls: Seq<
    ImportedDll,
>)
    requires
        report == analysis(bytes, wide),
    ensures
        report.subsystem == Subsystem::Gui ==> dlls == dlls_or_none(imports_of(bytes, wide)),
        report.subsystem != Subsystem::Gui ==> dlls.len() == 0,
        report.window_funcs == all_windows(dlls),
        report.is_service <==> all_services(dlls).len() > 0,
        report.all_dlls == sorted_set(all_dll_names(dlls)),
        report.core_dlls == core_of(report.all_dlls),
{
    if subsystem_of(bytes) == Subsystem::Gui {
        dlls_or_none(imports_of(bytes, wide))
    } else {
        Seq::empty()
    }
}

/// The core DLLs of a list.
proof fn lemma_core(dlls: Seq<Seq<char>>)
    ensures
        strictly_ordered(core_of(dlls)),
        forall|name: Seq<char>| #[trigger]
            core_of(dlls).contains(name) <==> dlls.contains(name) && is_core_dll(name),
{
    let core = |d: Seq<char>| listed(CORE_DLLS@, d);
    lemma_sorted_set_exists(dlls.filter(core));
    assert forall|name: Seq<char>| #[trigger]
        core_of(dlls).contains(name) <==> dlls.contains(name) && is_core_dll(name) by {
        lemma_filter_contains(dlls, core, name);
        law_core_dll_names(name);
    }
}

/// The entry at a place of a file's name tables is for a function of `user32.dll` that
/// creates a window.
pub open spec fn file_creates_window(bytes: Seq<u8>, wide: bool, place: (int, int)) -> bool {
    &&& file_dll(bytes, wide, place.0) == Some("user32.dll"@)
    &&& file_function(bytes, wide, place.0, place.1) matches Some(name) && is_window_function(name)
}

/// The functions of a report are all entries of a program with a graphical interface by which
/// it imports from `user32.dll` a function that creates a window: each such entry once, in
/// the order of the file, and no others. The result gives the places of the entries.
pub proof fn law_answer_window_functions(report: Report, bytes: Seq<u8>, wide: bool) -> (places:
    Seq<(int, int)>)
    requires
        report == analysis(bytes, wide),
    ensures
        places.len() == report.window_funcs.len(),
        in_file_order(places),
        forall|j: int|
            #![trigger places[j]]
            0 <= j < places.len() ==> file_creates_window(bytes, wide, places[j]) && file_function(
                bytes,
                wide,
                places[j].0,
                places[j].1,
            ) == Some(report.window_funcs[j]),
        report.subsystem != Subsystem::Gui ==> places.len() == 0,
        report.subsystem == Subsystem::Gui ==> forall|place: (int, int)| #[trigger]
            file_creates_window(bytes, wide, place) ==> places.contains(place),
        report.subsystem == Subsystem::Gui ==> forall|place: (int, int)| #[trigger]
            file_creates_window(bytes, wide, place) ==> report.window_funcs.contains(
                file_function(bytes, wide, place.0, place.1)->0,
            ) && report.has_window,
{
    lemma_file_imports(bytes, wide);
    let dlls = lemma_imports_looked_at(report, bytes, wide);
    let places = law_scanned_windows(dlls);
    if report.subsystem == Subsystem::Gui {
        assert forall|place: (int, int)| is_window_import(dlls, place) <==> file_creates_window(
            bytes,
            wide,
            place,
        ) by {
            assert(file_dll(bytes, wide, place.0) == dll_named(dlls, place.0));
            assert(file_function(bytes, wide, place.0, place.1) == function_named(
                dlls,
                place.0,
                place.1,
            ));
        }
        assert forall|place: (int, int)| #[trigger]
            file_creates_window(bytes, wide, place) implies places.contains(place)
            && report.window_funcs.contains(file_function(bytes, wide, place.0, place.1)->0)
            && report.has_window by {
            assert(is_window_import(dlls, place));
            let j = choose|j: int| 0 <= j < places.len() && places[j] == place;
            assert(report.window_funcs[j] == file_function(bytes, wide, place.0, place.1)->0);
        }
    }
    assert forall|j: int| #![trigger places[j]] 0 <= j < places.len() implies file_creates_window(
        bytes,
        wide,
        places[j],
    ) && file_function(bytes, wide, places[j].0, places[j].1) == Some(report.window_funcs[j]) by {
        assert(is_window_import(dlls, places[j]));
        assert(dlls.len() > 0);
    }
    places
}

/// A report tells a service exactly where a program with a graphical interface imports by
/// name a function of a service, from any DLL whose name can be read, whatever else it
/// imports.
pub proof fn law_answer_service(report: Report, bytes: Seq<u8>, wide: bool)
    requires
        report == analysis(bytes, wide),
    ensures
        report.is_service <==> report.subsystem == Subsystem::Gui && exists|i: int, k: int|
            #[trigger] file_function(bytes, wide, i, k) is Some && is_service_function(
                file_function(bytes, wide, i, k)->0,
            ),
{
    lemma_file_imports(bytes, wide);
    let dlls = lemma_imports_looked_at(report, bytes, wide);
    let places = law_scanned_services(dlls);
    if report.is_service {
        assert(is_service_import(dlls, places[0]));
        assert(dlls.len() > 0);
        assert(file_function(bytes, wide, places[0].0, places[0].1) is Some);
    }
    if report.subsystem == Subsystem::Gui && exists|i: int, k: int|
        #[trigger] file_function(bytes, wide, i, k) is Some && is_service_function(
            file_function(bytes, wide, i, k)->0,
        ) {
        let (i, k) = choose|i: int, k: int|
            #[trigger] file_function(bytes, wide, i, k) is Some && is_service_function(
                file_function(bytes, wide, i, k)->0,
            );
        assert(is_service_import(dlls, (i, k)));
        assert(places.contains((i, k)));
    }
}

/// A file has an address in the data directory of the runtime of .NET, its fifteenth.
pub open spec fn file_has_runtime(bytes: Seq<u8>, wide: bool) -> bool {
    let at = le32(bytes, 0x3c) + 24 + (if wide {
        112int
    } else {
        96
    }) + 112;
    &&& bytes.len() >= 300
    &&& bytes[0] == 'M' as u8
    &&& bytes[1] == 'Z' as u8
    &&& at + 8 <= bytes.len()
    &&& bytes[at] != 0 || bytes[at + 1] != 0 || bytes[at + 2] != 0 || bytes[at + 3] != 0
}

/// Where a file has code for the runtime of .NET.
pub proof fn law_runtime(bytes: Seq<u8>, wide: bool)
    ensures
        holds_clr(bytes, wide) <==> file_has_runtime(bytes, wide),
{
}

/// A report tells a program of .NET exactly where a descriptor of a program with a graphical
/// interface names `mscoree.dll`, or where the headers of any program point to code for the
/// runtime.
pub proof fn law_answer_dotnet(report: Report, bytes: Seq<u8>, wide: bool)
    requires
        report == analysis(bytes, wide),
    ensures
        report.is_dotnet <==> file_has_runtime(bytes, wide) || (report.subsystem == Subsystem::Gui
            && exists|i: int| #[trigger] file_dll(bytes, wide, i) == Some("mscoree.dll"@)),
{
    law_answer_dlls(report, bytes, wide);
    law_runtime(bytes, wide);
    assert(report.is_dotnet <==> report.all_dlls.contains("mscoree.dll"@) || holds_clr(
        bytes,
        wide,
    ));
}

/// The root directory of a file's resources lists a type: it is there whole, and the number
/// of one of its entries is that of the type.
pub open spec fn file_lists_type(bytes: Seq<u8>, wide: bool, number: int) -> bool {
    match resources_of(bytes, wide) {
        Some(r) => {
            let count = le16(r.0, 12) + le16(r.0, 14);
            &&& 16 + 8 * count <= r.0.len()
            &&& r.0.len() >= 16
            &&& exists|i: int|
                0 <= i < count && #[trigger] le32(r.0, 16 + 8 * i) == number
        },
        None => false,
    }
}

/// The types that the root directory lists.
proof fn lemma_lists_type(bytes: Seq<u8>, wide: bool, number: u32)
    requires
        number < 0x8000_0000,
    ensures
        resource_types(resources_of(bytes, wide)).contains(Some(number))
            <==> file_lists_type(bytes, wide, number as int),
{
    if let Some(r) = resources_of(bytes, wide) {
        let ids = root_ids(r.0);
        let count = le16(r.0, 12) + le16(r.0, 14);
        if has_root(r.0) {
            if ids.contains(Some(number)) {
                let i = choose|i: int| 0 <= i < ids.len() && ids[i] == Some(number);
                assert(le32(r.0, 16 + 8 * i) == number);
            }
            if file_lists_type(bytes, wide, number as int) {
                let i = choose|i: int|
                    0 <= i < count && #[trigger] le32(r.0, 16 + 8 * i) == number;
                assert(ids[i] == Some(number));
            }
        }
    }
}

/// A report tells of dialogs, icons and a manifest exactly where a program with a graphical
/// interface lists resources of these types.
pub proof fn law_answer_resources(report: Report, bytes: Seq<u8>, wide: bool)
    requires
        report == analysis(bytes, wide),
    ensures
        report.has_dialog <==> report.subsystem == Subsystem::Gui && file_lists_type(
            bytes,
            wide,
            5,
        ),
        report.has_icon <==> report.subsystem == Subsystem::Gui && file_lists_type(bytes, wide, 14),
        report.has_manifest <==> report.subsystem == Subsystem::Gui && file_lists_type(
            bytes,
            wide,
            24,
        ),
{
    lemma_lists_type(bytes, wide, 5);
    lemma_lists_type(bytes, wide, 14);
    lemma_lists_type(bytes, wide, 24);
}

/// A report has a summary of version information exactly where a program with a graphical
/// interface lists some among its resources. Where it can be found and lists a language, each
/// entry is the string of the first language under the entry's own key. Where it cannot be
/// found, or lists no language, there are no entries.
pub proof fn law_answer_version(report: Report, bytes: Seq<u8>, wide: bool)
    requires
        report == analysis(bytes, wide),
    ensures
        report.version is Some <==> report.subsystem == Subsystem::Gui && file_lists_type(
            bytes,
            wide,
            16,
        ),
        report.version matches Some(v) ==> {
            let r = resources_of(bytes, wide)->0;
            let words = version_info_of(r.0, r.1);
            let language = languages_in(words->0)[0];
            if words is Some && languages_in(words->0).len() > 0 {
                &&& v.original_filename == string_in(words->0, language, "OriginalFilename"@)
                &&& v.file_description == string_in(words->0, language, "FileDescription"@)
                &&& v.company_name == string_in(words->0, language, "CompanyName"@)
                &&& v.product_name == string_in(words->0, language, "ProductName"@)
                &&& v.file_version == string_in(words->0, language, "FileVersion"@)
            } else {
                &&& v.original_filename is None
                &&& v.file_description is None
                &&& v.company_name is None
                &&& v.product_name is None
                &&& v.file_version is None
            }
        },
{
    lemma_lists_type(bytes, wide, 16);
}

/// A part occurs in the original file name, in lower case.
pub open spec fn name_holds(version: Option<VersionTexts>, part: Seq<char>) -> bool {
    version matches Some(v) && v.original_filename matches Some(name) && occurs_in(
        part,
        lower_case(name),
    )
}

/// A part occurs in the description, in lower case.
pub open spec fn description_holds(version: Option<VersionTexts>, part: Seq<char>) -> bool {
    version matches Some(v) && v.file_description matches Some(text) && occurs_in(
        part,
        lower_case(text),
    )
}

/// A class is the right one for a program of which this is known.
pub open spec fn is_right_class(
    class: Classification,
    subsystem: Subsystem,
    is_dotnet: bool,
    is_service: bool,
    is_stub: bool,
    version: Option<VersionTexts>,
    has_window: bool,
) -> bool {
    let left = subsystem != Subsystem::Console && !is_dotnet && !is_service && !is_stub;
    let name_uninstalls = name_holds(version, "unins"@);
    let name_installs = name_holds(version, "setup"@) || name_holds(version, "install"@);
    let name_tells = name_uninstalls || name_installs;
    let text_uninstalls = description_holds(version, "uninstall"@);
    let text_installs = description_holds(version, "setup"@) || description_holds(
        version,
        "install"@,
    );
    let text_tells = text_uninstalls || text_installs;
    &&& subsystem == Subsystem::Console ==> class == Classification::ConsoleTool
    &&& subsystem != Subsystem::Console && is_dotnet ==> class == Classification::DotNet
    &&& subsystem != Subsystem::Console && !is_dotnet && is_service ==> class
        == Classification::Service
    &&& subsystem != Subsystem::Console && !is_dotnet && !is_service && is_stub ==> class
        == Classification::Launcher
    &&& left && name_uninstalls ==> class == Classification::Uninstaller
    &&& left && !name_uninstalls && name_installs ==> class == Classification::Installer
    &&& left && !name_tells && text_uninstalls ==> class == Classification::Uninstaller
    &&& left && !name_tells && !text_uninstalls && text_installs ==> class
        == Classification::Installer
    &&& left && !name_tells && !text_tells && has_window ==> class == Classification::Portable
    &&& left && !name_tells && !text_tells && !has_window ==> class == Classification::Other
}

/// What a file name, and what a description, tells by the words that occur in it.
pub proof fn law_told_by_words(lower: Seq<char>)
    ensures
        told_by_file_name(lower) == Some(Classification::Uninstaller) <==> occurs_in(
            "unins"@,
            lower,
        ),
        told_by_file_name(lower) == Some(Classification::Installer) <==> !occurs_in(
            "unins"@,
            lower,
        ) && (occurs_in("setup"@, lower) || occurs_in("install"@, lower)),
        told_by_file_name(lower) is None <==> !occurs_in("unins"@, lower) && !occurs_in(
            "setup"@,
            lower,
        ) && !occurs_in("install"@, lower),
        told_by_description(lower) == Some(Classification::Uninstaller) <==> occurs_in(
            "uninstall"@,
            lower,
        ),
        told_by_description(lower) == Some(Classification::Installer) <==> !occurs_in(
            "uninstall"@,
            lower,
        ) && (occurs_in("setup"@, lower) || occurs_in("install"@, lower)),
        told_by_description(lower) is None <==> !occurs_in("uninstall"@, lower) && !occurs_in(
            "setup"@,
            lower,
        ) && !occurs_in("install"@, lower),
{
}

/// The class of a program is told in this order: the console, .NET, a service, a stub, the
/// words in the original file name, those in the description whether or not there is a file
/// name, and a window.
pub proof fn law_class(
    subsystem: Subsystem,
    is_dotnet: bool,
    is_service: bool,
    is_stub: bool,
    version: Option<VersionTexts>,
    has_window: bool,
)
    ensures
        is_right_class(
            class_of(subsystem, is_dotnet, is_service, is_stub, version, has_window),
            subsystem,
            is_dotnet,
            is_service,
            is_stub,
            version,
            has_window,
        ),
{
}

/// The class of a report is told by its other fields.
pub proof fn law_answer_class(report: Report, bytes: Seq<u8>, wide: bool)
    requires
        report == analysis(bytes, wide),
    ensures
        is_right_class(
            report.classification,
            report.subsystem,
            report.is_dotnet,
            report.is_service,
            report.is_stub,
            report.version,
            report.has_window,
        ),
{
    law_class(
        report.subsystem,
        report.is_dotnet,
        report.is_service,
        report.is_stub,
        report.version,
        report.has_window,
    );
}

/// What a report that is put together repeats, and what it adds: whether the program opens a
/// window, which of the DLLs are core DLLs, and the class.
pub proof fn law_report(
    subsystem: Subsystem,
    window_funcs: Seq<Seq<char>>,
    all_dlls: Seq<Seq<char>>,
    is_service: bool,
    has_manifest: bool,
    has_dialog: bool,
    has_icon: bool,
    version: Option<VersionTexts>,
    is_dotnet: bool,
    is_stub: bool,
)
    ensures
        ({
            let report = report_on(
                subsystem,
                window_funcs,
                all_dlls,
                is_service,
                has_manifest,
                has_dialog,
                has_icon,
                version,
                is_dotnet,
                is_stub,
            );
            &&& report.subsystem == subsystem
            &&& report.window_funcs == window_funcs
            &&& report.all_dlls == all_dlls
            &&& report.is_service == is_service
            &&& report.has_manifest == has_manifest
            &&& report.has_dialog == has_dialog
            &&& report.has_icon == has_icon
            &&& report.version == version
            &&& report.is_dotnet == is_dotnet
            &&& report.is_stub == is_stub
            &&& window_funcs.len() > 0 ==> report.has_window
            &&& subsystem == Subsystem::Gui && has_dialog ==> report.has_window
            &&& subsystem == Subsystem::Gui && is_dotnet ==> report.has_window
            &&& subsystem == Subsystem::Gui && has_icon && !is_stub ==> report.has_window
            &&& window_funcs.len() == 0 && subsystem != Subsystem::Gui ==> !report.has_window
            &&& window_funcs.len() == 0 && !has_dialog && !is_dotnet && (!has_icon || is_stub)
                ==> !report.has_window
            &&& strictly_ordered(report.core_dlls)
            &&& forall|name: Seq<char>| #[trigger]
                report.core_dlls.contains(name) <==> all_dlls.contains(name) && is_core_dll(name)
            &&& is_right_class(
                report.classification,
                subsystem,
                is_dotnet,
                is_service,
                is_stub,
                version,
                report.has_window,
            )
        }),
{
    lemma_core(all_dlls);
    law_class(
        subsystem,
        is_dotnet,
        is_service,
        is_stub,
        version,
        opens_window(subsystem, window_funcs, has_dialog, has_icon, is_dotnet, is_stub),
    );
}

/// What is concluded from what was found in a file: the DLLs in order, a service from any of
/// its functions, .NET from its library or from the headers, and a stub from little imports
/// and nothing else. The rest follows as for any report.
pub proof fn law_conclusion(
    bytes: Seq<u8>,
    wide: bool,
    subsystem: Subsystem,
    window_funcs: Seq<Seq<char>>,
    service_funcs: Seq<Seq<char>>,
    dll_names: Seq<Seq<char>>,
    has_manifest: bool,
    has_dialog: bool,
    has_icon: bool,
    version: Option<VersionTexts>,
)
    ensures
        ({
            let report = conclusion(
                bytes,
                wide,
                subsystem,
                window_funcs,
                service_funcs,
                dll_names,
                has_manifest,
                has_dialog,
                has_icon,
                version,
            );
            &&& strictly_ordered(report.all_dlls)
            &&& forall|name: Seq<char>| #[trigger]
                report.all_dlls.contains(name) <==> dll_names.contains(name)
            &&& report.is_service <==> service_funcs.len() > 0
            &&& report.is_dotnet <==> dll_names.contains("mscoree.dll"@) || file_has_runtime(
                bytes,
                wide,
            )
            &&& report.is_stub <==> {
                &&& subsystem == Subsystem::Gui
                &&& report.all_dlls.len() <= 8
                &&& !dll_names.contains("user32.dll"@)
                &&& window_funcs.len() == 0
                &&& service_funcs.len() == 0
                &&& !report.is_dotnet
            }
            &&& report == report_on(
                subsystem,
                window_funcs,
                report.all_dlls,
                report.is_service,
                has_manifest,
                has_dialog,
                has_icon,
                version,
                report.is_dotnet,
                report.is_stub,
            )
        }),
{
    lemma_sorted_set_exists(dll_names);
    law_runtime(bytes, wide);
}

/// A file has a report exactly where it has the headers of a PE file, and the report is the
/// one for the width of its headers.
pub proof fn law_answer_exists(bytes: Seq<u8>)
    ensures
        report_of(bytes) is Some <==> has_headers(bytes, true) || has_headers(bytes, false),
        has_headers(bytes, true) ==> report_of(bytes) == Some(analysis(bytes, true)),
        has_headers(bytes, false) ==> report_of(bytes) == Some(analysis(bytes, false)),
{
}

/// What is looked at in a program with a graphical interface can be read.
pub open spec fn file_is_readable(bytes: Seq<u8>, wide: bool) -> bool {
    &&& descriptors_in_place(bytes, wide)
    &&& import_table(bytes, wide) matches Some(table) ==> forall|i: int|
        #![trigger table[i]]
        0 <= i < table.len() && text_at(bytes, table[i].0 as int) is Some ==> name_table_in_place(
            bytes,
            table[i].1 as int,
            wide,
        )
    &&& resources_in_place(bytes, wide)
    &&& file_lists_type(bytes, wide, 16) ==> {
        let r = resources_of(bytes, wide)->0;
        version_info_of(r.0, r.1) matches Some(words) ==> {
            &&& languages_walkable(words)
            &&& languages_in(words).len() > 0 ==> strings_walkable(words, languages_in(words)[0])
        }
    }
}

/// A file is left out only where something that is looked at cannot be read: the headers, or
/// the imports and resources of a program with a graphical interface.
pub proof fn law_what_can_be_analyzed(bytes: Seq<u8>)
    ensures
        !has_headers(bytes, true) && !has_headers(bytes, false) ==> (can_be_analyzed(bytes)
            <==> headers_in_place(bytes)),
        forall|wide: bool| #[trigger]
            has_headers(bytes, wide) ==> (can_be_analyzed(bytes) <==> headers_in_place(bytes) && (
            le16(bytes, le32(bytes, 0x3c) + 92) == 2 ==> file_is_readable(bytes, wide))),
{
    assert forall|wide: bool| #[trigger] has_headers(bytes, wide) implies (can_be_analyzed(bytes)
        <==> headers_in_place(bytes) && (le16(bytes, le32(bytes, 0x3c) + 92) == 2
        ==> file_is_readable(bytes, wide))) by {
        lemma_one_kind(bytes);
        lemma_lists_type(bytes, wide, 16);
        lemma_readable(bytes, wide);
    }
}

/// The imports of a file can be read where each of its tables that is looked at can.
proof fn lemma_readable(bytes: Seq<u8>, wide: bool)
    ensures
        imports_in_place(bytes, wide) <==> descriptors_in_place(bytes, wide) && (
        import_table(bytes, wide) matches Some(table) ==> forall|i: int|
            #![trigger table[i]]
            0 <= i < table.len() && text_at(bytes, table[i].0 as int) is Some
                ==> name_table_in_place(bytes, table[i].1 as int, wide)),
{
    if let Some(table) = import_table(bytes, wide) {
        let at = (descriptors(bytes, wide)->0).0;
        if imports_in_place(bytes, wide) {
            assert forall|i: int|
                #![trigger table[i]]
                0 <= i < table.len() && text_at(
                    bytes,
                    table[i].0 as int,
                ) is Some implies name_table_in_place(bytes, table[i].1 as int, wide) by {
                lemma_descriptor_in_place(bytes, wide, i);
            }
        } else if descriptors_in_place(bytes, wide) {
            let count = (descriptors(bytes, wide)->0).1;
            assert(!tables_in_place(bytes, at, count as int, wide));
            let i = choose|i: int|
                0 <= i < count && !#[trigger] descriptor_in_place(
                    bytes,
                    descriptor(bytes, at, i),
                    wide,
                );
            assert(table[i] == descriptor(bytes, at, i));
        }
    }
}

} // verus!
