//! What holds of every report.
use crate::analyze::{analysis, subsystem_of};
use crate::blocks::{block_length, first_block, first_nul, ValueLength};
use crate::classify::{class_of, report_on, told_by_file_name, told_by_version, CORE_DLLS};
use crate::clr::holds_clr;
use crate::imports::{
    all_dll_names, all_services, all_windows, creates_window, dll_text, dlls_or_none,
    functions_of, imports_of, lemma_dll_names_push, names_in, services_of, windows_of,
    ImportedDll, WINDOW_CREATE_FUNCS,
};
use crate::pe::Import;
use crate::resources::{resource_types, VERSION};
use crate::tables::resources_of;
use crate::text::{
    is_sorted_set_of, lemma_lower_case, lemma_push_contains, lemma_sorted_set,
    lemma_sorted_set_exists, lemma_sorted_set_unique, listed, lower_case, sorted_set,
    strictly_ordered, text_of, with_ascii_lower,
};
use crate::types::{Classification, Report, Subsystem, VersionTexts};
use vstd::prelude::*;

verus! {

/// A list of DLLs does not depend on the order in which they are found, nor on how often
/// each one is.
pub proof fn law_dll_list_is_a_set(a: Seq<Seq<char>>, b: Seq<Seq<char>>)
    requires
        forall|name: Seq<char>| a.contains(name) <==> b.contains(name),
    ensures
        sorted_set(a) == sorted_set(b),
{
    lemma_sorted_set_exists(a);
    lemma_sorted_set_exists(b);
    lemma_sorted_set_unique(sorted_set(a), sorted_set(b));
}

/// A list of DLLs that is in order is kept as it is.
pub proof fn law_dll_list_is_stable(list: Seq<Seq<char>>)
    ensures
        sorted_set(sorted_set(list)) == sorted_set(list),
{
    lemma_sorted_set_exists(list);
    lemma_sorted_set(sorted_set(list), sorted_set(list));
}

/// What the numbers of subsystems mean keeps them apart.
pub proof fn law_subsystem_numbers_apart(a: u16, b: u16)
    requires
        Subsystem::numbered(a) == Subsystem::numbered(b),
    ensures
        a == b,
{
}

/// The labels keep the classes apart.
pub proof fn law_class_labels_apart(a: Classification, b: Classification)
    requires
        a.label() == b.label(),
    ensures
        a == b,
{
    reveal_strlit("Portable");
    reveal_strlit("Installer");
    reveal_strlit("Uninstaller");
    reveal_strlit("SFX");
    reveal_strlit("Launcher");
    reveal_strlit("Service");
    reveal_strlit(".NET");
    reveal_strlit("WebView");
    reveal_strlit("Console");
    reveal_strlit("Other");
    assert("Portable"@.len() == 8 && "Portable"@[0] == 'P');
    assert("Installer"@.len() == 9);
    assert("Uninstaller"@.len() == 11);
    assert("SFX"@.len() == 3);
    assert("Launcher"@.len() == 8 && "Launcher"@[0] == 'L');
    assert("Service"@.len() == 7 && "Service"@[0] == 'S');
    assert(".NET"@.len() == 4);
    assert("WebView"@.len() == 7 && "WebView"@[0] == 'W');
    assert("Console"@.len() == 7 && "Console"@[0] == 'C');
    assert("Other"@.len() == 5);
}

/// The labels keep the subsystems apart, but for those that have no label of their own.
pub proof fn law_subsystem_labels_apart(a: Subsystem, b: Subsystem)
    requires
        a.label() == b.label(),
    ensures
        a == b || (a is Other && b is Other),
{
    reveal_strlit("GUI");
    reveal_strlit("Console");
    reveal_strlit("Native");
    reveal_strlit("Other");
    assert("GUI"@.len() == 3);
    assert("Console"@.len() == 7);
    assert("Native"@.len() == 6);
    assert("Other"@.len() == 5);
}

/// Only the numbers one, two and three have a subsystem of their own.
pub proof fn law_other_subsystems(v: u16)
    ensures
        Subsystem::numbered(v) is Other <==> v == 0 || v > 3,
        Subsystem::numbered(v) matches Subsystem::Other(number) ==> number == v,
{
}

/// The members of a list that a filter keeps.
pub proof fn lemma_filter_contains<A>(items: Seq<A>, keep: spec_fn(A) -> bool, item: A)
    ensures
        items.filter(keep).contains(item) <==> items.contains(item) && keep(item),
    decreases items.len(),
{
    reveal(Seq::filter);
    if items.len() > 0 {
        let rest = items.drop_last();
        lemma_filter_contains(rest, keep, item);
        assert(items =~= rest.push(items.last()));
        assert(items.contains(item) <==> rest.contains(item) || item == items.last()) by {
            lemma_push_contains(rest, items.last(), item);
        }
        if keep(items.last()) {
            lemma_push_contains(rest.filter(keep), items.last(), item);
        }
    }
}

/// A DLL is named where one of the descriptors names it.
pub proof fn law_dll_named(dlls: Seq<ImportedDll>, name: Seq<char>)
    ensures
        all_dll_names(dlls).contains(name) <==> exists|i: int|
            0 <= i < dlls.len() && (#[trigger] dlls[i]).dll_name is Some && dll_text(
                dlls[i].dll_name->0,
            ) == name,
{
    let named = |d: ImportedDll| d.dll_name is Some;
    let text = |d: ImportedDll| dll_text(d.dll_name->0);
    let kept = dlls.filter(named);
    if all_dll_names(dlls).contains(name) {
        let k = choose|k: int| 0 <= k < kept.len() && kept.map_values(text)[k] == name;
        assert(kept.contains(kept[k]));
        lemma_filter_contains(dlls, named, kept[k]);
        let i = choose|i: int| 0 <= i < dlls.len() && dlls[i] == kept[k];
        assert(dlls[i].dll_name is Some && dll_text(dlls[i].dll_name->0) == name);
    }
    if exists|i: int|
        0 <= i < dlls.len() && (#[trigger] dlls[i]).dll_name is Some && dll_text(
            dlls[i].dll_name->0,
        ) == name {
        let i = choose|i: int|
            0 <= i < dlls.len() && (#[trigger] dlls[i]).dll_name is Some && dll_text(
                dlls[i].dll_name->0,
            ) == name;
        assert(dlls.contains(dlls[i]));
        lemma_filter_contains(dlls, named, dlls[i]);
        let k = choose|k: int| 0 <= k < kept.len() && kept[k] == dlls[i];
        assert(kept.map_values(text)[k] == name);
    }
}

/// The DLLs of a report do not depend on the order of the import descriptors.
pub proof fn law_descriptor_order(a: Seq<ImportedDll>, b: Seq<ImportedDll>)
    requires
        forall|dll: ImportedDll| a.contains(dll) <==> b.contains(dll),
    ensures
        sorted_set(all_dll_names(a)) == sorted_set(all_dll_names(b)),
{
    assert forall|name: Seq<char>|
        all_dll_names(a).contains(name) <==> all_dll_names(b).contains(name) by {
        law_dll_named(a, name);
        law_dll_named(b, name);
        if all_dll_names(a).contains(name) {
            let i = choose|i: int|
                0 <= i < a.len() && (#[trigger] a[i]).dll_name is Some && dll_text(
                    a[i].dll_name->0,
                ) == name;
            assert(a.contains(a[i]));
            let j = choose|j: int| 0 <= j < b.len() && b[j] == a[i];
            assert(b[j].dll_name is Some);
        }
        if all_dll_names(b).contains(name) {
            let i = choose|i: int|
                0 <= i < b.len() && (#[trigger] b[i]).dll_name is Some && dll_text(
                    b[i].dll_name->0,
                ) == name;
            assert(b.contains(b[i]));
            let j = choose|j: int| 0 <= j < a.len() && a[j] == b[i];
            assert(a[j].dll_name is Some);
        }
    }
    law_dll_list_is_a_set(all_dll_names(a), all_dll_names(b));
}

/// A DLL counts by its name in lower case: in which case the letters `A` to `Z` of the name
/// are written in the file is of no matter.
pub proof fn law_dll_name_case(a: ImportedDll, b: ImportedDll)
    requires
        a.dll_name is Some,
        b.dll_name is Some,
        with_ascii_lower(text_of(a.dll_name->0)) == with_ascii_lower(text_of(b.dll_name->0)),
        a.entries == b.entries,
    ensures
        dll_text(a.dll_name->0) == dll_text(b.dll_name->0),
        windows_of(a) == windows_of(b),
        services_of(a) == services_of(b),
{
    lemma_lower_case(text_of(a.dll_name->0), text_of(b.dll_name->0));
}

/// Functions that are imported by number, and entries that cannot be read, count for
/// nothing.
pub proof fn law_only_names_count(entries: Seq<Import>)
    requires
        forall|i: int| 0 <= i < entries.len() ==> !((#[trigger] entries[i]) is ByName),
    ensures
        names_in(entries) == Seq::<Seq<char>>::empty(),
{
    let named = |e: Import| e is ByName;
    let kept = entries.filter(named);
    if kept.len() > 0 {
        assert(kept.contains(kept[0]));
        lemma_filter_contains(entries, named, kept[0]);
    }
    assert(names_in(entries) =~= Seq::empty());
}

/// A function that creates windows counts only where it is imported from `user32.dll`.
pub proof fn law_windows_come_from_user32(dll: ImportedDll)
    requires
        dll.dll_name is Some,
        dll_text(dll.dll_name->0) != "user32.dll"@,
    ensures
        windows_of(dll) == Seq::<Seq<char>>::empty(),
{
    let creates = |name: Seq<char>| creates_window(dll_text(dll.dll_name->0), name);
    let kept = functions_of(dll).filter(creates);
    if kept.len() > 0 {
        assert(kept.contains(kept[0]));
        lemma_filter_contains(functions_of(dll), creates, kept[0]);
    }
    assert(kept =~= Seq::empty());
}

/// Import tables that are scanned one after the other are noted as one table that holds
/// them both would be.
pub proof fn law_scan_in_parts(a: Seq<ImportedDll>, b: Seq<ImportedDll>)
    ensures
        all_windows(a + b) == all_windows(a) + all_windows(b),
        all_services(a + b) == all_services(a) + all_services(b),
        all_dll_names(a + b) == all_dll_names(a) + all_dll_names(b),
    decreases b.len(),
{
    if b.len() == 0 {
        assert(a + b =~= a);
        assert(all_windows(a) + all_windows(b) =~= all_windows(a));
        assert(all_services(a) + all_services(b) =~= all_services(a));
        assert(all_dll_names(b) =~= Seq::empty());
        assert(all_dll_names(a) + all_dll_names(b) =~= all_dll_names(a));
    } else {
        let rest = b.drop_last();
        let last = b.last();
        law_scan_in_parts(a, rest);
        assert((a + b).drop_last() =~= a + rest);
        assert(all_windows(a + b) =~= all_windows(a) + all_windows(b));
        assert(all_services(a + b) =~= all_services(a) + all_services(b));
        assert(a + b =~= (a + rest).push(last));
        assert(b =~= rest.push(last));
        lemma_dll_names_push(a + rest, last);
        lemma_dll_names_push(rest, last);
        assert(all_dll_names(a + b) =~= all_dll_names(a) + all_dll_names(b));
    }
}

/// The empty list has the empty set.
proof fn lemma_sorted_set_empty()
    ensures
        sorted_set(Seq::<Seq<char>>::empty()) == Seq::<Seq<char>>::empty(),
{
    let none: Seq<Seq<char>> = Seq::empty();
    assert(is_sorted_set_of(none, none));
    lemma_sorted_set(none, none);
}

/// Of a program without a graphical interface only the headers are looked at. It opens no
/// window, and its class is told by its subsystem and by its runtime.
pub proof fn law_only_gui_programs_are_inspected(report: Report, bytes: Seq<u8>, wide: bool)
    requires
        report == analysis(bytes, wide),
        report.subsystem != Subsystem::Gui,
    ensures
        report.window_funcs.len() == 0,
        report.all_dlls.len() == 0,
        report.core_dlls.len() == 0,
        report.version is None,
        !report.has_window,
        !report.has_icon,
        !report.has_manifest,
        !report.has_dialog,
        !report.is_service,
        !report.is_stub,
        report.is_dotnet == holds_clr(bytes, wide),
        report.classification == (if report.subsystem == Subsystem::Console {
            Classification::ConsoleTool
        } else if holds_clr(bytes, wide) {
            Classification::DotNet
        } else {
            Classification::Other
        }),
{
    let none: Seq<ImportedDll> = Seq::empty();
    assert(all_windows(none) =~= Seq::empty());
    assert(all_services(none) =~= Seq::empty());
    assert(all_dll_names(none) =~= Seq::empty());
    lemma_sorted_set_empty();
    let core = |d: Seq<char>| listed(CORE_DLLS@, d);
    assert(Seq::<Seq<char>>::empty().filter(core) =~= Seq::empty());
}

/// The DLLs of a report stand in dictionary order, each once, and so do its core DLLs,
/// which are those DLLs of the report that are core DLLs.
pub proof fn law_dll_lists(report: Report, bytes: Seq<u8>, wide: bool)
    requires
        report == analysis(bytes, wide),
    ensures
        strictly_ordered(report.all_dlls),
        strictly_ordered(report.core_dlls),
        forall|name: Seq<char>|
            report.core_dlls.contains(name) <==> report.all_dlls.contains(name) && listed(
                CORE_DLLS@,
                name,
            ),
{
    let found = if subsystem_of(bytes) == Subsystem::Gui {
        dlls_or_none(imports_of(bytes, wide))
    } else {
        Seq::empty()
    };
    assert(report.all_dlls == sorted_set(all_dll_names(found)));
    lemma_sorted_set_exists(all_dll_names(found));
    let core = |d: Seq<char>| listed(CORE_DLLS@, d);
    lemma_sorted_set_exists(report.all_dlls.filter(core));
    assert forall|name: Seq<char>|
        report.core_dlls.contains(name) <==> report.all_dlls.contains(name) && listed(
            CORE_DLLS@,
            name,
        ) by {
        lemma_filter_contains(report.all_dlls, core, name);
    }
}

/// What is among the functions that create windows, over all DLLs.
proof fn lemma_all_windows(dlls: Seq<ImportedDll>, name: Seq<char>)
    requires
        all_windows(dlls).contains(name),
    ensures
        listed(WINDOW_CREATE_FUNCS@, name),
        all_dll_names(dlls).contains("user32.dll"@),
    decreases dlls.len(),
{
    let rest = dlls.drop_last();
    let last = dlls.last();
    let k = choose|k: int| 0 <= k < all_windows(dlls).len() && all_windows(dlls)[k] == name;
    assert(dlls =~= rest.push(last));
    lemma_dll_names_push(rest, last);
    if last.dll_name is Some {
        lemma_push_contains(all_dll_names(rest), dll_text(last.dll_name->0), "user32.dll"@);
    }
    if k < all_windows(rest).len() {
        assert(all_windows(rest)[k] == name);
        lemma_all_windows(rest, name);
    } else {
        assert(windows_of(last)[k - all_windows(rest).len()] == name);
        let creates = |n: Seq<char>| creates_window(dll_text(last.dll_name->0), n);
        lemma_filter_contains(functions_of(last), creates, name);
        assert(functions_of(last).contains(name));
    }
}

/// Where a report names functions that create windows, they are among those known to do
/// so, the program has a graphical interface, imports `user32.dll`, opens a window and is
/// no stub.
pub proof fn law_window_functions(report: Report, bytes: Seq<u8>, wide: bool)
    requires
        report == analysis(bytes, wide),
    ensures
        forall|name: Seq<char>| #[trigger]
            report.window_funcs.contains(name) ==> listed(WINDOW_CREATE_FUNCS@, name),
        report.window_funcs.len() > 0 ==> {
            &&& report.subsystem == Subsystem::Gui
            &&& report.all_dlls.contains("user32.dll"@)
            &&& report.has_window
            &&& !report.is_stub
        },
{
    let found = if subsystem_of(bytes) == Subsystem::Gui {
        dlls_or_none(imports_of(bytes, wide))
    } else {
        Seq::empty()
    };
    assert(report.window_funcs == all_windows(found));
    assert forall|name: Seq<char>| #[trigger] report.window_funcs.contains(name) implies listed(
        WINDOW_CREATE_FUNCS@,
        name,
    ) by {
        lemma_all_windows(found, name);
    }
    if report.window_funcs.len() > 0 {
        assert(report.window_funcs.contains(report.window_funcs[0]));
        lemma_all_windows(found, report.window_funcs[0]);
        lemma_sorted_set_exists(all_dll_names(found));
    }
}

/// Only a program with a graphical interface opens a window. It does so exactly where it
/// imports a function to create one, has a dialog, is one of .NET, or has an icon and is
/// no stub.
pub proof fn law_window(report: Report, bytes: Seq<u8>, wide: bool)
    requires
        report == analysis(bytes, wide),
    ensures
        report.has_window <==> report.subsystem == Subsystem::Gui && {
            ||| report.window_funcs.len() > 0
            ||| report.has_dialog
            ||| report.is_dotnet
            ||| report.has_icon && !report.is_stub
        },
{
    law_window_functions(report, bytes, wide);
}

/// A stub is a program with a graphical interface that imports little, creates no window
/// of its own and is neither a service nor a program of .NET. It is classified as a
/// launcher, and opens a window only where it has a dialog.
pub proof fn law_stub(report: Report, bytes: Seq<u8>, wide: bool)
    requires
        report == analysis(bytes, wide),
    ensures
        report.is_stub <==> {
            &&& report.subsystem == Subsystem::Gui
            &&& report.all_dlls.len() <= 8
            &&& !report.all_dlls.contains("user32.dll"@)
            &&& report.window_funcs.len() == 0
            &&& !report.is_service
            &&& !report.is_dotnet
        },
        report.is_stub ==> report.classification == Classification::Launcher,
        report.is_stub ==> report.has_window == report.has_dialog,
{
}

/// A program is one of .NET where it imports the library that starts its runtime, or where
/// its headers point to code for the runtime.
pub proof fn law_dotnet(report: Report, bytes: Seq<u8>, wide: bool)
    requires
        report == analysis(bytes, wide),
    ensures
        report.is_dotnet <==> report.all_dlls.contains("mscoree.dll"@) || holds_clr(bytes, wide),
        report.is_dotnet && report.subsystem == Subsystem::Gui ==> report.has_window,
{
}

/// What tells the class of a program: the subsystem before .NET, that before the functions
/// of a service, those before a stub, and a stub before the version information, which
/// alone tells installers and uninstallers. Any other program is portable where it opens a
/// window, and of no known class where it opens none.
pub proof fn law_classes(report: Report, bytes: Seq<u8>, wide: bool)
    requires
        report == analysis(bytes, wide),
    ensures
        report.classification == Classification::ConsoleTool <==> report.subsystem
            == Subsystem::Console,
        report.classification == Classification::DotNet <==> report.subsystem
            != Subsystem::Console && report.is_dotnet,
        report.classification == Classification::Service <==> report.subsystem
            != Subsystem::Console && !report.is_dotnet && report.is_service,
        report.classification == Classification::Launcher <==> report.is_stub,
        ({
            let told = told_by_version(report.version);
            let left = report.subsystem != Subsystem::Console && !report.is_dotnet
                && !report.is_service && !report.is_stub;
            &&& report.classification == Classification::Uninstaller <==> left && told == Some(
                Classification::Uninstaller,
            )
            &&& report.classification == Classification::Installer <==> left && told == Some(
                Classification::Installer,
            )
            &&& report.classification == Classification::Portable <==> left && told is None
                && report.has_window
            &&& report.classification == Classification::Other <==> left && told is None
                && !report.has_window
        }),
        report.classification != Classification::SfxArchive,
        report.classification != Classification::WebView,
{
}

/// Where the original file name tells an installer or an uninstaller, the description does
/// not matter.
pub proof fn law_file_name_before_description(a: VersionTexts, b: VersionTexts)
    requires
        a.original_filename == b.original_filename,
        a.original_filename matches Some(name) && told_by_file_name(lower_case(name)) is Some,
    ensures
        told_by_version(Some(a)) == told_by_version(Some(b)),
{
}

/// Two optional texts are the same but for the case of the letters `A` to `Z`.
pub open spec fn same_but_for_case(a: Option<Seq<char>>, b: Option<Seq<char>>) -> bool {
    match (a, b) {
        (Some(x), Some(y)) => with_ascii_lower(x) == with_ascii_lower(y),
        (None, None) => true,
        _ => false,
    }
}

/// In which case the letters `A` to `Z` are written in the original file name and in the
/// description does not matter to the class of a program.
pub proof fn law_letter_case(
    a: VersionTexts,
    b: VersionTexts,
    subsystem: Subsystem,
    is_dotnet: bool,
    is_service: bool,
    is_stub: bool,
    has_window: bool,
)
    requires
        same_but_for_case(a.original_filename, b.original_filename),
        same_but_for_case(a.file_description, b.file_description),
    ensures
        class_of(subsystem, is_dotnet, is_service, is_stub, Some(a), has_window) == class_of(
            subsystem,
            is_dotnet,
            is_service,
            is_stub,
            Some(b),
            has_window,
        ),
{
    if a.original_filename is Some {
        lemma_lower_case(a.original_filename->0, b.original_filename->0);
    }
    if a.file_description is Some {
        lemma_lower_case(a.file_description->0, b.file_description->0);
    }
}

/// A report has a summary of version information exactly where the program has a graphical
/// interface and its resources list version information.
pub proof fn law_version(report: Report, bytes: Seq<u8>, wide: bool)
    requires
        report == analysis(bytes, wide),
    ensures
        report.version is Some <==> report.subsystem == Subsystem::Gui && resource_types(
            resources_of(bytes, wide),
        ).contains(Some(VERSION)),
{
}

/// A manifest is reported, and decides nothing.
pub proof fn law_manifest_decides_nothing(
    subsystem: Subsystem,
    window_funcs: Seq<Seq<char>>,
    all_dlls: Seq<Seq<char>>,
    is_service: bool,
    has_dialog: bool,
    has_icon: bool,
    version: Option<VersionTexts>,
    is_dotnet: bool,
    is_stub: bool,
)
    ensures
        report_on(
            subsystem,
            window_funcs,
            all_dlls,
            is_service,
            true,
            has_dialog,
            has_icon,
            version,
            is_dotnet,
            is_stub,
        ) == (Report {
            has_manifest: true,
            ..report_on(
                subsystem,
                window_funcs,
                all_dlls,
                is_service,
                false,
                has_dialog,
                has_icon,
                version,
                is_dotnet,
                is_stub,
            )
        }),
{
}

/// The first zero word is no further than behind the last word.
pub proof fn lemma_first_nul(words: Seq<u16>)
    ensures
        0 <= first_nul(words) <= words.len(),
    decreases words.len(),
{
    if words.len() > 0 && words[0] != 0 {
        lemma_first_nul(words.drop_first());
    }
}

/// Where the padding behind a block's key does not fit, the key has an odd length and its
/// terminator is the last word of the block.
pub proof fn law_overrun(words: Seq<u16>, unit: ValueLength)
    requires
        first_block(words, unit) is Overrun,
    ensures
        first_nul(words.subrange(3, block_length(words))) % 2 == 1,
        first_nul(words.subrange(3, block_length(words))) + 4 == block_length(words),
{
    lemma_first_nul(words.subrange(3, block_length(words)));
}

} // verus!
