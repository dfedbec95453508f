//! The steps of the analysis, one by one.
use playscript::analyze::{can_analyze, conclude};
use playscript::blocks::{can_walk_languages, can_walk_strings};
use playscript::buffer::store;
use playscript::classify::{
    build, class_by_description, class_by_file_name, classify, core_dlls, CORE_DLLS,
};
use playscript::clr::has_clr;
use playscript::imports::{
    cstr_lower, note_import, scan_descriptor, scan_imports, scan_table, ImportDescriptor, SERVICE_FUNCS,
};
use playscript::pe::ImportEntry;
use playscript::resources::{
    has_version, note_types, words_of, DIALOG, GROUP_ICON, MANIFEST, VERSION,
};
use playscript::sections::{count_items, Item};
use playscript::tags::tags;
use playscript::text::{
    chars_of, comes_before, contains_text, has_text, is_listed, same_text, sort_dedup,
};
use playscript::{
    AnalyzeResult, Classification, Subsystem, VersionSummary, WINDOW_CREATE_FUNCS,
};

fn strings(list: &[&str]) -> Vec<String> {
    list.iter().map(|s| s.to_string()).collect()
}

fn nothing_found(subsystem: Subsystem) -> AnalyzeResult {
    build(subsystem, vec![], vec![], false, false, false, false, None, false, false)
}

#[test]
fn subsystem_numbers() {
    assert_eq!(Subsystem::from_u16(2), Subsystem::Gui);
    assert_eq!(Subsystem::from_u16(3), Subsystem::Console);
    assert_eq!(Subsystem::from_u16(1), Subsystem::Native);
    assert_eq!(Subsystem::from_u16(0), Subsystem::Other(0));
    assert_eq!(Subsystem::from_u16(16), Subsystem::Other(16));
}

#[test]
fn labels() {
    assert_eq!(Subsystem::Gui.as_str(), "GUI");
    assert_eq!(Subsystem::Console.as_str(), "Console");
    assert_eq!(Subsystem::Native.as_str(), "Native");
    assert_eq!(Subsystem::Other(9).as_str(), "Other");
    let classes = [
        (Classification::Portable, "Portable"),
        (Classification::Installer, "Installer"),
        (Classification::Uninstaller, "Uninstaller"),
        (Classification::SfxArchive, "SFX"),
        (Classification::Launcher, "Launcher"),
        (Classification::Service, "Service"),
        (Classification::DotNet, ".NET"),
        (Classification::WebView, "WebView"),
        (Classification::ConsoleTool, "Console"),
        (Classification::Other, "Other"),
    ];
    for (class, label) in classes {
        assert_eq!(class.as_str(), label);
    }
}

#[test]
fn a_summary_is_empty_by_default() {
    let summary = VersionSummary::default();
    assert!(summary.original_filename.is_none());
    assert!(summary.file_description.is_none());
    assert!(summary.company_name.is_none());
    assert!(summary.product_name.is_none());
    assert!(summary.file_version.is_none());
}

#[test]
fn known_names() {
    assert_eq!(WINDOW_CREATE_FUNCS.len(), 18);
    assert_eq!(SERVICE_FUNCS.len(), 6);
    assert_eq!(CORE_DLLS.len(), 17);
    assert!(is_listed(&WINDOW_CREATE_FUNCS, "PropertySheetW"));
    assert!(is_listed(&WINDOW_CREATE_FUNCS, "CreateWindowExA"));
    assert!(!is_listed(&WINDOW_CREATE_FUNCS, "ShowWindow"));
    assert!(!is_listed(&CORE_DLLS, "KERNEL32.dll"));
}

#[test]
fn texts_are_compared_by_their_characters() {
    assert_eq!(chars_of("aß!"), vec!['a', 'ß', '!']);
    assert!(same_text("", ""));
    assert!(same_text("äö", "äö"));
    assert!(!same_text("a", "ab"));
    assert!(!same_text("ab", "ac"));
    assert!(contains_text("reinstall", "install"));
    assert!(contains_text("install", "install"));
    assert!(contains_text("x", ""));
    assert!(contains_text("aab", "ab"));
    assert!(!contains_text("instal", "install"));
    assert!(!contains_text("inst all", "install"));
    assert!(contains_text("größe", "öß"));
    assert!(has_text(&strings(&["a", "b"]), "b"));
    assert!(!has_text(&strings(&["a", "b"]), "c"));
}

#[test]
fn dictionary_order() {
    assert!(comes_before("", "a"));
    assert!(comes_before("a", "b"));
    assert!(comes_before("a", "aa"));
    assert!(comes_before("Z", "a"));
    assert!(comes_before("z", "ä"));
    assert!(!comes_before("a", "a"));
    assert!(!comes_before("b", "ab"));
    assert!(!comes_before("aa", "a"));
}

#[test]
fn lists_are_sorted_and_freed_of_duplicates() {
    assert!(sort_dedup(&vec![]).is_empty());
    let list = strings(&["b.dll", "a.dll", "b.dll", "B.dll", "aa.dll", "a.dll"]);
    assert_eq!(sort_dedup(&list), vec!["B.dll", "a.dll", "aa.dll", "b.dll"]);
    let mut expected = list.clone();
    expected.sort();
    expected.dedup();
    assert_eq!(sort_dedup(&list), expected);
}

#[test]
fn neither_order_nor_repetition_changes_a_list_of_dlls() {
    let a = sort_dedup(&strings(&["c.dll", "a.dll", "b.dll", "a.dll"]));
    let b = sort_dedup(&strings(&["a.dll", "b.dll", "c.dll", "c.dll", "c.dll"]));
    assert_eq!(a, b);
    assert_eq!(sort_dedup(&a), a);
}

#[test]
fn the_order_of_descriptors_does_not_change_the_dlls() {
    let scan = |dlls: &[&str]| {
        let descs: Vec<ImportDescriptor> = dlls.iter().map(|dll| imported(dll, &[])).collect();
        let (mut windows, mut services, mut all) = (vec![], vec![], vec![]);
        scan_imports(&descs, &mut windows, &mut services, &mut all);
        sort_dedup(&all)
    };
    assert_eq!(scan(&["b.dll", "A.dll"]), vec!["a.dll", "b.dll"]);
    assert_eq!(scan(&["a.DLL", "B.dll"]), vec!["a.dll", "b.dll"]);
}

#[test]
fn a_manifest_decides_nothing() {
    let with = |manifest: bool| {
        build(Subsystem::Gui, vec![], vec![], false, manifest, false, true, None, false, false)
    };
    let mut r = with(false);
    assert!(with(true).has_manifest && !r.has_manifest);
    r.has_manifest = true;
    assert_eq!(format!("{:?}", with(true)), format!("{:?}", r));
}

#[test]
fn names_of_dlls_are_text_in_lower_case() {
    assert_eq!(cstr_lower(b"KERNEL32.DLL"), "kernel32.dll");
    assert_eq!(cstr_lower("GRÖSSE.dll".as_bytes()), "grösse.dll");
    assert_eq!(cstr_lower(b"a\xffB"), "a\u{fffd}b");
    assert_eq!(cstr_lower(b"@[`{AZaz09"), "@[`{azaz09");
    // A sigma at the end of a word has a form of its own, whatever the case before it.
    assert_eq!(cstr_lower("AΣ".as_bytes()), "aς");
    assert_eq!(cstr_lower("aΣ".as_bytes()), "aς");
    assert_eq!(cstr_lower("AΣB".as_bytes()), "aσb");
    assert_eq!(cstr_lower("aΣb".as_bytes()), "aσb");
}

#[test]
fn the_core_dlls_of_a_list() {
    let list = strings(&["zeta.dll", "version.dll", "ntdll.dll", "ntdll.dll", "Ntdll.dll"]);
    assert_eq!(core_dlls(&list), vec!["ntdll.dll", "version.dll"]);
}

#[test]
fn what_a_file_name_tells() {
    assert_eq!(class_by_file_name("unins000.exe"), Some(Classification::Uninstaller));
    assert_eq!(class_by_file_name("uninstall.exe"), Some(Classification::Uninstaller));
    assert_eq!(class_by_file_name("setup.exe"), Some(Classification::Installer));
    assert_eq!(class_by_file_name("installer.exe"), Some(Classification::Installer));
    assert_eq!(class_by_file_name("Setup.exe"), None);
    assert_eq!(class_by_file_name("notepad.exe"), None);
}

#[test]
fn what_a_description_tells() {
    assert_eq!(class_by_description("uninstall it"), Some(Classification::Uninstaller));
    assert_eq!(class_by_description("unins it"), None);
    assert_eq!(class_by_description("a setup program"), Some(Classification::Installer));
    assert_eq!(class_by_description("installs it"), Some(Classification::Installer));
    assert_eq!(class_by_description("an editor"), None);
}

#[test]
fn the_order_in_which_a_class_is_chosen() {
    let mut r = nothing_found(Subsystem::Console);
    r.is_dotnet = true;
    r.is_service = true;
    r.is_stub = true;
    r.has_window = true;
    r.version = Some(VersionSummary {
        original_filename: Some("UNINS000.EXE".to_string()),
        file_description: Some("Setup".to_string()),
        ..VersionSummary::default()
    });
    assert_eq!(classify(&r), Classification::ConsoleTool);
    r.subsystem = Subsystem::Gui;
    assert_eq!(classify(&r), Classification::DotNet);
    r.is_dotnet = false;
    assert_eq!(classify(&r), Classification::Service);
    r.is_service = false;
    assert_eq!(classify(&r), Classification::Launcher);
    r.is_stub = false;
    assert_eq!(classify(&r), Classification::Uninstaller);
    r.version.as_mut().unwrap().original_filename = Some("a.exe".to_string());
    assert_eq!(classify(&r), Classification::Installer);
    r.version.as_mut().unwrap().file_description = None;
    assert_eq!(classify(&r), Classification::Portable);
    r.version = None;
    assert_eq!(classify(&r), Classification::Portable);
    r.has_window = false;
    assert_eq!(classify(&r), Classification::Other);
}

#[test]
fn the_case_of_letters_does_not_change_the_class() {
    let class = |name: &str, text: &str| {
        let mut r = nothing_found(Subsystem::Gui);
        r.version = Some(VersionSummary {
            original_filename: Some(name.to_string()),
            file_description: Some(text.to_string()),
            ..VersionSummary::default()
        });
        classify(&r)
    };
    assert_eq!(class("MY-SeTuP.exe", ""), Classification::Installer);
    assert_eq!(class("my-setup.exe", ""), Classification::Installer);
    assert_eq!(class("a", "UnInstall ÄΣ"), Classification::Uninstaller);
    assert_eq!(class("A", "uNiNSTALL ÄΣ"), Classification::Uninstaller);
}

#[test]
fn what_opens_a_window() {
    let window = |subsystem: Subsystem, funcs: &[&str], dialog, icon, dotnet, stub| {
        build(subsystem, strings(funcs), vec![], false, false, dialog, icon, None, dotnet, stub)
            .has_window
    };
    assert!(window(Subsystem::Native, &["MessageBoxA"], false, false, false, false));
    assert!(window(Subsystem::Gui, &[], true, false, false, true));
    assert!(!window(Subsystem::Native, &[], true, true, true, false));
    assert!(window(Subsystem::Gui, &[], false, false, true, false));
    assert!(window(Subsystem::Gui, &[], false, true, false, false));
    assert!(!window(Subsystem::Gui, &[], false, true, false, true));
    assert!(!window(Subsystem::Gui, &[], false, false, false, false));
}

#[test]
fn a_report_repeats_what_was_found() {
    let version = VersionSummary {
        product_name: Some("Product".to_string()),
        ..VersionSummary::default()
    };
    let r = build(
        Subsystem::Gui,
        strings(&["MessageBoxW"]),
        strings(&["b.dll", "gdi32.dll", "b.dll"]),
        true,
        true,
        false,
        true,
        Some(version),
        false,
        false,
    );
    assert_eq!(r.subsystem, Subsystem::Gui);
    assert_eq!(r.window_funcs, vec!["MessageBoxW"]);
    assert_eq!(r.all_dlls, vec!["b.dll", "gdi32.dll", "b.dll"]);
    assert_eq!(r.core_dlls, vec!["gdi32.dll"]);
    assert!(r.is_service && r.has_manifest && r.has_icon && r.has_window);
    assert!(!r.has_dialog && !r.is_dotnet && !r.is_stub);
    assert_eq!(r.version.unwrap().product_name.as_deref(), Some("Product"));
    assert_eq!(r.classification, Classification::Service);
}

#[test]
fn tags_name_what_stands_out() {
    let mut r = nothing_found(Subsystem::Gui);
    assert!(tags(&r).is_empty());
    r.is_stub = true;
    r.has_icon = true;
    assert_eq!(tags(&r), vec!["Stub", "Icon"]);
    r.is_dotnet = true;
    r.is_service = true;
    r.has_manifest = true;
    r.has_dialog = true;
    r.version = Some(VersionSummary::default());
    assert_eq!(
        tags(&r),
        vec![".NET", "Service", "Stub", "Manifest", "DialogRes", "Icon", "VersionInfo"],
    );
}

#[test]
fn conclusions() {
    let r = conclude(
        &[],
        true,
        Subsystem::Gui,
        vec![],
        vec![],
        strings(&["b.dll", "a.dll", "b.dll"]),
        false,
        false,
        true,
        None,
    );
    assert_eq!(r.all_dlls, vec!["a.dll", "b.dll"]);
    assert!(r.is_stub && !r.has_window && !r.is_dotnet && !r.is_service);
    assert_eq!(r.classification, Classification::Launcher);
    let r = conclude(
        &[],
        true,
        Subsystem::Gui,
        vec![],
        strings(&["StartServiceCtrlDispatcherA"]),
        strings(&["mscoree.dll"]),
        false,
        false,
        true,
        None,
    );
    assert!(r.is_service && r.is_dotnet && !r.is_stub && r.has_window);
    assert_eq!(r.classification, Classification::DotNet);
}

#[test]
fn imports_are_noted_by_dll_and_name() {
    let mut windows = strings(&["before"]);
    let mut services = vec![];
    note_import("user32.dll", &"MessageBoxA".to_string(), &mut windows, &mut services);
    note_import("User32.dll", &"MessageBoxW".to_string(), &mut windows, &mut services);
    note_import("user32.dll", &"ShowWindow".to_string(), &mut windows, &mut services);
    note_import(
        "any.dll",
        &"RegisterServiceCtrlHandlerExA".to_string(),
        &mut windows,
        &mut services,
    );
    assert_eq!(windows, vec!["before", "MessageBoxA"]);
    assert_eq!(services, vec!["RegisterServiceCtrlHandlerExA"]);
}

fn imported(dll: &str, functions: &[&str]) -> ImportDescriptor {
    ImportDescriptor {
        dll_name: Some(dll.as_bytes().to_vec()),
        entries: Some(
            functions.iter().map(|f| ImportEntry::ByName(f.as_bytes().to_vec())).collect(),
        ),
    }
}

#[test]
fn a_descriptor_is_scanned() {
    let mut windows = vec![];
    let mut services = vec![];
    let mut all = strings(&["first.dll"]);
    let mut desc = imported("USER32.dll", &["MessageBoxA", "StartServiceCtrlDispatcherW"]);
    if let Some(entries) = &mut desc.entries {
        entries.push(ImportEntry::ByOrdinal(1));
        entries.push(ImportEntry::Unreadable);
        entries.push(ImportEntry::ByName(b"CreateWindowExA".to_vec()));
    }
    scan_descriptor(&desc, &mut windows, &mut services, &mut all);
    assert_eq!(windows, vec!["MessageBoxA", "CreateWindowExA"]);
    assert_eq!(services, vec!["StartServiceCtrlDispatcherW"]);
    assert_eq!(all, vec!["first.dll", "user32.dll"]);
    desc.dll_name = None;
    scan_descriptor(&desc, &mut windows, &mut services, &mut all);
    assert_eq!((windows.len(), services.len(), all.len()), (2, 1, 2));
    let desc = ImportDescriptor { dll_name: Some(b"X.dll".to_vec()), entries: None };
    scan_descriptor(&desc, &mut windows, &mut services, &mut all);
    assert_eq!((windows.len(), services.len()), (2, 1));
    assert_eq!(all, vec!["first.dll", "user32.dll", "x.dll"]);
}

#[test]
fn a_table_is_scanned() {
    let mut windows = vec![];
    let mut services = vec![];
    let mut all = vec![];
    scan_table(&None, &mut windows, &mut services, &mut all);
    assert!(windows.is_empty() && services.is_empty() && all.is_empty());
    let table = Some(vec![
        imported("user32.dll", &["MessageBoxA"]),
        imported("user32.dll", &["MessageBoxA"]),
    ]);
    scan_table(&table, &mut windows, &mut services, &mut all);
    assert_eq!(windows, vec!["MessageBoxA", "MessageBoxA"]);
    assert_eq!(all, vec!["user32.dll", "user32.dll"]);
}

#[test]
fn scanning_in_parts_is_scanning_at_once() {
    let first = vec![imported("user32.dll", &["MessageBoxA"]), imported("b.dll", &[])];
    let second = vec![imported("a.dll", &["StartServiceCtrlDispatcherA"])];
    let (mut w1, mut s1, mut a1) = (vec![], vec![], vec![]);
    scan_imports(&first, &mut w1, &mut s1, &mut a1);
    scan_imports(&second, &mut w1, &mut s1, &mut a1);
    let both = vec![
        imported("user32.dll", &["MessageBoxA"]),
        imported("b.dll", &[]),
        imported("a.dll", &["StartServiceCtrlDispatcherA"]),
    ];
    let (mut w2, mut s2, mut a2) = (vec![], vec![], vec![]);
    scan_imports(&both, &mut w2, &mut s2, &mut a2);
    assert_eq!((w1, s1, a1), (w2, s2, a2));
}

#[test]
fn resource_types_are_noted() {
    assert_eq!((DIALOG, GROUP_ICON, MANIFEST), (5, 14, 24));
    let (mut manifest, mut dialog, mut icon) = (false, false, true);
    note_types(&vec![None, Some(16), Some(24)], &mut manifest, &mut dialog, &mut icon);
    assert!(manifest && !dialog && icon);
    note_types(&vec![Some(5)], &mut manifest, &mut dialog, &mut icon);
    assert!(manifest && dialog && icon);
}

#[test]
fn words_are_read_low_byte_first() {
    assert_eq!(words_of(&vec![0x34, 0x12, 0xff, 0xff, 0x01]), vec![0x1234, 0xffff]);
    assert!(words_of(&vec![7]).is_empty());
}

/// Bytes with a data directory for the runtime of .NET.
fn with_clr(is64: bool, length: usize) -> Vec<u8> {
    let mut bytes = vec![0u8; length];
    bytes[0] = 0x4d;
    bytes[1] = 0x5a;
    bytes[0x3c] = 0x20;
    let at = 0x20 + 24 + if is64 { 112 } else { 96 } + 112;
    bytes[at + 3] = 1;
    bytes
}

#[test]
fn the_runtime_of_dotnet() {
    for is64 in [true, false] {
        let bytes = with_clr(is64, 300);
        assert!(has_clr(&bytes, is64));
        assert!(!has_clr(&bytes, !is64));
        assert!(!has_clr(&bytes[..299], is64));
        let mut other = bytes.clone();
        other[1] = 0x5b;
        assert!(!has_clr(&other, is64));
        // The directory has to fit in the file.
        let at = 0x20 + 24 + if is64 { 112 } else { 96 } + 112;
        let mut far = bytes.clone();
        let shift = 300 - (at + 8);
        far[0x3c] = 0x20 + shift as u8;
        far[at + shift] = 1;
        assert!(has_clr(&far, is64));
        far[0x3c] += 1;
        assert!(!has_clr(&far, is64));
        far[0x3c..0x40].copy_from_slice(&[0xff; 4]);
        assert!(!has_clr(&far, is64));
    }
    assert!(!has_clr(&[], true));
}

#[test]
fn bytes_are_stored_in_eight_byte_numbers() {
    assert!(store(&[]).is_empty());
    assert_eq!(store(&[1]), vec![1]);
    assert_eq!(store(&[1, 2, 3, 4, 5, 6, 7, 8]), vec![0x0807_0605_0403_0201]);
    assert_eq!(
        store(&[0xff, 0, 0, 0, 0, 0, 0, 0x80, 7, 0, 9]),
        vec![0x8000_0000_0000_00ff, 0x0009_0007],
    );
}

#[test]
fn items_are_counted_up_to_the_one_that_ends_them() {
    let bytes = [1, 0, 0, 0, 0, 0, 0, 1, 0, 0, 0, 0, 0, 0, 0, 0, 0, 0, 0, 0];
    assert_eq!(count_items(&bytes, 0, 20, Item::Byte), Some(1));
    assert_eq!(count_items(&bytes, 1, 20, Item::Byte), Some(0));
    assert_eq!(count_items(&bytes, 0, 1, Item::Byte), None);
    assert_eq!(count_items(&bytes, 0, 20, Item::Narrow), Some(2));
    assert_eq!(count_items(&bytes, 0, 11, Item::Narrow), None);
    assert_eq!(count_items(&bytes, 0, 16, Item::Wide), Some(1));
    assert_eq!(count_items(&bytes, 0, 15, Item::Wide), None);
    assert_eq!(count_items(&bytes, 0, 20, Item::Descriptor), Some(0));
    assert_eq!(count_items(&bytes, 0, 19, Item::Descriptor), None);
}

#[test]
fn version_information_among_resource_types() {
    assert_eq!(VERSION, 16);
    assert!(has_version(&vec![None, Some(16)]));
    assert!(!has_version(&vec![None, Some(24)]));
}

#[test]
fn what_is_no_pe_file_can_be_analyzed() {
    assert!(can_analyze(&[]));
    assert!(can_analyze(&[0x4d; 100]));
}

/// A block with a key and the words of its children.
fn block(key: &str, children: &[u16]) -> Vec<u16> {
    let mut words = vec![0, 0, 0];
    words.extend(key.encode_utf16());
    words.push(0);
    if words.len() % 2 != 0 {
        words.push(0);
    }
    words.extend_from_slice(children);
    words[0] = 2 * words.len() as u16;
    words
}

/// A block that has no room for the padding behind its key.
fn overrun(key: &str) -> Vec<u16> {
    let mut words = vec![0, 0, 0];
    words.extend(key.encode_utf16());
    words.push(0);
    words[0] = 2 * words.len() as u16;
    words
}

#[test]
fn blocks_that_can_be_walked() {
    assert!(can_walk_languages(&[]));
    assert!(can_walk_strings(&[1, 2, 3], (0, 0)));
    assert!(can_walk_languages(&overrun("even")));
    assert!(!can_walk_languages(&overrun("odd")));
    assert!(!can_walk_strings(&overrun("odd"), (0, 0)));
    // A key without a terminator, and a length beyond the words, end the walk.
    assert!(can_walk_languages(&[14, 0, 0, 1, 2, 3, 4]));
    assert!(can_walk_languages(&[100, 0, 0, 1, 0]));
}

#[test]
fn only_the_walk_that_is_made_matters() {
    let bad = overrun("odd");
    let languages = block("root", &block("VarFileInfo", &bad));
    assert!(!can_walk_languages(&languages));
    assert!(can_walk_strings(&languages, (0x409, 0x4b0)));
    let table = block("040904b0", &bad);
    let strings = block("root", &block("StringFileInfo", &table));
    assert!(can_walk_languages(&strings));
    assert!(!can_walk_strings(&strings, (0x409, 0x4b0)));
    assert!(can_walk_strings(&strings, (0x407, 0x4b0)));
    let other = block("root", &block("OtherFileInfo", &bad));
    assert!(can_walk_languages(&other) && can_walk_strings(&other, (0x409, 0x4b0)));
    let second = [block("any", &[]), bad].concat();
    assert!(!can_walk_languages(&block("root", &second)));
}
