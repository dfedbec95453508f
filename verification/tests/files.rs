//! The analysis of whole files, put together byte by byte.
use playscript::tags::tags;
use playscript::{
    analyze_exe, analyze_exe_checked, AnalyzeError, AnalyzeResult, Classification, Subsystem,
    VersionSummary,
};

const SECTION_AT: usize = 0x400;
const SECTION_RVA: u32 = 0x1000;

fn put16(bytes: &mut [u8], at: usize, value: u16) {
    bytes[at..at + 2].copy_from_slice(&value.to_le_bytes());
}

fn put32(bytes: &mut [u8], at: usize, value: u32) {
    bytes[at..at + 4].copy_from_slice(&value.to_le_bytes());
}

fn pad(bytes: &mut Vec<u8>, multiple: usize) {
    while bytes.len() % multiple != 0 {
        bytes.push(0);
    }
}

/// A file with some sections, for each its address, its place in the file and its data, and
/// with some data directories, for each its place in the list, its address and its size.
fn layout(
    wide: bool,
    subsystem: u16,
    sections: &[(u32, usize, &[u8])],
    directories: &[(usize, u32, u32)],
) -> Vec<u8> {
    let fixed = if wide { 112 } else { 96 };
    let optional = 0x80 + 24;
    let mut bytes = vec![0u8; SECTION_AT];
    bytes[0] = b'M';
    bytes[1] = b'Z';
    put32(&mut bytes, 0x3c, 0x80);
    bytes[0x80] = b'P';
    bytes[0x81] = b'E';
    put16(&mut bytes, 0x80 + 4, if wide { 0x8664 } else { 0x14c });
    put16(&mut bytes, 0x80 + 6, sections.len() as u16);
    put16(&mut bytes, 0x80 + 20, fixed as u16 + 128);
    put16(&mut bytes, optional, if wide { 0x20b } else { 0x10b });
    put32(&mut bytes, optional + 56, 0x10_0000);
    put32(&mut bytes, optional + 60, SECTION_AT as u32);
    put16(&mut bytes, optional + 68, subsystem);
    put32(&mut bytes, optional + fixed - 4, 16);
    for (index, rva, size) in directories {
        put32(&mut bytes, optional + fixed + 8 * index, *rva);
        put32(&mut bytes, optional + fixed + 8 * index + 4, *size);
    }
    for (i, (rva, place, data)) in sections.iter().enumerate() {
        let header = optional + fixed + 128 + 40 * i;
        put32(&mut bytes, header + 8, data.len() as u32);
        put32(&mut bytes, header + 12, *rva);
        put32(&mut bytes, header + 16, data.len() as u32);
        put32(&mut bytes, header + 20, *place as u32);
        if bytes.len() < place + data.len() {
            bytes.resize(place + data.len(), 0);
        }
        bytes[*place..place + data.len()].copy_from_slice(data);
    }
    bytes
}

/// A file with one section.
fn file(wide: bool, subsystem: u16, section: &[u8], directories: &[(usize, u32, u32)]) -> Vec<u8> {
    layout(wide, subsystem, &[(SECTION_RVA, SECTION_AT, section)], directories)
}

enum Entry<'a> {
    Name(&'a [u8]),
    Ordinal(u16),
    Broken,
}

/// An import table that starts at `SECTION_RVA`.
fn import_table(wide: bool, dlls: &[(&[u8], Vec<Entry<'_>>)]) -> Vec<u8> {
    let mut section = vec![0u8; 20 * (dlls.len() + 1)];
    for (i, (dll, entries)) in dlls.iter().enumerate() {
        let name_rva = SECTION_RVA + section.len() as u32;
        section.extend_from_slice(dll);
        section.push(0);
        let mut thunks: Vec<u64> = Vec::new();
        let flag: u64 = if wide { 1 << 63 } else { 1 << 31 };
        for entry in entries {
            match entry {
                Entry::Name(name) => {
                    pad(&mut section, 2);
                    thunks.push((SECTION_RVA as usize + section.len()) as u64);
                    section.extend_from_slice(&[0, 0]);
                    section.extend_from_slice(name);
                    section.push(0);
                }
                Entry::Ordinal(number) => thunks.push(flag | *number as u64),
                Entry::Broken => thunks.push(0x7fff_fff0),
            }
        }
        thunks.push(0);
        pad(&mut section, 8);
        let table_rva = SECTION_RVA + section.len() as u32;
        for thunk in thunks {
            if wide {
                section.extend_from_slice(&thunk.to_le_bytes());
            } else {
                section.extend_from_slice(&(thunk as u32).to_le_bytes());
            }
        }
        put32(&mut section, 20 * i, table_rva);
        put32(&mut section, 20 * i + 12, name_rva);
        put32(&mut section, 20 * i + 16, table_rva);
    }
    pad(&mut section, 8);
    section
}

/// Resources that start at the address `rva`: one of each type in `types`, and version
/// information.
fn resources(rva: u32, types: &[u32], version: Option<&[u16]>) -> Vec<u8> {
    let count = types.len() + if version.is_some() { 1 } else { 0 };
    let names = 16 + 8 * count;
    let languages = names + 24;
    let data = languages + 24;
    let mut bytes = vec![0u8; data + 16];
    put16(&mut bytes, 14, count as u16);
    for (i, id) in types.iter().enumerate() {
        put32(&mut bytes, 16 + 8 * i, *id);
        put32(&mut bytes, 20 + 8 * i, data as u32);
    }
    if let Some(words) = version {
        let at = 16 + 8 * types.len();
        put32(&mut bytes, at, 16);
        put32(&mut bytes, at + 4, 0x8000_0000 | names as u32);
        put16(&mut bytes, names + 14, 1);
        put32(&mut bytes, names + 16, 1);
        put32(&mut bytes, names + 20, 0x8000_0000 | languages as u32);
        put16(&mut bytes, languages + 14, 1);
        put32(&mut bytes, languages + 16, 0x409);
        put32(&mut bytes, languages + 20, data as u32);
        pad(&mut bytes, 4);
        let start = bytes.len();
        put32(&mut bytes, data, rva + start as u32);
        put32(&mut bytes, data + 4, 2 * words.len() as u32);
        for word in words {
            bytes.extend_from_slice(&word.to_le_bytes());
        }
    }
    pad(&mut bytes, 8);
    bytes
}

/// A block of version information. The length of the value counts words or bytes.
fn block(key: &str, value: &[u16], in_words: bool, children: &[Vec<u16>]) -> Vec<u16> {
    let length = if in_words { value.len() } else { 2 * value.len() };
    let mut words = vec![0, length as u16, 0];
    words.extend(key.encode_utf16());
    words.push(0);
    if words.len() % 2 != 0 {
        words.push(0);
    }
    words.extend_from_slice(value);
    for child in children {
        if words.len() % 2 != 0 {
            words.push(0);
        }
        words.extend_from_slice(child);
    }
    words[0] = 2 * words.len() as u16;
    words
}

fn string(key: &str, value: &str) -> Vec<u16> {
    let mut words: Vec<u16> = value.encode_utf16().collect();
    words.push(0);
    block(key, &words, true, &[])
}

/// Version information in one language, with these strings.
fn version_info(strings: &[(&str, &str)]) -> Vec<u16> {
    let entries: Vec<Vec<u16>> = strings.iter().map(|(key, value)| string(key, value)).collect();
    let table = block("040904B0", &[], true, &entries);
    let texts = block("StringFileInfo", &[], true, &[table]);
    let translation = block("Translation", &[0x409, 0x4b0], false, &[]);
    let languages = block("VarFileInfo", &[], true, &[translation]);
    block("VS_VERSION_INFO", &[], false, &[texts, languages])
}

fn gui(
    wide: bool,
    dlls: &[(&[u8], Vec<Entry<'_>>)],
    types: &[u32],
    version: Option<&[u16]>,
) -> Vec<u8> {
    let mut section = import_table(wide, dlls);
    let imports = section.len() as u32;
    let rva = SECTION_RVA + imports;
    let found = resources(rva, types, version);
    section.extend_from_slice(&found);
    let mut directories = vec![(1, SECTION_RVA, imports)];
    if !types.is_empty() || version.is_some() {
        directories.push((2, rva, found.len() as u32));
    }
    file(wide, 2, &section, &directories)
}

/// The report on a file, however it is asked for.
fn report(bytes: &[u8]) -> AnalyzeResult {
    let checked = analyze_exe_checked(bytes).unwrap().unwrap();
    let plain = analyze_exe(bytes).unwrap();
    assert_eq!(format!("{:?}", checked), format!("{:?}", plain));
    plain
}

fn error(bytes: &[u8]) -> AnalyzeError {
    let checked = analyze_exe_checked(bytes).unwrap().unwrap_err();
    assert_eq!(analyze_exe(bytes).unwrap_err(), checked);
    checked
}

#[test]
fn a_program_with_a_window() {
    for wide in [true, false] {
        let bytes = gui(
            wide,
            &[
                (b"KERNEL32.dll", vec![Entry::Name(b"ExitProcess"), Entry::Ordinal(7)]),
                (
                    b"User32.DLL",
                    vec![
                        Entry::Name(b"CreateWindowExW"),
                        Entry::Name(b"GetMessageW"),
                        Entry::Name(b"MessageBoxA"),
                    ],
                ),
                (b"zeta.dll", vec![]),
                (b"KERNEL32.DLL", vec![Entry::Name(b"Sleep")]),
            ],
            &[3, 14, 24],
            None,
        );
        let r = report(&bytes);
        assert_eq!(r.subsystem, Subsystem::Gui);
        assert_eq!(r.classification, Classification::Portable);
        assert!(r.has_window);
        assert!(r.has_icon);
        assert!(r.has_manifest);
        assert!(!r.has_dialog);
        assert!(!r.is_dotnet);
        assert!(!r.is_service);
        assert!(!r.is_stub);
        assert!(r.version.is_none());
        assert_eq!(r.window_funcs, vec!["CreateWindowExW", "MessageBoxA"]);
        assert_eq!(r.all_dlls, vec!["kernel32.dll", "user32.dll", "zeta.dll"]);
        assert_eq!(r.core_dlls, vec!["kernel32.dll", "user32.dll"]);
    }
}

#[test]
fn a_window_function_of_another_dll_does_not_count() {
    for wide in [true, false] {
        let bytes = gui(wide, &[(b"other.dll", vec![Entry::Name(b"MessageBoxA")])], &[], None);
        let r = report(&bytes);
        assert!(r.window_funcs.is_empty());
        assert!(!r.has_window);
        assert!(r.is_stub);
        assert_eq!(r.classification, Classification::Launcher);
    }
}

#[test]
fn entries_that_are_broken_or_numbers_are_passed_over() {
    for wide in [true, false] {
        let entries = vec![
            Entry::Broken,
            Entry::Ordinal(31),
            Entry::Name(b"messageboxa"),
            Entry::Name(b"MessageBoxW"),
        ];
        let r = report(&gui(wide, &[(b"user32.dll", entries)], &[], None));
        assert_eq!(r.window_funcs, vec!["MessageBoxW"]);
        assert!(!r.is_stub);
    }
}

#[test]
fn a_stub_with_an_icon_opens_no_window() {
    let dlls: Vec<(&[u8], Vec<Entry<'_>>)> = vec![(b"kernel32.dll", vec![])];
    let r = report(&gui(true, &dlls, &[14], None));
    assert!(r.is_stub);
    assert!(r.has_icon);
    assert!(!r.has_window);
    assert_eq!(r.classification, Classification::Launcher);
    let r = report(&gui(true, &dlls, &[14, 5], None));
    assert!(r.is_stub);
    assert!(r.has_dialog);
    assert!(r.has_window);
    assert_eq!(r.classification, Classification::Launcher);
}

#[test]
fn nine_dlls_make_no_stub() {
    let names: Vec<String> = (1..10).map(|n| format!("d{}.dll", n)).collect();
    let table = |count: usize| -> Vec<(&[u8], Vec<Entry<'_>>)> {
        names[..count].iter().map(|n| (n.as_bytes(), vec![])).collect()
    };
    let eight = report(&gui(false, &table(8), &[14], None));
    assert_eq!(eight.all_dlls.len(), 8);
    assert!(eight.is_stub);
    let nine = report(&gui(false, &table(9), &[14], None));
    assert_eq!(nine.all_dlls.len(), 9);
    assert!(!nine.is_stub);
    assert!(nine.has_window);
    assert_eq!(nine.classification, Classification::Portable);
}

#[test]
fn a_program_without_imports_and_resources() {
    for wide in [true, false] {
        let bytes = file(wide, 2, &[0u8; 16], &[]);
        let r = report(&bytes);
        assert!(r.all_dlls.is_empty());
        assert!(r.is_stub);
        assert!(!r.has_window);
        assert_eq!(r.classification, Classification::Launcher);
    }
}

#[test]
fn a_service() {
    for wide in [true, false] {
        let dlls: [(&[u8], Vec<Entry<'_>>); 1] = [(
            b"advapi32.dll",
            vec![Entry::Name(b"StartServiceCtrlDispatcherW")],
        )];
        let r = report(&gui(wide, &dlls, &[], None));
        assert!(r.is_service);
        assert!(!r.is_stub);
        assert!(!r.has_window);
        assert_eq!(r.classification, Classification::Service);
    }
}

#[test]
fn dotnet_by_its_library() {
    for wide in [true, false] {
        let dlls: [(&[u8], Vec<Entry<'_>>); 1] = [(b"MSCOREE.DLL", vec![Entry::Name(b"_CorExeMain")])];
        let r = report(&gui(wide, &dlls, &[], None));
        assert!(r.is_dotnet);
        assert!(r.has_window);
        assert!(!r.is_stub);
        assert_eq!(r.classification, Classification::DotNet);
    }
}

#[test]
fn dotnet_by_its_headers() {
    for wide in [true, false] {
        let r = report(&file(wide, 2, &[0u8; 16], &[(14, 0x1000, 72)]));
        assert!(r.is_dotnet);
        assert!(r.has_window);
        assert_eq!(r.classification, Classification::DotNet);
    }
}

#[test]
fn programs_without_a_graphical_interface() {
    for wide in [true, false] {
        let mut console = gui(
            wide,
            &[(b"user32.dll", vec![Entry::Name(b"MessageBoxA")])],
            &[5, 14, 24],
            Some(&version_info(&[("OriginalFilename", "setup.exe")])),
        );
        put16(&mut console, 0x80 + 24 + 68, 3);
        let r = report(&console);
        assert_eq!(r.subsystem, Subsystem::Console);
        assert_eq!(r.classification, Classification::ConsoleTool);
        assert!(!r.has_window && !r.has_icon && !r.has_manifest && !r.has_dialog);
        assert!(!r.is_stub && !r.is_service && !r.is_dotnet);
        assert!(r.version.is_none());
        assert!(r.window_funcs.is_empty() && r.all_dlls.is_empty() && r.core_dlls.is_empty());
        put16(&mut console, 0x80 + 24 + 68, 1);
        let r = report(&console);
        assert_eq!(r.subsystem, Subsystem::Native);
        assert_eq!(r.classification, Classification::Other);
        put16(&mut console, 0x80 + 24 + 68, 10);
        assert_eq!(report(&console).subsystem, Subsystem::Other(10));
        let r = report(&file(wide, 3, &[0u8; 16], &[(14, 0x1000, 72)]));
        assert!(r.is_dotnet);
        assert!(!r.has_window);
        assert_eq!(r.classification, Classification::ConsoleTool);
        let r = report(&file(wide, 1, &[0u8; 16], &[(14, 0x1000, 72)]));
        assert_eq!(r.classification, Classification::DotNet);
    }
}

#[test]
fn the_version_information_of_an_installer() {
    for wide in [true, false] {
        let words = version_info(&[
            ("CompanyName", "Some Company"),
            ("FileDescription", "Uninstall me"),
            ("FileVersion", "1.2.3.4"),
            ("OriginalFilename", "My SETUP.exe"),
            ("ProductName", "Prüfung"),
        ]);
        let dlls: [(&[u8], Vec<Entry<'_>>); 1] = [(b"user32.dll", vec![])];
        let r = report(&gui(wide, &dlls, &[24], Some(&words)));
        let version = r.version.unwrap();
        assert_eq!(version.original_filename.as_deref(), Some("My SETUP.exe"));
        assert_eq!(version.file_description.as_deref(), Some("Uninstall me"));
        assert_eq!(version.company_name.as_deref(), Some("Some Company"));
        assert_eq!(version.product_name.as_deref(), Some("Prüfung"));
        assert_eq!(version.file_version.as_deref(), Some("1.2.3.4"));
        assert!(r.has_manifest);
        assert_eq!(r.classification, Classification::Installer);
    }
}

#[test]
fn the_description_tells_where_the_file_name_does_not() {
    let dlls: [(&[u8], Vec<Entry<'_>>); 1] = [(b"user32.dll", vec![])];
    let words = version_info(&[
        ("OriginalFilename", "tool.exe"),
        ("FileDescription", "UNINSTALL tool"),
    ]);
    let r = report(&gui(true, &dlls, &[], Some(&words)));
    assert_eq!(r.classification, Classification::Uninstaller);
    assert!(r.version.unwrap().company_name.is_none());
    let words = version_info(&[("OriginalFilename", "tool.exe")]);
    let r = report(&gui(true, &dlls, &[], Some(&words)));
    assert_eq!(r.classification, Classification::Other);
}

#[test]
fn version_information_without_a_language_has_no_entries() {
    let table = block("040904B0", &[], true, &[string("OriginalFilename", "setup.exe")]);
    let texts = block("StringFileInfo", &[], true, &[table]);
    let words = block("VS_VERSION_INFO", &[], false, &[texts]);
    let dlls: [(&[u8], Vec<Entry<'_>>); 1] = [(b"user32.dll", vec![])];
    for wide in [true, false] {
        let r = report(&gui(wide, &dlls, &[], Some(&words)));
        assert_eq!(r.classification, Classification::Other);
        assert_eq!(tags(&r), vec!["VersionInfo"]);
        assert_eq!(
            format!("{:?}", r.version.unwrap()),
            format!("{:?}", VersionSummary::default()),
        );
    }
}

#[test]
fn version_information_that_is_listed_and_not_found_has_no_entries() {
    let dlls: [(&[u8], Vec<Entry<'_>>); 1] = [(b"user32.dll", vec![])];
    for wide in [true, false] {
        // The entry of the type leads to data where a directory has to be.
        let r = report(&gui(wide, &dlls, &[16], None));
        assert_eq!(
            format!("{:?}", r.version.unwrap()),
            format!("{:?}", VersionSummary::default()),
        );
        let r = report(&gui(wide, &dlls, &[17], None));
        assert!(r.version.is_none());
        assert_eq!(tags(&r), Vec::<&str>::new());
    }
}

#[test]
fn strings_of_another_language_are_not_taken() {
    let table = block("040704B0", &[], true, &[string("OriginalFilename", "setup.exe")]);
    let texts = block("StringFileInfo", &[], true, &[table]);
    let translation = block("Translation", &[0x409, 0x4b0], false, &[]);
    let languages = block("VarFileInfo", &[], true, &[translation]);
    let words = block("VS_VERSION_INFO", &[], false, &[texts, languages]);
    let dlls: [(&[u8], Vec<Entry<'_>>); 1] = [(b"user32.dll", vec![])];
    let r = report(&gui(true, &dlls, &[], Some(&words)));
    let version = r.version.unwrap();
    assert!(version.original_filename.is_none());
    assert!(version.file_version.is_none());
}

/// A block that ends right behind the terminator of a key of odd length.
fn overrun() -> Vec<u16> {
    vec![18, 0, 0, b'a' as u16, b'b' as u16, b'c' as u16, b'd' as u16, b'e' as u16, 0]
}

#[test]
fn version_information_that_cannot_be_walked() {
    let words = overrun();
    let dlls: [(&[u8], Vec<Entry<'_>>); 1] = [(b"user32.dll", vec![])];
    for wide in [true, false] {
        let bytes = gui(wide, &dlls, &[], Some(&words));
        assert!(analyze_exe_checked(&bytes).is_none());
        let mut console = bytes;
        put16(&mut console, 0x80 + 24 + 68, 3);
        assert_eq!(report(&console).classification, Classification::ConsoleTool);
        let below = block("VS_VERSION_INFO", &[], false, &[words.clone()]);
        assert!(analyze_exe_checked(&gui(wide, &dlls, &[], Some(&below))).is_none());
    }
}

#[test]
fn dll_names_are_read_as_text() {
    let dlls: [(&[u8], Vec<Entry<'_>>); 2] =
        [("ÄRGER.dll".as_bytes(), vec![]), (b"bad\xff.DLL", vec![])];
    for wide in [true, false] {
        let r = report(&gui(wide, &dlls, &[], None));
        assert_eq!(r.all_dlls, vec!["bad\u{fffd}.dll", "ärger.dll"]);
    }
}

#[test]
fn a_descriptor_without_a_readable_name_is_passed_over() {
    let dlls: [(&[u8], Vec<Entry<'_>>); 2] = [
        (b"user32.dll", vec![Entry::Name(b"MessageBoxA")]),
        (b"kernel32.dll", vec![]),
    ];
    for wide in [true, false] {
        let mut bytes = gui(wide, &dlls, &[], None);
        put32(&mut bytes, SECTION_AT + 12, 0x7fff_0000);
        let r = report(&bytes);
        assert_eq!(r.all_dlls, vec!["kernel32.dll"]);
        assert!(r.window_funcs.is_empty());
    }
}

#[test]
fn a_descriptor_without_a_readable_table_names_its_dll() {
    let dlls: [(&[u8], Vec<Entry<'_>>); 1] = [(b"user32.dll", vec![Entry::Name(b"MessageBoxA")])];
    for wide in [true, false] {
        let mut bytes = gui(wide, &dlls, &[], None);
        put32(&mut bytes, SECTION_AT, 0x7fff_0000);
        let r = report(&bytes);
        assert_eq!(r.all_dlls, vec!["user32.dll"]);
        assert!(r.window_funcs.is_empty());
        assert!(!r.is_stub);
    }
}

#[test]
fn files_without_pe_headers() {
    assert_eq!(error(&[]), AnalyzeError::NotPe);
    assert_eq!(error(&[0u8; 63]), AnalyzeError::NotPe);
    assert_eq!(error(&[b'M'; 4000]), AnalyzeError::NotPe);
    assert_eq!(AnalyzeError::NotPe.as_str(), "Not a valid PE file");
}

#[test]
fn headers_that_are_just_not_valid() {
    for wide in [true, false] {
        let good = file(wide, 3, &[0u8; 16], &[]);
        assert_eq!(report(&good).classification, Classification::ConsoleTool);
        let optional = 0x80 + 24;
        let spoil = |at: usize, value: u32| {
            let mut bytes = good.clone();
            put32(&mut bytes, at, value);
            bytes
        };
        // The signature, and the magic number of neither kind.
        assert_eq!(error(&spoil(0x80, 0x4551)), AnalyzeError::NotPe);
        assert_eq!(error(&spoil(optional, 0x10c)), AnalyzeError::NotPe);
        // Headers that are longer than the file, or than the image.
        assert_eq!(error(&spoil(optional + 60, good.len() as u32 + 1)), AnalyzeError::NotPe);
        assert_eq!(error(&spoil(optional + 56, 0x3ff)), AnalyzeError::NotPe);
        report(&spoil(optional + 56, 0x400));
        report(&spoil(optional + 60, good.len() as u32));
        // Too many sections.
        let mut sections = vec![0u8; 8000];
        sections[..good.len()].copy_from_slice(&good);
        put16(&mut sections, 0x80 + 6, 96);
        report(&sections);
        put16(&mut sections, 0x80 + 6, 97);
        assert_eq!(error(&sections), AnalyzeError::NotPe);
        // PE headers that start too far into the file.
        let mut far = vec![0u8; 0x100_0000 + 0x1000];
        far[..0x80].copy_from_slice(&good[..0x80]);
        put32(&mut far, 0x3c, 0x100_0000);
        far[0x100_0000..0x100_0000 + 0x390].copy_from_slice(&good[0x80..0x80 + 0x390]);
        report(&far);
        put32(&mut far, 0x3c, 0x100_0004);
        let moved = far[0x100_0000..0x100_0000 + 0x390].to_vec();
        far[0x100_0004..0x100_0004 + 0x390].copy_from_slice(&moved);
        assert_eq!(error(&far), AnalyzeError::NotPe);
    }
}

#[test]
fn headers_at_the_end_of_the_file() {
    for wide in [true, false] {
        let fixed = if wide { 112 } else { 96 };
        let mut bytes = file(wide, 3, &[], &[]);
        // No sections and no directories: the file may end with the optional header.
        put16(&mut bytes, 0x80 + 6, 0);
        put16(&mut bytes, 0x80 + 20, 0);
        put32(&mut bytes, 0x80 + 24 + fixed - 4, 0);
        put32(&mut bytes, 0x80 + 24 + 60, 0);
        let end = 0x80 + 24 + fixed;
        bytes.truncate(end);
        assert_eq!(report(&bytes).classification, Classification::ConsoleTool);
        assert_eq!(error(&bytes[..end - 1]), AnalyzeError::NotPe);
        put32(&mut bytes, end - 4, 1);
        assert_eq!(error(&bytes), AnalyzeError::NotPe);
        bytes.extend_from_slice(&[0u8; 8]);
        report(&bytes);
        // Sixteen directories at most are counted.
        put32(&mut bytes, end - 4, 17);
        bytes.extend_from_slice(&[0u8; 120]);
        assert_eq!(bytes.len(), end + 128);
        report(&bytes);
        assert_eq!(error(&bytes[..end + 127]), AnalyzeError::NotPe);
        // A section header has to fit.
        put16(&mut bytes, 0x80 + 6, 1);
        put16(&mut bytes, 0x80 + 20, fixed as u16 + 88);
        report(&bytes);
        put16(&mut bytes, 0x80 + 20, fixed as u16 + 92);
        assert_eq!(error(&bytes), AnalyzeError::NotPe);
    }
}

#[test]
fn where_the_bytes_lie_does_not_matter() {
    for wide in [true, false] {
        let dlls: [(&[u8], Vec<Entry<'_>>); 1] =
            [(b"user32.dll", vec![Entry::Name(b"MessageBoxA")])];
        let words = version_info(&[("OriginalFilename", "setup.exe")]);
        let bytes = gui(wide, &dlls, &[14], Some(&words));
        let expected = format!("{:?}", report(&bytes));
        for shift in 1..8 {
            let mut moved = vec![0u8; shift];
            moved.extend_from_slice(&bytes);
            assert_eq!(format!("{:?}", report(&moved[shift..])), expected);
        }
    }
}

/// The file with its PE headers moved.
fn with_moved_headers(good: &[u8], shift: usize) -> Vec<u8> {
    let mut bytes = good[..0x80].to_vec();
    put32(&mut bytes, 0x3c, 0x80 + shift as u32);
    bytes.extend_from_slice(&vec![0u8; shift]);
    bytes.extend_from_slice(&good[0x80..]);
    bytes
}

#[test]
fn where_pe_headers_start() {
    for wide in [true, false] {
        let good = file(wide, 3, &[0u8; 16], &[]);
        for shift in [1, 2, 3, 5] {
            assert_eq!(error(&with_moved_headers(&good, shift)), AnalyzeError::NotPe);
        }
        assert!(analyze_exe_checked(&with_moved_headers(&good, 4)).is_none());
        let r = report(&with_moved_headers(&good, 8));
        assert_eq!(r.classification, Classification::ConsoleTool);
    }
    // Where headers of 64 bits do not fit in, those of 32 bits may start at any multiple of
    // four.
    let mut small = file(false, 3, &[], &[]);
    put16(&mut small, 0x80 + 6, 0);
    put16(&mut small, 0x80 + 20, 0);
    put32(&mut small, 0x80 + 24 + 92, 0);
    put32(&mut small, 0x80 + 24 + 60, 0);
    small.truncate(0x80 + 24 + 96);
    let r = report(&with_moved_headers(&small, 4));
    assert_eq!(r.classification, Classification::ConsoleTool);
}

/// No report comes of the file, but one does where it has no graphical interface.
fn not_read(mut bytes: Vec<u8>) {
    assert!(analyze_exe_checked(&bytes).is_none());
    put16(&mut bytes, 0x80 + 24 + 68, 3);
    assert_eq!(report(&bytes).classification, Classification::ConsoleTool);
}

#[test]
fn a_section_that_is_not_read_may_lie_anywhere() {
    for wide in [true, false] {
        let fixed = if wide { 112 } else { 96 };
        // No data directories, and one section at an odd place.
        let mut bytes = vec![0u8; 240];
        bytes[..0x40].copy_from_slice(&file(wide, 2, &[], &[])[..0x40]);
        put32(&mut bytes, 0x3c, 0x40);
        let headers = file(wide, 2, &[], &[])[0x80..0x80 + 24 + fixed].to_vec();
        bytes[0x40..0x40 + headers.len()].copy_from_slice(&headers);
        put16(&mut bytes, 0x40 + 6, 1);
        put16(&mut bytes, 0x40 + 20, fixed as u16);
        put32(&mut bytes, 0x40 + 24 + 60, 0);
        put32(&mut bytes, 0x40 + 24 + fixed - 4, 0);
        let header = 0x40 + 24 + fixed;
        put32(&mut bytes, header + 12, SECTION_RVA);
        put32(&mut bytes, header + 16, 8);
        put32(&mut bytes, header + 20, 1);
        let r = report(&bytes);
        assert!(r.is_stub);
        assert_eq!(r.classification, Classification::Launcher);
        // Section headers at an odd place, and no address to look up.
        put16(&mut bytes, 0x40 + 20, 1);
        assert_eq!(report(&bytes).classification, Classification::Launcher);
    }
}

#[test]
fn only_the_section_that_is_read_has_to_lie_in_its_place() {
    let dlls: [(&[u8], Vec<Entry<'_>>); 1] = [(b"user32.dll", vec![Entry::Name(b"MessageBoxA")])];
    for wide in [true, false] {
        let imports = import_table(wide, &dlls);
        let found = resources(0x3000, &[5], None);
        let sections = |import_at: usize, resources_at: usize| {
            layout(
                wide,
                2,
                &[
                    (0x2000, 0x401, &[0u8; 8]),
                    (SECTION_RVA, import_at, &imports),
                    (0x3000, resources_at, &found),
                ],
                &[(1, SECTION_RVA, 40), (2, 0x3000, found.len() as u32)],
            )
        };
        for place in [0x800, 0x804] {
            let r = report(&sections(0x600, place));
            assert_eq!(r.window_funcs, vec!["MessageBoxA"]);
            assert!(r.has_dialog);
        }
        not_read(sections(0x600, 0x802));
        not_read(sections(0x602, 0x800));
        if wide {
            // The descriptors lie in their place, and the name table does not.
            not_read(sections(0x604, 0x800));
        } else {
            assert_eq!(report(&sections(0x604, 0x800)).window_funcs, vec!["MessageBoxA"]);
        }
    }
}

#[test]
fn an_address_that_no_section_takes_in_is_not_read() {
    let dlls: [(&[u8], Vec<Entry<'_>>); 1] = [(b"user32.dll", vec![])];
    for wide in [true, false] {
        let fixed = if wide { 112 } else { 96 };
        let mut bytes = gui(wide, &dlls, &[14], None);
        put32(&mut bytes, 0x80 + 24 + fixed + 16, 0x7fff_0001);
        let r = report(&bytes);
        assert!(!r.has_icon);
        put32(&mut bytes, 0x80 + 24 + fixed + 8, 0x7fff_0003);
        assert!(report(&bytes).all_dlls.is_empty());
        // An address is looked up in the section headers.
        put16(&mut bytes, 0x80 + 20, fixed as u16 + 130);
        not_read(bytes);
    }
}

#[test]
fn resources_start_at_a_multiple_of_four() {
    for wide in [true, false] {
        let found = resources(0x3002, &[5], None);
        let at = |place: usize, length: u32| {
            layout(wide, 2, &[(0x3002, place, &found)], &[(2, 0x3002, length)])
        };
        // The place in the file counts, and not the address.
        assert!(report(&at(0x400, found.len() as u32)).has_dialog);
        not_read(at(0x402, found.len() as u32));
        // Resources without a root directory are not read.
        assert!(!report(&at(0x402, 15)).has_dialog);
        not_read(at(0x402, 16));
    }
}

#[test]
fn the_number_before_a_name_lies_at_a_multiple_of_two() {
    for wide in [true, false] {
        let mut section = vec![0u8; 0x80];
        section[0x40..0x4a].copy_from_slice(b"user32.dll");
        let name = |place: usize, rva: u32| {
            let mut section = section.clone();
            put32(&mut section, 0x60, rva);
            put32(&mut section, 0, SECTION_RVA + 0x60);
            put32(&mut section, 12, SECTION_RVA + 0x40);
            put32(&mut section, 16, 1);
            layout(
                wide,
                2,
                &[(SECTION_RVA, SECTION_AT, &section), (0x2000, place, b"\0\0MessageBoxA\0")],
                &[(1, SECTION_RVA, 40)],
            )
        };
        assert_eq!(report(&name(0x600, 0x2000)).window_funcs, vec!["MessageBoxA"]);
        assert_eq!(report(&name(0x602, 0x2000)).window_funcs, vec!["MessageBoxA"]);
        not_read(name(0x601, 0x2000));
        // An odd address is not read.
        assert!(report(&name(0x601, 0x2001)).window_funcs.is_empty());
        // Nor is a table whose DLL has no name that can be read.
        let mut unnamed = name(0x601, 0x2000);
        put32(&mut unnamed, SECTION_AT + 12, 0);
        assert!(report(&unnamed).all_dlls.is_empty());
    }
}

#[test]
fn name_tables_start_at_multiples_of_the_size_of_their_numbers() {
    for (wide, shift, readable) in
        [(true, 4, false), (true, 8, true), (false, 2, false), (false, 4, true)]
    {
        let mut section = vec![0u8; 0x80];
        section[0x40..0x4a].copy_from_slice(b"user32.dll");
        section[0x52..0x5d].copy_from_slice(b"MessageBoxA");
        let table = 0x60 + shift;
        put32(&mut section, table, SECTION_RVA + 0x50);
        put32(&mut section, 0, SECTION_RVA + table as u32);
        put32(&mut section, 12, SECTION_RVA + 0x40);
        put32(&mut section, 16, 1);
        let r = report(&file(wide, 2, &section, &[(1, SECTION_RVA, 40)]));
        assert_eq!(r.all_dlls, vec!["user32.dll"]);
        assert_eq!(r.window_funcs.is_empty(), !readable);
    }
}

#[test]
fn resources_without_a_whole_root_directory() {
    let dlls: [(&[u8], Vec<Entry<'_>>); 1] = [(b"user32.dll", vec![])];
    for wide in [true, false] {
        let fixed = if wide { 112 } else { 96 };
        let size_at = 0x80 + 24 + fixed + 8 * 2 + 4;
        let mut bytes = gui(wide, &dlls, &[5, 14, 24], None);
        assert!(report(&bytes).has_dialog);
        // Sixteen bytes for the directory and eight for each entry.
        put32(&mut bytes, size_at, 40);
        let r = report(&bytes);
        assert!(r.has_dialog && r.has_icon && r.has_manifest);
        put32(&mut bytes, size_at, 39);
        let r = report(&bytes);
        assert!(!r.has_dialog && !r.has_icon && !r.has_manifest);
    }
}

#[test]
fn a_resource_type_with_a_name_does_not_count() {
    let dlls: [(&[u8], Vec<Entry<'_>>); 1] = [(b"user32.dll", vec![])];
    let r = report(&gui(true, &dlls, &[0x8000_0005, 14], None));
    assert!(!r.has_dialog);
    assert!(r.has_icon);
}
