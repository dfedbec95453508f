//! What the imports of a file say about it.
use crate::pe::{
    bytes_in, dll_name32, dll_name64, entries_in, imports32, imports64, imports_in, name_table32,
    name_table64, Import, ImportEntry,
};
use crate::pe::{desc32_parts, desc64_parts, file32_bytes, file64_bytes};
use crate::place::{
    imports_in_place, lemma_addresses_in_place, lemma_descriptor_in_place,
};
use crate::tables::{import_table, name_table_at, text_at};
use crate::text::{
    is_listed, listed, lower_case, same_text, text_from_utf8_lossy, texts, text_of,
};
use pelite::pe32;
use pelite::pe64;
use vstd::prelude::*;

verus! {

/// The functions of `user32.dll` that put a window on the screen.
pub const WINDOW_CREATE_FUNCS: [&'static str; 18] = [
    "CreateWindowExA",
    "CreateWindowExW",
    "RegisterClassA",
    "RegisterClassW",
    "RegisterClassExA",
    "RegisterClassExW",
    "DialogBoxParamA",
    "DialogBoxParamW",
    "DialogBoxIndirectParamA",
    "DialogBoxIndirectParamW",
    "CreateDialogParamA",
    "CreateDialogParamW",
    "MessageBoxA",
    "MessageBoxW",
    "MessageBoxExA",
    "MessageBoxExW",
    "PropertySheetA",
    "PropertySheetW",
];

/// The functions by which a program runs as a Windows service.
pub const SERVICE_FUNCS: [&'static str; 6] = [
    "StartServiceCtrlDispatcherW",
    "StartServiceCtrlDispatcherA",
    "RegisterServiceCtrlHandlerW",
    "RegisterServiceCtrlHandlerA",
    "RegisterServiceCtrlHandlerExW",
    "RegisterServiceCtrlHandlerExA",
];

/// The imports of a file from one DLL.
#[derive(Debug)]
pub struct ImportDescriptor {
    /// The name of the DLL, where it can be read.
    pub dll_name: Option<Vec<u8>>,
    /// What is imported, where that can be read.
    pub entries: Option<Vec<ImportEntry>>,
}

/// What an `ImportDescriptor` says.
pub struct ImportedDll {
    pub dll_name: Option<Seq<u8>>,
    pub entries: Option<Seq<Import>>,
}

impl View for ImportDescriptor {
    type V = ImportedDll;

    open spec fn view(&self) -> ImportedDll {
        ImportedDll {
            dll_name: bytes_in(self.dll_name),
            entries: entries_in(self.entries),
        }
    }
}

/// What a list of descriptors says.
pub open spec fn dlls_in(descs: Seq<ImportDescriptor>) -> Seq<ImportedDll> {
    descs.map_values(|d: ImportDescriptor| d@)
}

/// The name of a DLL as it is reported: as text, and in lower case.
pub open spec fn dll_text(name: Seq<u8>) -> Seq<char> {
    lower_case(text_of(name))
}

/// The import of `name` from `dll` is one of a function that creates a window.
pub open spec fn creates_window(dll: Seq<char>, name: Seq<char>) -> bool {
    dll == "user32.dll"@ && listed(WINDOW_CREATE_FUNCS@, name)
}

/// `name` is that of a function of a service.
pub open spec fn serves(name: Seq<char>) -> bool {
    listed(SERVICE_FUNCS@, name)
}

/// The names among `entries`, in order.
pub open spec fn names_in(entries: Seq<Import>) -> Seq<Seq<char>> {
    entries.filter(|e: Import| e is ByName).map_values(|e: Import| text_of(e->ByName_0))
}

/// The functions that `dll` lists by name. They count only where the DLL's own name can
/// be read.
pub open spec fn functions_of(dll: ImportedDll) -> Seq<Seq<char>> {
    match (dll.dll_name, dll.entries) {
        (Some(_), Some(entries)) => names_in(entries),
        _ => Seq::empty(),
    }
}

/// The functions imported from `dll` that create windows.
pub open spec fn windows_of(dll: ImportedDll) -> Seq<Seq<char>> {
    functions_of(dll).filter(|name: Seq<char>| creates_window(dll_text(dll.dll_name->0), name))
}

/// The functions imported from `dll` that make a service.
pub open spec fn services_of(dll: ImportedDll) -> Seq<Seq<char>> {
    functions_of(dll).filter(|name: Seq<char>| serves(name))
}

/// The functions that create windows, over all DLLs in order.
pub open spec fn all_windows(dlls: Seq<ImportedDll>) -> Seq<Seq<char>>
    decreases dlls.len(),
{
    if dlls.len() == 0 {
        Seq::empty()
    } else {
        all_windows(dlls.drop_last()) + windows_of(dlls.last())
    }
}

/// The functions that make a service, over all DLLs in order.
pub open spec fn all_services(dlls: Seq<ImportedDll>) -> Seq<Seq<char>>
    decreases dlls.len(),
{
    if dlls.len() == 0 {
        Seq::empty()
    } else {
        all_services(dlls.drop_last()) + services_of(dlls.last())
    }
}

/// The names of the DLLs whose names can be read, in order.
pub open spec fn all_dll_names(dlls: Seq<ImportedDll>) -> Seq<Seq<char>> {
    dlls.filter(|d: ImportedDll| d.dll_name is Some).map_values(
        |d: ImportedDll| dll_text(d.dll_name->0),
    )
}

/// How a filter treats one more item.
pub proof fn lemma_filter_push<A>(items: Seq<A>, last: A, keep: spec_fn(A) -> bool)
    ensures
        items.push(last).filter(keep) == (if keep(last) {
            items.filter(keep).push(last)
        } else {
            items.filter(keep)
        }),
{
    reveal(Seq::filter);
    assert(items.push(last).drop_last() =~= items);
}

/// The names among entries, once there is one more entry.
pub proof fn lemma_names_push(entries: Seq<Import>, last: Import)
    ensures
        names_in(entries.push(last)) == (match last {
            Import::ByName(name) => names_in(entries).push(text_of(name)),
            _ => names_in(entries),
        }),
{
    let named = |e: Import| e is ByName;
    let text = |e: Import| text_of(e->ByName_0);
    lemma_filter_push(entries, last, named);
    if named(last) {
        assert(entries.filter(named).push(last).map_values(text) =~= entries.filter(
            named,
        ).map_values(text).push(text(last)));
    }
}

/// The names of DLLs, once there is one more DLL.
pub proof fn lemma_dll_names_push(dlls: Seq<ImportedDll>, last: ImportedDll)
    ensures
        all_dll_names(dlls.push(last)) == (match last.dll_name {
            Some(name) => all_dll_names(dlls).push(dll_text(name)),
            None => all_dll_names(dlls),
        }),
{
    let named = |d: ImportedDll| d.dll_name is Some;
    let text = |d: ImportedDll| dll_text(d.dll_name->0);
    lemma_filter_push(dlls, last, named);
    if named(last) {
        assert(dlls.filter(named).push(last).map_values(text) =~= dlls.filter(named).map_values(
            text,
        ).push(text(last)));
    }
}

/// The name of a DLL as it is reported: as text, and in lower case.
pub fn cstr_lower(name: &[u8]) -> (lower: String)
    ensures
        lower@ == dll_text(name@),
{
    text_from_utf8_lossy(name).to_lowercase()
}

/// Takes note of the import of `name` from `dll`: in `window_funcs` where the function
/// creates windows, and in `service_funcs` where it makes a service.
pub fn note_import(
    dll: &str,
    name: &String,
    window_funcs: &mut Vec<String>,
    service_funcs: &mut Vec<String>,
)
    ensures
        texts(final(window_funcs)@) == (if creates_window(dll@, name@) {
            texts(old(window_funcs)@).push(name@)
        } else {
            texts(old(window_funcs)@)
        }),
        texts(final(service_funcs)@) == (if serves(name@) {
            texts(old(service_funcs)@).push(name@)
        } else {
            texts(old(service_funcs)@)
        }),
{
    if same_text(dll, "user32.dll") && is_listed(&WINDOW_CREATE_FUNCS, name.as_str()) {
        window_funcs.push(name.clone());
        assert(texts(window_funcs@) =~= texts(old(window_funcs)@).push(name@));
    }
    if is_listed(&SERVICE_FUNCS, name.as_str()) {
        service_funcs.push(name.clone());
        assert(texts(service_funcs@) =~= texts(old(service_funcs)@).push(name@));
    }
}

/// Takes note of what one DLL is imported for: of its name in `all_dlls`, and of the
/// functions as `note_import` does. A DLL whose name cannot be read is passed over.
pub fn scan_descriptor(
    desc: &ImportDescriptor,
    window_funcs: &mut Vec<String>,
    service_funcs: &mut Vec<String>,
    all_dlls: &mut Vec<String>,
)
    ensures
        texts(final(window_funcs)@) == texts(old(window_funcs)@) + windows_of(desc@),
        texts(final(service_funcs)@) == texts(old(service_funcs)@) + services_of(desc@),
        texts(final(all_dlls)@) == (match desc@.dll_name {
            Some(name) => texts(old(all_dlls)@).push(dll_text(name)),
            None => texts(old(all_dlls)@),
        }),
{
    let ghost windows = texts(window_funcs@);
    let ghost services = texts(service_funcs@);
    let dll = match &desc.dll_name {
        Some(name) => cstr_lower(name.as_slice()),
        None => {
            assert(windows_of(desc@) =~= Seq::empty());
            assert(services_of(desc@) =~= Seq::empty());
            return ;
        },
    };
    all_dlls.push(dll.clone());
    assert(texts(all_dlls@) =~= texts(old(all_dlls)@).push(dll@));
    let entries = match &desc.entries {
        Some(entries) => entries,
        None => {
            assert(windows_of(desc@) =~= Seq::empty());
            assert(services_of(desc@) =~= Seq::empty());
            return ;
        },
    };
    let ghost creates = |name: Seq<char>| creates_window(dll_text(desc@.dll_name->0), name);
    let ghost starts = |name: Seq<char>| serves(name);
    let mut i: usize = 0;
    assert(names_in(imports_in(entries@).take(0)) =~= Seq::empty());
    while i < entries.len()
        invariant
            i <= entries.len(),
            dll@ == dll_text(desc@.dll_name->0),
            creates == (|name: Seq<char>| creates_window(dll_text(desc@.dll_name->0), name)),
            starts == (|name: Seq<char>| serves(name)),
            texts(window_funcs@) == windows + names_in(imports_in(entries@).take(i as int)).filter(
                creates,
            ),
            texts(service_funcs@) == services + names_in(
                imports_in(entries@).take(i as int),
            ).filter(starts),
        decreases entries.len() - i,
    {
        let ghost done = imports_in(entries@).take(i as int);
        let ghost next = imports_in(entries@)[i as int];
        proof {
            assert(imports_in(entries@).take(i + 1) =~= done.push(next));
            lemma_names_push(done, next);
        }
        match &entries[i] {
            ImportEntry::ByName(bytes) => {
                let name = text_from_utf8_lossy(bytes.as_slice());
                proof {
                    lemma_filter_push(names_in(done), name@, creates);
                    lemma_filter_push(names_in(done), name@, starts);
                }
                note_import(dll.as_str(), &name, window_funcs, service_funcs);
                assert(texts(window_funcs@) =~= windows + names_in(done.push(next)).filter(
                    creates,
                ));
                assert(texts(service_funcs@) =~= services + names_in(done.push(next)).filter(
                    starts,
                ));
            },
            ImportEntry::ByOrdinal(_) => {},
            ImportEntry::Unreadable => {},
        }
        i += 1;
    }
    assert(imports_in(entries@).take(i as int) =~= imports_in(entries@));
}

/// Takes note of all imports, DLL by DLL.
pub fn scan_imports(
    descs: &Vec<ImportDescriptor>,
    window_funcs: &mut Vec<String>,
    service_funcs: &mut Vec<String>,
    all_dlls: &mut Vec<String>,
)
    ensures
        texts(final(window_funcs)@) == texts(old(window_funcs)@) + all_windows(dlls_in(descs@)),
        texts(final(service_funcs)@) == texts(old(service_funcs)@) + all_services(dlls_in(descs@)),
        texts(final(all_dlls)@) == texts(old(all_dlls)@) + all_dll_names(dlls_in(descs@)),
{
    let mut i: usize = 0;
    proof {
        let none = dlls_in(descs@).take(0);
        assert(texts(window_funcs@) + all_windows(none) =~= texts(window_funcs@));
        assert(texts(service_funcs@) + all_services(none) =~= texts(service_funcs@));
        assert(texts(all_dlls@) + all_dll_names(none) =~= texts(all_dlls@));
    }
    while i < descs.len()
        invariant
            i <= descs.len(),
            texts(window_funcs@) == texts(old(window_funcs)@) + all_windows(
                dlls_in(descs@).take(i as int),
            ),
            texts(service_funcs@) == texts(old(service_funcs)@) + all_services(
                dlls_in(descs@).take(i as int),
            ),
            texts(all_dlls@) == texts(old(all_dlls)@) + all_dll_names(
                dlls_in(descs@).take(i as int),
            ),
        decreases descs.len() - i,
    {
        let ghost done = dlls_in(descs@).take(i as int);
        let ghost next = dlls_in(descs@)[i as int];
        scan_descriptor(&descs[i], window_funcs, service_funcs, all_dlls);
        proof {
            let more = dlls_in(descs@).take(i + 1);
            assert(more =~= done.push(next));
            assert(more.drop_last() =~= done);
            lemma_dll_names_push(done, next);
            assert(texts(window_funcs@) =~= texts(old(window_funcs)@) + all_windows(more));
            assert(texts(service_funcs@) =~= texts(old(service_funcs)@) + all_services(more));
            assert(texts(all_dlls@) =~= texts(old(all_dlls)@) + all_dll_names(more));
        }
        i += 1;
    }
    assert(dlls_in(descs@).take(i as int) =~= dlls_in(descs@));
}

/// What an import descriptor leads to: the name of the DLL and, where that can be read, what
/// is imported.
pub open spec fn imported_dll(bytes: Seq<u8>, desc: (u32, u32), wide: bool) -> ImportedDll {
    let dll_name = text_at(bytes, desc.0 as int);
    ImportedDll {
        dll_name,
        entries: if dll_name is Some {
            name_table_at(bytes, desc.1 as int, wide)
        } else {
            None
        },
    }
}

/// The imports of a file: `None` without an import table, and else what the table's
/// descriptors lead to.
pub open spec fn imports_of(bytes: Seq<u8>, wide: bool) -> Option<Seq<ImportedDll>> {
    match import_table(bytes, wide) {
        Some(table) => Some(
            Seq::new(table.len(), |i: int| imported_dll(bytes, table[i], wide)),
        ),
        None => None,
    }
}

/// The imported DLLs, none where there is no import table.
pub open spec fn dlls_or_none(dlls: Option<Seq<ImportedDll>>) -> Seq<ImportedDll> {
    match dlls {
        Some(d) => d,
        None => Seq::empty(),
    }
}

/// What an optional list of descriptors says.
pub open spec fn table_in(descs: Option<Vec<ImportDescriptor>>) -> Option<Seq<ImportedDll>> {
    match descs {
        Some(d) => Some(dlls_in(d@)),
        None => None,
    }
}

/// Reads the imports of a 64-bit file.
pub(crate) fn read_imports64(file: &pe64::PeFile<'_>) -> (descs: Option<Vec<ImportDescriptor>>)
    requires
        imports_in_place(file64_bytes(*file), true),
    ensures
        table_in(descs) == imports_of(file64_bytes(*file), true),
{
    let found = match imports64(file) {
        Some(found) => found,
        None => {
            return None;
        },
    };
    let ghost bytes = file64_bytes(*file);
    let ghost table = import_table(bytes, true)->0;
    let mut descs: Vec<ImportDescriptor> = Vec::new();
    let mut i: usize = 0;
    while i < found.len()
        invariant
            imports_in_place(bytes, true),
            import_table(bytes, true) == Some(table),
            i <= found.len(),
            descs.len() == i,
            found.len() == table.len(),
            forall|j: int|
                0 <= j < found@.len() ==> #[trigger] desc64_parts(found@[j]) == (
                    bytes,
                    table[j].0,
                    table[j].1,
                ),
            forall|j: int|
                0 <= j < i ==> (#[trigger] descs@[j])@ == imported_dll(bytes, table[j], true),
        decreases found.len() - i,
    {
        proof {
            assert(desc64_parts(found@[i as int]) == (bytes, table[i as int].0, table[i as int].1));
            lemma_descriptor_in_place(bytes, true, i as int);
            lemma_addresses_in_place(bytes, true, table[i as int].0 as int);
        }
        let dll_name = dll_name64(&found[i]);
        let entries = if dll_name.is_some() {
            name_table64(&found[i])
        } else {
            None
        };
        descs.push(ImportDescriptor { dll_name, entries });
        i += 1;
    }
    assert(dlls_in(descs@) =~= imports_of(bytes, true)->0);
    Some(descs)
}

/// Reads the imports of a 32-bit file.
pub(crate) fn read_imports32(file: &pe32::PeFile<'_>) -> (descs: Option<Vec<ImportDescriptor>>)
    requires
        imports_in_place(file32_bytes(*file), false),
    ensures
        table_in(descs) == imports_of(file32_bytes(*file), false),
{
    let found = match imports32(file) {
        Some(found) => found,
        None => {
            return None;
        },
    };
    let ghost bytes = file32_bytes(*file);
    let ghost table = import_table(bytes, false)->0;
    let mut descs: Vec<ImportDescriptor> = Vec::new();
    let mut i: usize = 0;
    while i < found.len()
        invariant
            imports_in_place(bytes, false),
            import_table(bytes, false) == Some(table),
            i <= found.len(),
            descs.len() == i,
            found.len() == table.len(),
            forall|j: int|
                0 <= j < found@.len() ==> #[trigger] desc32_parts(found@[j]) == (
                    bytes,
                    table[j].0,
                    table[j].1,
                ),
            forall|j: int|
                0 <= j < i ==> (#[trigger] descs@[j])@ == imported_dll(bytes, table[j], false),
        decreases found.len() - i,
    {
        proof {
            assert(desc32_parts(found@[i as int]) == (bytes, table[i as int].0, table[i as int].1));
            lemma_descriptor_in_place(bytes, false, i as int);
            lemma_addresses_in_place(bytes, false, table[i as int].0 as int);
        }
        let dll_name = dll_name32(&found[i]);
        let entries = if dll_name.is_some() {
            name_table32(&found[i])
        } else {
            None
        };
        descs.push(ImportDescriptor { dll_name, entries });
        i += 1;
    }
    assert(dlls_in(descs@) =~= imports_of(bytes, false)->0);
    Some(descs)
}

/// The lists of a scan grew by what `dlls` gives: each pair is a list before and after.
pub open spec fn noted(
    dlls: Option<Seq<ImportedDll>>,
    window_funcs: (Seq<String>, Seq<String>),
    service_funcs: (Seq<String>, Seq<String>),
    all_dlls: (Seq<String>, Seq<String>),
) -> bool {
    let found = dlls_or_none(dlls);
    &&& texts(window_funcs.1) == texts(window_funcs.0) + all_windows(found)
    &&& texts(service_funcs.1) == texts(service_funcs.0) + all_services(found)
    &&& texts(all_dlls.1) == texts(all_dlls.0) + all_dll_names(found)
}

/// Takes note of the imports in a table that may be missing.
pub fn scan_table(
    table: &Option<Vec<ImportDescriptor>>,
    window_funcs: &mut Vec<String>,
    service_funcs: &mut Vec<String>,
    all_dlls: &mut Vec<String>,
)
    ensures
        noted(
            table_in(*table),
            (old(window_funcs)@, final(window_funcs)@),
            (old(service_funcs)@, final(service_funcs)@),
            (old(all_dlls)@, final(all_dlls)@),
        ),
{
    match table {
        Some(descs) => {
            scan_imports(descs, window_funcs, service_funcs, all_dlls);
        },
        None => {
            assert(texts(window_funcs@) + all_windows(Seq::empty()) =~= texts(window_funcs@));
            assert(texts(service_funcs@) + all_services(Seq::empty()) =~= texts(service_funcs@));
            assert(texts(all_dlls@) + all_dll_names(Seq::empty()) =~= texts(all_dlls@));
        },
    }
}

/// Takes note of the imports of a 64-bit file.
pub(crate) fn scan_imports64(
    file: &pe64::PeFile<'_>,
    window_funcs: &mut Vec<String>,
    service_funcs: &mut Vec<String>,
    all_dlls: &mut Vec<String>,
)
    requires
        imports_in_place(file64_bytes(*file), true),
    ensures
        noted(
            imports_of(file64_bytes(*file), true),
            (old(window_funcs)@, final(window_funcs)@),
            (old(service_funcs)@, final(service_funcs)@),
            (old(all_dlls)@, final(all_dlls)@),
        ),
{
    let table = read_imports64(file);
    scan_table(&table, window_funcs, service_funcs, all_dlls);
}

/// Takes note of the imports of a 32-bit file.
pub(crate) fn scan_imports32(
    file: &pe32::PeFile<'_>,
    window_funcs: &mut Vec<String>,
    service_funcs: &mut Vec<String>,
    all_dlls: &mut Vec<String>,
)
    requires
        imports_in_place(file32_bytes(*file), false),
    ensures
        noted(
            imports_of(file32_bytes(*file), false),
            (old(window_funcs)@, final(window_funcs)@),
            (old(service_funcs)@, final(service_funcs)@),
            (old(all_dlls)@, final(all_dlls)@),
        ),
{
    let table = read_imports32(file);
    scan_table(&table, window_funcs, service_funcs, all_dlls);
}

} // verus!
