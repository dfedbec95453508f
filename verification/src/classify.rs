//! How a program is classified, and how its report is put together.
use crate::imports::lemma_filter_push;
use crate::text::{
    contains_text, is_listed, listed, lower_case, occurs_at, occurs_in, sort_dedup, sorted_set,
    texts,
};
use crate::types::{
    version_in, AnalyzeResult, Classification, Report, Subsystem, VersionSummary, VersionTexts,
};
use vstd::prelude::*;

verus! {

/// The DLLs of Windows itself that a report names apart.
pub const CORE_DLLS: [&'static str; 17] = [
    "kernel32.dll",
    "user32.dll",
    "gdi32.dll",
    "advapi32.dll",
    "shell32.dll",
    "ole32.dll",
    "oleaut32.dll",
    "comctl32.dll",
    "comdlg32.dll",
    "ws2_32.dll",
    "winhttp.dll",
    "wininet.dll",
    "ntdll.dll",
    "msvcrt.dll",
    "crypt32.dll",
    "shlwapi.dll",
    "version.dll",
];

/// What a file name in lower case says of its program.
pub open spec fn told_by_file_name(lower: Seq<char>) -> Option<Classification> {
    if occurs_in("unins"@, lower) {
        Some(Classification::Uninstaller)
    } else if occurs_in("setup"@, lower) || occurs_in("install"@, lower) {
        Some(Classification::Installer)
    } else {
        None
    }
}

/// What a description in lower case says of its program.
pub open spec fn told_by_description(lower: Seq<char>) -> Option<Classification> {
    if occurs_in("uninstall"@, lower) {
        Some(Classification::Uninstaller)
    } else if occurs_in("setup"@, lower) || occurs_in("install"@, lower) {
        Some(Classification::Installer)
    } else {
        None
    }
}

/// What version information says of its program: the original file name, and where that
/// says nothing the description.
pub open spec fn told_by_version(version: Option<VersionTexts>) -> Option<Classification> {
    match version {
        Some(v) => {
            let by_name = match v.original_filename {
                Some(name) => told_by_file_name(lower_case(name)),
                None => None,
            };
            let by_description = match v.file_description {
                Some(text) => told_by_description(lower_case(text)),
                None => None,
            };
            if by_name is Some {
                by_name
            } else {
                by_description
            }
        },
        None => None,
    }
}

/// The class of a program. What the code of the file shows comes first, then what its
/// version information says, and last whether it opens a window.
pub open spec fn class_of(
    subsystem: Subsystem,
    is_dotnet: bool,
    is_service: bool,
    is_stub: bool,
    version: Option<VersionTexts>,
    has_window: bool,
) -> Classification {
    if subsystem == Subsystem::Console {
        Classification::ConsoleTool
    } else if is_dotnet {
        Classification::DotNet
    } else if is_service {
        Classification::Service
    } else if is_stub {
        Classification::Launcher
    } else if told_by_version(version) is Some {
        told_by_version(version)->0
    } else if has_window {
        Classification::Portable
    } else {
        Classification::Other
    }
}

/// A program opens a window where it imports a function to create one. A program with a
/// graphical interface also does so where it has a dialog, where it is one of .NET, and
/// where it has an icon and is no stub.
pub open spec fn opens_window(
    subsystem: Subsystem,
    window_funcs: Seq<Seq<char>>,
    has_dialog: bool,
    has_icon: bool,
    is_dotnet: bool,
    is_stub: bool,
) -> bool {
    ||| window_funcs.len() > 0
    ||| subsystem == Subsystem::Gui && (has_dialog || is_dotnet || (has_icon && !is_stub))
}

/// The core DLLs among `dlls`, each once and in dictionary order.
pub open spec fn core_of(dlls: Seq<Seq<char>>) -> Seq<Seq<char>> {
    sorted_set(dlls.filter(|d: Seq<char>| listed(CORE_DLLS@, d)))
}

/// The report that follows from what was found in a file.
pub open spec fn report_on(
    subsystem: Subsystem,
    window_funcs: Seq<Seq<char>>,
    all_dlls: Seq<Seq<char>>,
    is_service: bool,
    has_manifest: bool,
    has_dialog: bool,
    has_icon: bool,
    version: Option<VersionTexts>,
    is_dotnet: bool,
    is_stub: bool,
) -> Report {
    let has_window = opens_window(
        subsystem,
        window_funcs,
        has_dialog,
        has_icon,
        is_dotnet,
        is_stub,
    );
    Report {
        subsystem,
        classification: class_of(subsystem, is_dotnet, is_service, is_stub, version, has_window),
        has_window,
        has_icon,
        is_dotnet,
        is_service,
        is_stub,
        has_manifest,
        has_dialog,
        version,
        window_funcs,
        all_dlls,
        core_dlls: core_of(all_dlls),
    }
}

/// A text in which "uninstall" occurs is one in which "unins" does.
proof fn lemma_uninstall_has_unins(text: Seq<char>)
    requires
        occurs_in("uninstall"@, text),
    ensures
        occurs_in("unins"@, text),
{
    reveal_strlit("uninstall");
    reveal_strlit("unins");
    let at = choose|at: int| occurs_at("uninstall"@, text, at);
    let long = text.subrange(at, at + 9);
    assert(long == "uninstall"@);
    assert(text.subrange(at, at + 5) =~= long.subrange(0, 5));
    assert(long.subrange(0, 5) =~= "unins"@);
    assert(occurs_at("unins"@, text, at));
}

/// What a file name in lower case says of its program.
pub fn class_by_file_name(lower: &str) -> (class: Option<Classification>)
    ensures
        class == told_by_file_name(lower@),
{
    if contains_text(lower, "unins") || contains_text(lower, "uninstall") {
        proof {
            if occurs_in("uninstall"@, lower@) {
                lemma_uninstall_has_unins(lower@);
            }
        }
        return Some(Classification::Uninstaller);
    }
    if contains_text(lower, "setup") || contains_text(lower, "install") {
        return Some(Classification::Installer);
    }
    None
}

/// What a description in lower case says of its program.
pub fn class_by_description(lower: &str) -> (class: Option<Classification>)
    ensures
        class == told_by_description(lower@),
{
    if contains_text(lower, "uninstall") {
        return Some(Classification::Uninstaller);
    }
    if contains_text(lower, "setup") || contains_text(lower, "install") {
        return Some(Classification::Installer);
    }
    None
}

/// The class of the program that `r` reports on, whatever class `r` gives.
pub fn classify(r: &AnalyzeResult) -> (class: Classification)
    ensures
        class == class_of(
            r.subsystem,
            r.is_dotnet,
            r.is_service,
            r.is_stub,
            r@.version,
            r.has_window,
        ),
{
    if r.subsystem == Subsystem::Console {
        return Classification::ConsoleTool;
    }
    if r.is_dotnet {
        return Classification::DotNet;
    }
    if r.is_service {
        return Classification::Service;
    }
    if r.is_stub {
        return Classification::Launcher;
    }
    if let Some(version) = &r.version {
        if let Some(name) = &version.original_filename {
            let lower = name.to_lowercase();
            if let Some(class) = class_by_file_name(lower.as_str()) {
                return class;
            }
        }
        if let Some(text) = &version.file_description {
            let lower = text.to_lowercase();
            if let Some(class) = class_by_description(lower.as_str()) {
                return class;
            }
        }
    }
    if !r.has_window {
        return Classification::Other;
    }
    Classification::Portable
}

/// The core DLLs among `dlls`, each once and in dictionary order.
pub fn core_dlls(dlls: &Vec<String>) -> (core: Vec<String>)
    ensures
        texts(core@) == core_of(texts(dlls@)),
{
    let ghost is_core = |d: Seq<char>| listed(CORE_DLLS@, d);
    let mut core: Vec<String> = Vec::new();
    let mut i: usize = 0;
    assert(texts(core@) =~= texts(dlls@).take(0).filter(is_core));
    while i < dlls.len()
        invariant
            i <= dlls.len(),
            is_core == (|d: Seq<char>| listed(CORE_DLLS@, d)),
            texts(core@) == texts(dlls@).take(i as int).filter(is_core),
        decreases dlls.len() - i,
    {
        proof {
            let done = texts(dlls@).take(i as int);
            assert(texts(dlls@).take(i + 1) =~= done.push(dlls@[i as int]@));
            lemma_filter_push(done, dlls@[i as int]@, is_core);
        }
        if is_listed(&CORE_DLLS, dlls[i].as_str()) {
            let ghost before = texts(core@);
            core.push(dlls[i].clone());
            assert(texts(core@) =~= before.push(dlls@[i as int]@));
        }
        i += 1;
    }
    assert(texts(dlls@).take(i as int) =~= texts(dlls@));
    sort_dedup(&core)
}

/// Puts a report together from what was found in a file.
pub fn build(
    subsystem: Subsystem,
    window_funcs: Vec<String>,
    all_dlls: Vec<String>,
    is_service: bool,
    has_manifest: bool,
    has_dialog: bool,
    has_icon: bool,
    version: Option<VersionSummary>,
    is_dotnet: bool,
    is_stub: bool,
) -> (report: AnalyzeResult)
    ensures
        report@ == report_on(
            subsystem,
            texts(window_funcs@),
            texts(all_dlls@),
            is_service,
            has_manifest,
            has_dialog,
            has_icon,
            version_in(version),
            is_dotnet,
            is_stub,
        ),
{
    let is_gui = subsystem == Subsystem::Gui;
    let has_window = !window_funcs.is_empty() || (is_gui && has_dialog) || (is_gui && is_dotnet)
        || (is_gui && has_icon && !is_stub);
    let core_dlls = core_dlls(&all_dlls);
    let mut r = AnalyzeResult {
        subsystem,
        has_window,
        window_funcs,
        all_dlls,
        core_dlls,
        is_dotnet,
        is_service,
        is_stub,
        has_manifest,
        has_dialog,
        has_icon,
        version,
        classification: Classification::Other,
    };
    let classification = classify(&r);
    r.classification = classification;
    r
}

} // verus!
