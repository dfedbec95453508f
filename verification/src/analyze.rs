//! The analysis of a whole file.
use crate::buffer::store;
use crate::classify::{build, report_on};
use crate::clr::{has_clr, holds_clr};
use crate::imports::{
    all_dll_names, all_services, all_windows, dlls_or_none, imports_of, scan_imports32,
    scan_imports64,
};
use crate::pe::{file32_bytes, file64_bytes, has_headers, subsystem_number};
use crate::pe::{open32, open64, subsystem32, subsystem64};
use crate::place::{
    are_headers_in_place, are_imports_in_place, are_resources_in_place, headers_in_place,
    imports_in_place, resources_in_place,
};
use crate::resources::{
    analyze_rsrc32, analyze_rsrc_impl, can_sum_up32, can_sum_up64, resource_types, sums_up_found,
    version_of, version_readable, DIALOG, GROUP_ICON, MANIFEST,
};
use crate::tables::resources_of;
use crate::text::{has_text, sort_dedup, sorted_set, texts};
use crate::types::{
    version_in, AnalyzeError, AnalyzeResult, Report, Subsystem, VersionSummary, VersionTexts,
};
use pelite::pe32;
use pelite::pe64;
use vstd::prelude::*;

verus! {

/// The report that follows from the bytes of a file, its subsystem, what a scan of its
/// imports noted, and what its resources hold.
///
/// A program with a graphical interface is a stub where it imports no more than eight
/// DLLs, neither `user32.dll` nor a function that creates windows, and is neither a
/// service nor a program of .NET.
pub open spec fn conclusion(
    bytes: Seq<u8>,
    wide: bool,
    subsystem: Subsystem,
    window_funcs: Seq<Seq<char>>,
    service_funcs: Seq<Seq<char>>,
    dll_names: Seq<Seq<char>>,
    has_manifest: bool,
    has_dialog: bool,
    has_icon: bool,
    version: Option<VersionTexts>,
) -> Report {
    let all_dlls = sorted_set(dll_names);
    let is_service = service_funcs.len() > 0;
    let is_dotnet = all_dlls.contains("mscoree.dll"@) || holds_clr(bytes, wide);
    let is_stub = subsystem == Subsystem::Gui && all_dlls.len() <= 8 && !all_dlls.contains(
        "user32.dll"@,
    ) && window_funcs.len() == 0 && !is_service && !is_dotnet;
    report_on(
        subsystem,
        window_funcs,
        all_dlls,
        is_service,
        has_manifest,
        has_dialog,
        has_icon,
        version,
        is_dotnet,
        is_stub,
    )
}

/// Draws the conclusions from what was found in a file.
pub fn conclude(
    bytes: &[u8],
    is64: bool,
    subsystem: Subsystem,
    window_funcs: Vec<String>,
    service_funcs: Vec<String>,
    dll_names: Vec<String>,
    has_manifest: bool,
    has_dialog: bool,
    has_icon: bool,
    version: Option<VersionSummary>,
) -> (report: AnalyzeResult)
    ensures
        report@ == conclusion(
            bytes@,
            is64,
            subsystem,
            texts(window_funcs@),
            texts(service_funcs@),
            texts(dll_names@),
            has_manifest,
            has_dialog,
            has_icon,
            version_in(version),
        ),
{
    let all_dlls = sort_dedup(&dll_names);
    let is_service = !service_funcs.is_empty();
    let is_dotnet = has_text(&all_dlls, "mscoree.dll") || has_clr(bytes, is64);
    let is_stub = subsystem == Subsystem::Gui && all_dlls.len() <= 8 && !has_text(
        &all_dlls,
        "user32.dll",
    ) && window_funcs.is_empty() && !is_service && !is_dotnet;
    build(
        subsystem,
        window_funcs,
        all_dlls,
        is_service,
        has_manifest,
        has_dialog,
        has_icon,
        version,
        is_dotnet,
        is_stub,
    )
}

/// The subsystem of a file.
pub open spec fn subsystem_of(bytes: Seq<u8>) -> Subsystem {
    Subsystem::numbered(subsystem_number(bytes) as u16)
}

/// The report on a file of 64 or 32 bits. Only of a program with a graphical interface are
/// the imports and the resources looked at.
pub open spec fn analysis(bytes: Seq<u8>, wide: bool) -> Report {
    let subsystem = subsystem_of(bytes);
    let dlls = if subsystem == Subsystem::Gui {
        dlls_or_none(imports_of(bytes, wide))
    } else {
        Seq::empty()
    };
    let resources = if subsystem == Subsystem::Gui {
        resources_of(bytes, wide)
    } else {
        None
    };
    conclusion(
        bytes,
        wide,
        subsystem,
        all_windows(dlls),
        all_services(dlls),
        all_dll_names(dlls),
        resource_types(resources).contains(Some(MANIFEST)),
        resource_types(resources).contains(Some(DIALOG)),
        resource_types(resources).contains(Some(GROUP_ICON)),
        version_of(resources),
    )
}

/// Wherever a reader finds version information in a file that it is looked for in, the report
/// has its summary.
pub open spec fn has_found_version(report: Report, bytes: Seq<u8>, wide: bool) -> bool {
    report.subsystem == Subsystem::Gui ==> sums_up_found(
        report.version,
        resources_of(bytes, wide),
    )
}

/// `report` is the report on a file of 64 or 32 bits.
pub open spec fn reports_on(report: Report, bytes: Seq<u8>, wide: bool) -> bool {
    &&& report == analysis(bytes, wide)
    &&& has_found_version(report, bytes, wide)
}

/// The report on the bytes of a file. `None` where they are not a PE file.
pub open spec fn report_of(bytes: Seq<u8>) -> Option<Report> {
    if has_headers(bytes, true) {
        Some(analysis(bytes, true))
    } else if has_headers(bytes, false) {
        Some(analysis(bytes, false))
    } else {
        None
    }
}

/// What is read of the imports and of the resources of a file lies in its place, and the
/// version information can be summed up, or they are not looked at.
pub open spec fn is_readable(bytes: Seq<u8>, wide: bool) -> bool {
    subsystem_of(bytes) == Subsystem::Gui ==> {
        &&& imports_in_place(bytes, wide)
        &&& resources_in_place(bytes, wide)
        &&& version_readable(resources_of(bytes, wide))
    }
}

/// All of a file that the analysis looks at can be read.
pub open spec fn can_be_analyzed(bytes: Seq<u8>) -> bool {
    &&& headers_in_place(bytes)
    &&& has_headers(bytes, true) ==> is_readable(bytes, true)
    &&& has_headers(bytes, false) ==> is_readable(bytes, false)
}

/// Analyzes a 64-bit file.
fn analyze64(bytes: &[u8], file: &pe64::PeFile<'_>) -> (report: AnalyzeResult)
    requires
        file64_bytes(*file) == bytes@,
        is_readable(bytes@, true),
    ensures
        reports_on(report@, bytes@, true),
{
    let subsystem = Subsystem::from_u16(subsystem64(file));
    let is_gui = subsystem == Subsystem::Gui;
    let mut window_funcs: Vec<String> = Vec::new();
    let mut service_funcs: Vec<String> = Vec::new();
    let mut dll_names: Vec<String> = Vec::new();
    if is_gui {
        scan_imports64(file, &mut window_funcs, &mut service_funcs, &mut dll_names);
    }
    proof {
        let dlls = if is_gui {
            dlls_or_none(imports_of(bytes@, true))
        } else {
            Seq::empty()
        };
        assert(texts(window_funcs@) =~= all_windows(dlls));
        assert(texts(service_funcs@) =~= all_services(dlls));
        assert(texts(dll_names@) =~= all_dll_names(dlls));
    }
    let mut has_manifest = false;
    let mut has_dialog = false;
    let mut has_icon = false;
    let version = if is_gui {
        analyze_rsrc_impl(file, &mut has_manifest, &mut has_dialog, &mut has_icon)
    } else {
        None
    };
    conclude(
        bytes,
        true,
        subsystem,
        window_funcs,
        service_funcs,
        dll_names,
        has_manifest,
        has_dialog,
        has_icon,
        version,
    )
}

/// Analyzes a 32-bit file.
fn analyze32(bytes: &[u8], file: &pe32::PeFile<'_>) -> (report: AnalyzeResult)
    requires
        file32_bytes(*file) == bytes@,
        is_readable(bytes@, false),
    ensures
        reports_on(report@, bytes@, false),
{
    let subsystem = Subsystem::from_u16(subsystem32(file));
    let is_gui = subsystem == Subsystem::Gui;
    let mut window_funcs: Vec<String> = Vec::new();
    let mut service_funcs: Vec<String> = Vec::new();
    let mut dll_names: Vec<String> = Vec::new();
    if is_gui {
        scan_imports32(file, &mut window_funcs, &mut service_funcs, &mut dll_names);
    }
    proof {
        let dlls = if is_gui {
            dlls_or_none(imports_of(bytes@, false))
        } else {
            Seq::empty()
        };
        assert(texts(window_funcs@) =~= all_windows(dlls));
        assert(texts(service_funcs@) =~= all_services(dlls));
        assert(texts(dll_names@) =~= all_dll_names(dlls));
    }
    let mut has_manifest = false;
    let mut has_dialog = false;
    let mut has_icon = false;
    let version = if is_gui {
        analyze_rsrc32(file, &mut has_manifest, &mut has_dialog, &mut has_icon)
    } else {
        None
    };
    conclude(
        bytes,
        false,
        subsystem,
        window_funcs,
        service_funcs,
        dll_names,
        has_manifest,
        has_dialog,
        has_icon,
        version,
    )
}

/// No file has the headers of both kinds.
pub proof fn lemma_one_kind(bytes: Seq<u8>)
    ensures
        !(has_headers(bytes, true) && has_headers(bytes, false)),
{
}

/// Analyzes the bytes of an executable file: a PE file has a report, and anything else is
/// refused.
pub fn analyze_exe(bytes: &[u8]) -> (report: Result<AnalyzeResult, AnalyzeError>)
    requires
        can_be_analyzed(bytes@),
    ensures
        match report_of(bytes@) {
            Some(expected) => report matches Ok(r) && r@ == expected,
            None => report matches Err(AnalyzeError::NotPe),
        },
        report matches Ok(r) ==> has_found_version(r@, bytes@, has_headers(bytes@, true)),
{
    let words = store(bytes);
    if let Some(file) = open64(words.as_slice(), bytes.len()) {
        return Ok(analyze64(bytes, &file));
    }
    if let Some(file) = open32(words.as_slice(), bytes.len()) {
        return Ok(analyze32(bytes, &file));
    }
    Err(AnalyzeError::NotPe)
}

/// Whether all of a file that the analysis looks at can be read.
pub fn can_analyze(bytes: &[u8]) -> (can: bool)
    ensures
        can == can_be_analyzed(bytes@),
{
    proof {
        lemma_one_kind(bytes@);
    }
    if !are_headers_in_place(bytes) {
        return false;
    }
    let words = store(bytes);
    if let Some(file) = open64(words.as_slice(), bytes.len()) {
        return Subsystem::from_u16(subsystem64(&file)) != Subsystem::Gui || (
        are_imports_in_place(bytes, true) && are_resources_in_place(bytes, true) && can_sum_up64(
            &file,
        ));
    }
    if let Some(file) = open32(words.as_slice(), bytes.len()) {
        return Subsystem::from_u16(subsystem32(&file)) != Subsystem::Gui || (
        are_imports_in_place(bytes, false) && are_resources_in_place(bytes, false) && can_sum_up32(
            &file,
        ));
    }
    true
}

/// Analyzes the bytes of an executable file as `analyze_exe` does, once it is known that
/// they can be analyzed. `None` where they cannot.
pub fn analyze_exe_checked(bytes: &[u8]) -> (report: Option<Result<AnalyzeResult, AnalyzeError>>)
    ensures
        report is Some <==> can_be_analyzed(bytes@),
        report matches Some(result) ==> match report_of(bytes@) {
            Some(expected) => result matches Ok(r) && r@ == expected,
            None => result matches Err(AnalyzeError::NotPe),
        },
        report matches Some(Ok(r)) ==> has_found_version(r@, bytes@, has_headers(bytes@, true)),
{
    if can_analyze(bytes) {
        Some(analyze_exe(bytes))
    } else {
        None
    }
}

} // verus!
