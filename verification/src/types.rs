//! What an analysis reports.
use crate::text::texts;
use vstd::prelude::*;

verus! {

/// The subsystem number of a program with a graphical user interface: the value of
/// `pelite::image::IMAGE_SUBSYSTEM_WINDOWS_GUI` is two.
#[verifier::external_body]
fn gui_number() -> (number: u16)
    ensures
        number == 2,
{
    pelite::image::IMAGE_SUBSYSTEM_WINDOWS_GUI
}

/// The subsystem number of a console program: the value of
/// `pelite::image::IMAGE_SUBSYSTEM_WINDOWS_CUI` is three.
#[verifier::external_body]
fn console_number() -> (number: u16)
    ensures
        number == 3,
{
    pelite::image::IMAGE_SUBSYSTEM_WINDOWS_CUI
}

/// The subsystem number of a native program: the value of
/// `pelite::image::IMAGE_SUBSYSTEM_NATIVE` is one.
#[verifier::external_body]
fn native_number() -> (number: u16)
    ensures
        number == 1,
{
    pelite::image::IMAGE_SUBSYSTEM_NATIVE
}

/// The Windows subsystem that a program asks for.
#[derive(Debug, Clone, PartialEq, Eq, Structural)]
pub enum Subsystem {
    Gui,
    Console,
    Native,
    Other(u16),
}

impl Subsystem {
    /// The subsystem with the number `v`.
    pub open spec fn numbered(v: u16) -> Subsystem {
        if v == 2 {
            Subsystem::Gui
        } else if v == 3 {
            Subsystem::Console
        } else if v == 1 {
            Subsystem::Native
        } else {
            Subsystem::Other(v)
        }
    }

    /// The text that stands for the subsystem.
    pub open spec fn label(self) -> Seq<char> {
        match self {
            Subsystem::Gui => "GUI"@,
            Subsystem::Console => "Console"@,
            Subsystem::Native => "Native"@,
            Subsystem::Other(_) => "Other"@,
        }
    }

    /// The subsystem with the number `v`.
    pub fn from_u16(v: u16) -> (subsystem: Self)
        ensures
            subsystem == Subsystem::numbered(v),
    {
        if v == gui_number() {
            Subsystem::Gui
        } else if v == console_number() {
            Subsystem::Console
        } else if v == native_number() {
            Subsystem::Native
        } else {
            Subsystem::Other(v)
        }
    }

    /// The text that stands for the subsystem.
    pub fn as_str(&self) -> (text: &'static str)
        ensures
            text@ == self.label(),
    {
        match self {
            Subsystem::Gui => "GUI",
            Subsystem::Console => "Console",
            Subsystem::Native => "Native",
            Subsystem::Other(_) => "Other",
        }
    }
}

/// What a program is for.
#[derive(Debug, Clone, PartialEq, Eq, Structural)]
pub enum Classification {
    Portable,
    Installer,
    Uninstaller,
    SfxArchive,
    Launcher,
    Service,
    DotNet,
    WebView,
    ConsoleTool,
    Other,
}

impl Classification {
    /// The text that stands for the class.
    pub open spec fn label(self) -> Seq<char> {
        match self {
            Classification::Portable => "Portable"@,
            Classification::Installer => "Installer"@,
            Classification::Uninstaller => "Uninstaller"@,
            Classification::SfxArchive => "SFX"@,
            Classification::Launcher => "Launcher"@,
            Classification::Service => "Service"@,
            Classification::DotNet => ".NET"@,
            Classification::WebView => "WebView"@,
            Classification::ConsoleTool => "Console"@,
            Classification::Other => "Other"@,
        }
    }

    /// The text that stands for the class.
    pub fn as_str(&self) -> (text: &'static str)
        ensures
            text@ == self.label(),
    {
        match self {
            Classification::Portable => "Portable",
            Classification::Installer => "Installer",
            Classification::Uninstaller => "Uninstaller",
            Classification::SfxArchive => "SFX",
            Classification::Launcher => "Launcher",
            Classification::Service => "Service",
            Classification::DotNet => ".NET",
            Classification::WebView => "WebView",
            Classification::ConsoleTool => "Console",
            Classification::Other => "Other",
        }
    }
}

/// The text in an optional string.
pub open spec fn text_in(text: Option<String>) -> Option<Seq<char>> {
    match text {
        Some(s) => Some(s@),
        None => None,
    }
}

/// The entries of a program's version information that a report repeats.
#[derive(Debug, Clone)]
pub struct VersionSummary {
    pub original_filename: Option<String>,
    pub file_description: Option<String>,
    pub company_name: Option<String>,
    pub product_name: Option<String>,
    pub file_version: Option<String>,
}

/// The texts of a `VersionSummary`.
pub struct VersionTexts {
    pub original_filename: Option<Seq<char>>,
    pub file_description: Option<Seq<char>>,
    pub company_name: Option<Seq<char>>,
    pub product_name: Option<Seq<char>>,
    pub file_version: Option<Seq<char>>,
}

impl View for VersionSummary {
    type V = VersionTexts;

    open spec fn view(&self) -> VersionTexts {
        VersionTexts {
            original_filename: text_in(self.original_filename),
            file_description: text_in(self.file_description),
            company_name: text_in(self.company_name),
            product_name: text_in(self.product_name),
            file_version: text_in(self.file_version),
        }
    }
}

impl Default for VersionSummary {
    /// A summary without any entry.
    fn default() -> (summary: VersionSummary)
        ensures
            summary.original_filename is None,
            summary.file_description is None,
            summary.company_name is None,
            summary.product_name is None,
            summary.file_version is None,
    {
        VersionSummary {
            original_filename: None,
            file_description: None,
            company_name: None,
            product_name: None,
            file_version: None,
        }
    }
}

/// The texts in an optional summary.
pub open spec fn version_in(version: Option<VersionSummary>) -> Option<VersionTexts> {
    match version {
        Some(summary) => Some(summary@),
        None => None,
    }
}

/// The report on one executable file.
#[derive(Debug, Clone)]
pub struct AnalyzeResult {
    pub subsystem: Subsystem,
    pub classification: Classification,
    pub has_window: bool,
    pub has_icon: bool,
    pub is_dotnet: bool,
    pub is_service: bool,
    pub is_stub: bool,
    pub has_manifest: bool,
    pub has_dialog: bool,
    pub version: Option<VersionSummary>,
    pub window_funcs: Vec<String>,
    pub all_dlls: Vec<String>,
    pub core_dlls: Vec<String>,
}

/// What an `AnalyzeResult` says.
pub struct Report {
    pub subsystem: Subsystem,
    pub classification: Classification,
    pub has_window: bool,
    pub has_icon: bool,
    pub is_dotnet: bool,
    pub is_service: bool,
    pub is_stub: bool,
    pub has_manifest: bool,
    pub has_dialog: bool,
    pub version: Option<VersionTexts>,
    pub window_funcs: Seq<Seq<char>>,
    pub all_dlls: Seq<Seq<char>>,
    pub core_dlls: Seq<Seq<char>>,
}

impl View for AnalyzeResult {
    type V = Report;

    open spec fn view(&self) -> Report {
        Report {
            subsystem: self.subsystem,
            classification: self.classification,
            has_window: self.has_window,
            has_icon: self.has_icon,
            is_dotnet: self.is_dotnet,
            is_service: self.is_service,
            is_stub: self.is_stub,
            has_manifest: self.has_manifest,
            has_dialog: self.has_dialog,
            version: version_in(self.version),
            window_funcs: texts(self.window_funcs@),
            all_dlls: texts(self.all_dlls@),
            core_dlls: texts(self.core_dlls@),
        }
    }
}

/// Why a file has no report.
#[derive(Debug, Clone, Copy, PartialEq, Eq, Structural)]
pub enum AnalyzeError {
    /// The bytes are not a PE file.
    NotPe,
}

impl AnalyzeError {
    /// The message for the user.
    pub fn as_str(&self) -> (text: &'static str)
        ensures
            text@ == "Not a valid PE file"@,
    {
        "Not a valid PE file"
    }
}

} // verus!
