//! Tells from an executable file of Windows whether a double click on it opens a window,
//! and what the program is for.
//!
//! [`analyze_exe_checked`] takes the bytes of a file and gives a report on it. The other
//! modules hold the steps of the analysis:
//!
//! - [`buffer`] puts the bytes where the file format can be read;
//! - [`sections`] finds what the file stores at an address, and [`tables`] says what its
//!   parts are;
//! - [`place`] tells whether what is read of the file can be read there;
//! - [`pe`] reads the file format, through the `pelite` crate;
//! - [`imports`] scans the imported DLLs and functions;
//! - [`resources`] looks at the resource types and sums up the version information;
//! - [`blocks`] tells whether version information can be read at all;
//! - [`clr`] finds code for the runtime of .NET;
//! - [`classify`] draws the class of the program from what was found;
//! - [`analyze`] puts the steps together;
//! - [`tags`] names what stands out in a report;
//! - [`text`] and [`types`] hold what the others share;
//! - [`laws`] states what holds of every report;
//! - [`answers`] states what each field of a report answers in terms of the file, [`scans`]
//!   what a scan of imports finds, [`formats`] how the parts of a file are found, [`known`]
//!   which names count, and [`basics`] what texts, lists and labels are taken to be.
pub mod analyze;
pub mod answers;
pub mod basics;
pub mod blocks;
pub mod buffer;
pub mod classify;
pub mod clr;
pub mod formats;
pub mod imports;
pub mod known;
pub mod laws;
pub mod pe;
pub mod place;
pub mod resources;
pub mod scans;
pub mod sections;
pub mod tables;
pub mod tags;
pub mod text;
pub mod types;

pub use crate::analyze::{analyze_exe, analyze_exe_checked};
pub use crate::imports::WINDOW_CREATE_FUNCS;
pub use crate::types::{
    AnalyzeError, AnalyzeResult, Classification, Subsystem, VersionSummary,
};
