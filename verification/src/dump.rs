//! The decisions of a tool that prints the contents of DICOM files: how
//! wide to print, when to stop at an error, and how to exit.

use crate::text::bytes_equal;
use vstd::prelude::*;
use vstd::string::StringSliceAdditionalSpecFns;

verus! {

/// The exit code for an error met while a file was read.
pub const ERROR_READ: i32 = -2;

/// The exit code for an error met while a file was printed.
pub const ERROR_PRINT: i32 = -3;

/// The width of the display where neither the caller nor the terminal
/// gives one.
pub const DEFAULT_WIDTH: u32 = 120;

/// How the work on one file ended.
#[derive(Clone, Copy, Debug, PartialEq, Eq, Structural)]
pub enum FileOutcome {
    /// The file could not be read.
    ReadFailed,
    /// The file was read but could not be printed to the end; `broken_pipe`
    /// tells whether the reader of the output went away.
    PrintFailed { broken_pipe: bool },
    /// The file was printed.
    Printed,
}

/// What to do after one file.
#[derive(Clone, Copy, Debug, PartialEq, Eq, Structural)]
pub struct DumpStep {
    /// The number of files that failed so far.
    pub errors: i32,
    /// Whether the error is to be reported to the user.
    pub report: bool,
    /// The exit code with which to stop at once, if any.
    pub exit: Option<i32>,
}

/// Prepares the terminal for coloured output. On the platforms for which
/// this library is built there is nothing to prepare, so this succeeds.
pub fn os_compatibility() -> (r: Result<(), ()>)
    ensures
        r is Ok,
{
    Ok(())
}

/// The width of the display: the one asked for; else the width of the
/// terminal, cut to 32 bits; else the default.
pub open spec fn spec_display_width(requested: Option<u32>, terminal: Option<usize>) -> u32 {
    match requested {
        Some(w) => w,
        None => match terminal {
            Some(t) => (t as int % 0x1_0000_0000) as u32,
            None => DEFAULT_WIDTH,
        },
    }
}

/// The width of the display.
pub fn display_width(requested: Option<u32>, terminal: Option<usize>) -> (w: u32)
    ensures
        w == spec_display_width(requested, terminal),
{
    match requested {
        Some(w) => w,
        None => match terminal {
            Some(t) => ((t as u64) % 0x1_0000_0000) as u32,
            None => DEFAULT_WIDTH,
        },
    }
}

/// Whether the tool stops at the first error: always where there is one
/// file only, else where the user asked for it.
pub fn stops_at_first_error(file_count: usize, fail_first: bool) -> (r: bool)
    ensures
        r == (file_count == 1 || fail_first),
{
    file_count == 1 || fail_first
}

/// What follows from the outcome of one file.
///
/// A file that cannot be read is reported; the tool then exits with
/// `ERROR_READ` where it stops at the first error, else the file is counted.
/// A file that cannot be printed is counted; unless the pipe broke it is
/// reported, and the tool exits with `ERROR_PRINT` where it stops at the
/// first error. A broken pipe is counted in silence.
pub open spec fn spec_after_file(errors: i32, fail_first: bool, outcome: FileOutcome) -> DumpStep {
    match outcome {
        FileOutcome::ReadFailed => if fail_first {
            DumpStep { errors, report: true, exit: Some(ERROR_READ) }
        } else {
            DumpStep { errors: (errors + 1) as i32, report: true, exit: None }
        },
        FileOutcome::PrintFailed { broken_pipe } => if broken_pipe {
            DumpStep { errors: (errors + 1) as i32, report: false, exit: None }
        } else if fail_first {
            DumpStep { errors, report: true, exit: Some(ERROR_PRINT) }
        } else {
            DumpStep { errors: (errors + 1) as i32, report: true, exit: None }
        },
        FileOutcome::Printed => DumpStep { errors, report: false, exit: None },
    }
}

/// Decides what to do after one file, given the number of files that
/// failed before it.
pub fn after_file(errors: i32, fail_first: bool, outcome: FileOutcome) -> (step: DumpStep)
    requires
        errors < i32::MAX,
    ensures
        step == spec_after_file(errors, fail_first, outcome),
        step.errors == errors || step.errors == errors + 1,
{
    match outcome {
        FileOutcome::ReadFailed => if fail_first {
            DumpStep { errors, report: true, exit: Some(ERROR_READ) }
        } else {
            DumpStep { errors: errors + 1, report: true, exit: None }
        },
        FileOutcome::PrintFailed { broken_pipe } => if broken_pipe {
            DumpStep { errors: errors + 1, report: false, exit: None }
        } else if fail_first {
            DumpStep { errors, report: true, exit: Some(ERROR_PRINT) }
        } else {
            DumpStep { errors: errors + 1, report: true, exit: None }
        },
        FileOutcome::Printed => DumpStep { errors, report: false, exit: None },
    }
}

/// The exit code once every file was worked on: the number of files that
/// failed.
pub fn final_exit_code(errors: i32) -> (code: i32)
    ensures
        code == errors,
{
    errors
}

/// Whether the backtrace of an error is asked for, given the values of the
/// two variables of the environment that ask for backtraces (each empty
/// where it is not set): the one for libraries is "1", or the general one is
/// "1" and the one for libraries is not "0".
pub open spec fn spec_wants_backtrace(general: Seq<u8>, libraries: Seq<u8>) -> bool {
    libraries == "1".spec_bytes() || (general == "1".spec_bytes() && libraries
        != "0".spec_bytes())
}

/// Whether the backtrace of an error is to be printed.
pub fn wants_backtrace(general: &str, libraries: &str) -> (r: bool)
    ensures
        r == spec_wants_backtrace(general.spec_bytes(), libraries.spec_bytes()),
{
    let one = "1".as_bytes();
    let zero = "0".as_bytes();
    bytes_equal(libraries.as_bytes(), one) || (bytes_equal(general.as_bytes(), one)
        && !bytes_equal(libraries.as_bytes(), zero))
}

} // verus!
