use dicom_engine::dump::after_file;
use dicom_engine::dump::display_width;
use dicom_engine::dump::final_exit_code;
use dicom_engine::dump::os_compatibility;
use dicom_engine::dump::stops_at_first_error;
use dicom_engine::dump::wants_backtrace;
use dicom_engine::dump::FileOutcome;

#[test]
fn os_compatibility_succeeds() {
    assert_eq!(os_compatibility(), Ok(()));
}

#[test]
fn width_prefers_the_request() {
    assert_eq!(display_width(Some(80), Some(200)), 80);
    assert_eq!(display_width(None, Some(200)), 200);
    assert_eq!(display_width(None, None), 120);
}

#[test]
fn width_of_the_terminal_is_cut_to_32_bits() {
    assert_eq!(display_width(None, Some(0x1_0000_0005)), 5);
}

#[test]
fn a_single_file_stops_at_its_first_error() {
    assert!(stops_at_first_error(1, false));
    assert!(!stops_at_first_error(2, false));
    assert!(stops_at_first_error(2, true));
}

#[test]
fn read_failure_exits_or_counts() {
    let stop = after_file(0, true, FileOutcome::ReadFailed);
    assert_eq!(stop.exit, Some(-2));
    assert!(stop.report);
    let go = after_file(3, false, FileOutcome::ReadFailed);
    assert_eq!(go.exit, None);
    assert_eq!(go.errors, 4);
    assert!(go.report);
}

#[test]
fn broken_pipe_is_counted_in_silence() {
    let step = after_file(1, true, FileOutcome::PrintFailed { broken_pipe: true });
    assert_eq!(step.exit, None);
    assert_eq!(step.errors, 2);
    assert!(!step.report);
}

#[test]
fn print_failure_exits_or_counts() {
    let stop = after_file(0, true, FileOutcome::PrintFailed { broken_pipe: false });
    assert_eq!(stop.exit, Some(-3));
    let go = after_file(0, false, FileOutcome::PrintFailed { broken_pipe: false });
    assert_eq!(go.exit, None);
    assert_eq!(go.errors, 1);
    assert!(go.report);
}

#[test]
fn printed_file_changes_nothing() {
    let step = after_file(2, false, FileOutcome::Printed);
    assert_eq!(step.errors, 2);
    assert_eq!(step.exit, None);
    assert!(!step.report);
    assert_eq!(final_exit_code(step.errors), 2);
}

#[test]
fn backtrace_is_asked_for_by_the_environment() {
    assert!(!wants_backtrace("", ""));
    assert!(wants_backtrace("1", ""));
    assert!(wants_backtrace("", "1"));
    assert!(wants_backtrace("1", "1"));
    assert!(wants_backtrace("0", "1"));
    assert!(!wants_backtrace("1", "0"));
    assert!(!wants_backtrace("0", "0"));
    assert!(!wants_backtrace("full", ""));
    assert!(wants_backtrace("1", "full"));
    assert!(!wants_backtrace("11", ""));
}
