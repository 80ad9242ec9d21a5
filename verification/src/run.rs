//! One run of the detector: select a process, scan it, say what was found.

use crate::scanner::{
    transition, Phase, ScanAction, ScanError, ScanEvent, ScanEventView, ScanReport, ScanVerdict, Scanner,
    ScannerView,
};
use crate::select::{listed, select_target, selection, sizes_fit, ProcessInfo, SelectError};
use crate::signature::{is_known_table, SignatureName};
use vstd::prelude::*;

verus! {

/// Begins a run from the outcome of listing the processes. If a process is
/// selected, the scanner for it is returned with its first request, which
/// is to attach to that process. If none is selected there is no scanner:
/// nothing is scanned when selection fails.
pub fn begin(listing: Option<&Vec<ProcessInfo>>) -> (started: Result<
    (Scanner, ScanAction),
    SelectError,
>)
    requires
        listing matches Some(procs) ==> sizes_fit(procs@),
    ensures
        match started {
            Ok((scanner, asked)) => {
                &&& selection(listed(listing)) == Ok::<i32, SelectError>(scanner@.pid)
                &&& is_known_table(scanner@.table)
                &&& (scanner@, Some(asked)) == transition(
                    ScannerView::initial(scanner@.pid, scanner@.table),
                    ScanEventView::AttachRequested,
                )
                &&& asked == ScanAction::Attach { pid: scanner@.pid }
            },
            Err(error) => selection(listed(listing)) == Err::<i32, SelectError>(error),
        },
{
    match select_target(listing) {
        Ok(pid) => {
            let mut scanner = Scanner::new(pid);
            let asked = scanner.step(ScanEvent::AttachRequested).unwrap();
            Ok((scanner, asked))
        },
        Err(error) => Err(error),
    }
}

/// The line that tells the operator of `verdict`.
pub open spec fn verdict_text(verdict: ScanVerdict) -> Seq<char> {
    match verdict {
        ScanVerdict::MatchedSignature(SignatureName::S1) => "[+] Injection detected (#S1)."@,
        ScanVerdict::MatchedSignature(SignatureName::S2) => "[+] Injection detected (#S2)."@,
        ScanVerdict::NoMatch => "[-] No suspicious manipulations with JVM detected."@,
    }
}

/// The line that tells the operator of `verdict`.
pub fn verdict_line(verdict: ScanVerdict) -> (line: &'static str)
    ensures
        line@ == verdict_text(verdict),
{
    match verdict {
        ScanVerdict::MatchedSignature(SignatureName::S1) => "[+] Injection detected (#S1).",
        ScanVerdict::MatchedSignature(SignatureName::S2) => "[+] Injection detected (#S2).",
        ScanVerdict::NoMatch => "[-] No suspicious manipulations with JVM detected.",
    }
}

/// The words that tell the operator why no process was selected.
pub open spec fn select_error_text(error: SelectError) -> Seq<char> {
    match error {
        SelectError::NotFound => "No Java processes found"@,
        SelectError::EnumerationFailure => "Failed to list the processes"@,
    }
}

/// The words that tell the operator why no process was selected.
pub fn select_error_line(error: SelectError) -> (line: &'static str)
    ensures
        line@ == select_error_text(error),
{
    match error {
        SelectError::NotFound => "No Java processes found",
        SelectError::EnumerationFailure => "Failed to list the processes",
    }
}

/// The words that tell the operator at which stage a scan went wrong.
pub open spec fn scan_error_text(error: ScanError) -> Seq<char> {
    match error {
        ScanError::AttachFailure => "Failed to attach to the process"@,
        ScanError::WaitFailure => "Failed to wait for the process to stop"@,
        ScanError::MapReadFailure => "Failed to open the memory of the process"@,
        ScanError::DetachFailure => "Failed to detach from the process"@,
    }
}

/// The words that tell the operator at which stage a scan went wrong.
pub fn scan_error_line(error: ScanError) -> (line: &'static str)
    ensures
        line@ == scan_error_text(error),
{
    match error {
        ScanError::AttachFailure => "Failed to attach to the process",
        ScanError::WaitFailure => "Failed to wait for the process to stop",
        ScanError::MapReadFailure => "Failed to open the memory of the process",
        ScanError::DetachFailure => "Failed to detach from the process",
    }
}

/// A run is fatal when no process was selected, or when the scan failed to
/// attach, to wait, or to open the memory of the process. A failed detach
/// is not fatal, and neither verdict is.
pub open spec fn is_fatal(outcome: Result<ScanReport, SelectError>) -> bool {
    match outcome {
        Err(_) => true,
        Ok(report) => report.error matches Some(error) && error != ScanError::DetachFailure,
    }
}

/// A scan that is over and was not fatal has reached a verdict, and a
/// fatal one has reached none.
pub proof fn lemma_fatal_or_verdict(s: ScannerView)
    requires
        s.well_formed(),
        s.phase == Phase::Done,
    ensures
        is_fatal(Ok(s.report)) <==> s.report.verdict is None,
{
}

/// The exit status of a run: 1 if it was fatal, 0 if not.
pub fn exit_status(outcome: Result<ScanReport, SelectError>) -> (status: u8)
    ensures
        status == if is_fatal(outcome) {
            1u8
        } else {
            0u8
        },
{
    match outcome {
        Err(_) => 1,
        Ok(report) => match report.error {
            Some(ScanError::AttachFailure) => 1,
            Some(ScanError::WaitFailure) => 1,
            Some(ScanError::MapReadFailure) => 1,
            Some(ScanError::DetachFailure) => 0,
            None => 0,
        },
    }
}

} // verus!
