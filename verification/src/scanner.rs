//! The memory scanner, as a machine that is told what happened and answers
//! with what to do next.
//!
//! The scanner never touches the traced process itself. Its driver attaches,
//! waits, opens, reads and detaches on its behalf, and reports each outcome
//! as a [`ScanEvent`]. The scanner decides: it walks the memory map in the
//! order of its records, asks for each scannable region in turn, searches
//! what comes back for the known signatures, and stops at the first region
//! in which one is found.

use crate::maps::{plan_scan, scan_plan, MemoryRegion};
use crate::search::{find_signature, first_found};
use crate::signature::{is_known_table, known_signatures, Signature, SignatureName};
use vstd::prelude::*;

verus! {

/// What a scan concludes about the memory it has read.
#[derive(Clone, Copy, Debug, PartialEq, Eq, Structural)]
pub enum ScanVerdict {
    NoMatch,
    MatchedSignature(SignatureName),
}

/// The stage at which a scan went wrong.
#[derive(Clone, Copy, Debug, PartialEq, Eq, Structural)]
pub enum ScanError {
    AttachFailure,
    WaitFailure,
    MapReadFailure,
    DetachFailure,
}

/// What a wait on the traced process observed.
#[derive(Clone, Copy, Debug, PartialEq, Eq, Structural)]
pub enum WaitStatus {
    Stopped,
    Other,
}

/// Where a scan stands.
#[derive(Clone, Copy, Debug, PartialEq, Eq, Structural)]
pub enum Phase {
    Detached,
    Attaching,
    AttachedPendingStop,
    Stopped,
    Scanning,
    Detaching,
    Done,
}

/// What a scan has to show for itself: the verdict, once the walk over the
/// regions has ended, and the first failure met, if any. Both may be there:
/// a failed detach is recorded beside a verdict and does not undo it.
#[derive(Clone, Copy, Debug, PartialEq, Eq, Structural)]
pub struct ScanReport {
    pub verdict: Option<ScanVerdict>,
    pub error: Option<ScanError>,
}

/// What the driver reports to the scanner.
#[derive(Debug)]
pub enum ScanEvent {
    AttachRequested,
    AttachSucceeded,
    AttachFailed,
    Waited(WaitStatus),
    WaitFailed,
    /// The memory map and the memory image are open; the records of the map.
    Opened(Vec<String>),
    OpenFailed,
    /// The bytes of the region that was asked for.
    RegionRead(Vec<u8>),
    RegionUnreadable,
    DetachSucceeded,
    DetachFailed,
}

/// An event, with its payload as mathematical sequences.
pub enum ScanEventView {
    AttachRequested,
    AttachSucceeded,
    AttachFailed,
    Waited(WaitStatus),
    WaitFailed,
    Opened(Seq<Seq<char>>),
    OpenFailed,
    RegionRead(Seq<u8>),
    RegionUnreadable,
    DetachSucceeded,
    DetachFailed,
}

impl View for ScanEvent {
    type V = ScanEventView;

    open spec fn view(&self) -> ScanEventView {
        match self {
            ScanEvent::AttachRequested => ScanEventView::AttachRequested,
            ScanEvent::AttachSucceeded => ScanEventView::AttachSucceeded,
            ScanEvent::AttachFailed => ScanEventView::AttachFailed,
            ScanEvent::Waited(status) => ScanEventView::Waited(*status),
            ScanEvent::WaitFailed => ScanEventView::WaitFailed,
            ScanEvent::Opened(lines) => ScanEventView::Opened(lines.deep_view()),
            ScanEvent::OpenFailed => ScanEventView::OpenFailed,
            ScanEvent::RegionRead(data) => ScanEventView::RegionRead(data@),
            ScanEvent::RegionUnreadable => ScanEventView::RegionUnreadable,
            ScanEvent::DetachSucceeded => ScanEventView::DetachSucceeded,
            ScanEvent::DetachFailed => ScanEventView::DetachFailed,
        }
    }
}

/// What the scanner asks of its driver.
#[derive(Clone, Copy, Debug, PartialEq, Eq, Structural)]
pub enum ScanAction {
    /// Attach to the process.
    Attach { pid: i32 },
    /// Wait for the process to change state.
    Wait { pid: i32 },
    /// Open the memory map and the memory image of the process.
    Open { pid: i32 },
    /// Read exactly `len` bytes of the memory image, from address `start`.
    Read { start: u64, len: u64 },
    /// Detach from the process.
    Detach { pid: i32 },
    /// Nothing more: the scan is over, and this is its report.
    Finish { report: ScanReport },
}

/// The state of a scanner.
pub struct ScannerView {
    pub pid: i32,
    pub table: Seq<Signature>,
    pub phase: Phase,
    /// The regions to scan, in the order of their records.
    pub plan: Seq<MemoryRegion>,
    /// The place in `plan` of the region that was asked for.
    pub cursor: nat,
    pub report: ScanReport,
}

impl ScannerView {
    /// A scanner that has done nothing yet.
    pub open spec fn initial(pid: i32, table: Seq<Signature>) -> ScannerView {
        ScannerView {
            pid,
            table,
            phase: Phase::Detached,
            plan: Seq::empty(),
            cursor: 0,
            report: ScanReport { verdict: None, error: None },
        }
    }

    /// The phase and the report fit together. Before the walk over the
    /// regions has ended there is neither verdict nor failure. A scanner
    /// detaches either with a verdict or because the memory could not be
    /// opened. A finished scan has no verdict exactly when it failed to
    /// attach, to wait or to open; beside a verdict only a failed detach
    /// is ever recorded.
    pub open spec fn well_formed(self) -> bool {
        match self.phase {
            Phase::Detached | Phase::Attaching | Phase::AttachedPendingStop | Phase::Stopped => {
                self.report == ScanReport { verdict: None, error: None }
            },
            Phase::Scanning => {
                &&& self.report == ScanReport { verdict: None, error: None }
                &&& self.cursor < self.plan.len()
            },
            Phase::Detaching => {
                ||| self.report.verdict is Some && self.report.error is None
                ||| self.report == ScanReport {
                    verdict: None,
                    error: Some(ScanError::MapReadFailure),
                }
            },
            Phase::Done => match self.report.verdict {
                Some(_) => self.report.error is None || self.report.error == Some(
                    ScanError::DetachFailure,
                ),
                None => self.report.error is Some && self.report.error != Some(
                    ScanError::DetachFailure,
                ),
            },
        }
    }

    /// The request for region `k` of the plan.
    pub open spec fn read_of(self, k: int) -> ScanAction {
        ScanAction::Read { start: self.plan[k].start, len: self.plan[k].size() as u64 }
    }

    /// Moves on to `phase` and asks for `action`.
    pub open spec fn proceed(self, phase: Phase, action: ScanAction) -> (
        ScannerView,
        Option<ScanAction>,
    ) {
        (ScannerView { phase, ..self }, Some(action))
    }

    /// Ends the scan at once on the failure `error`, without detaching.
    pub open spec fn fail(self, error: ScanError) -> (ScannerView, Option<ScanAction>) {
        let report = ScanReport { verdict: self.report.verdict, error: Some(error) };
        (ScannerView { phase: Phase::Done, report, ..self }, Some(ScanAction::Finish { report }))
    }

    /// Ends the walk over the regions with `verdict`, and detaches.
    pub open spec fn conclude(self, verdict: ScanVerdict) -> (ScannerView, Option<ScanAction>) {
        let report = ScanReport { verdict: Some(verdict), error: self.report.error };
        (
            ScannerView { phase: Phase::Detaching, report, ..self },
            Some(ScanAction::Detach { pid: self.pid }),
        )
    }

    /// Turns to region `k` of the plan: asks for it if there is one, and
    /// concludes that nothing matched if the plan is exhausted.
    pub open spec fn turn_to(self, k: nat) -> (ScannerView, Option<ScanAction>) {
        if k < self.plan.len() {
            let next = ScannerView { phase: Phase::Scanning, cursor: k, ..self };
            (next, Some(next.read_of(k as int)))
        } else {
            self.conclude(ScanVerdict::NoMatch)
        }
    }

    /// Takes in the bytes `data` for the region that was asked for. Bytes
    /// that are not exactly as many as the region holds count as no bytes at
    /// all. The first signature of the table that is found ends the walk;
    /// if none is found, the walk turns to the next region.
    pub open spec fn examine(self, data: Seq<u8>) -> (ScannerView, Option<ScanAction>) {
        if self.cursor < self.plan.len() && data.len() == self.plan[self.cursor as int].size() {
            match first_found(data, self.table) {
                Some(i) => self.conclude(ScanVerdict::MatchedSignature(self.table[i].name)),
                None => self.turn_to(self.cursor + 1),
            }
        } else {
            self.turn_to(self.cursor + 1)
        }
    }

    /// Ends the scan after the detach, which failed if `failed`. A failed
    /// detach is recorded unless an earlier failure already is.
    pub open spec fn finish(self, failed: bool) -> (ScannerView, Option<ScanAction>) {
        let error = if failed && self.report.error is None {
            Some(ScanError::DetachFailure)
        } else {
            self.report.error
        };
        let report = ScanReport { verdict: self.report.verdict, error };
        (ScannerView { phase: Phase::Done, report, ..self }, Some(ScanAction::Finish { report }))
    }
}

/// The state that follows `s` on `event`, and what the scanner then asks
/// for. An event that the phase of `s` does not expect changes nothing and
/// asks for nothing.
pub open spec fn transition(s: ScannerView, event: ScanEventView) -> (
    ScannerView,
    Option<ScanAction>,
) {
    match (s.phase, event) {
        (Phase::Detached, ScanEventView::AttachRequested) => s.proceed(
            Phase::Attaching,
            ScanAction::Attach { pid: s.pid },
        ),
        (Phase::Attaching, ScanEventView::AttachSucceeded) => s.proceed(
            Phase::AttachedPendingStop,
            ScanAction::Wait { pid: s.pid },
        ),
        (Phase::Attaching, ScanEventView::AttachFailed) => s.fail(ScanError::AttachFailure),
        (Phase::AttachedPendingStop, ScanEventView::Waited(WaitStatus::Stopped)) => s.proceed(
            Phase::Stopped,
            ScanAction::Open { pid: s.pid },
        ),
        (Phase::AttachedPendingStop, ScanEventView::Waited(WaitStatus::Other)) => s.proceed(
            Phase::AttachedPendingStop,
            ScanAction::Wait { pid: s.pid },
        ),
        (Phase::AttachedPendingStop, ScanEventView::WaitFailed) => s.fail(ScanError::WaitFailure),
        (Phase::Stopped, ScanEventView::Opened(lines)) => (ScannerView {
            plan: scan_plan(lines),
            ..s
        }).turn_to(0),
        (Phase::Stopped, ScanEventView::OpenFailed) => (
            ScannerView {
                phase: Phase::Detaching,
                report: ScanReport {
                    verdict: s.report.verdict,
                    error: Some(ScanError::MapReadFailure),
                },
                ..s
            },
            Some(ScanAction::Detach { pid: s.pid }),
        ),
        (Phase::Scanning, ScanEventView::RegionRead(data)) => s.examine(data),
        (Phase::Scanning, ScanEventView::RegionUnreadable) => s.turn_to(s.cursor + 1),
        (Phase::Detaching, ScanEventView::DetachSucceeded) => s.finish(false),
        (Phase::Detaching, ScanEventView::DetachFailed) => s.finish(true),
        _ => (s, None),
    }
}

/// A scanner that has done nothing yet is well formed, and whatever is
/// reported to a well-formed scanner leaves it well formed. A scanner
/// that begins to detach asks for just that. A scan ends by handing out
/// its report, and it ends with a verdict only on the answer to a detach
/// request: whenever there is a verdict, a detach was attempted.
pub proof fn lemma_transition(s: ScannerView, event: ScanEventView)
    requires
        s.well_formed(),
    ensures
        ScannerView::initial(s.pid, s.table).well_formed(),
        transition(s, event).0.well_formed(),
        transition(s, event).0.pid == s.pid,
        transition(s, event).0.table == s.table,
        transition(s, event).0.phase == Phase::Detaching && s.phase != Phase::Detaching
            ==> transition(s, event).1 == Some(ScanAction::Detach { pid: s.pid }),
        transition(s, event).0.phase == Phase::Done && s.phase != Phase::Done ==> {
            &&& transition(s, event).1 == Some(
                ScanAction::Finish { report: transition(s, event).0.report },
            )
            &&& transition(s, event).0.report.verdict is Some ==> s.phase == Phase::Detaching
        },
{
}

/// A memory scanner for one process.
pub struct Scanner {
    pid: i32,
    table: Vec<Signature>,
    phase: Phase,
    plan: Vec<MemoryRegion>,
    cursor: usize,
    report: ScanReport,
}

impl View for Scanner {
    type V = ScannerView;

    closed spec fn view(&self) -> ScannerView {
        ScannerView {
            pid: self.pid,
            table: self.table@,
            phase: self.phase,
            plan: self.plan@,
            cursor: self.cursor as nat,
            report: self.report,
        }
    }
}

impl Scanner {
    /// A scanner for process `pid` that looks for the built-in signatures.
    pub fn new(pid: i32) -> (scanner: Scanner)
        ensures
            scanner@ == ScannerView::initial(pid, scanner@.table),
            is_known_table(scanner@.table),
    {
        Scanner::with_signatures(pid, known_signatures())
    }

    /// A scanner for process `pid` that looks for the signatures of `table`,
    /// in the order of the table.
    pub fn with_signatures(pid: i32, table: Vec<Signature>) -> (scanner: Scanner)
        ensures
            scanner@ == ScannerView::initial(pid, table@),
    {
        Scanner {
            pid,
            table,
            phase: Phase::Detached,
            plan: Vec::new(),
            cursor: 0,
            report: ScanReport { verdict: None, error: None },
        }
    }

    /// The process that this scanner is for.
    pub fn pid(&self) -> (pid: i32)
        ensures
            pid == self@.pid,
    {
        self.pid
    }

    /// Where the scan stands.
    pub fn phase(&self) -> (phase: Phase)
        ensures
            phase == self@.phase,
    {
        self.phase
    }

    /// What the scan has to show so far.
    pub fn report(&self) -> (report: ScanReport)
        ensures
            report == self@.report,
    {
        self.report
    }

    fn proceed(&mut self, phase: Phase, action: ScanAction) -> (asked: Option<ScanAction>)
        ensures
            (final(self)@, asked) == old(self)@.proceed(phase, action),
    {
        self.phase = phase;
        Some(action)
    }

    fn fail(&mut self, error: ScanError) -> (asked: Option<ScanAction>)
        ensures
            (final(self)@, asked) == old(self)@.fail(error),
    {
        self.phase = Phase::Done;
        self.report = ScanReport { verdict: self.report.verdict, error: Some(error) };
        Some(ScanAction::Finish { report: self.report })
    }

    fn conclude(&mut self, verdict: ScanVerdict) -> (asked: Option<ScanAction>)
        ensures
            (final(self)@, asked) == old(self)@.conclude(verdict),
    {
        self.phase = Phase::Detaching;
        self.report = ScanReport { verdict: Some(verdict), error: self.report.error };
        Some(ScanAction::Detach { pid: self.pid })
    }

    fn turn_to(&mut self, k: usize) -> (asked: Option<ScanAction>)
        ensures
            (final(self)@, asked) == old(self)@.turn_to(k as nat),
    {
        if k < self.plan.len() {
            self.phase = Phase::Scanning;
            self.cursor = k;
            let region = self.plan[k];
            Some(ScanAction::Read { start: region.start, len: region.len() })
        } else {
            self.conclude(ScanVerdict::NoMatch)
        }
    }

    fn turn_to_next(&mut self) -> (asked: Option<ScanAction>)
        ensures
            (final(self)@, asked) == old(self)@.turn_to(old(self)@.cursor + 1),
    {
        if self.cursor < self.plan.len() {
            self.turn_to(self.cursor + 1)
        } else {
            self.conclude(ScanVerdict::NoMatch)
        }
    }

    fn examine(&mut self, data: &Vec<u8>) -> (asked: Option<ScanAction>)
        ensures
            (final(self)@, asked) == old(self)@.examine(data@),
    {
        if self.cursor < self.plan.len() && data.len() as u64 == self.plan[self.cursor].len() {
            match find_signature(data.as_slice(), &self.table) {
                Some(i) => self.conclude(ScanVerdict::MatchedSignature(self.table[i].name)),
                None => self.turn_to_next(),
            }
        } else {
            self.turn_to_next()
        }
    }

    fn finish(&mut self, failed: bool) -> (asked: Option<ScanAction>)
        ensures
            (final(self)@, asked) == old(self)@.finish(failed),
    {
        let error = if failed && self.report.error.is_none() {
            Some(ScanError::DetachFailure)
        } else {
            self.report.error
        };
        self.phase = Phase::Done;
        self.report = ScanReport { verdict: self.report.verdict, error };
        Some(ScanAction::Finish { report: self.report })
    }

    /// Takes in `event` and answers with what the driver is to do next.
    /// An event that the scanner does not expect where it stands is
    /// ignored: the scanner stays as it is and asks for nothing.
    pub fn step(&mut self, event: ScanEvent) -> (asked: Option<ScanAction>)
        ensures
            (final(self)@, asked) == transition(old(self)@, event@),
    {
        let pid = self.pid;
        match (self.phase, event) {
            (Phase::Detached, ScanEvent::AttachRequested) => self.proceed(
                Phase::Attaching,
                ScanAction::Attach { pid },
            ),
            (Phase::Attaching, ScanEvent::AttachSucceeded) => self.proceed(
                Phase::AttachedPendingStop,
                ScanAction::Wait { pid },
            ),
            (Phase::Attaching, ScanEvent::AttachFailed) => self.fail(ScanError::AttachFailure),
            (Phase::AttachedPendingStop, ScanEvent::Waited(WaitStatus::Stopped)) => self.proceed(
                Phase::Stopped,
                ScanAction::Open { pid },
            ),
            (Phase::AttachedPendingStop, ScanEvent::Waited(WaitStatus::Other)) => self.proceed(
                Phase::AttachedPendingStop,
                ScanAction::Wait { pid },
            ),
            (Phase::AttachedPendingStop, ScanEvent::WaitFailed) => self.fail(
                ScanError::WaitFailure,
            ),
            (Phase::Stopped, ScanEvent::Opened(lines)) => {
                self.plan = plan_scan(&lines);
                self.turn_to(0)
            },
            (Phase::Stopped, ScanEvent::OpenFailed) => {
                self.phase = Phase::Detaching;
                self.report = ScanReport {
                    verdict: self.report.verdict,
                    error: Some(ScanError::MapReadFailure),
                };
                Some(ScanAction::Detach { pid })
            },
            (Phase::Scanning, ScanEvent::RegionRead(data)) => self.examine(&data),
            (Phase::Scanning, ScanEvent::RegionUnreadable) => self.turn_to_next(),
            (Phase::Detaching, ScanEvent::DetachSucceeded) => self.finish(false),
            (Phase::Detaching, ScanEvent::DetachFailed) => self.finish(true),
            _ => None,
        }
    }
}

} // verus!
