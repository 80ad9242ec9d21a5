use jmd_linux::run::{begin, exit_status, scan_error_line, select_error_line, verdict_line};
use jmd_linux::scanner::{
    Phase, ScanAction, ScanError, ScanEvent, ScanReport, ScanVerdict, Scanner, WaitStatus,
};
use jmd_linux::select::{ProcessInfo, SelectError};
use jmd_linux::signature::{Signature, SignatureName};

const S1: [u8; 16] = [153, 30, 224, 252, 249, 17, 0, 0, 0, 0, 0, 0, 0, 0, 0, 0];
const S2: [u8; 16] = [153, 30, 224, 252, 249, 1, 0, 0, 0, 0, 0, 0, 0, 0, 0, 0];

const S1_FOUND: ScanVerdict = ScanVerdict::MatchedSignature(SignatureName::S1);
const S2_FOUND: ScanVerdict = ScanVerdict::MatchedSignature(SignatureName::S2);

/// A stand-in for a stopped process: its memory map, the bytes behind some
/// of its addresses, and a record of every read that was asked for.
struct Target {
    map: Vec<String>,
    segments: Vec<(u64, Vec<u8>)>,
    broken: Vec<u64>,
    reads: Vec<(u64, u64)>,
    detaches: u32,
    detach_fails: bool,
}

impl Target {
    fn new(map: &[&str]) -> Target {
        Target {
            map: map.iter().map(|l| l.to_string()).collect(),
            segments: Vec::new(),
            broken: Vec::new(),
            reads: Vec::new(),
            detaches: 0,
            detach_fails: false,
        }
    }

    fn with(mut self, start: u64, bytes: Vec<u8>) -> Target {
        self.segments.push((start, bytes));
        self
    }

    fn with_broken(mut self, start: u64) -> Target {
        self.broken.push(start);
        self
    }

    fn read(&mut self, start: u64, len: u64) -> ScanEvent {
        self.reads.push((start, len));
        if self.broken.contains(&start) {
            return ScanEvent::RegionUnreadable;
        }
        for (base, bytes) in &self.segments {
            let end = *base + bytes.len() as u64;
            if *base <= start && start + len <= end {
                let from = (start - *base) as usize;
                return ScanEvent::RegionRead(bytes[from..from + len as usize].to_vec());
            }
        }
        ScanEvent::RegionUnreadable
    }

    /// Answers the scanner until it has finished, as a driver would.
    fn drive(&mut self, scanner: &mut Scanner, first: ScanAction) -> ScanReport {
        let mut action = first;
        for _ in 0..10_000 {
            let event = match action {
                ScanAction::Attach { .. } => ScanEvent::AttachSucceeded,
                ScanAction::Wait { .. } => ScanEvent::Waited(WaitStatus::Stopped),
                ScanAction::Open { .. } => ScanEvent::Opened(self.map.clone()),
                ScanAction::Read { start, len } => self.read(start, len),
                ScanAction::Detach { .. } => {
                    self.detaches += 1;
                    if self.detach_fails {
                        ScanEvent::DetachFailed
                    } else {
                        ScanEvent::DetachSucceeded
                    }
                }
                ScanAction::Finish { report } => return report,
            };
            action = scanner.step(event).expect("the scanner expects the answer to its request");
        }
        panic!("the scan did not end");
    }

    fn scan(&mut self) -> ScanReport {
        let mut scanner = Scanner::new(4242);
        let first = scanner.step(ScanEvent::AttachRequested).unwrap();
        let report = self.drive(&mut scanner, first);
        assert_eq!(scanner.phase(), Phase::Done);
        assert_eq!(scanner.report(), report);
        report
    }
}

fn padded(len: usize, at: usize, pattern: &[u8]) -> Vec<u8> {
    let mut data = vec![0x5au8; len];
    data[at..at + pattern.len()].copy_from_slice(pattern);
    data
}

fn found(verdict: ScanVerdict) -> ScanReport {
    ScanReport { verdict: Some(verdict), error: None }
}

fn failed(error: ScanError) -> ScanReport {
    ScanReport { verdict: None, error: Some(error) }
}

#[test]
fn new_scanner_is_detached() {
    let scanner = Scanner::new(77);
    assert_eq!(scanner.pid(), 77);
    assert_eq!(scanner.phase(), Phase::Detached);
    assert_eq!(scanner.report(), ScanReport { verdict: None, error: None });
}

#[test]
fn scan_goes_through_its_phases_in_order() {
    let mut scanner = Scanner::new(5);
    assert_eq!(scanner.step(ScanEvent::AttachRequested), Some(ScanAction::Attach { pid: 5 }));
    assert_eq!(scanner.phase(), Phase::Attaching);
    assert_eq!(scanner.step(ScanEvent::AttachSucceeded), Some(ScanAction::Wait { pid: 5 }));
    assert_eq!(scanner.phase(), Phase::AttachedPendingStop);
    assert_eq!(
        scanner.step(ScanEvent::Waited(WaitStatus::Stopped)),
        Some(ScanAction::Open { pid: 5 })
    );
    assert_eq!(scanner.phase(), Phase::Stopped);
    let map = vec!["1000-1020 r--p".to_string(), "3000-3010 rw-p".to_string()];
    assert_eq!(
        scanner.step(ScanEvent::Opened(map)),
        Some(ScanAction::Read { start: 0x1000, len: 0x20 })
    );
    assert_eq!(scanner.phase(), Phase::Scanning);
    assert_eq!(
        scanner.step(ScanEvent::RegionRead(vec![0; 0x20])),
        Some(ScanAction::Read { start: 0x3000, len: 0x10 })
    );
    assert_eq!(scanner.phase(), Phase::Scanning);
    assert_eq!(
        scanner.step(ScanEvent::RegionRead(vec![0; 0x10])),
        Some(ScanAction::Detach { pid: 5 })
    );
    assert_eq!(scanner.phase(), Phase::Detaching);
    assert_eq!(
        scanner.step(ScanEvent::DetachSucceeded),
        Some(ScanAction::Finish { report: found(ScanVerdict::NoMatch) })
    );
    assert_eq!(scanner.phase(), Phase::Done);
}

#[test]
fn attach_failure_ends_the_scan() {
    let mut scanner = Scanner::new(5);
    scanner.step(ScanEvent::AttachRequested);
    assert_eq!(
        scanner.step(ScanEvent::AttachFailed),
        Some(ScanAction::Finish { report: failed(ScanError::AttachFailure) })
    );
    assert_eq!(scanner.phase(), Phase::Done);
    assert_eq!(scanner.report(), failed(ScanError::AttachFailure));
}

#[test]
fn other_wait_statuses_cause_another_wait() {
    let mut scanner = Scanner::new(5);
    scanner.step(ScanEvent::AttachRequested);
    scanner.step(ScanEvent::AttachSucceeded);
    for _ in 0..50 {
        assert_eq!(
            scanner.step(ScanEvent::Waited(WaitStatus::Other)),
            Some(ScanAction::Wait { pid: 5 })
        );
        assert_eq!(scanner.phase(), Phase::AttachedPendingStop);
    }
    assert_eq!(
        scanner.step(ScanEvent::Waited(WaitStatus::Stopped)),
        Some(ScanAction::Open { pid: 5 })
    );
}

#[test]
fn wait_failure_ends_the_scan_without_detaching() {
    let mut scanner = Scanner::new(5);
    scanner.step(ScanEvent::AttachRequested);
    scanner.step(ScanEvent::AttachSucceeded);
    scanner.step(ScanEvent::Waited(WaitStatus::Other));
    assert_eq!(
        scanner.step(ScanEvent::WaitFailed),
        Some(ScanAction::Finish { report: failed(ScanError::WaitFailure) })
    );
    assert_eq!(scanner.phase(), Phase::Done);
    assert_eq!(scanner.step(ScanEvent::DetachSucceeded), None);
}

#[test]
fn open_failure_detaches_and_reports_the_failure() {
    let mut scanner = Scanner::new(5);
    scanner.step(ScanEvent::AttachRequested);
    scanner.step(ScanEvent::AttachSucceeded);
    scanner.step(ScanEvent::Waited(WaitStatus::Stopped));
    assert_eq!(scanner.step(ScanEvent::OpenFailed), Some(ScanAction::Detach { pid: 5 }));
    assert_eq!(scanner.phase(), Phase::Detaching);
    assert_eq!(
        scanner.step(ScanEvent::DetachSucceeded),
        Some(ScanAction::Finish { report: failed(ScanError::MapReadFailure) })
    );
}

#[test]
fn open_failure_outranks_a_failed_detach() {
    let mut scanner = Scanner::new(5);
    scanner.step(ScanEvent::AttachRequested);
    scanner.step(ScanEvent::AttachSucceeded);
    scanner.step(ScanEvent::Waited(WaitStatus::Stopped));
    scanner.step(ScanEvent::OpenFailed);
    assert_eq!(
        scanner.step(ScanEvent::DetachFailed),
        Some(ScanAction::Finish { report: failed(ScanError::MapReadFailure) })
    );
}

#[test]
fn detach_failure_is_reported_beside_the_verdict() {
    let mut target = Target::new(&["1000-1040 r--p"]).with(0x1000, padded(0x40, 9, &S1));
    target.detach_fails = true;
    let report = target.scan();
    assert_eq!(
        report,
        ScanReport { verdict: Some(S1_FOUND), error: Some(ScanError::DetachFailure) }
    );
    assert_eq!(target.detaches, 1);
    assert_eq!(exit_status(Ok(report)), 0);
}

#[test]
fn unexpected_events_are_ignored() {
    let mut scanner = Scanner::new(5);
    assert_eq!(scanner.step(ScanEvent::AttachSucceeded), None);
    assert_eq!(scanner.step(ScanEvent::Opened(vec!["1000-2000 r--p".to_string()])), None);
    assert_eq!(scanner.step(ScanEvent::RegionRead(S1.to_vec())), None);
    assert_eq!(scanner.step(ScanEvent::DetachFailed), None);
    assert_eq!(scanner.phase(), Phase::Detached);
    assert_eq!(scanner.report(), ScanReport { verdict: None, error: None });
    scanner.step(ScanEvent::AttachRequested);
    assert_eq!(scanner.step(ScanEvent::AttachRequested), None);
    assert_eq!(scanner.step(ScanEvent::Waited(WaitStatus::Stopped)), None);
    assert_eq!(scanner.phase(), Phase::Attaching);
}

#[test]
fn finished_scanner_stays_finished() {
    let mut target = Target::new(&[]);
    let mut scanner = Scanner::new(1);
    let first = scanner.step(ScanEvent::AttachRequested).unwrap();
    let report = target.drive(&mut scanner, first);
    assert_eq!(report, found(ScanVerdict::NoMatch));
    assert_eq!(scanner.step(ScanEvent::AttachRequested), None);
    assert_eq!(scanner.step(ScanEvent::DetachSucceeded), None);
    assert_eq!(scanner.step(ScanEvent::RegionUnreadable), None);
    assert_eq!(scanner.phase(), Phase::Done);
    assert_eq!(scanner.report(), report);
}

#[test]
fn s1_alone_is_reported_at_any_offset() {
    for at in [0usize, 1, 5, 16, 33, 0x1000 - 16] {
        let mut target = Target::new(&["400000-401000 r-xp 0 0 0 /usr/bin/java"])
            .with(0x400000, padded(0x1000, at, &S1));
        assert_eq!(target.scan(), found(S1_FOUND), "offset {}", at);
    }
}

#[test]
fn s2_alone_is_reported() {
    let mut target = Target::new(&["400000-401000 r-xp", "7f0000-7f2000 rw-p"])
        .with(0x400000, vec![0; 0x1000])
        .with(0x7f0000, padded(0x2000, 0x1234, &S2));
    assert_eq!(target.scan(), found(S2_FOUND));
}

#[test]
fn neither_signature_means_no_match_and_every_region_is_read() {
    let mut target = Target::new(&[
        "400000-401000 r-xp",
        "500000-500800 r--p",
        "600000-600010 rw-s",
    ])
    .with(0x400000, vec![1; 0x1000])
    .with(0x500000, S1[..15].to_vec().repeat(0x80))
    .with(0x600000, vec![0; 0x10]);
    assert_eq!(target.scan(), found(ScanVerdict::NoMatch));
    assert_eq!(target.reads, vec![(0x400000, 0x1000), (0x500000, 0x800), (0x600000, 0x10)]);
    assert_eq!(target.detaches, 1);
}

#[test]
fn region_without_read_permission_is_never_read() {
    let mut target = Target::new(&["400000-401000 -wxp", "500000-501000 ---s"])
        .with(0x400000, padded(0x1000, 7, &S1))
        .with(0x500000, padded(0x1000, 7, &S2));
    assert_eq!(target.scan(), found(ScanVerdict::NoMatch));
    assert_eq!(target.reads, Vec::new());
}

#[test]
fn empty_and_malformed_records_are_never_read() {
    let mut target = Target::new(&[
        "400000-400000 r--p",
        "500000-400000 r--p",
        "what is this",
        "600000 r--p",
        "",
        "700000-700020 r--p",
    ])
    .with(0x400000, padded(0x1000, 0, &S1))
    .with(0x700000, vec![0; 0x20]);
    assert_eq!(target.scan(), found(ScanVerdict::NoMatch));
    assert_eq!(target.reads, vec![(0x700000, 0x20)]);
}

#[test]
fn failed_read_does_not_end_the_scan() {
    let mut target = Target::new(&["400000-401000 r--p", "500000-501000 r--p", "600000-601000 r--p"])
        .with(0x400000, padded(0x1000, 64, &S1))
        .with_broken(0x400000)
        .with(0x600000, padded(0x1000, 64, &S2));
    assert_eq!(target.scan(), found(S2_FOUND));
    assert_eq!(target.reads, vec![(0x400000, 0x1000), (0x500000, 0x1000), (0x600000, 0x1000)]);
}

#[test]
fn short_read_counts_as_a_failed_read() {
    let mut scanner = Scanner::new(5);
    scanner.step(ScanEvent::AttachRequested);
    scanner.step(ScanEvent::AttachSucceeded);
    scanner.step(ScanEvent::Waited(WaitStatus::Stopped));
    let map = vec!["1000-1040 r--p".to_string(), "2000-2040 r--p".to_string()];
    scanner.step(ScanEvent::Opened(map));
    assert_eq!(
        scanner.step(ScanEvent::RegionRead(padded(0x3f, 3, &S1))),
        Some(ScanAction::Read { start: 0x2000, len: 0x40 })
    );
    assert_eq!(
        scanner.step(ScanEvent::RegionRead(padded(0x41, 3, &S1))),
        Some(ScanAction::Detach { pid: 5 })
    );
    assert_eq!(scanner.report(), found(ScanVerdict::NoMatch));
}

#[test]
fn scan_stops_at_the_first_region_with_a_signature() {
    let mut target = Target::new(&["400000-401000 r--p", "500000-501000 r--p", "600000-601000 r--p"])
        .with(0x400000, vec![0; 0x1000])
        .with(0x500000, padded(0x1000, 100, &S2))
        .with(0x600000, padded(0x1000, 100, &S1));
    assert_eq!(target.scan(), found(S2_FOUND));
    assert_eq!(target.reads, vec![(0x400000, 0x1000), (0x500000, 0x1000)]);
}

#[test]
fn region_with_both_signatures_reports_s1() {
    let mut data = padded(0x1000, 10, &S2);
    data[0x800..0x810].copy_from_slice(&S1);
    let mut target = Target::new(&["400000-401000 r--p"]).with(0x400000, data);
    assert_eq!(target.scan(), found(S1_FOUND));
}

#[test]
fn regions_are_read_in_the_order_of_the_map_not_of_their_addresses() {
    let mut target = Target::new(&["600000-601000 r--p", "400000-401000 r--p"])
        .with(0x400000, padded(0x1000, 0, &S1))
        .with(0x600000, padded(0x1000, 0, &S2));
    assert_eq!(target.scan(), found(S2_FOUND));
    assert_eq!(target.reads, vec![(0x600000, 0x1000)]);
}

#[test]
fn second_scan_of_the_same_memory_gives_the_same_verdict() {
    let mut target = Target::new(&["400000-401000 r--p", "500000-501000 r--p"])
        .with(0x400000, vec![3; 0x1000])
        .with_broken(0x400000)
        .with(0x500000, padded(0x1000, 555, &S2));
    let first = target.scan();
    let reads = target.reads.clone();
    target.reads.clear();
    let second = target.scan();
    assert_eq!(first, found(S2_FOUND));
    assert_eq!(second, first);
    assert_eq!(target.reads, reads);
}

#[test]
fn unreadable_region_with_s1_then_readable_region_with_s2() {
    let mut target = Target::new(&["400000-401000 --xp", "500000-501000 r--p"])
        .with(0x400000, padded(0x1000, 40, &S1))
        .with(0x500000, padded(0x1000, 40, &S2));
    assert_eq!(target.scan(), found(S2_FOUND));
    assert_eq!(target.reads, vec![(0x500000, 0x1000)]);
}

#[test]
fn scanner_looks_for_the_signatures_it_is_given() {
    let table = vec![
        Signature { name: SignatureName::S2, pattern: vec![0xde, 0xad] },
        Signature { name: SignatureName::S1, pattern: vec![0xbe, 0xef] },
    ];
    let mut scanner = Scanner::with_signatures(9, table);
    let first = scanner.step(ScanEvent::AttachRequested).unwrap();
    let mut target =
        Target::new(&["1000-1008 r--p"]).with(0x1000, vec![0, 0xbe, 0xef, 0, 0xde, 0xad, 0, 0]);
    assert_eq!(target.drive(&mut scanner, first), found(S2_FOUND));
}

#[test]
fn run_begins_by_attaching_to_the_selected_process() {
    let procs = vec![
        ProcessInfo { pid: 7, name: Some("java".to_string()), cmdline: None, rss_pages: Some(10) },
        ProcessInfo { pid: 8, name: Some("java".to_string()), cmdline: None, rss_pages: Some(90) },
    ];
    let (scanner, asked) = begin(Some(&procs)).unwrap();
    assert_eq!(asked, ScanAction::Attach { pid: 8 });
    assert_eq!(scanner.pid(), 8);
    assert_eq!(scanner.phase(), Phase::Attaching);
}

#[test]
fn run_without_a_target_scans_nothing() {
    let procs = vec![ProcessInfo {
        pid: 7,
        name: Some("bash".to_string()),
        cmdline: Some(vec!["-bash".to_string()]),
        rss_pages: Some(10),
    }];
    assert_eq!(begin(Some(&procs)).err(), Some(SelectError::NotFound));
    assert_eq!(begin(None).err(), Some(SelectError::EnumerationFailure));
}

#[test]
fn verdicts_have_their_lines() {
    assert_eq!(verdict_line(S1_FOUND), "[+] Injection detected (#S1).");
    assert_eq!(verdict_line(S2_FOUND), "[+] Injection detected (#S2).");
    assert_eq!(
        verdict_line(ScanVerdict::NoMatch),
        "[-] No suspicious manipulations with JVM detected."
    );
}

#[test]
fn failures_have_their_lines() {
    assert_eq!(select_error_line(SelectError::NotFound), "No Java processes found");
    assert_eq!(
        select_error_line(SelectError::EnumerationFailure),
        "Failed to list the processes"
    );
    assert_eq!(scan_error_line(ScanError::AttachFailure), "Failed to attach to the process");
    assert_eq!(
        scan_error_line(ScanError::WaitFailure),
        "Failed to wait for the process to stop"
    );
    assert_eq!(
        scan_error_line(ScanError::MapReadFailure),
        "Failed to open the memory of the process"
    );
    assert_eq!(scan_error_line(ScanError::DetachFailure), "Failed to detach from the process");
}

#[test]
fn exit_status_is_nonzero_on_fatal_errors_only() {
    assert_eq!(exit_status(Err(SelectError::NotFound)), 1);
    assert_eq!(exit_status(Err(SelectError::EnumerationFailure)), 1);
    assert_eq!(exit_status(Ok(failed(ScanError::AttachFailure))), 1);
    assert_eq!(exit_status(Ok(failed(ScanError::WaitFailure))), 1);
    assert_eq!(exit_status(Ok(failed(ScanError::MapReadFailure))), 1);
    assert_eq!(exit_status(Ok(found(ScanVerdict::NoMatch))), 0);
    assert_eq!(exit_status(Ok(found(S1_FOUND))), 0);
    assert_eq!(exit_status(Ok(found(S2_FOUND))), 0);
    assert_eq!(
        exit_status(Ok(ScanReport {
            verdict: Some(ScanVerdict::NoMatch),
            error: Some(ScanError::DetachFailure)
        })),
        0
    );
}
