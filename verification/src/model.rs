//! What a scan comes to against a memory image that does not change.
//!
//! The image stands for the traced process while it is stopped. Letting the
//! scanner run against it, one answer after another, fixes the verdict and
//! the regions that are asked for; the laws below say what they are.

use crate::maps::{describes, lemma_scan_plan_members, scan_plan, MemoryRegion};
use crate::scanner::{
    transition, Phase, ScanAction, ScanEventView, ScanReport, ScanVerdict, ScannerView,
};
use crate::search::{first_found, lemma_first_found, pattern_found};
use crate::signature::{is_known_table, Signature, SignatureName};
use vstd::prelude::*;

verus! {

/// The memory of a stopped process: the byte at each address that can be
/// read. An address that cannot be read has no cell.
pub struct MemoryImage {
    pub cells: Map<int, u8>,
}

impl MemoryImage {
    /// Every address from `start` up to `start + len` can be read.
    pub open spec fn holds(self, start: int, len: int) -> bool {
        forall|a: int| start <= a < start + len ==> self.cells.contains_key(a)
    }

    /// The `len` bytes from address `start` on.
    pub open spec fn content(self, start: int, len: int) -> Seq<u8> {
        Seq::new(len as nat, |i: int| self.cells[start + i])
    }

    /// What a driver reports when it is asked for `len` bytes from `start`:
    /// the bytes if all of them can be read, and a failed read otherwise.
    pub open spec fn answer(self, start: int, len: int) -> ScanEventView {
        if self.holds(start, len) {
            ScanEventView::RegionRead(self.content(start, len))
        } else {
            ScanEventView::RegionUnreadable
        }
    }

    /// The first signature of `table` that is found in `region`, if the
    /// region can be read and holds one.
    pub open spec fn hit(self, region: MemoryRegion, table: Seq<Signature>) -> Option<int> {
        if self.holds(region.start as int, region.size()) {
            first_found(self.content(region.start as int, region.size()), table)
        } else {
            None
        }
    }
}

/// The place of the first region of `plan`, from `from` on, in which a
/// signature is found; the length of the plan if there is none.
pub open spec fn stop_index(
    plan: Seq<MemoryRegion>,
    table: Seq<Signature>,
    image: MemoryImage,
    from: int,
) -> int
    decreases plan.len() - from,
{
    if 0 <= from < plan.len() && image.hit(plan[from], table) is None {
        stop_index(plan, table, image, from + 1)
    } else {
        from
    }
}

/// The verdict of a walk over `plan` from `from` on.
pub open spec fn verdict_from(
    plan: Seq<MemoryRegion>,
    table: Seq<Signature>,
    image: MemoryImage,
    from: int,
) -> ScanVerdict {
    let k = stop_index(plan, table, image, from);
    if 0 <= k < plan.len() {
        ScanVerdict::MatchedSignature(table[image.hit(plan[k], table).unwrap()].name)
    } else {
        ScanVerdict::NoMatch
    }
}

/// The event with which `image` answers the request that `s` is waiting on.
pub open spec fn reply(s: ScannerView, image: MemoryImage) -> ScanEventView {
    let region = s.plan[s.cursor as int];
    image.answer(region.start as int, region.size())
}

/// The state in which the walk over the regions ends, when the scanner in
/// state `s` is answered from `image` until it stops asking for regions.
pub open spec fn run_scan(s: ScannerView, image: MemoryImage) -> ScannerView
    decreases s.plan.len() - s.cursor,
{
    if s.phase == Phase::Scanning && s.cursor < s.plan.len() {
        let next = transition(s, reply(s, image)).0;
        if next.phase == Phase::Scanning {
            run_scan(next, image)
        } else {
            next
        }
    } else {
        s
    }
}

/// What the scanner asks for, request by request, while it is answered
/// from `image` as in `run_scan`.
pub open spec fn asked_during(s: ScannerView, image: MemoryImage) -> Seq<ScanAction>
    decreases s.plan.len() - s.cursor,
{
    if s.phase == Phase::Scanning && s.cursor < s.plan.len() {
        let (next, asked) = transition(s, reply(s, image));
        if next.phase == Phase::Scanning {
            seq![asked.unwrap()] + asked_during(next, image)
        } else {
            seq![asked.unwrap()]
        }
    } else {
        Seq::empty()
    }
}

/// The requests for the regions of the plan of `s` from place `from` up to,
/// but not including, place `to`.
pub open spec fn reads(s: ScannerView, from: int, to: int) -> Seq<ScanAction> {
    Seq::new((to - from) as nat, |i: int| s.read_of(from + i))
}

/// The place in the plan after the last region that a walk from the cursor
/// of `s` asks for.
pub open spec fn walk_end(s: ScannerView, image: MemoryImage) -> int {
    let n = stop_index(s.plan, s.table, image, s.cursor as int);
    if n < s.plan.len() {
        n + 1
    } else {
        n
    }
}

/// The walk stops at or after the place where it starts, and no signature
/// is found in any region before the place where it stops.
pub proof fn lemma_stop_index(
    plan: Seq<MemoryRegion>,
    table: Seq<Signature>,
    image: MemoryImage,
    from: int,
)
    requires
        0 <= from <= plan.len(),
    ensures
        from <= stop_index(plan, table, image, from) <= plan.len(),
        stop_index(plan, table, image, from) < plan.len() ==> image.hit(
            plan[stop_index(plan, table, image, from)],
            table,
        ) is Some,
        forall|k: int|
            from <= k < stop_index(plan, table, image, from) ==> image.hit(
                #[trigger] plan[k],
                table,
            ) is None,
    decreases plan.len() - from,
{
    if from < plan.len() && image.hit(plan[from], table) is None {
        lemma_stop_index(plan, table, image, from + 1);
    }
}

/// A scanner that waits for a region, answered from `image`, goes through
/// the plan in order, stops at the first region in which a signature is
/// found, reports the first signature of the table that is found there, and
/// then asks to detach. If no region holds a signature it asks for every
/// region of the plan and reports that nothing matched.
pub proof fn lemma_run_scan(s: ScannerView, image: MemoryImage)
    requires
        s.phase == Phase::Scanning,
        s.cursor < s.plan.len(),
    ensures
        run_scan(s, image) == (ScannerView {
            phase: Phase::Detaching,
            report: ScanReport {
                verdict: Some(verdict_from(s.plan, s.table, image, s.cursor as int)),
                error: s.report.error,
            },
            cursor: (walk_end(s, image) - 1) as nat,
            ..s
        }),
        asked_during(s, image) == reads(s, s.cursor as int + 1, walk_end(s, image)) + seq![
            ScanAction::Detach { pid: s.pid },
        ],
    decreases s.plan.len() - s.cursor,
{
    let c = s.cursor as int;
    let region = s.plan[c];
    let next = transition(s, reply(s, image)).0;
    lemma_stop_index(s.plan, s.table, image, c);
    if image.hit(region, s.table) is None && c + 1 < s.plan.len() {
        lemma_run_scan(next, image);
        lemma_stop_index(s.plan, s.table, image, c + 1);
    }
}

/// The state in which the walk over the regions ends, when the stopped
/// scanner `s` is handed the records `lines` of the memory map and is then
/// answered from `image`.
pub open spec fn open_and_scan(
    s: ScannerView,
    lines: Seq<Seq<char>>,
    image: MemoryImage,
) -> ScannerView {
    run_scan(transition(s, ScanEventView::Opened(lines)).0, image)
}

/// What the scanner asks for, request by request, from the moment it is
/// handed the records `lines` until the walk over the regions has ended.
pub open spec fn asked_while_scanning(
    s: ScannerView,
    lines: Seq<Seq<char>>,
    image: MemoryImage,
) -> Seq<ScanAction> {
    let (opened, asked) = transition(s, ScanEventView::Opened(lines));
    seq![asked.unwrap()] + asked_during(opened, image)
}

/// The scanner `s` with the plan that the records `lines` give.
pub open spec fn planned(s: ScannerView, lines: Seq<Seq<char>>) -> ScannerView {
    ScannerView { plan: scan_plan(lines), cursor: 0, ..s }
}

/// A whole walk, in closed form: the plan is that of the records, the
/// verdict is that of the first region in which a signature is found, the
/// regions asked for are those of the plan up to and including that one,
/// in order, and the last thing asked for is to detach.
pub proof fn lemma_open_and_scan(s: ScannerView, lines: Seq<Seq<char>>, image: MemoryImage)
    requires
        s.phase == Phase::Stopped,
    ensures
        open_and_scan(s, lines, image).phase == Phase::Detaching,
        open_and_scan(s, lines, image).pid == s.pid,
        open_and_scan(s, lines, image).table == s.table,
        open_and_scan(s, lines, image).plan == scan_plan(lines),
        open_and_scan(s, lines, image).report == (ScanReport {
            verdict: Some(verdict_from(scan_plan(lines), s.table, image, 0)),
            error: s.report.error,
        }),
        asked_while_scanning(s, lines, image) == reads(
            planned(s, lines),
            0,
            walk_end(planned(s, lines), image),
        ) + seq![ScanAction::Detach { pid: s.pid }],
{
    let plan = scan_plan(lines);
    let opened = transition(s, ScanEventView::Opened(lines)).0;
    let p = planned(s, lines);
    lemma_stop_index(plan, s.table, image, 0);
    if plan.len() > 0 {
        lemma_run_scan(opened, image);
        assert(reads(p, 0, walk_end(p, image)) == seq![p.read_of(0)] + reads(
            opened,
            1,
            walk_end(p, image),
        ));
    }
}

/// `image` shows `pattern`: the pattern is found in a scannable region
/// that a record of `lines` describes and that can be read.
pub open spec fn shows(lines: Seq<Seq<char>>, image: MemoryImage, pattern: Seq<u8>) -> bool {
    exists|region: MemoryRegion|
        {
            &&& #[trigger] describes(lines, region)
            &&& region.is_scannable()
            &&& image.holds(region.start as int, region.size())
            &&& pattern_found(image.content(region.start as int, region.size()), pattern)
        }
}

/// Where the walk stops, a signature is found, and the image shows it.
proof fn lemma_stop_is_shown(
    lines: Seq<Seq<char>>,
    table: Seq<Signature>,
    image: MemoryImage,
)
    ensures
        ({
            let plan = scan_plan(lines);
            let n = stop_index(plan, table, image, 0);
            n < plan.len() ==> {
                &&& image.hit(plan[n], table) matches Some(i)
                &&& 0 <= i < table.len()
                &&& shows(lines, image, table[i].pattern@)
            }
        }),
{
    let plan = scan_plan(lines);
    let n = stop_index(plan, table, image, 0);
    lemma_stop_index(plan, table, image, 0);
    if n < plan.len() {
        let region = plan[n];
        lemma_first_found(image.content(region.start as int, region.size()), table);
        lemma_scan_plan_members(lines);
        assert(plan.contains(region));
    }
}

/// If the image shows some signature of the table, the walk stops early.
proof fn lemma_shown_stops(
    lines: Seq<Seq<char>>,
    table: Seq<Signature>,
    image: MemoryImage,
    i: int,
)
    requires
        0 <= i < table.len(),
        shows(lines, image, table[i].pattern@),
    ensures
        stop_index(scan_plan(lines), table, image, 0) < scan_plan(lines).len(),
{
    let plan = scan_plan(lines);
    lemma_stop_index(plan, table, image, 0);
    lemma_scan_plan_members(lines);
    let pattern = table[i].pattern@;
    let region = choose|region: MemoryRegion|
        {
            &&& #[trigger] describes(lines, region)
            &&& region.is_scannable()
            &&& image.holds(region.start as int, region.size())
            &&& pattern_found(image.content(region.start as int, region.size()), pattern)
        };
    assert(plan.contains(region));
    lemma_first_found(image.content(region.start as int, region.size()), table);
}

/// If the image shows one signature of the table and no other, the
/// verdict names that signature, wherever in a readable region it lies.
pub proof fn lemma_only_one_shown(
    s: ScannerView,
    lines: Seq<Seq<char>>,
    image: MemoryImage,
    i: int,
)
    requires
        s.phase == Phase::Stopped,
        0 <= i < s.table.len(),
        shows(lines, image, s.table[i].pattern@),
        forall|j: int|
            0 <= j < s.table.len() && s.table[j].name != s.table[i].name ==> !shows(
                lines,
                image,
                #[trigger] s.table[j].pattern@,
            ),
    ensures
        open_and_scan(s, lines, image).report.verdict == Some(
            ScanVerdict::MatchedSignature(s.table[i].name),
        ),
{
    lemma_open_and_scan(s, lines, image);
    lemma_shown_stops(lines, s.table, image, i);
    lemma_stop_is_shown(lines, s.table, image);
    lemma_stop_index(scan_plan(lines), s.table, image, 0);
}

/// With the built-in table: if the image shows the first signature and
/// not the second, the verdict names the first.
pub proof fn lemma_only_s1_shown(s: ScannerView, lines: Seq<Seq<char>>, image: MemoryImage)
    requires
        s.phase == Phase::Stopped,
        is_known_table(s.table),
        shows(lines, image, s.table[0].pattern@),
        !shows(lines, image, s.table[1].pattern@),
    ensures
        open_and_scan(s, lines, image).report.verdict == Some(
            ScanVerdict::MatchedSignature(SignatureName::S1),
        ),
{
    lemma_only_one_shown(s, lines, image, 0);
}

/// With the built-in table: if the image shows the second signature and
/// not the first, the verdict names the second.
pub proof fn lemma_only_s2_shown(s: ScannerView, lines: Seq<Seq<char>>, image: MemoryImage)
    requires
        s.phase == Phase::Stopped,
        is_known_table(s.table),
        !shows(lines, image, s.table[0].pattern@),
        shows(lines, image, s.table[1].pattern@),
    ensures
        open_and_scan(s, lines, image).report.verdict == Some(
            ScanVerdict::MatchedSignature(SignatureName::S2),
        ),
{
    lemma_only_one_shown(s, lines, image, 1);
}

/// If the image shows no signature of the table, nothing matches, and the
/// scanner has asked for every region of the plan, in order, before it
/// asks to detach.
pub proof fn lemma_nothing_shown(s: ScannerView, lines: Seq<Seq<char>>, image: MemoryImage)
    requires
        s.phase == Phase::Stopped,
        forall|j: int|
            0 <= j < s.table.len() ==> !shows(lines, image, #[trigger] s.table[j].pattern@),
    ensures
        open_and_scan(s, lines, image).report.verdict == Some(ScanVerdict::NoMatch),
        asked_while_scanning(s, lines, image) == reads(
            planned(s, lines),
            0,
            scan_plan(lines).len() as int,
        ) + seq![ScanAction::Detach { pid: s.pid }],
{
    lemma_open_and_scan(s, lines, image);
    lemma_stop_is_shown(lines, s.table, image);
    lemma_stop_index(scan_plan(lines), s.table, image, 0);
}

/// Whatever the image holds, the scanner asks only for regions that a
/// record describes as readable and not empty, each by its start and its
/// size, and for nothing else but to detach. A region without read
/// permission is never asked for, and so never searched.
pub proof fn lemma_only_scannable_asked(
    s: ScannerView,
    lines: Seq<Seq<char>>,
    image: MemoryImage,
    k: int,
)
    requires
        s.phase == Phase::Stopped,
        0 <= k < asked_while_scanning(s, lines, image).len(),
    ensures
        ({
            let asked = asked_while_scanning(s, lines, image)[k];
            ||| asked == ScanAction::Detach { pid: s.pid }
            ||| exists|region: MemoryRegion|
                {
                    &&& #[trigger] describes(lines, region)
                    &&& region.perms.read
                    &&& region.is_valid()
                    &&& asked == ScanAction::Read {
                        start: region.start,
                        len: region.size() as u64,
                    }
                }
        }),
{
    lemma_open_and_scan(s, lines, image);
    lemma_scan_plan_members(lines);
    let plan = scan_plan(lines);
    lemma_stop_index(plan, s.table, image, 0);
    if k < walk_end(planned(s, lines), image) {
        assert(plan.contains(plan[k]));
    }
}

/// A failed read does not end the scan. The scanner turns to the next
/// region of the plan, and the verdict of the walk is that of the walk
/// over the regions that follow: a signature in a later region is found.
pub proof fn lemma_failed_read_is_skipped(s: ScannerView, image: MemoryImage)
    requires
        s.phase == Phase::Scanning,
        s.cursor < s.plan.len(),
        reply(s, image) == ScanEventView::RegionUnreadable,
    ensures
        transition(s, reply(s, image)) == s.turn_to(s.cursor + 1),
        s.cursor + 1 < s.plan.len() ==> transition(s, reply(s, image)).1 == Some(
            s.read_of(s.cursor as int + 1),
        ),
        run_scan(s, image).report.verdict == Some(
            verdict_from(s.plan, s.table, image, s.cursor as int + 1),
        ),
{
    lemma_run_scan(s, image);
}

/// Two images agree on region `region` when they hold the same readable
/// addresses in it, with the same bytes.
pub open spec fn agree_on(a: MemoryImage, b: MemoryImage, region: MemoryRegion) -> bool {
    forall|x: int|
        region.start <= x < region.start + region.size() ==> {
            &&& #[trigger] a.cells.contains_key(x) == b.cells.contains_key(x)
            &&& a.cells.contains_key(x) ==> a.cells[x] == b.cells[x]
        }
}

/// The walk stops at the same place against two images that agree on the
/// regions of the plan.
proof fn lemma_same_stop(
    plan: Seq<MemoryRegion>,
    table: Seq<Signature>,
    a: MemoryImage,
    b: MemoryImage,
    from: int,
)
    requires
        0 <= from <= plan.len(),
        forall|k: int| 0 <= k < plan.len() ==> agree_on(a, b, #[trigger] plan[k]),
    ensures
        forall|k: int| 0 <= k < plan.len() ==> a.hit(#[trigger] plan[k], table) == b.hit(
            plan[k],
            table,
        ),
        stop_index(plan, table, a, from) == stop_index(plan, table, b, from),
    decreases plan.len() - from,
{
    assert forall|k: int| 0 <= k < plan.len() implies a.hit(#[trigger] plan[k], table) == b.hit(
        plan[k],
        table,
    ) by {
        let region = plan[k];
        let start = region.start as int;
        let len = region.size();
        assert(a.holds(start, len) == b.holds(start, len)) by {
            assert forall|x: int| start <= x < start + len implies a.cells.contains_key(x)
                == b.cells.contains_key(x) by {}
        }
        if a.holds(start, len) {
            assert forall|i: int| 0 <= i < len implies a.content(start, len)[i] == b.content(
                start,
                len,
            )[i] by {
                assert(a.cells.contains_key(start + i));
            }
            assert(a.content(start, len) =~= b.content(start, len));
        }
    }
    if from < plan.len() {
        lemma_same_stop(plan, table, a, b, from + 1);
    }
}

/// A scan depends on the memory of the process only through the regions
/// of the plan. Against a memory that has not changed there, a second scan
/// asks for the same regions and ends with the same report, and so with
/// the same verdict.
pub proof fn lemma_same_memory_same_scan(
    s: ScannerView,
    lines: Seq<Seq<char>>,
    a: MemoryImage,
    b: MemoryImage,
)
    requires
        s.phase == Phase::Stopped,
        forall|k: int|
            0 <= k < scan_plan(lines).len() ==> agree_on(a, b, #[trigger] scan_plan(lines)[k]),
    ensures
        open_and_scan(s, lines, a).report == open_and_scan(s, lines, b).report,
        asked_while_scanning(s, lines, a) == asked_while_scanning(s, lines, b),
{
    lemma_open_and_scan(s, lines, a);
    lemma_open_and_scan(s, lines, b);
    lemma_same_stop(scan_plan(lines), s.table, a, b, 0);
    lemma_stop_index(scan_plan(lines), s.table, a, 0);
}

} // verus!
