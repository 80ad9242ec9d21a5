//! Choosing the process to inspect.
//!
//! A process qualifies when its name, or the first argument of its command
//! line, contains the text `java`. Among the processes that qualify and
//! whose resident size is known, the one with the largest resident size is
//! selected; of several equally large ones, the one listed last.

use crate::text::{occurs_in, str_contains};
use vstd::prelude::*;

verus! {

/// The number of bytes in a page of resident memory.
pub const PAGE_BYTES: u64 = 4096;

/// What is known of a running process. A field that could not be read is
/// `None`; that is no information, not an error.
#[derive(Debug)]
pub struct ProcessInfo {
    pub pid: i32,
    pub name: Option<String>,
    pub cmdline: Option<Vec<String>>,
    /// The resident set size, in pages.
    pub rss_pages: Option<u64>,
}

/// A process that qualifies, with the size by which it is ranked.
#[derive(Clone, Copy, Debug, PartialEq, Eq, Structural)]
pub struct ProcessCandidate {
    pub pid: i32,
    pub resident_bytes: u64,
}

/// Why no process was selected.
#[derive(Clone, Copy, Debug, PartialEq, Eq, Structural)]
pub enum SelectError {
    /// No process qualifies.
    NotFound,
    /// The processes could not be listed at all.
    EnumerationFailure,
}

/// The text that marks a Java process.
pub open spec fn java_marker() -> Seq<char> {
    seq!['j', 'a', 'v', 'a']
}

/// `text` contains the marker, in exactly this case, anywhere.
pub open spec fn mentions_java(text: Seq<char>) -> bool {
    occurs_in(text, java_marker())
}

impl ProcessInfo {
    /// The process qualifies: its name mentions Java, or the first
    /// argument of its command line does.
    pub open spec fn qualifies(&self) -> bool {
        ||| self.name matches Some(name) && mentions_java(name@)
        ||| self.cmdline matches Some(args) && args@.len() > 0 && mentions_java(args@[0]@)
    }

    /// The resident size of the process, in bytes, fits in 64 bits.
    pub open spec fn size_fits(&self) -> bool {
        self.rss_pages matches Some(pages) ==> pages * PAGE_BYTES <= u64::MAX
    }

    /// The candidate that the process makes: none if it does not qualify,
    /// and none if its resident size is not known.
    pub open spec fn candidate(&self) -> Option<ProcessCandidate> {
        if self.qualifies() && self.rss_pages is Some {
            Some(
                ProcessCandidate {
                    pid: self.pid,
                    resident_bytes: (self.rss_pages.unwrap() * PAGE_BYTES) as u64,
                },
            )
        } else {
            None
        }
    }

    /// Whether the resident size of the process, in bytes, fits in 64 bits.
    pub fn fits(&self) -> (yes: bool)
        ensures
            yes == self.size_fits(),
    {
        match self.rss_pages {
            Some(pages) => pages <= u64::MAX / PAGE_BYTES,
            None => true,
        }
    }

    /// Whether the process qualifies.
    pub fn is_java(&self) -> (yes: bool)
        ensures
            yes == self.qualifies(),
    {
        proof {
            reveal_strlit("java");
            assert("java"@ =~= java_marker());
        }
        let by_name = match &self.name {
            Some(name) => str_contains(name.as_str(), "java"),
            None => false,
        };
        let by_command = match &self.cmdline {
            Some(args) => args.len() > 0 && str_contains(args[0].as_str(), "java"),
            None => false,
        };
        by_name || by_command
    }

    /// The candidate that the process makes, if it makes one.
    pub fn to_candidate(&self) -> (made: Option<ProcessCandidate>)
        requires
            self.size_fits(),
        ensures
            made == self.candidate(),
    {
        if !self.is_java() {
            return None;
        }
        match self.rss_pages {
            Some(pages) => Some(
                ProcessCandidate { pid: self.pid, resident_bytes: pages * PAGE_BYTES },
            ),
            None => None,
        }
    }
}

/// The resident size of every process of `procs` fits in 64 bits.
pub open spec fn sizes_fit(procs: Seq<ProcessInfo>) -> bool {
    forall|j: int| 0 <= j < procs.len() ==> (#[trigger] procs[j]).size_fits()
}

/// Whether the resident size of every process of `procs` fits in 64 bits.
pub fn all_fit(procs: &Vec<ProcessInfo>) -> (yes: bool)
    ensures
        yes == sizes_fit(procs@),
{
    let mut k: usize = 0;
    while k < procs.len()
        invariant
            k <= procs.len(),
            forall|j: int| 0 <= j < k ==> (#[trigger] procs[j]).size_fits(),
        decreases procs.len() - k,
    {
        if !procs[k].fits() {
            return false;
        }
        k += 1;
    }
    true
}

/// Process `k` of `procs` is the one to select: it makes a candidate, no
/// candidate is larger, and every candidate listed after it is smaller.
pub open spec fn is_selected(procs: Seq<ProcessInfo>, k: int) -> bool {
    &&& 0 <= k < procs.len()
    &&& procs[k].candidate() is Some
    &&& forall|j: int|
        0 <= j < procs.len() && (#[trigger] procs[j].candidate()) is Some
            ==> procs[j].candidate().unwrap().resident_bytes
            <= procs[k].candidate().unwrap().resident_bytes
    &&& forall|j: int|
        k < j < procs.len() && (#[trigger] procs[j].candidate()) is Some
            ==> procs[j].candidate().unwrap().resident_bytes
            < procs[k].candidate().unwrap().resident_bytes
}

/// The candidate to select among `procs`, if any process makes one.
pub open spec fn selected(procs: Seq<ProcessInfo>) -> Option<ProcessCandidate> {
    if exists|k: int| is_selected(procs, k) {
        procs[choose|k: int| is_selected(procs, k)].candidate()
    } else {
        None
    }
}

/// The processes of a listing, in order; none if the listing failed.
pub open spec fn listed(listing: Option<&Vec<ProcessInfo>>) -> Option<Seq<ProcessInfo>> {
    match listing {
        Some(procs) => Some(procs@),
        None => None,
    }
}

/// What selection comes to: the process id of the selected candidate;
/// `NotFound` if no process makes a candidate; `EnumerationFailure` if
/// there is no list of processes at all.
pub open spec fn selection(listing: Option<Seq<ProcessInfo>>) -> Result<i32, SelectError> {
    match listing {
        None => Err(SelectError::EnumerationFailure),
        Some(procs) => match selected(procs) {
            Some(best) => Ok(best.pid),
            None => Err(SelectError::NotFound),
        },
    }
}

/// At most one process is the one to select.
pub proof fn lemma_selected_unique(procs: Seq<ProcessInfo>, k: int, m: int)
    requires
        is_selected(procs, k),
        is_selected(procs, m),
    ensures
        k == m,
{
}

/// The process to select makes the selected candidate.
pub proof fn lemma_selected_is(procs: Seq<ProcessInfo>, k: int)
    requires
        is_selected(procs, k),
    ensures
        selected(procs) == procs[k].candidate(),
{
    lemma_selected_unique(procs, k, choose|m: int| is_selected(procs, m));
}

/// If some process makes a candidate, some process is the one to select.
proof fn lemma_some_selected(procs: Seq<ProcessInfo>)
    requires
        exists|j: int| 0 <= j < procs.len() && (#[trigger] procs[j].candidate()) is Some,
    ensures
        exists|k: int| is_selected(procs, k),
    decreases procs.len(),
{
    let front = procs.drop_last();
    let last = procs.len() - 1;
    assert(forall|j: int| 0 <= j < front.len() ==> front[j] == procs[j]);
    if exists|j: int| 0 <= j < front.len() && (#[trigger] front[j].candidate()) is Some {
        lemma_some_selected(front);
        let k = choose|k: int| is_selected(front, k);
        if procs[last].candidate() is Some && procs[last].candidate().unwrap().resident_bytes
            >= front[k].candidate().unwrap().resident_bytes {
            assert(is_selected(procs, last));
        } else {
            assert(is_selected(procs, k));
        }
    } else {
        assert(is_selected(procs, last));
    }
}

/// A candidate is selected exactly when some process makes a candidate,
/// and the selected candidate is made by the process to select.
pub proof fn lemma_selected_exists(procs: Seq<ProcessInfo>)
    ensures
        selected(procs) is Some <==> exists|j: int|
            0 <= j < procs.len() && (#[trigger] procs[j].candidate()) is Some,
        selected(procs) is Some ==> exists|k: int|
            is_selected(procs, k) && procs[k].candidate() == selected(procs),
{
    if exists|j: int| 0 <= j < procs.len() && (#[trigger] procs[j].candidate()) is Some {
        lemma_some_selected(procs);
    }
    if exists|k: int| is_selected(procs, k) {
        let k = choose|k: int| is_selected(procs, k);
    }
}

/// Selection fails with `NotFound` exactly when the processes were listed
/// and none of them makes a candidate.
pub proof fn lemma_not_found(procs: Seq<ProcessInfo>)
    ensures
        selection(Some(procs)) == Err::<i32, SelectError>(SelectError::NotFound) <==> forall|j: int|
            0 <= j < procs.len() ==> (#[trigger] procs[j].candidate()) is None,
{
    lemma_selected_exists(procs);
}

/// A process that makes no candidate does not change what is selected,
/// wherever in the list it stands. In particular a process that does
/// not qualify is irrelevant to the selection.
pub proof fn lemma_irrelevant_process(procs: Seq<ProcessInfo>, at: int, extra: ProcessInfo)
    requires
        0 <= at <= procs.len(),
        extra.candidate() is None,
    ensures
        selected(procs.insert(at, extra)) == selected(procs),
        selection(Some(procs.insert(at, extra))) == selection(Some(procs)),
{
    let wider = procs.insert(at, extra);
    if exists|k: int| is_selected(procs, k) {
        let k = choose|k: int| is_selected(procs, k);
        let moved = if k < at {
            k
        } else {
            k + 1
        };
        assert forall|j: int|
            0 <= j < wider.len() && (#[trigger] wider[j].candidate()) is Some implies wider[j].candidate().unwrap().resident_bytes
            <= wider[moved].candidate().unwrap().resident_bytes by {}
        assert forall|j: int|
            moved < j < wider.len() && (#[trigger] wider[j].candidate()) is Some implies wider[j].candidate().unwrap().resident_bytes
            < wider[moved].candidate().unwrap().resident_bytes by {}
        lemma_selected_is(wider, moved);
        lemma_selected_is(procs, k);
    } else {
        assert forall|m: int| !is_selected(wider, m) by {
            if is_selected(wider, m) {
                let back = if m < at {
                    m
                } else {
                    m - 1
                };
                assert forall|j: int|
                    0 <= j < procs.len() && (#[trigger] procs[j].candidate()) is Some implies procs[j].candidate().unwrap().resident_bytes
                    <= procs[back].candidate().unwrap().resident_bytes by {
                    if j < at {
                        assert(wider[j] == procs[j]);
                    } else {
                        assert(wider[j + 1] == procs[j]);
                    }
                }
                assert forall|j: int|
                    back < j < procs.len() && (#[trigger] procs[j].candidate()) is Some implies procs[j].candidate().unwrap().resident_bytes
                    < procs[back].candidate().unwrap().resident_bytes by {
                    if j < at {
                        assert(wider[j] == procs[j]);
                    } else {
                        assert(wider[j + 1] == procs[j]);
                    }
                }
                assert(is_selected(procs, back));
            }
        }
    }
}

/// The best candidate among `procs`: the largest, and of several equally
/// large ones the one listed last.
pub fn best_candidate(procs: &Vec<ProcessInfo>) -> (best: Option<ProcessCandidate>)
    requires
        sizes_fit(procs@),
    ensures
        best == selected(procs@),
        best is None <==> forall|j: int|
            0 <= j < procs.len() ==> (#[trigger] procs[j].candidate()) is None,
{
    let mut best: Option<ProcessCandidate> = None;
    let ghost mut at: int = -1;
    let mut k: usize = 0;
    while k < procs.len()
        invariant
            k <= procs.len(),
            sizes_fit(procs@),
            best is None ==> forall|j: int|
                0 <= j < k ==> (#[trigger] procs[j].candidate()) is None,
            best is Some ==> 0 <= at < k && is_selected(procs@.take(k as int), at)
                && procs[at].candidate() == best,
        decreases procs.len() - k,
    {
        match procs[k].to_candidate() {
            Some(candidate) => {
                let replaces = match best {
                    Some(held) => candidate.resident_bytes >= held.resident_bytes,
                    None => true,
                };
                if replaces {
                    best = Some(candidate);
                    proof {
                        at = k as int;
                    }
                }
            },
            None => {},
        }
        k += 1;
    }
    proof {
        assert(procs@.take(k as int) == procs@);
        if best is Some {
            lemma_selected_is(procs@, at);
        } else {
            assert forall|m: int| !is_selected(procs@, m) by {}
        }
    }
    best
}

/// Selects the process to inspect from the outcome of listing the
/// processes: `None` when they could not be listed.
pub fn select_target(listing: Option<&Vec<ProcessInfo>>) -> (target: Result<i32, SelectError>)
    requires
        listing matches Some(procs) ==> sizes_fit(procs@),
    ensures
        target == selection(listed(listing)),
{
    match listing {
        None => Err(SelectError::EnumerationFailure),
        Some(procs) => match best_candidate(procs) {
            Some(best) => Ok(best.pid),
            None => Err(SelectError::NotFound),
        },
    }
}

} // verus!
