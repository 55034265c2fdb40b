//! Totals over a run range, gathered before the event pass: bytes on disk and
//! the event counts that the files declare. Entry `i` of each list stands for
//! run `min_run + i`; `None` marks a run with no file, which adds nothing.
use vstd::prelude::*;
use crate::error::HarmonizeError;
use crate::version::{events_name, has_member, meta_name, version_of, MergerVersion, RunBounds};

verus! {

/// The number of events of one run: `max - min + 1` for the legacy schema,
/// whose `max_event` is the last index, and `max - min` for the current one,
/// whose `max_event` is one past the last (none when the bounds are reversed).
pub open spec fn scan_run_events(b: RunBounds) -> int {
    if b.min_event > b.max_event {
        0
    } else {
        match b.version {
            MergerVersion::V010 => b.max_event - b.min_event + 1,
            MergerVersion::V020 => b.max_event - b.min_event,
        }
    }
}

/// The event count that the scanner credits to a run range.
pub open spec fn scan_event_total(runs: Seq<Option<RunBounds>>) -> int
    decreases runs.len(),
{
    if runs.len() == 0 {
        0
    } else {
        scan_event_total(runs.drop_last()) + match runs.last() {
            Some(b) => scan_run_events(b),
            None => 0,
        }
    }
}

/// The byte count of a run range.
pub open spec fn byte_total(sizes: Seq<Option<u64>>) -> int
    decreases sizes.len(),
{
    if sizes.len() == 0 {
        0
    } else {
        byte_total(sizes.drop_last()) + match sizes.last() {
            Some(n) => n as int,
            None => 0,
        }
    }
}

pub open spec fn capped(n: int) -> int {
    if n > u64::MAX {
        u64::MAX as int
    } else {
        n
    }
}

proof fn lemma_scan_event_total_nonneg(runs: Seq<Option<RunBounds>>)
    ensures
        scan_event_total(runs) >= 0,
    decreases runs.len(),
{
    if runs.len() > 0 {
        lemma_scan_event_total_nonneg(runs.drop_last());
    }
}

proof fn lemma_byte_total_nonneg(sizes: Seq<Option<u64>>)
    ensures
        byte_total(sizes) >= 0,
    decreases sizes.len(),
{
    if sizes.len() > 0 {
        lemma_byte_total_nonneg(sizes.drop_last());
    }
}

/// The total size in bytes of the run files present in a range (saturating at
/// `u64::MAX`), from the size of each run file, `None` where it is absent.
pub fn get_total_merger_bytes(run_sizes: &Vec<Option<u64>>) -> (r: u64)
    ensures
        r == capped(byte_total(run_sizes@)),
{
    let mut bytes: u64 = 0;
    let mut i: usize = 0;
    while i < run_sizes.len()
        invariant
            i <= run_sizes.len(),
            bytes == capped(byte_total(run_sizes@.subrange(0, i as int))),
        decreases run_sizes.len() - i,
    {
        proof {
            let s = run_sizes@.subrange(0, i as int + 1);
            assert(s.drop_last() =~= run_sizes@.subrange(0, i as int));
            lemma_byte_total_nonneg(s.drop_last());
        }
        match run_sizes[i] {
            Some(n) => {
                bytes = bytes.saturating_add(n);
            },
            None => {},
        }
        i = i + 1;
    }
    assert(run_sizes@.subrange(0, i as int) =~= run_sizes@);
    bytes
}

/// The event count of the one run `b` as the scanner credits it (saturating at
/// `u64::MAX`).
pub fn run_event_count(b: RunBounds) -> (r: u64)
    ensures
        r == capped(scan_run_events(b)),
{
    if b.min_event > b.max_event {
        0
    } else {
        match b.version {
            MergerVersion::V010 => (b.max_event - b.min_event).saturating_add(1),
            MergerVersion::V020 => b.max_event - b.min_event,
        }
    }
}

/// The bounds of the runs that were classified, `None` for a run with no file
/// or one whose classification failed.
pub open spec fn classified(runs: Seq<Option<Result<RunBounds, HarmonizeError>>>) -> Seq<
    Option<RunBounds>,
> {
    Seq::new(
        runs.len(),
        |i: int|
            match runs[i] {
                Some(Ok(b)) => Some(b),
                _ => None,
            },
    )
}

/// Whether some run file of a range failed classification.
pub open spec fn has_failed_run(runs: Seq<Option<Result<RunBounds, HarmonizeError>>>) -> bool {
    exists|i: int| 0 <= i < runs.len() && (#[trigger] runs[i]) matches Some(Err(_))
}

/// The number of events in a range (saturating at `u64::MAX`). Entry `i`
/// holds, for run `min_run + i`, `None` when no file exists, else the outcome
/// of classifying the file: its bounds, or the schema error. The scan fails
/// with the first such error; a missing run is no error.
pub fn get_total_merger_events(runs: &Vec<Option<Result<RunBounds, HarmonizeError>>>) -> (r: Result<
    u64,
    HarmonizeError,
>)
    ensures
        r.is_err() <==> has_failed_run(runs@),
        r.is_err() ==> exists|i: int|
            0 <= i < runs@.len() && runs@[i] == Some(Err::<RunBounds, HarmonizeError>(r->Err_0)),
        r.is_ok() ==> r->Ok_0 == capped(scan_event_total(classified(runs@))),
{
    let mut events: u64 = 0;
    let mut i: usize = 0;
    while i < runs.len()
        invariant
            i <= runs.len(),
            forall|j: int| 0 <= j < i ==> !((#[trigger] runs@[j]) matches Some(Err(_))),
            events == capped(scan_event_total(classified(runs@).subrange(0, i as int))),
        decreases runs.len() - i,
    {
        proof {
            let s = classified(runs@).subrange(0, i as int + 1);
            assert(s.drop_last() =~= classified(runs@).subrange(0, i as int));
            lemma_scan_event_total_nonneg(s.drop_last());
        }
        match &runs[i] {
            Some(Ok(b)) => {
                events = events.saturating_add(run_event_count(*b));
            },
            Some(Err(e)) => {
                return Err(*e);
            },
            None => {},
        }
        i = i + 1;
    }
    assert(classified(runs@).subrange(0, i as int) =~= classified(runs@));
    Ok(events)
}

/// A run file whose top level holds neither `meta` nor `events` is no schema:
/// classifying it gives the schema error, and the scan of a range holding it
/// fails. The scan runs before any output file is created, so the whole pass
/// stops there.
pub proof fn lemma_invalid_schema_fails_scan(
    runs: Seq<Option<Result<RunBounds, HarmonizeError>>>,
    i: int,
    names: Seq<String>,
)
    requires
        0 <= i < runs.len(),
        !has_member(names, meta_name()),
        !has_member(names, events_name()),
        runs[i] == Some(Err::<RunBounds, HarmonizeError>(version_of(names)->Err_0)),
    ensures
        version_of(names) == Err::<MergerVersion, HarmonizeError>(HarmonizeError::InvalidVersion),
        runs[i] == Some(Err::<RunBounds, HarmonizeError>(HarmonizeError::InvalidVersion)),
        has_failed_run(runs),
{
    assert(runs[i] matches Some(Err(_)));
}

} // verus!
