//! Runs absent from disk: what a gap in the run range contributes to each pass.
use vstd::prelude::*;
use crate::reader::all_events;
use crate::scalers::{range_ok, range_rows, RunScalers};
use crate::scan::{byte_total, scan_event_total};
use crate::version::RunBounds;

verus! {

proof fn lemma_byte_total_concat(a: Seq<Option<u64>>, b: Seq<Option<u64>>)
    ensures
        byte_total(a + b) == byte_total(a) + byte_total(b),
    decreases b.len(),
{
    if b.len() == 0 {
        assert(a + b =~= a);
    } else {
        lemma_byte_total_concat(a, b.drop_last());
        assert((a + b).drop_last() =~= a + b.drop_last());
        assert((a + b).last() == b.last());
    }
}

proof fn lemma_scan_total_concat(a: Seq<Option<RunBounds>>, b: Seq<Option<RunBounds>>)
    ensures
        scan_event_total(a + b) == scan_event_total(a) + scan_event_total(b),
    decreases b.len(),
{
    if b.len() == 0 {
        assert(a + b =~= a);
    } else {
        lemma_scan_total_concat(a, b.drop_last());
        assert((a + b).drop_last() =~= a + b.drop_last());
        assert((a + b).last() == b.last());
    }
}

proof fn lemma_all_events_concat(a: Seq<Option<RunBounds>>, b: Seq<Option<RunBounds>>, first: int)
    ensures
        all_events(a + b, first) == all_events(a, first) + all_events(b, first + a.len()),
    decreases b.len(),
{
    if b.len() == 0 {
        assert(a + b =~= a);
        assert(all_events(a, first) + all_events(b, first + a.len()) =~= all_events(a, first));
    } else {
        lemma_all_events_concat(a, b.drop_last(), first);
        assert((a + b).drop_last() =~= a + b.drop_last());
        assert((a + b).last() == b.last());
        assert(all_events(a + b, first) =~= all_events(a, first) + all_events(b, first + a.len()));
    }
}

proof fn lemma_range_rows_concat(a: Seq<Option<RunScalers>>, b: Seq<Option<RunScalers>>, first: int)
    ensures
        range_rows(a + b, first) == range_rows(a, first) + range_rows(b, first + a.len()),
    decreases b.len(),
{
    if b.len() == 0 {
        assert(a + b =~= a);
        assert(range_rows(a, first) + range_rows(b, first + a.len()) =~= range_rows(a, first));
    } else {
        lemma_range_rows_concat(a, b.drop_last(), first);
        assert((a + b).drop_last() =~= a + b.drop_last());
        assert((a + b).last() == b.last());
        assert(range_rows(a + b, first) =~= range_rows(a, first) + range_rows(b, first + a.len()));
    }
}

/// A run absent from disk contributes nothing to any pass over its range:
/// no bytes and no counted events to the scan, no events to the reader's
/// stream, no scaler rows, and no failure of the scaler pass. Here run
/// `first + before.len()` is absent; the runs after it keep their numbers.
pub proof fn lemma_absent_run_contributes_nothing(
    before_sizes: Seq<Option<u64>>,
    after_sizes: Seq<Option<u64>>,
    before_runs: Seq<Option<RunBounds>>,
    after_runs: Seq<Option<RunBounds>>,
    before_scalers: Seq<Option<RunScalers>>,
    after_scalers: Seq<Option<RunScalers>>,
    first: int,
)
    requires
        before_runs.len() == before_sizes.len(),
        before_scalers.len() == before_sizes.len(),
    ensures
        byte_total(before_sizes + seq![None] + after_sizes) == byte_total(before_sizes)
            + byte_total(after_sizes),
        scan_event_total(before_runs + seq![None] + after_runs) == scan_event_total(before_runs)
            + scan_event_total(after_runs),
        all_events(before_runs + seq![None] + after_runs, first) == all_events(before_runs, first)
            + all_events(after_runs, first + before_runs.len() + 1),
        range_rows(before_scalers + seq![None] + after_scalers, first) == range_rows(
            before_scalers,
            first,
        ) + range_rows(after_scalers, first + before_scalers.len() + 1),
        range_ok(before_scalers + seq![None] + after_scalers) == (range_ok(before_scalers)
            && range_ok(after_scalers)),
{
    let none_size = seq![None::<u64>];
    let none_run = seq![None::<RunBounds>];
    let none_scaler = seq![None::<RunScalers>];

    lemma_byte_total_concat(before_sizes + none_size, after_sizes);
    lemma_byte_total_concat(before_sizes, none_size);
    assert(none_size.drop_last() =~= Seq::<Option<u64>>::empty());
    assert(none_size.last() == None::<u64>);
    assert(byte_total(none_size.drop_last()) == 0);
    assert(byte_total(none_size) == 0);

    lemma_scan_total_concat(before_runs + none_run, after_runs);
    lemma_scan_total_concat(before_runs, none_run);
    assert(none_run.drop_last() =~= Seq::<Option<RunBounds>>::empty());
    assert(none_run.last() == None::<RunBounds>);
    assert(scan_event_total(none_run.drop_last()) == 0);
    assert(scan_event_total(none_run) == 0);

    lemma_all_events_concat(before_runs + none_run, after_runs, first);
    lemma_all_events_concat(before_runs, none_run, first);
    assert(none_run.last() == None::<RunBounds>);
    assert(all_events(none_run.drop_last(), first + before_runs.len()) =~= Seq::<(int, int)>::empty());
    assert(all_events(none_run, first + before_runs.len()) =~= Seq::<(int, int)>::empty());
    assert(all_events(before_runs + none_run, first) =~= all_events(before_runs, first));

    lemma_range_rows_concat(before_scalers + none_scaler, after_scalers, first);
    lemma_range_rows_concat(before_scalers, none_scaler, first);
    assert(none_scaler.drop_last() =~= Seq::<Option<RunScalers>>::empty());
    assert(none_scaler.last() == None::<RunScalers>);
    assert(range_rows(none_scaler.drop_last(), first + before_scalers.len()) =~= Seq::<Seq<u32>>::empty());
    assert(range_rows(none_scaler, first + before_scalers.len()) =~= Seq::<Seq<u32>>::empty());
    assert(range_rows(before_scalers + none_scaler, first) =~= range_rows(before_scalers, first));

    let whole = before_scalers + none_scaler + after_scalers;
    let n = before_scalers.len();
    if range_ok(before_scalers) && range_ok(after_scalers) {
        assert forall|i: int| 0 <= i < whole.len() && (#[trigger] whole[i]) is Some implies crate::scalers::run_scalers_ok(
            whole[i]->Some_0,
        ) by {
            if i < n {
                assert(whole[i] == before_scalers[i]);
            } else if i > n {
                assert(whole[i] == after_scalers[i - n - 1]);
            }
        }
    }
    if range_ok(whole) {
        assert forall|i: int|
            0 <= i < before_scalers.len() && (#[trigger] before_scalers[i]) is Some implies crate::scalers::run_scalers_ok(
            before_scalers[i]->Some_0,
        ) by {
            assert(whole[i] == before_scalers[i]);
        }
        assert forall|i: int|
            0 <= i < after_scalers.len() && (#[trigger] after_scalers[i]) is Some implies crate::scalers::run_scalers_ok(
            after_scalers[i]->Some_0,
        ) by {
            assert(whole[i + n + 1] == after_scalers[i]);
        }
    }
}

} // verus!
