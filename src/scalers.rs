//! The scaler aggregator: gathers the scaler records of every run of a range
//! into one table of thirteen columns.
//!
//! The caller reads the records out of each run file: for the legacy schema
//! the records `scaler0_data`, `scaler1_data`, ... up to the first missing one;
//! for the current schema each index from `min_event` to `max_event`
//! inclusive, `None` where a record is missing. The table keeps, per record,
//! the run number, the record index and the eleven channels.
use vstd::prelude::*;
use crate::error::HarmonizeError;

verus! {

/// The number of channels of a scaler record.
pub const SCALER_CHANNELS: usize = 11;

/// The number of columns of the scaler table.
pub const SCALER_COLUMNS: usize = 13;

/// The scaler records that one run file holds.
#[derive(Debug, Clone)]
pub enum RunScalers {
    /// Legacy schema: the records found from index 0 on, up to the first
    /// missing one.
    Legacy(Vec<Vec<u32>>),
    /// Current schema: entry `k` is the record of index `min_event + k`, for
    /// each index up to `max_event` inclusive, `None` where it is missing.
    Current { min_event: u32, max_event: u32, records: Vec<Option<Vec<u32>>> },
}

/// The title of column `c` of the scaler table.
pub open spec fn column_title(c: int) -> Seq<char> {
    if c == 0 {
        "run"@
    } else if c == 1 {
        "event"@
    } else if c == 2 {
        "clock_free"@
    } else if c == 3 {
        "clock_live"@
    } else if c == 4 {
        "trig_free"@
    } else if c == 5 {
        "trig_live"@
    } else if c == 6 {
        "ic_sca"@
    } else if c == 7 {
        "mesh_sca"@
    } else if c == 8 {
        "si1_cfd"@
    } else if c == 9 {
        "si2"@
    } else if c == 10 {
        "sipm"@
    } else if c == 11 {
        "ic_ds"@
    } else {
        "ic_cfd"@
    }
}

/// The row of the record of index `index` of run `run`: the run number, the
/// index, then the first eleven values of the record.
pub open spec fn scaler_row(run: i32, index: u32, data: Seq<u32>) -> Seq<u32> {
    seq![run as u32, index] + data.subrange(0, SCALER_CHANNELS as int)
}

/// Whether a record holds all eleven channels.
pub open spec fn record_ok(data: Seq<u32>) -> bool {
    data.len() >= SCALER_CHANNELS
}

/// The rows of a legacy run: record `k` has index `k`.
pub open spec fn legacy_rows(run: i32, records: Seq<Vec<u32>>) -> Seq<Seq<u32>> {
    Seq::new(records.len(), |k: int| scaler_row(run, k as u32, records[k]@))
}

/// The rows of a current run: entry `k` has index `min_event + k`, and missing
/// entries give no row.
pub open spec fn current_rows(run: i32, min_event: u32, records: Seq<Option<Vec<u32>>>) -> Seq<
    Seq<u32>,
>
    decreases records.len(),
{
    if records.len() == 0 {
        Seq::empty()
    } else {
        current_rows(run, min_event, records.drop_last()) + match records.last() {
            Some(d) => seq![scaler_row(run, (min_event + records.len() - 1) as u32, d@)],
            None => Seq::empty(),
        }
    }
}

/// The number of indices from `min_event` to `max_event` inclusive.
pub open spec fn index_count(min_event: u32, max_event: u32) -> int {
    if min_event <= max_event {
        max_event - min_event + 1
    } else {
        0
    }
}

/// The shape that the records of a run must have.
pub open spec fn run_scalers_shaped(s: RunScalers) -> bool {
    match s {
        RunScalers::Legacy(records) => records@.len() <= u32::MAX as int + 1,
        RunScalers::Current { min_event, max_event, records } => records@.len() == index_count(
            min_event,
            max_event,
        ),
    }
}

/// Whether every record of a legacy run holds all eleven channels.
pub open spec fn legacy_records_ok(records: Seq<Vec<u32>>) -> bool {
    forall|k: int| 0 <= k < records.len() ==> record_ok(#[trigger] records[k]@)
}

/// Whether every record of a run holds all eleven channels.
pub open spec fn run_scalers_ok(s: RunScalers) -> bool {
    match s {
        RunScalers::Legacy(records) => legacy_records_ok(records@),
        RunScalers::Current { records, .. } => forall|k: int|
            0 <= k < records@.len() && (#[trigger] records@[k]) is Some ==> record_ok(
                records@[k]->Some_0@,
            ),
    }
}

/// The rows that a run adds to the table.
pub open spec fn run_rows(run: i32, s: RunScalers) -> Seq<Seq<u32>> {
    match s {
        RunScalers::Legacy(records) => legacy_rows(run, records@),
        RunScalers::Current { min_event, records, .. } => current_rows(run, min_event, records@),
    }
}

/// The rows of a run range, where entry `i` stands for run `first_run + i` and
/// `None` for a run with no file.
pub open spec fn range_rows(runs: Seq<Option<RunScalers>>, first_run: int) -> Seq<Seq<u32>>
    decreases runs.len(),
{
    if runs.len() == 0 {
        Seq::empty()
    } else {
        range_rows(runs.drop_last(), first_run) + match runs.last() {
            Some(s) => run_rows((first_run + runs.len() - 1) as i32, s),
            None => Seq::empty(),
        }
    }
}

/// Whether every present run of a range has well-formed records.
pub open spec fn range_ok(runs: Seq<Option<RunScalers>>) -> bool {
    forall|i: int| 0 <= i < runs.len() && (#[trigger] runs[i]) is Some ==> run_scalers_ok(runs[i]->Some_0)
}

/// The scaler table, one row of thirteen values per record.
pub struct ScalerTable {
    rows: Vec<[u32; 13]>,
}

impl ScalerTable {
    /// The rows of the table, in order.
    pub closed spec fn rows(&self) -> Seq<Seq<u32>> {
        Seq::new(self.rows@.len(), |i: int| self.rows@[i]@)
    }

    /// An empty table.
    pub fn new() -> (r: ScalerTable)
        ensures
            r.rows() == Seq::<Seq<u32>>::empty(),
    {
        let r = ScalerTable { rows: Vec::new() };
        assert(r.rows() =~= Seq::<Seq<u32>>::empty());
        r
    }

    /// The number of rows.
    pub fn len(&self) -> (r: usize)
        ensures
            r == self.rows().len(),
    {
        self.rows.len()
    }

    /// The values of column `c`, row after row.
    pub fn column(&self, c: usize) -> (r: Vec<u32>)
        requires
            c < SCALER_COLUMNS,
        ensures
            r@ == Seq::new(self.rows().len(), |i: int| self.rows()[i][c as int]),
    {
        let mut r: Vec<u32> = Vec::new();
        let mut i: usize = 0;
        while i < self.rows.len()
            invariant
                c < 13,
                i <= self.rows@.len(),
                r@ == Seq::new(i as nat, |j: int| self.rows()[j][c as int]),
            decreases self.rows@.len() - i,
        {
            let row = self.rows[i];
            r.push(row[c]);
            i = i + 1;
            assert(r@ =~= Seq::new(i as nat, |j: int| self.rows()[j][c as int]));
        }
        r
    }

    /// Appends the row of the record `data`, of index `index` of run `run`.
    fn push_row(&mut self, run: i32, index: u32, data: &Vec<u32>)
        requires
            record_ok(data@),
        ensures
            final(self).rows() == old(self).rows().push(scaler_row(run, index, data@)),
    {
        let row: [u32; 13] = [
            run as u32,
            index,
            data[0],
            data[1],
            data[2],
            data[3],
            data[4],
            data[5],
            data[6],
            data[7],
            data[8],
            data[9],
            data[10],
        ];
        self.rows.push(row);
        assert(row@ =~= scaler_row(run, index, data@));
        assert(self.rows() =~= old(self).rows().push(scaler_row(run, index, data@)));
    }

    /// Appends the records of a legacy run, record `k` under index `k`.
    pub fn read_scalers_010(&mut self, run: i32, records: &Vec<Vec<u32>>) -> (r: Result<(), HarmonizeError>)
        requires
            records@.len() <= u32::MAX as int + 1,
        ensures
            r.is_ok() <==> legacy_records_ok(records@),
            r.is_ok() ==> final(self).rows() == old(self).rows() + legacy_rows(run, records@),
            r.is_err() ==> r == Err::<(), HarmonizeError>(HarmonizeError::MalformedRecord)
                && final(self).rows() == old(self).rows(),
    {
        let mut k: usize = 0;
        while k < records.len()
            invariant
                k <= records@.len(),
                forall|j: int| 0 <= j < k ==> record_ok(#[trigger] records@[j]@),
            decreases records@.len() - k,
        {
            if records[k].len() < SCALER_CHANNELS {
                assert(!record_ok(records@[k as int]@));
                assert(!legacy_records_ok(records@));
                return Err(HarmonizeError::MalformedRecord);
            }
            k = k + 1;
        }
        let ghost start = self.rows();
        let mut k: usize = 0;
        while k < records.len()
            invariant
                k <= records@.len(),
                records@.len() <= u32::MAX as int + 1,
                forall|j: int| 0 <= j < records@.len() ==> record_ok(#[trigger] records@[j]@),
                self.rows() == start + legacy_rows(run, records@.subrange(0, k as int)),
            decreases records@.len() - k,
        {
            self.push_row(run, k as u32, &records[k]);
            k = k + 1;
            assert(legacy_rows(run, records@.subrange(0, k as int)) =~= legacy_rows(
                run,
                records@.subrange(0, k - 1),
            ).push(scaler_row(run, (k - 1) as u32, records@[k - 1]@)));
        }
        assert(records@.subrange(0, k as int) =~= records@);
        Ok(())
    }

    /// Appends the records of a current run: entry `k` of `records` is the
    /// record of index `scaler_min + k`, for every index up to `scaler_max`
    /// inclusive; missing records are skipped.
    pub fn read_scalers_020(
        &mut self,
        run: i32,
        scaler_min: u32,
        scaler_max: u32,
        records: &Vec<Option<Vec<u32>>>,
    ) -> (r: Result<(), HarmonizeError>)
        requires
            records@.len() == index_count(scaler_min, scaler_max),
        ensures
            r.is_ok() <==> run_scalers_ok(
                RunScalers::Current { min_event: scaler_min, max_event: scaler_max, records: *records },
            ),
            r.is_ok() ==> final(self).rows() == old(self).rows() + current_rows(
                run,
                scaler_min,
                records@,
            ),
            r.is_err() ==> r == Err::<(), HarmonizeError>(HarmonizeError::MalformedRecord)
                && final(self).rows() == old(self).rows(),
    {
        let mut k: usize = 0;
        while k < records.len()
            invariant
                k <= records@.len(),
                forall|j: int|
                    0 <= j < k && (#[trigger] records@[j]) is Some ==> record_ok(
                        records@[j]->Some_0@,
                    ),
            decreases records@.len() - k,
        {
            match &records[k] {
                Some(d) => {
                    if d.len() < SCALER_CHANNELS {
                        assert(!record_ok(records@[k as int]->Some_0@));
                        return Err(HarmonizeError::MalformedRecord);
                    }
                },
                None => {},
            }
            k = k + 1;
        }
        let ghost start = self.rows();
        let mut k: usize = 0;
        while k < records.len()
            invariant
                k <= records@.len(),
                records@.len() == index_count(scaler_min, scaler_max),
                forall|j: int|
                    0 <= j < records@.len() && (#[trigger] records@[j]) is Some ==> record_ok(
                        records@[j]->Some_0@,
                    ),
                self.rows() == start + current_rows(run, scaler_min, records@.subrange(0, k as int)),
            decreases records@.len() - k,
        {
            let ghost pre = records@.subrange(0, k + 1);
            assert(pre.drop_last() =~= records@.subrange(0, k as int));
            assert(pre.last() == records@[k as int]);
            match &records[k] {
                Some(d) => {
                    let index = scaler_min + k as u32;
                    self.push_row(run, index, d);
                    assert(self.rows() =~= start + current_rows(run, scaler_min, pre));
                },
                None => {
                    assert(current_rows(run, scaler_min, pre) =~= current_rows(
                        run,
                        scaler_min,
                        pre.drop_last(),
                    ));
                },
            }
            k = k + 1;
        }
        assert(records@.subrange(0, k as int) =~= records@);
        Ok(())
    }

    /// Appends the records of run `run`, or nothing when the run has no file.
    pub fn add_run(&mut self, run: i32, found: &Option<RunScalers>) -> (r: Result<(), HarmonizeError>)
        requires
            found is Some ==> run_scalers_shaped(found->Some_0),
        ensures
            found is None ==> r is Ok && final(self).rows() == old(self).rows(),
            found is Some ==> (r.is_ok() <==> run_scalers_ok(found->Some_0)),
            found is Some && r.is_ok() ==> final(self).rows() == old(self).rows() + run_rows(
                run,
                found->Some_0,
            ),
            r.is_err() ==> r == Err::<(), HarmonizeError>(HarmonizeError::MalformedRecord)
                && final(self).rows() == old(self).rows(),
    {
        match found {
            None => Ok(()),
            Some(RunScalers::Legacy(records)) => self.read_scalers_010(run, records),
            Some(RunScalers::Current { min_event, max_event, records }) => self.read_scalers_020(
                run,
                *min_event,
                *max_event,
                records,
            ),
        }
    }
}

/// The title of column `c` of the scaler table.
pub fn column_name(c: usize) -> (r: &'static str)
    requires
        c < SCALER_COLUMNS,
    ensures
        r@ == column_title(c as int),
{
    match c {
        0 => "run",
        1 => "event",
        2 => "clock_free",
        3 => "clock_live",
        4 => "trig_free",
        5 => "trig_live",
        6 => "ic_sca",
        7 => "mesh_sca",
        8 => "si1_cfd",
        9 => "si2",
        10 => "sipm",
        11 => "ic_ds",
        _ => "ic_cfd",
    }
}

/// Gathers the scaler records of a run range into one table. Entry `i` of
/// `runs` holds the records of run `run_min + i`, or `None` where the run has
/// no file; such a run adds no row. Fails when a record is too short.
pub fn process_scalers(runs: &Vec<Option<RunScalers>>, run_min: i32) -> (r: Result<
    ScalerTable,
    HarmonizeError,
>)
    requires
        run_min + runs@.len() <= i32::MAX as int + 1,
        forall|i: int|
            0 <= i < runs@.len() && (#[trigger] runs@[i]) is Some ==> run_scalers_shaped(
                runs@[i]->Some_0,
            ),
    ensures
        r.is_ok() <==> range_ok(runs@),
        r.is_ok() ==> r->Ok_0.rows() == range_rows(runs@, run_min as int),
        r.is_err() ==> r == Err::<ScalerTable, HarmonizeError>(HarmonizeError::MalformedRecord),
{
    let mut table = ScalerTable::new();
    let mut i: usize = 0;
    while i < runs.len()
        invariant
            i <= runs@.len(),
            run_min + runs@.len() <= i32::MAX as int + 1,
            forall|j: int|
                0 <= j < runs@.len() && (#[trigger] runs@[j]) is Some ==> run_scalers_shaped(
                    runs@[j]->Some_0,
                ),
            range_ok(runs@.subrange(0, i as int)),
            table.rows() == range_rows(runs@.subrange(0, i as int), run_min as int),
        decreases runs@.len() - i,
    {
        let ghost pre = runs@.subrange(0, i + 1);
        assert(pre.drop_last() =~= runs@.subrange(0, i as int));
        assert(pre.last() == runs@[i as int]);
        let run: i32 = (run_min as i64 + i as i64) as i32;
        match table.add_run(run, &runs[i]) {
            Ok(()) => {},
            Err(e) => {
                assert(!range_ok(runs@)) by {
                    assert(runs@[i as int] is Some);
                }
                return Err(e);
            },
        }
        proof {
            assert forall|j: int| 0 <= j < pre.len() && (#[trigger] pre[j]) is Some implies run_scalers_ok(
                pre[j]->Some_0,
            ) by {
                if j < i {
                    assert(pre[j] == runs@.subrange(0, i as int)[j]);
                }
            }
        }
        i = i + 1;
        assert(table.rows() =~= range_rows(pre, run_min as int));
    }
    assert(runs@.subrange(0, i as int) =~= runs@);
    Ok(table)
}

} // verus!
