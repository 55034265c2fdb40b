//! The merger reader: a cursor over a run range that yields one ordered
//! stream of events across files and schema generations.
//!
//! The reader decides; its caller does the file work. `next_request` says what
//! is needed next: the payload of one event, a look for the next run's file,
//! or nothing more. The caller answers with `read_event` or `open_run`.
use vstd::prelude::*;
use crate::event::{FribEvent, GetEvent, MergerEvent};
use crate::scan::{scan_event_total, scan_run_events};
use crate::version::{MergerVersion, RunBounds};

verus! {

/// What the reader needs from its caller next.
#[derive(Debug, Clone, Copy, PartialEq, Eq, Structural)]
pub enum ReaderRequest {
    /// Read the payloads of event `event` of run `run`, laid out as `version`
    /// lays them out, and hand them to `read_event`.
    ReadEvent { version: MergerVersion, run: i32, event: u64 },
    /// Look for the file of run `run`: hand `open_run` its bounds, or `None`
    /// when no such file exists.
    OpenRun { run: i32 },
    /// Every run of the range has been read.
    Finished,
}

/// The provenance `(run, event index)` of every event of run `run`: the
/// `scan_run_events(b)` indices from `min_event` on. A legacy run includes
/// `max_event`; in the current schema `max_event` is one past the last index.
pub open spec fn run_events(run: int, b: RunBounds) -> Seq<(int, int)> {
    Seq::new(scan_run_events(b) as nat, |i: int| (run, b.min_event + i))
}

/// The index of the last event of a run, or `None` when the run holds none.
fn last_event_index(b: RunBounds) -> (r: Option<u64>)
    ensures
        r is Some <==> scan_run_events(b) > 0,
        r is Some ==> r->Some_0 == b.min_event + scan_run_events(b) - 1,
{
    match b.version {
        MergerVersion::V010 => if b.min_event <= b.max_event {
            Some(b.max_event)
        } else {
            None
        },
        MergerVersion::V020 => if b.min_event < b.max_event {
            Some(b.max_event - 1)
        } else {
            None
        },
    }
}

/// The provenance of every event of a run range, in order, where entry `i` of
/// `runs` stands for run `first_run + i`.
pub open spec fn all_events(runs: Seq<Option<RunBounds>>, first_run: int) -> Seq<(int, int)>
    decreases runs.len(),
{
    if runs.len() == 0 {
        Seq::empty()
    } else {
        all_events(runs.drop_last(), first_run) + match runs.last() {
            Some(b) => run_events(first_run + runs.len() - 1, b),
            None => Seq::empty(),
        }
    }
}

/// Strict lexicographic order on `(run, event index)` pairs.
pub open spec fn provenance_lt(a: (int, int), b: (int, int)) -> bool {
    a.0 < b.0 || (a.0 == b.0 && a.1 < b.1)
}

/// A reader over the inclusive run range `min_run..=max_run`.
pub struct MergerReader {
    merger_path: String,
    min_run: i32,
    max_run: i32,
    version: MergerVersion,
    current_run: i32,
    current_event: u64,
    current_last: u64,
    /// Whether events of the current run remain to be read.
    in_run: bool,
    /// What each run from `min_run` to `current_run` turned out to hold.
    visited: Ghost<Seq<Option<RunBounds>>>,
    /// The provenance of every event handed out so far.
    emitted: Ghost<Seq<(int, int)>>,
}

impl MergerReader {
    /// The directory that holds the run files.
    pub closed spec fn path(&self) -> Seq<char> {
        self.merger_path@
    }

    pub closed spec fn min_run(&self) -> int {
        self.min_run as int
    }

    pub closed spec fn max_run(&self) -> int {
        self.max_run as int
    }

    pub closed spec fn current_run(&self) -> int {
        self.current_run as int
    }

    pub closed spec fn version(&self) -> MergerVersion {
        self.version
    }

    /// The index of the next event to read in the current run.
    pub closed spec fn current_event(&self) -> u64 {
        self.current_event
    }

    /// Whether events of the current run remain to be read.
    pub closed spec fn in_run(&self) -> bool {
        self.in_run
    }

    /// What each run of the range read so far held, from `min_run` on.
    pub closed spec fn visited(&self) -> Seq<Option<RunBounds>> {
        self.visited@
    }

    /// The provenance of every event handed out so far, in order.
    pub closed spec fn emitted(&self) -> Seq<(int, int)> {
        self.emitted@
    }

    /// The events of the current run that are still to be read.
    pub closed spec fn pending(&self) -> Seq<(int, int)> {
        if self.in_run {
            Seq::new(
                (self.current_last - self.current_event + 1) as nat,
                |i: int| (self.current_run as int, self.current_event + i),
            )
        } else {
            Seq::empty()
        }
    }

    /// Every run of the range has been read.
    pub open spec fn is_finished(&self) -> bool {
        !self.in_run() && self.current_run() >= self.max_run()
    }

    pub closed spec fn wf(&self) -> bool {
        &&& self.min_run <= self.current_run
        &&& self.current_run <= self.max_run || self.current_run == self.min_run
        &&& self.visited@.len() == self.current_run - self.min_run + 1
        &&& self.in_run ==> {
            &&& self.current_event <= self.current_last
            &&& self.visited@.last() is Some
            &&& self.visited@.last()->Some_0.version == self.version
            &&& self.visited@.last()->Some_0.min_event <= self.current_event
            &&& self.current_last == self.visited@.last()->Some_0.min_event + scan_run_events(
                self.visited@.last()->Some_0,
            ) - 1
        }
        &&& self.emitted@ + self.pending() == all_events(self.visited@, self.min_run as int)
    }

    /// Starts a reader on the range `min_run..=max_run`, whose first run file
    /// exists and declares `first`.
    pub fn new(merger_path: &str, min_run: i32, max_run: i32, first: RunBounds) -> (r: MergerReader)
        ensures
            r.wf(),
            r.path() == merger_path@,
            r.min_run() == min_run,
            r.max_run() == max_run,
            r.current_run() == min_run,
            r.visited() == seq![Some(first)],
            r.emitted() == Seq::<(int, int)>::empty(),
            r.in_run() <==> scan_run_events(first) > 0,
            r.in_run() ==> r.current_event() == first.min_event && r.version() == first.version,
    {
        let (in_run, last) = match last_event_index(first) {
            Some(l) => (true, l),
            None => (false, first.min_event),
        };
        let ghost v = seq![Some(first)];
        let ghost e = Seq::<(int, int)>::empty();
        let r = MergerReader {
            merger_path: merger_path.to_owned(),
            min_run,
            max_run,
            version: first.version,
            current_run: min_run,
            current_event: first.min_event,
            current_last: last,
            in_run,
            visited: Ghost(v),
            emitted: Ghost(e),
        };
        proof {
            assert(v.drop_last() =~= Seq::<Option<RunBounds>>::empty());
            assert(all_events(v.drop_last(), min_run as int) =~= Seq::<(int, int)>::empty());
            assert(v.last() == Some(first));
            assert(r.pending() =~= run_events(min_run as int, first));
            assert(r.emitted@ + r.pending() =~= all_events(v, min_run as int));
        }
        r
    }

    /// The directory that holds the run files.
    pub fn merger_path(&self) -> (r: &str)
        ensures
            r@ == self.path(),
    {
        self.merger_path.as_str()
    }

    /// What the reader needs next.
    pub fn next_request(&self) -> (r: ReaderRequest)
        requires
            self.wf(),
        ensures
            self.in_run() ==> r == (ReaderRequest::ReadEvent {
                version: self.version(),
                run: self.current_run() as i32,
                event: self.current_event(),
            }),
            !self.in_run() && self.current_run() < self.max_run() ==> r == (ReaderRequest::OpenRun {
                run: (self.current_run() + 1) as i32,
            }),
            self.is_finished() <==> r == ReaderRequest::Finished,
    {
        if self.in_run {
            ReaderRequest::ReadEvent {
                version: self.version,
                run: self.current_run,
                event: self.current_event,
            }
        } else if self.current_run < self.max_run {
            ReaderRequest::OpenRun { run: self.current_run + 1 }
        } else {
            ReaderRequest::Finished
        }
    }

    /// Hands out the event at the cursor, built from the payloads that the
    /// caller read there, and moves the cursor on.
    pub fn read_event(&mut self, get: Option<GetEvent>, frib: Option<FribEvent>) -> (r: MergerEvent)
        requires
            old(self).wf(),
            old(self).in_run(),
        ensures
            final(self).wf(),
            r.run_number == old(self).current_run(),
            old(self).min_run() <= r.run_number,
            old(self).min_run() <= old(self).max_run() ==> r.run_number <= old(self).max_run(),
            r.event == old(self).current_event(),
            r.get == get,
            r.frib == frib,
            final(self).emitted() == old(self).emitted().push(
                (old(self).current_run(), old(self).current_event() as int),
            ),
            final(self).visited() == old(self).visited(),
            final(self).min_run() == old(self).min_run(),
            final(self).max_run() == old(self).max_run(),
            final(self).current_run() == old(self).current_run(),
            final(self).version() == old(self).version(),
            final(self).in_run() ==> final(self).current_event() == old(self).current_event() + 1,
    {
        let ghost old_pending = self.pending();
        let ghost old_emitted = self.emitted@;
        let ev = MergerEvent { get, frib, run_number: self.current_run, event: self.current_event };
        self.emitted = Ghost(self.emitted@.push((self.current_run as int, self.current_event as int)));
        if self.current_event == self.current_last {
            self.in_run = false;
        } else {
            self.current_event = self.current_event + 1;
        }
        proof {
            assert(old_pending =~= seq![old_pending[0]] + self.pending());
            assert(self.emitted@ + self.pending() =~= old_emitted + old_pending);
        }
        ev
    }

    /// Moves to the next run, whose file declares `found`, or is absent when
    /// `found` is `None`.
    pub fn open_run(&mut self, found: Option<RunBounds>)
        requires
            old(self).wf(),
            !old(self).in_run(),
            old(self).current_run() < old(self).max_run(),
        ensures
            final(self).wf(),
            final(self).current_run() == old(self).current_run() + 1,
            final(self).visited() == old(self).visited().push(found),
            final(self).emitted() == old(self).emitted(),
            final(self).min_run() == old(self).min_run(),
            final(self).max_run() == old(self).max_run(),
            final(self).in_run() <==> (found is Some && scan_run_events(found->Some_0) > 0),
            final(self).in_run() ==> final(self).current_event() == found->Some_0.min_event
                && final(self).version() == found->Some_0.version,
    {
        let ghost old_visited = self.visited@;
        self.current_run = self.current_run + 1;
        self.visited = Ghost(self.visited@.push(found));
        match found {
            Some(b) => {
                self.version = b.version;
                self.current_event = b.min_event;
                match last_event_index(b) {
                    Some(l) => {
                        self.current_last = l;
                        self.in_run = true;
                    },
                    None => {
                        self.in_run = false;
                    },
                }
            },
            None => {},
        }
        proof {
            assert(self.visited@.drop_last() =~= old_visited);
            assert(self.emitted@ + self.pending() =~= all_events(self.visited@, self.min_run as int));
        }
    }
}

proof fn lemma_all_events_ordered(runs: Seq<Option<RunBounds>>, first_run: int)
    ensures
        forall|i: int|
            0 <= i < all_events(runs, first_run).len() ==> first_run <= (#[trigger] all_events(
                runs,
                first_run,
            )[i]).0 < first_run + runs.len(),
        forall|i: int, j: int|
            0 <= i < j < all_events(runs, first_run).len() ==> provenance_lt(
                #[trigger] all_events(runs, first_run)[i],
                #[trigger] all_events(runs, first_run)[j],
            ),
    decreases runs.len(),
{
    if runs.len() > 0 {
        let prefix = all_events(runs.drop_last(), first_run);
        lemma_all_events_ordered(runs.drop_last(), first_run);
        let whole = all_events(runs, first_run);
        let tail = match runs.last() {
            Some(b) => run_events(first_run + runs.len() - 1, b),
            None => Seq::empty(),
        };
        assert(whole == prefix + tail);
        assert forall|i: int| 0 <= i < whole.len() implies first_run <= (#[trigger] whole[i]).0
            < first_run + runs.len() by {
            if i < prefix.len() {
                assert(whole[i] == prefix[i]);
            } else {
                assert(whole[i] == tail[i - prefix.len()]);
            }
        }
        assert forall|i: int, j: int| 0 <= i < j < whole.len() implies provenance_lt(
            #[trigger] whole[i],
            #[trigger] whole[j],
        ) by {
            if j < prefix.len() {
                assert(whole[i] == prefix[i]);
                assert(whole[j] == prefix[j]);
            } else if i < prefix.len() {
                assert(whole[i] == prefix[i]);
                assert(whole[j] == tail[j - prefix.len()]);
                assert(prefix[i].0 < first_run + runs.len() - 1);
            } else {
                assert(whole[i] == tail[i - prefix.len()]);
                assert(whole[j] == tail[j - prefix.len()]);
            }
        }
    }
}

/// The reader hands out events in strictly increasing `(run, event index)`
/// order: no event comes twice and none comes out of order.
pub proof fn lemma_reader_order(r: &MergerReader)
    requires
        r.wf(),
    ensures
        forall|i: int, j: int|
            0 <= i < j < r.emitted().len() ==> provenance_lt(
                #[trigger] r.emitted()[i],
                #[trigger] r.emitted()[j],
            ),
{
    let whole = all_events(r.visited@, r.min_run as int);
    lemma_all_events_ordered(r.visited@, r.min_run as int);
    assert forall|i: int, j: int| 0 <= i < j < r.emitted().len() implies provenance_lt(
        #[trigger] r.emitted()[i],
        #[trigger] r.emitted()[j],
    ) by {
        assert(r.emitted@[i] == (r.emitted@ + r.pending())[i]);
        assert(r.emitted@[j] == (r.emitted@ + r.pending())[j]);
    }
}

/// Once finished, the reader has looked at every run of its range and handed
/// out exactly the events that the present runs declare, in order.
pub proof fn lemma_reader_complete(r: &MergerReader)
    requires
        r.wf(),
        r.is_finished(),
    ensures
        r.visited().len() == if r.max_run() >= r.min_run() {
            r.max_run() - r.min_run() + 1
        } else {
            1
        },
        r.emitted() == all_events(r.visited(), r.min_run()),
{
    assert(r.emitted@ + r.pending() =~= r.emitted@);
}

proof fn lemma_all_events_count(runs: Seq<Option<RunBounds>>, first_run: int)
    ensures
        all_events(runs, first_run).len() == scan_event_total(runs),
    decreases runs.len(),
{
    if runs.len() > 0 {
        lemma_all_events_count(runs.drop_last(), first_run);
    }
}

/// Scanning and reading agree: a finished reader has handed out exactly as
/// many events as the scanner counts over the runs it visited, whatever their
/// schemas.
pub proof fn lemma_read_count_matches_scan(r: &MergerReader)
    requires
        r.wf(),
        r.is_finished(),
    ensures
        r.emitted().len() == scan_event_total(r.visited()),
{
    lemma_reader_complete(r);
    lemma_all_events_count(r.visited(), r.min_run());
}

} // verus!
