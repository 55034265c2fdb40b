//! The harmonic writer: re-chunks the event stream into output files that
//! close once they reach a byte threshold.
//!
//! The caller creates each output file, writes each event into it under the
//! group that `next_group_name` gives, and reports the file's size after the
//! write. The writer keeps the output-local index and decides when a file is
//! full.
use vstd::prelude::*;
use crate::error::HarmonizeError;
use crate::event::MergerEvent;
use crate::naming::{construct_run_path, event_name, event_name_of, run_path};
use crate::reader::{lemma_reader_order, provenance_lt, MergerReader};

verus! {

/// The `min_event` attribute of every output file.
pub const MIN_EVENT: u64 = 0;

/// What the caller does after a write.
#[derive(Debug, Clone)]
pub enum WriteOutcome {
    /// The file is still below the threshold: keep writing to it.
    Continue,
    /// The file reached the threshold: set its `max_event` attribute to
    /// `max_event`, then create the file at `next_path` and start it afresh.
    Rollover { max_event: u64, next_path: String },
}

/// The events of files in order, file after file.
pub open spec fn concat_files(files: Seq<Seq<(int, int)>>) -> Seq<(int, int)>
    decreases files.len(),
{
    if files.len() == 0 {
        Seq::empty()
    } else {
        concat_files(files.drop_last()) + files.last()
    }
}

/// A writer of numbered output files under one directory.
pub struct HarmonicWriter {
    harmonic_path: String,
    current_path: String,
    current_run: i32,
    current_event: u64,
    harmonic_size: u64,
    /// The provenance of the events of each output file; the last is open.
    files: Ghost<Seq<Seq<(int, int)>>>,
    /// The reported size of each output file after each of its writes.
    sizes: Ghost<Seq<Seq<int>>>,
    /// The `max_event` attribute given to each finished file.
    finalized: Ghost<Seq<int>>,
    /// The provenance of every event written, in order.
    received: Ghost<Seq<(int, int)>>,
}

impl HarmonicWriter {
    /// The directory of the output files.
    pub closed spec fn path(&self) -> Seq<char> {
        self.harmonic_path@
    }

    /// The size threshold in bytes.
    pub closed spec fn threshold(&self) -> int {
        self.harmonic_size as int
    }

    /// The number of the file being filled.
    pub closed spec fn file_number(&self) -> int {
        self.current_run as int
    }

    /// The output-local index of the next event.
    pub closed spec fn local_index(&self) -> int {
        self.current_event as int
    }

    pub closed spec fn files(&self) -> Seq<Seq<(int, int)>> {
        self.files@
    }

    pub closed spec fn sizes(&self) -> Seq<Seq<int>> {
        self.sizes@
    }

    pub closed spec fn finalized(&self) -> Seq<int> {
        self.finalized@
    }

    pub closed spec fn received(&self) -> Seq<(int, int)> {
        self.received@
    }

    pub closed spec fn wf(&self) -> bool {
        &&& self.files@.len() >= 1
        &&& self.files@.len() == self.current_run + 1
        &&& self.sizes@.len() == self.files@.len()
        &&& self.finalized@.len() == self.files@.len() - 1
        &&& self.current_event == self.files@.last().len()
        &&& self.current_path@ == run_path(self.harmonic_path@, self.current_run as int)
        &&& forall|i: int| 0 <= i < self.files@.len() ==> (#[trigger] self.sizes@[i]).len()
            == self.files@[i].len()
        &&& forall|i: int| 0 <= i < self.finalized@.len() ==> (#[trigger] self.finalized@[i])
            == self.files@[i].len()
        &&& forall|i: int| 0 <= i < self.files@.len() - 1 ==> (#[trigger] self.files@[i]).len() >= 1
        &&& forall|i: int, k: int|
            0 <= i < self.files@.len() && 0 <= k < self.sizes@[i].len() ==> {
                ||| (i == self.files@.len() - 1 || k < self.sizes@[i].len() - 1) && #[trigger] self.sizes@[i][k] < self.harmonic_size
                ||| i < self.files@.len() - 1 && k == self.sizes@[i].len() - 1 && self.sizes@[i][k] >= self.harmonic_size
            }
        &&& concat_files(self.files@) == self.received@
    }

    /// Starts output file 0 under `harmonic_path`, to be closed once its size
    /// reaches `harmonic_size` bytes.
    pub fn new(harmonic_path: &str, harmonic_size: u64) -> (r: HarmonicWriter)
        ensures
            r.wf(),
            r.path() == harmonic_path@,
            r.threshold() == harmonic_size,
            r.file_number() == 0,
            r.local_index() == 0,
            r.files() == seq![Seq::<(int, int)>::empty()],
            r.received() == Seq::<(int, int)>::empty(),
    {
        let current_path = construct_run_path(harmonic_path, 0);
        let ghost files = seq![Seq::<(int, int)>::empty()];
        let ghost sizes = seq![Seq::<int>::empty()];
        let ghost finalized = Seq::<int>::empty();
        let ghost received = Seq::<(int, int)>::empty();
        let r = HarmonicWriter {
            harmonic_path: harmonic_path.to_owned(),
            current_path,
            current_run: 0,
            current_event: 0,
            harmonic_size,
            files: Ghost(files),
            sizes: Ghost(sizes),
            finalized: Ghost(finalized),
            received: Ghost(received),
        };
        proof {
            assert(files.drop_last() =~= Seq::<Seq<(int, int)>>::empty());
            assert(concat_files(files.drop_last()) =~= Seq::<(int, int)>::empty());
            assert(files.last() =~= Seq::<(int, int)>::empty());
            assert(concat_files(files) =~= received);
        }
        r
    }

    /// The path of the output file being filled.
    pub fn current_path(&self) -> (r: &str)
        requires
            self.wf(),
        ensures
            r@ == run_path(self.path(), self.file_number()),
    {
        self.current_path.as_str()
    }

    /// The name of the group that the next event goes under.
    pub fn next_group_name(&self) -> (r: String)
        ensures
            r@ == event_name(self.local_index() as nat),
    {
        event_name_of(self.current_event)
    }

    /// Records `event`, just written under `next_group_name` into the current
    /// file, whose size is now `size_after` bytes. Once that size reaches the
    /// threshold the file is finished with the count of its events and the
    /// next file is started. Fails, changing nothing, where the local index or
    /// the file number would overflow.
    pub fn write(&mut self, event: &MergerEvent, size_after: u64) -> (r: Result<
        WriteOutcome,
        HarmonizeError,
    >)
        requires
            old(self).wf(),
        ensures
            final(self).wf(),
            final(self).local_index() == final(self).files().last().len(),
            final(self).files().len() == final(self).file_number() + 1,
            final(self).path() == old(self).path(),
            final(self).threshold() == old(self).threshold(),
            r.is_err() <==> (old(self).local_index() == u64::MAX || (size_after
                >= old(self).threshold() && old(self).file_number() == i32::MAX)),
            r.is_err() ==> r == Err::<WriteOutcome, HarmonizeError>(HarmonizeError::CounterOverflow)
                && *final(self) == *old(self),
            r.is_ok() ==> final(self).received() == old(self).received().push(
                (event.run_number as int, event.event as int),
            ),
            r.is_ok() && size_after < old(self).threshold() ==> {
                &&& r->Ok_0 is Continue
                &&& final(self).file_number() == old(self).file_number()
                &&& final(self).local_index() == old(self).local_index() + 1
                &&& final(self).files() == old(self).files().update(
                    old(self).files().len() - 1,
                    old(self).files().last().push((event.run_number as int, event.event as int)),
                )
            },
            r.is_ok() && size_after >= old(self).threshold() ==> {
                &&& r->Ok_0 matches WriteOutcome::Rollover { max_event, next_path }
                    && max_event == old(self).local_index() + 1
                    && max_event == final(self).files()[old(self).files().len() - 1].len()
                    && next_path@ == run_path(old(self).path(), old(self).file_number() + 1)
                &&& final(self).file_number() == old(self).file_number() + 1
                &&& final(self).local_index() == 0
                &&& final(self).files() == old(self).files().update(
                    old(self).files().len() - 1,
                    old(self).files().last().push((event.run_number as int, event.event as int)),
                ).push(Seq::empty())
            },
    {
        if self.current_event == u64::MAX {
            return Err(HarmonizeError::CounterOverflow);
        }
        let full = size_after >= self.harmonic_size;
        if full && self.current_run == i32::MAX {
            return Err(HarmonizeError::CounterOverflow);
        }
        let ghost old_files = self.files@;
        let ghost old_sizes = self.sizes@;
        let ghost old_finalized = self.finalized@;
        let ghost old_received = self.received@;
        let ghost item = (event.run_number as int, event.event as int);
        let ghost last = old_files.len() - 1;
        let ghost files1 = old_files.update(last, old_files.last().push(item));
        let ghost sizes1 = old_sizes.update(last, old_sizes[last].push(size_after as int));
        self.current_event = self.current_event + 1;
        self.received = Ghost(old_received.push(item));
        proof {
            assert(files1.drop_last() =~= old_files.drop_last());
            assert(concat_files(files1) =~= old_received.push(item));
        }
        if full {
            let max_event = self.current_event;
            self.finalized = Ghost(old_finalized.push(max_event as int));
            self.files = Ghost(files1.push(Seq::empty()));
            self.sizes = Ghost(sizes1.push(Seq::empty()));
            self.current_event = 0;
            self.current_run = self.current_run + 1;
            self.current_path = construct_run_path(self.harmonic_path.as_str(), self.current_run);
            proof {
                let fs = files1.push(Seq::<(int, int)>::empty());
                assert(fs.drop_last() =~= files1);
                assert(concat_files(fs) =~= concat_files(files1));
                assert forall|i: int| 0 <= i < self.finalized@.len() implies (
                #[trigger] self.finalized@[i]) == self.files@[i].len() by {
                    if i < last {
                        assert(old_finalized[i] == old_files[i].len());
                    }
                }
                assert forall|i: int| 0 <= i < self.files@.len() implies (
                #[trigger] self.sizes@[i]).len() == self.files@[i].len() by {
                    if i < last {
                        assert(old_sizes[i].len() == old_files[i].len());
                    }
                }
                assert forall|i: int, k: int|
                    0 <= i < self.files@.len() && 0 <= k < self.sizes@[i].len() implies {
                        ||| (i == self.files@.len() - 1 || k < self.sizes@[i].len() - 1) && #[trigger] self.sizes@[i][k] < self.harmonic_size
                        ||| i < self.files@.len() - 1 && k == self.sizes@[i].len() - 1 && self.sizes@[i][k] >= self.harmonic_size
                    } by {
                    if i < last {
                        assert(self.sizes@[i] == old_sizes[i]);
                        assert(old_sizes[i][k] == self.sizes@[i][k]);
                    } else if i == last && k < old_sizes[last].len() {
                        assert(self.sizes@[i][k] == old_sizes[last][k]);
                    }
                }
            }
            Ok(WriteOutcome::Rollover { max_event, next_path: self.current_path.clone() })
        } else {
            self.files = Ghost(files1);
            self.sizes = Ghost(sizes1);
            proof {
                assert forall|i: int| 0 <= i < self.finalized@.len() implies (
                #[trigger] self.finalized@[i]) == self.files@[i].len() by {
                    assert(old_finalized[i] == old_files[i].len());
                }
                assert forall|i: int| 0 <= i < self.files@.len() implies (
                #[trigger] self.sizes@[i]).len() == self.files@[i].len() by {
                    assert(old_sizes[i].len() == old_files[i].len());
                }
                assert forall|i: int, k: int|
                    0 <= i < self.files@.len() && 0 <= k < self.sizes@[i].len() implies {
                        ||| (i == self.files@.len() - 1 || k < self.sizes@[i].len() - 1) && #[trigger] self.sizes@[i][k] < self.harmonic_size
                        ||| i < self.files@.len() - 1 && k == self.sizes@[i].len() - 1 && self.sizes@[i][k] >= self.harmonic_size
                    } by {
                    if i < last {
                        assert(self.sizes@[i] == old_sizes[i]);
                        assert(old_sizes[i][k] == self.sizes@[i][k]);
                    } else if k < old_sizes[last].len() {
                        assert(self.sizes@[i][k] == old_sizes[last][k]);
                    }
                }
            }
            Ok(WriteOutcome::Continue)
        }
    }

    /// The `max_event` attribute that finishes the file being filled: the
    /// count of events written to it.
    pub fn close(&self) -> (r: u64)
        requires
            self.wf(),
        ensures
            r == self.files().last().len(),
    {
        self.current_event
    }
}

/// The output files, read in file order and then in local-index order, hold
/// exactly the events written, in the order they were written.
pub proof fn lemma_output_order(w: &HarmonicWriter)
    requires
        w.wf(),
    ensures
        concat_files(w.files()) == w.received(),
{
}

/// Every finished file's `max_event` attribute is the number of events it
/// received; there is one for every file but the open last one.
pub proof fn lemma_finalized_counts(w: &HarmonicWriter)
    requires
        w.wf(),
    ensures
        w.finalized().len() == w.files().len() - 1,
        forall|i: int| 0 <= i < w.finalized().len() ==> (#[trigger] w.finalized()[i]) == w.files()[i].len(),
{
}

/// A file is finished by the first write that brings it to the threshold:
/// before its last write every file was below the threshold, so it exceeds the
/// threshold by at most the bytes of its last event. The open file is below
/// the threshold after each of its writes.
pub proof fn lemma_threshold_respected(w: &HarmonicWriter)
    requires
        w.wf(),
    ensures
        forall|i: int, k: int|
            0 <= i < w.files().len() && 0 <= k < w.sizes()[i].len() && (i == w.files().len() - 1
                || k < w.sizes()[i].len() - 1) ==> #[trigger] w.sizes()[i][k] < w.threshold(),
        forall|i: int|
            0 <= i < w.files().len() - 1 ==> (#[trigger] w.sizes()[i]).len() >= 1 && w.sizes()[i].last()
                >= w.threshold(),
{
    assert forall|i: int| 0 <= i < w.files().len() - 1 implies (#[trigger] w.sizes()[i]).len() >= 1
        && w.sizes()[i].last() >= w.threshold() by {
        assert(w.files@[i].len() >= 1);
        let k = w.sizes@[i].len() - 1;
        assert(w.sizes@[i][k] == w.sizes@[i].last());
    }
}

/// Writing what a reader hands out, event by event, keeps its order: the
/// output files, read in file order and then in local-index order, give the
/// reader's events exactly, in strictly increasing `(run, event index)`
/// order, with none repeated and none left out.
pub proof fn lemma_pipeline_order(r: &MergerReader, w: &HarmonicWriter)
    requires
        r.wf(),
        w.wf(),
        w.received() == r.emitted(),
    ensures
        concat_files(w.files()) == r.emitted(),
        forall|i: int, j: int|
            0 <= i < j < concat_files(w.files()).len() ==> provenance_lt(
                #[trigger] concat_files(w.files())[i],
                #[trigger] concat_files(w.files())[j],
            ),
{
    lemma_reader_order(r);
}

/// The writer's cursor: the output-local index of the next event is the
/// count of events in the open file, whose number is the count of files
/// before it.
pub proof fn lemma_writer_cursor(w: &HarmonicWriter)
    requires
        w.wf(),
    ensures
        w.local_index() == w.files().last().len(),
        w.files().len() == w.file_number() + 1,
{
}

} // verus!
