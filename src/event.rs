//! The normalized event that the reader hands to the writer.
use vstd::prelude::*;
use crate::error::HarmonizeError;

verus! {

/// A two-dimensional array of samples, stored row after row.
#[derive(Debug, Clone)]
pub struct Traces<T> {
    pub rows: usize,
    pub cols: usize,
    pub samples: Vec<T>,
}

impl<T> Traces<T> {
    /// The sample count matches the shape.
    pub open spec fn wf(&self) -> bool {
        self.samples@.len() == self.rows * self.cols
    }

    /// Wraps `samples` as a `rows` by `cols` array; `None` when the count of
    /// samples does not match that shape.
    pub fn new(rows: usize, cols: usize, samples: Vec<T>) -> (r: Option<Traces<T>>)
        ensures
            r.is_some() <==> samples@.len() == rows * cols,
            r.is_some() ==> r->Some_0.rows == rows && r->Some_0.cols == cols
                && r->Some_0.samples@ == samples@ && r->Some_0.wf(),
    {
        let len = samples.len();
        match rows.checked_mul(cols) {
            Some(n) => {
                if len == n {
                    Some(Traces { rows, cols, samples })
                } else {
                    None
                }
            },
            None => None,
        }
    }
}

/// The subsystem A (GET) payload of an event.
#[derive(Debug, Clone)]
pub struct GetEvent {
    pub traces: Traces<i16>,
    pub id: u32,
    pub timestamp: u64,
    pub timestamp_other: u64,
}

/// The subsystem B (FRIBDAQ) payload of an event.
#[derive(Debug, Clone)]
pub struct FribEvent {
    pub traces: Traces<u16>,
    pub coincidence: Vec<u16>,
    pub event: u32,
    pub timestamp: u32,
}

impl FribEvent {
    /// Builds the payload from the datasets of the legacy schema, whose header
    /// array holds the event number and the timestamp as its first two elements.
    pub fn from_legacy_header(traces: Traces<u16>, coincidence: Vec<u16>, header: &Vec<u32>) -> (r:
        Result<FribEvent, HarmonizeError>)
        ensures
            r.is_ok() <==> header@.len() >= 2,
            r.is_ok() ==> r->Ok_0.event == header@[0] && r->Ok_0.timestamp == header@[1]
                && r->Ok_0.traces == traces && r->Ok_0.coincidence == coincidence,
            r.is_err() ==> r->Err_0 == HarmonizeError::MalformedRecord,
    {
        if header.len() < 2 {
            Err(HarmonizeError::MalformedRecord)
        } else {
            Ok(FribEvent { traces, coincidence, event: header[0], timestamp: header[1] })
        }
    }
}

/// One normalized event, with its provenance: the run it came from and its
/// index there.
#[derive(Debug, Clone)]
pub struct MergerEvent {
    pub get: Option<GetEvent>,
    pub frib: Option<FribEvent>,
    pub run_number: i32,
    pub event: u64,
}

} // verus!
