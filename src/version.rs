//! The two schema generations of an input run file, and how to tell them apart.
use vstd::prelude::*;
use vstd::string::*;
use crate::error::HarmonizeError;

verus! {

/// The schema generation of an input run file.
#[derive(Debug, Clone, Copy, PartialEq, Eq, Structural)]
pub enum MergerVersion {
    /// The legacy layout, with a top-level `meta` group.
    V010,
    /// The current layout, with a top-level `events` group.
    V020,
}

/// The event bounds that an opened run file declares, with its schema.
#[derive(Debug, Clone, Copy, PartialEq, Eq, Structural)]
pub struct RunBounds {
    pub version: MergerVersion,
    /// First event index of the run.
    pub min_event: u64,
    /// Bound of the event indices: the last one for the legacy schema, one
    /// past the last for the current schema.
    pub max_event: u64,
}

pub open spec fn meta_name() -> Seq<char> {
    seq!['m', 'e', 't', 'a']
}

pub open spec fn events_name() -> Seq<char> {
    seq!['e', 'v', 'e', 'n', 't', 's']
}

/// Whether `name` is among `names`.
pub open spec fn has_member(names: Seq<String>, name: Seq<char>) -> bool {
    exists|i: int| 0 <= i < names.len() && (#[trigger] names[i])@ == name
}

/// The schema that a file's top-level member names show: `meta` means the
/// legacy schema, failing that `events` means the current one, and anything
/// else is no schema at all.
pub open spec fn version_of(names: Seq<String>) -> Result<MergerVersion, HarmonizeError> {
    if has_member(names, meta_name()) {
        Ok(MergerVersion::V010)
    } else if has_member(names, events_name()) {
        Ok(MergerVersion::V020)
    } else {
        Err(HarmonizeError::InvalidVersion)
    }
}

fn contains_name(names: &Vec<String>, name: &String) -> (r: bool)
    ensures
        r == has_member(names@, name@),
{
    let mut i: usize = 0;
    while i < names.len()
        invariant
            i <= names.len(),
            forall|j: int| 0 <= j < i ==> (#[trigger] names@[j])@ != name@,
        decreases names.len() - i,
    {
        if names[i] == *name {
            return true;
        }
        i = i + 1;
    }
    false
}

/// Classifies a just-opened run file by its top-level member names.
pub fn detect_version(member_names: &Vec<String>) -> (r: Result<MergerVersion, HarmonizeError>)
    ensures
        r == version_of(member_names@),
{
    proof {
        reveal_strlit("meta");
        reveal_strlit("events");
    }
    let meta = String::from_str("meta");
    let events = String::from_str("events");
    assert(meta@ =~= meta_name());
    assert(events@ =~= events_name());
    if contains_name(member_names, &meta) {
        Ok(MergerVersion::V010)
    } else if contains_name(member_names, &events) {
        Ok(MergerVersion::V020)
    } else {
        Err(HarmonizeError::InvalidVersion)
    }
}

/// The bounds of a legacy file, from its three-element metadata array
/// `[min_event, _, max_event]`.
pub fn legacy_bounds(meta: &Vec<u64>) -> (r: Result<RunBounds, HarmonizeError>)
    ensures
        meta@.len() >= 3 <==> r.is_ok(),
        r.is_ok() ==> r == Ok::<RunBounds, HarmonizeError>(
            RunBounds { version: MergerVersion::V010, min_event: meta@[0], max_event: meta@[2] },
        ),
        r.is_err() ==> r == Err::<RunBounds, HarmonizeError>(HarmonizeError::MalformedRecord),
{
    if meta.len() < 3 {
        Err(HarmonizeError::MalformedRecord)
    } else {
        Ok(RunBounds { version: MergerVersion::V010, min_event: meta[0], max_event: meta[2] })
    }
}

} // verus!
