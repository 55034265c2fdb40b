use vstd::prelude::*;

verus! {

/// The settings of one harmonizing pass.
#[derive(Debug, Clone, Default)]
pub struct Config {
    /// Directory holding the input run files.
    pub merger_path: String,
    /// Directory receiving the output files.
    pub harmonic_path: String,
    /// Size threshold of an output file, in bytes.
    pub harmonic_size: u64,
    /// First run number of the inclusive range.
    pub min_run: i32,
    /// Last run number of the inclusive range.
    pub max_run: i32,
}

impl Config {
    /// The size threshold of an output file, in bytes.
    pub fn get_harmonic_size(&self) -> (r: u64)
        ensures
            r == self.harmonic_size,
    {
        self.harmonic_size
    }
}

} // verus!
