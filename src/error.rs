use vstd::prelude::*;

verus! {

/// The ways in which an operation of the engine can fail.
#[derive(Debug, Clone, Copy, PartialEq, Eq, Structural)]
pub enum Error {
    /// A uniform variate outside `[0, 1]` was given to the sampler.
    Domain,
    /// A task has `min == max`, `min > mode` or `mode > max`.
    DegenerateDistribution,
    /// A sample count of zero, or an empty series.
    EmptySample,
    /// A bucket count below one.
    InvalidBucketCount,
    /// A percentile count below two.
    InvalidPercentileCount,
    /// A task table without a header line.
    MissingHeader,
    /// A header line without the name, min, mode and max columns.
    InvalidHeader,
    /// A task row with fewer cells than the header's columns require.
    MissingField,
}

/// The text that `Error::message` gives for each error.
pub open spec fn message_of(e: Error) -> Seq<char> {
    match e {
        Error::Domain => "probability outside [0, 1]"@,
        Error::DegenerateDistribution => "degenerate distribution: need min <= mode <= max and min < max"@,
        Error::EmptySample => "sample count must be at least one"@,
        Error::InvalidBucketCount => "bucket count must be at least one"@,
        Error::InvalidPercentileCount => "percentile count must be at least two"@,
        Error::MissingHeader => "no header line found"@,
        Error::InvalidHeader => "invalid header"@,
        Error::MissingField => "task row lacks a required cell"@,
    }
}

impl Error {
    /// A human-readable description of the error.
    pub fn message(&self) -> (r: &'static str)
        ensures
            r@ == message_of(*self),
    {
        match self {
            Error::Domain => "probability outside [0, 1]",
            Error::DegenerateDistribution => "degenerate distribution: need min <= mode <= max and min < max",
            Error::EmptySample => "sample count must be at least one",
            Error::InvalidBucketCount => "bucket count must be at least one",
            Error::InvalidPercentileCount => "percentile count must be at least two",
            Error::MissingHeader => "no header line found",
            Error::InvalidHeader => "invalid header",
            Error::MissingField => "task row lacks a required cell",
        }
    }
}

} // verus!
