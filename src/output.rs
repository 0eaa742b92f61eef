//! What running one benchmark case gave.

use vstd::prelude::*;

verus! {

/// Times measured by one run, in nanoseconds.
#[derive(Debug, Clone, Copy, PartialEq, Eq, Structural)]
pub struct Timings {
    /// Time of the whole process.
    pub execution: u128,
    /// Time of the warmup iterations.
    pub warmup: u128,
    /// Time of the benchmark iterations.
    pub benchmark: u128,
}

/// The outcome of running one case: whether it succeeded, its log, and the
/// timings it reported.
#[derive(Debug)]
pub struct Output {
    /// Whether the run succeeded.
    success: bool,
    /// Everything the run printed, or why it failed.
    log: String,
    /// Timings, on success.
    timings: Option<Timings>,
}

impl Output {
    /// Whether the run succeeded.
    pub closed spec fn succeeded(&self) -> bool {
        self.success
    }

    /// The log of the run.
    pub closed spec fn log_text(&self) -> Seq<char> {
        self.log@
    }

    /// The timings recorded, if any.
    pub closed spec fn recorded(&self) -> Option<Timings> {
        self.timings
    }

    /// A successful run with its log and timings.
    pub fn success(log: String, timings: Timings) -> (r: Output)
        ensures
            r.succeeded(),
            r.log_text() == log@,
            r.recorded() == Some(timings),
    {
        Output { success: true, log, timings: Some(timings) }
    }

    /// A run for which no implementation file was found.
    pub fn implementation_not_found() -> (r: Output)
        ensures
            !r.succeeded(),
            r.log_text() == "Implementation not found."@,
            r.recorded() is None,
    {
        Output::failure("Implementation not found.")
    }

    /// A failed run, with what went wrong.
    pub fn failure(error: &str) -> (r: Output)
        ensures
            !r.succeeded(),
            r.log_text() == error@,
            r.recorded() is None,
    {
        Output { success: false, log: error.to_owned(), timings: None }
    }

    /// The log of the run.
    pub fn log(&self) -> (r: &str)
        ensures
            r@ == self.log_text(),
    {
        self.log.as_str()
    }

    /// The timings, when the run succeeded.
    pub fn timings(&self) -> (r: Option<Timings>)
        ensures
            r == if self.succeeded() {
                self.recorded()
            } else {
                None
            },
    {
        if self.success {
            self.timings
        } else {
            None
        }
    }
}

} // verus!
