//! Problems, as far as judging reads them.

use vstd::prelude::*;

verus! {

/// One worked example of a problem statement.
#[derive(Debug)]
pub struct Example {
    pub input: String,
    pub output: String,
}

impl Clone for Example {
    fn clone(&self) -> (e: Example)
        ensures
            e.input@ == self.input@,
            e.output@ == self.output@,
    {
        Example { input: self.input.clone(), output: self.output.clone() }
    }
}

/// The statement of a problem.
#[derive(Debug)]
pub struct ProblemContents {
    pub description: Option<String>,
    pub example_count: i32,
    pub examples: Vec<Example>,
}

/// How a problem is judged: whether by a special judge, its limits for the
/// two tiers of languages, and whether the output of a run is kept back.
#[derive(Debug, Clone, Copy, PartialEq, Eq, Structural)]
pub struct ProblemSettings {
    pub is_spj: bool,
    pub high_performance_max_cpu_time: i32,
    pub high_performance_max_memory: i32,
    pub other_max_cpu_time: i32,
    pub other_max_memory: i32,
    pub opaque_output: bool,
    pub test_case_count: Option<i32>,
}

/// What became of one problem of a batch that was to be created.
#[derive(Debug)]
pub struct CreateProblemsResult {
    pub title: String,
    pub is_success: bool,
    pub id: Option<i32>,
}

} // verus!
