//! Per-copy outcomes and the order-preserving collection of a whole batch.
//!
//! Executing a copy is I/O and happens outside the library; each copy's raw
//! result — the number of bytes written, or the cause of its failure — comes
//! back as a plain value, tagged by its submission position. The library
//! pairs those results with their tasks so that the outcome at position `i`
//! always belongs to the task at position `i`, however the copies' actual
//! completions interleaved, and so that one failed copy never disturbs its
//! siblings' outcomes.

use vstd::prelude::*;

use crate::diff::CopyTask;

verus! {

/// The raw result of one copy handed back by the caller: bytes written on
/// success, or the failure's cause.
pub open spec fn result_view(r: Result<u64, String>) -> Result<u64, Seq<char>> {
    match r {
        Ok(bytes) => Ok(bytes),
        Err(cause) => Err(cause@),
    }
}

/// The realized result of executing one copy task: the two paths, and either
/// the number of bytes copied or the failure's cause.
#[derive(Debug)]
pub struct CopyResult {
    src: String,
    dst: String,
    copy_result: Result<u64, String>,
}

impl CopyResult {
    /// The path the copy read from.
    pub closed spec fn spec_src(&self) -> Seq<char> {
        self.src@
    }

    /// The path the copy wrote to.
    pub closed spec fn spec_dst(&self) -> Seq<char> {
        self.dst@
    }

    /// Bytes copied on success, or the failure's cause.
    pub closed spec fn spec_outcome(&self) -> Result<u64, Seq<char>> {
        result_view(self.copy_result)
    }

    pub fn new(src: String, dst: String, copy_result: Result<u64, String>) -> (r: Self)
        ensures
            r.spec_src() == src@,
            r.spec_dst() == dst@,
            r.spec_outcome() == result_view(copy_result),
    {
        CopyResult { src, dst, copy_result }
    }

    /// The path the copy read from.
    pub fn src_str(&self) -> (r: &str)
        ensures
            r@ == self.spec_src(),
    {
        self.src.as_str()
    }

    /// The path the copy wrote to.
    pub fn dst_str(&self) -> (r: &str)
        ensures
            r@ == self.spec_dst(),
    {
        self.dst.as_str()
    }

    /// The raw result the copy ended with.
    pub fn outcome_ref(&self) -> (r: &Result<u64, String>)
        ensures
            result_view(*r) == self.spec_outcome(),
    {
        &self.copy_result
    }

    pub fn is_ok(&self) -> (r: bool)
        ensures
            r == self.spec_outcome() is Ok,
    {
        self.copy_result.is_ok()
    }

    pub fn is_err(&self) -> (r: bool)
        ensures
            r == self.spec_outcome() is Err,
    {
        self.copy_result.is_err()
    }
}

/// Whether an outcome reports what the caller's raw result said about the
/// task at the same position: the task's two paths, and byte count or cause
/// unchanged.
pub open spec fn outcome_matches(o: CopyResult, t: CopyTask, r: Result<u64, Seq<char>>) -> bool {
    &&& o.spec_src() == t.source_path@
    &&& o.spec_dst() == t.destination_path@
    &&& o.spec_outcome() == r
}

/// Pair every task with its own raw result, in submission order: the outcome
/// at position `i` describes the task at position `i`, whatever order the
/// copies completed in, and a failure at one position leaves every other
/// position's outcome intact.
pub fn assemble_outcomes(tasks: &Vec<CopyTask>, results: Vec<Result<u64, String>>) -> (outcomes:
    Vec<CopyResult>)
    requires
        results@.len() == tasks@.len(),
    ensures
        outcomes@.len() == tasks@.len(),
        forall|i: int|
            0 <= i < tasks@.len() ==> outcome_matches(
                #[trigger] outcomes@[i],
                tasks@[i],
                result_view(results@[i]),
            ),
{
    let mut outcomes: Vec<CopyResult> = Vec::new();
    let n = tasks.len();
    let mut i: usize = 0;
    while i < n
        invariant
            n == tasks@.len(),
            results@.len() == tasks@.len(),
            i <= n,
            outcomes@.len() == i,
            forall|j: int|
                0 <= j < i ==> outcome_matches(
                    #[trigger] outcomes@[j],
                    tasks@[j],
                    result_view(results@[j]),
                ),
        decreases n - i,
    {
        let task = &tasks[i];
        let raw = match &results[i] {
            Ok(bytes) => Ok(*bytes),
            Err(cause) => Err(cause.clone()),
        };
        let outcome = CopyResult::new(task.source_path.clone(), task.destination_path.clone(), raw);
        outcomes.push(outcome);
        i = i + 1;
    }
    outcomes
}

} // verus!
