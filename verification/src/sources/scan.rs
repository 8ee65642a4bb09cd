//! How a scan is laid out as a pipeline of stages, and what the ends of the
//! stages mean for the scan as a whole.

use vstd::prelude::*;
use vstd::string::*;

verus! {

/// How many readers work side by side.
pub const READ_PARALLELISM: usize = 8;

/// How many classified items may wait for a reader.
pub const MATCHED_CAPACITY: usize = 256;

/// How many batches may wait for the writer.
pub const EMBEDDED_CAPACITY: usize = 8;

/// The stages of a scan.
#[derive(Debug, Clone, Copy, PartialEq, Eq, Structural)]
pub enum Stage {
    Scanner,
    Reconciler,
    Reader,
    Embedder,
    Writer,
}

impl Stage {
    /// The place of a stage in the order in which the stages are waited
    /// for: the writer first and the scanner last, against the flow of the
    /// items.
    pub open spec fn join_rank(self) -> int {
        match self {
            Stage::Writer => 0,
            Stage::Embedder => 1,
            Stage::Reader => 2,
            Stage::Reconciler => 3,
            Stage::Scanner => 4,
        }
    }

    pub fn join_position(&self) -> (r: u8)
        ensures
            r == self.join_rank(),
    {
        match self {
            Stage::Writer => 0,
            Stage::Embedder => 1,
            Stage::Reader => 2,
            Stage::Reconciler => 3,
            Stage::Scanner => 4,
        }
    }

    /// The name under which a stage's failure is logged.
    pub fn name(&self) -> (s: String)
        ensures
            s@ == match *self {
                Stage::Writer => "db_writer"@,
                Stage::Embedder => "encoding task"@,
                Stage::Reader => "read_items"@,
                Stage::Reconciler => "db_lookup"@,
                Stage::Scanner => "scanner"@,
            },
    {
        match self {
            Stage::Writer => String::from_str("db_writer"),
            Stage::Embedder => String::from_str("encoding task"),
            Stage::Reader => String::from_str("read_items"),
            Stage::Reconciler => String::from_str("db_lookup"),
            Stage::Scanner => String::from_str("scanner"),
        }
    }
}

/// How one worker of a stage ended: well, or with a failure.
#[derive(Debug, Clone, PartialEq, Eq)]
pub struct StageEnd {
    pub stage: Stage,
    pub failure: Option<String>,
}

/// The failure that decides the end of a scan: among the first `n` ends,
/// that of the failed worker that is waited for first; among workers of one
/// stage, the first in `ends`.
pub open spec fn deciding_failure(ends: Seq<StageEnd>, n: int) -> Option<int>
    decreases n,
{
    if n <= 0 {
        None
    } else {
        let before = deciding_failure(ends, n - 1);
        if ends[n - 1].failure is None {
            before
        } else {
            match before {
                Some(i) if ends[i].stage.join_rank() <= ends[n - 1].stage.join_rank() => before,
                _ => Some(n - 1),
            }
        }
    }
}

/// A scan succeeds exactly if no worker failed.
pub proof fn lemma_scan_succeeds_iff_no_failure(ends: Seq<StageEnd>, n: int)
    requires
        0 <= n <= ends.len(),
    ensures
        deciding_failure(ends, n) is None <==> forall|i: int|
            0 <= i < n ==> (#[trigger] ends[i]).failure is None,
        deciding_failure(ends, n) matches Some(i) ==> 0 <= i < n && ends[i].failure is Some,
    decreases n,
{
    if n > 0 {
        lemma_scan_succeeds_iff_no_failure(ends, n - 1);
    }
}

/// The end of a scan, from the ends of its workers: success where none
/// failed, and else the stage and the message of the failure that decides.
pub fn scan_result(ends: Vec<StageEnd>) -> (r: Result<(), StageEnd>)
    ensures
        match deciding_failure(ends@, ends@.len() as int) {
            None => r is Ok,
            Some(i) => r matches Err(end) && end == ends@[i],
        },
        r is Ok <==> forall|i: int| 0 <= i < ends@.len() ==> (#[trigger] ends@[i]).failure is None,
{
    let mut worst: Option<StageEnd> = None;
    let ghost all = ends@;
    for end in it: ends
        invariant
            it.seq() == all,
            match deciding_failure(all, it.index() as int) {
                None => worst is None,
                Some(i) => worst == Some(all[i]),
            },
    {
        if end.failure.is_some() {
            let replace = match &worst {
                Some(w) => w.stage.join_position() > end.stage.join_position(),
                None => true,
            };
            if replace {
                worst = Some(end);
            }
        }
    }
    proof {
        lemma_scan_succeeds_iff_no_failure(all, all.len() as int);
    }
    match worst {
        Some(end) => Err(end),
        None => Ok(()),
    }
}

} // verus!
