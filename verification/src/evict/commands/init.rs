//! `init`: sets up the tracker's directory in a repository.
use vstd::prelude::*;
use crate::evict::status_storage::{StatusOption, option_names};

verus! {

/// The next thing `init` does.
pub enum InitStep {
    /// Create the tracker's directory.
    CreateEvictDir,
    /// Store these status options.
    WriteStatusOptions(Vec<StatusOption>),
    /// Store this default status.
    WriteDefaultStatus(StatusOption),
    /// Create the directory of issue directories.
    CreateIssueDir,
    /// Stop with this exit code.
    Done(isize),
}

/// The status options a new tracker has: `open` (the default) and `closed`.
pub open spec fn initial_options() -> Seq<Seq<char>> {
    seq!["open"@, "closed"@]
}

/// The number of steps from `k` on that succeeded in a row, counted from
/// the start and at most four.
pub open spec fn steps_done(done: Seq<bool>, k: int) -> int
    decreases 4 - k,
{
    if k >= 4 || k >= done.len() || k < 0 || !done[k] {
        k
    } else {
        steps_done(done, k + 1)
    }
}

/// What `init` does next, given the outcomes of the steps done so far, in
/// order: create the tracker's directory, store the status options `open`
/// and `closed`, make `open` the default, create the issue directory. The
/// first step that fails stops it with exit code 4, 3, 2 or 1; after all
/// four it stops with exit code 0.
pub fn initialize(done: &Vec<bool>) -> (r: InitStep)
    ensures
        ({
            let p = steps_done(done@, 0);
            if p < done@.len() && p < 4 {
                r matches InitStep::Done(c) && c == 4 - p
            } else if p == 0 {
                r is CreateEvictDir
            } else if p == 1 {
                r matches InitStep::WriteStatusOptions(v) && option_names(v@) == initial_options()
            } else if p == 2 {
                r matches InitStep::WriteDefaultStatus(o) && o.name@ == "open"@
            } else if p == 3 {
                r is CreateIssueDir
            } else {
                r matches InitStep::Done(c) && c == 0
            }
        }),
{
    let mut k: usize = 0;
    while k < done.len() && k < 4
        invariant
            k <= done@.len(),
            k <= 4,
            steps_done(done@, 0) == steps_done(done@, k as int),
        decreases done@.len() - k,
    {
        if !done[k] {
            return InitStep::Done(4 - k as isize);
        }
        k = k + 1;
    }
    if k == 0 {
        InitStep::CreateEvictDir
    } else if k == 1 {
        let defaultStatus = StatusOption { name: "open".to_owned() };
        let statusOpts = vec![defaultStatus.clone(), StatusOption { name: "closed".to_owned() }];
        assert(option_names(statusOpts@) =~= initial_options());
        InitStep::WriteStatusOptions(statusOpts)
    } else if k == 2 {
        InitStep::WriteDefaultStatus(StatusOption { name: "open".to_owned() })
    } else if k == 3 {
        InitStep::CreateIssueDir
    } else {
        InitStep::Done(0)
    }
}

} // verus!
