//! The current branch, from what git prints.
use vstd::prelude::*;
use crate::text::{lines, lines_spec, views, opt_view};

verus! {

/// The version control systems the tracker knows.
pub enum VCS {
    Git,
}

/// The version control system in use: always git.
pub fn currentVCS() -> (r: VCS)
    ensures
        r == VCS::Git,
{
    VCS::Git
}

/// The branch named by the first line of `output`, unless that line is
/// empty or there is none.
pub open spec fn branch_of(output: Seq<char>) -> Option<Seq<char>> {
    let ls = lines_spec(output);
    if ls.len() == 0 || ls[0].len() == 0 {
        None
    } else {
        Some(ls[0])
    }
}

/// The current branch from what `git rev-parse --abbrev-ref HEAD` printed.
pub fn currentBranch(output: String) -> (r: Option<String>)
    ensures
        opt_view(r) == branch_of(output@),
{
    let ls = lines(output.as_str());
    let mut line = String::new();
    if ls.len() > 0 {
        assert(views(ls@)[0] == ls@[0]@);
        line = ls[0].clone();
    }
    if line.unicode_len() == 0 {
        None
    } else {
        Some(line)
    }
}

} // verus!
