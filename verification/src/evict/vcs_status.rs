//! What the version control system says about the working copy.
use vstd::prelude::*;
use crate::text::{lines, lines_spec, views, opt_view};

verus! {

/// The version control systems the tracker knows.
pub enum VCS {
    Git,
}

impl VCS {
    /// The version control system in use: always git.
    pub fn current() -> (r: VCS)
        ensures
            r == VCS::Git,
    {
        VCS::Git
    }
}

/// The first line of `s`, if it has one.
pub open spec fn first_line(s: Seq<char>) -> Option<Seq<char>> {
    if lines_spec(s).len() == 0 {
        None
    } else {
        Some(lines_spec(s)[0])
    }
}

/// The first line of `grab_from`, if it has one.
pub fn grab_first_line(grab_from: String) -> (r: Option<String>)
    ensures
        opt_view(r) == first_line(grab_from@),
{
    let mut ls = lines(grab_from.as_str());
    if ls.len() == 0 {
        None
    } else {
        assert(views(ls@)[0] == ls@[0]@);
        Some(ls.swap_remove(0))
    }
}

/// The current branch from what `git rev-parse --abbrev-ref HEAD` printed
/// (`None`: the command could not be run or printed no text): its first line.
pub fn current_branch(output: Option<String>) -> (r: Option<String>)
    ensures
        opt_view(r) == (match output {
            Some(o) => first_line(o@),
            None => None,
        }),
{
    match output {
        Some(o) => grab_first_line(o),
        None => None,
    }
}

} // verus!
