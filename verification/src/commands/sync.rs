//! `sync`: merges the committed issues and those of the current branch.
use vstd::prelude::*;
use crate::issue::Issue;
use crate::merge::{mergeIssues, merged_lists, comment_stamps_in_range};

verus! {

/// What happened last while syncing.
pub enum SyncEvent {
    /// The command started; the current branch (`None`: not known).
    Start(Option<String>),
    /// The committed issues and the branch's issues were read.
    Read(Vec<Issue>, Vec<Issue>),
    /// Writing the branch's issues and the committed issues succeeded or
    /// failed.
    Written(bool, bool),
}

/// What syncing does next.
pub enum SyncAction {
    /// Read the committed issues and those of this branch.
    ReadIssues(String),
    /// Write these issues as the branch's issues and as the committed ones.
    Write(Vec<Issue>),
    /// Stop with this exit code.
    Exit(isize),
}

/// The next step of `sync`: without a current branch exit code 2; else
/// read, merge the committed issues into the branch's (see `mergeIssues`),
/// write both, and exit with 0 when both writes succeeded, 1 otherwise.
pub fn syncIssues(event: SyncEvent) -> (r: SyncAction)
    requires
        event matches SyncEvent::Read(inc, into) ==> (forall|i: int| 0 <= i < inc@.len() ==> comment_stamps_in_range(#[trigger] inc@[i]))
            && (forall|i: int| 0 <= i < into@.len() ==> comment_stamps_in_range(#[trigger] into@[i])),
    ensures
        match event {
            SyncEvent::Start(None) => r == SyncAction::Exit(2),
            SyncEvent::Start(Some(b)) => r matches SyncAction::ReadIssues(x) && x@ == b@,
            SyncEvent::Read(inc, into) => r matches SyncAction::Write(m) && merged_lists(m@, inc@, into@),
            SyncEvent::Written(s1, s2) => r == SyncAction::Exit(if s1 && s2 { 0isize } else { 1isize }),
        },
{
    match event {
        SyncEvent::Start(None) => SyncAction::Exit(2),
        SyncEvent::Start(Some(branch)) => SyncAction::ReadIssues(branch),
        SyncEvent::Read(incoming, mergeInto) => SyncAction::Write(mergeIssues(incoming, mergeInto)),
        SyncEvent::Written(success1, success2) => if success1 && success2 {
            SyncAction::Exit(0)
        } else {
            SyncAction::Exit(1)
        },
    }
}

} // verus!
