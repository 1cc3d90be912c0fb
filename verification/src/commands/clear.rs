//! `clear`: removes all the tracker's data, after asking.
use vstd::prelude::*;
use crate::text::str_eq;

verus! {

/// What happened last while clearing.
pub enum ClearEvent {
    /// The command started; the tracker's directory as a full path.
    Start(String),
    /// The user answered the question.
    Answered(String),
    /// Removing the directory succeeded or failed.
    Removed(bool),
}

/// What clearing does next.
pub enum ClearAction {
    /// Ask the user this question.
    Ask(String),
    /// Remove the tracker's directory and all in it.
    RemoveAll,
    /// Stop with this exit code.
    Exit(isize),
}

/// The next step of `clear`: ask, and remove only on the answer `y`.
pub fn clearData(event: ClearEvent) -> (r: ClearAction)
    ensures
        match event {
            ClearEvent::Start(p) => r matches ClearAction::Ask(q) && q@ == "Really clear everything from "@ + p@ + "? [y/n]"@,
            ClearEvent::Answered(a) => if a@ == "y"@ {
                r is RemoveAll
            } else {
                r == ClearAction::Exit(0)
            },
            ClearEvent::Removed(ok) => r == ClearAction::Exit(if ok { 0isize } else { 1isize }),
        },
{
    match event {
        ClearEvent::Start(p) => {
            let mut q = "Really clear everything from ".to_owned();
            q.append(p.as_str());
            q.append("? [y/n]");
            ClearAction::Ask(q)
        },
        ClearEvent::Answered(a) => if str_eq(a.as_str(), "y") {
            ClearAction::RemoveAll
        } else {
            ClearAction::Exit(0)
        },
        ClearEvent::Removed(delResult) => if delResult {
            ClearAction::Exit(0)
        } else {
            ClearAction::Exit(1)
        },
    }
}

} // verus!
