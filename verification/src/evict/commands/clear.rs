//! `clear`: removes all the tracker's data, after asking.
use vstd::prelude::*;
use crate::text::str_eq;

verus! {

/// What happened last while clearing.
pub enum ClearEvent {
    /// The command started; the tracker's directory as a full path (`None`:
    /// it does not exist).
    Start(Option<String>),
    /// The user answered the question.
    Answered(String),
    /// Removing the directory succeeded or failed.
    Removed(bool),
}

/// What clearing does next.
pub enum ClearAction {
    /// Ask the user this question.
    Ask(String),
    /// Remove the tracker's directory and all in it.
    RemoveAll,
    /// Show this line and stop with this exit code.
    Finish(String, isize),
}

/// The next step of `clear`: ask before removing anything, remove only on
/// the answer `y`.
pub fn clear_data(event: ClearEvent) -> (r: ClearAction)
    ensures
        match event {
            ClearEvent::Start(None) => r matches ClearAction::Finish(m, c) && m@ == "Evict directory does not exist"@ && c == 2,
            ClearEvent::Start(Some(p)) => r matches ClearAction::Ask(q) && q@ == "Really clear everything from "@ + p@ + "? [y/n]"@,
            ClearEvent::Answered(a) => if a@ == "y"@ {
                r is RemoveAll
            } else {
                r matches ClearAction::Finish(m, c) && m@ == "Aborting."@ && c == 0
            },
            ClearEvent::Removed(true) => r matches ClearAction::Finish(m, c) && m@ == "All Evict-BT info has been cleared"@ && c == 0,
            ClearEvent::Removed(false) => r matches ClearAction::Finish(m, c) && m@ == "Could not clear info."@ && c == 1,
        },
{
    match event {
        ClearEvent::Start(None) => ClearAction::Finish("Evict directory does not exist".to_owned(), 2),
        ClearEvent::Start(Some(p)) => {
            let mut q = "Really clear everything from ".to_owned();
            q.append(p.as_str());
            q.append("? [y/n]");
            ClearAction::Ask(q)
        },
        ClearEvent::Answered(a) => if str_eq(a.as_str(), "y") {
            ClearAction::RemoveAll
        } else {
            ClearAction::Finish("Aborting.".to_owned(), 0)
        },
        ClearEvent::Removed(success) => if success {
            ClearAction::Finish("All Evict-BT info has been cleared".to_owned(), 0)
        } else {
            ClearAction::Finish("Could not clear info.".to_owned(), 1)
        },
    }
}

} // verus!
