//! `default-author`: shows or sets the author used for new issues.
use vstd::prelude::*;
use crate::text::opt_view;
use crate::config::Config;

verus! {

/// What `default-author` does.
pub struct DefaultAuthorOutcome {
    /// The line to show, if any.
    pub message: Option<String>,
    /// The settings to save, if they change.
    pub save: Option<Config>,
    /// The exit code.
    pub exit: isize,
}

/// With no argument shows the configured author (or that none is set);
/// with one argument sets it; more arguments show the usage (exit code 1).
pub fn defaultAuthor(args: Vec<String>, config: Config) -> (r: DefaultAuthorOutcome)
    ensures
        args@.len() > 1 ==> r.exit == 1 && r.save is None
            && opt_view(r.message) == Some("default-author usage: evict default-author [new-author]"@),
        args@.len() == 0 ==> r.exit == 0 && r.save is None && opt_view(r.message) == Some(match config.author {
            Some(a) => a@,
            None => "No author set"@,
        }),
        args@.len() == 1 ==> r.exit == 0 && r.message is None
            && (r.save matches Some(c) && opt_view(c.author) == Some(args@[0]@)),
{
    if args.len() > 1 {
        DefaultAuthorOutcome {
            message: Some("default-author usage: evict default-author [new-author]".to_owned()),
            save: None,
            exit: 1,
        }
    } else if args.len() == 0 {
        let m = match config.author {
            Some(author) => author,
            None => "No author set".to_owned(),
        };
        DefaultAuthorOutcome { message: Some(m), save: None, exit: 0 }
    } else {
        DefaultAuthorOutcome { message: None, save: Some(Config { author: Some(args[0].clone()) }), exit: 0 }
    }
}

} // verus!
