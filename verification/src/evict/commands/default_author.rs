//! `default-author`: shows or sets the author used for new issues.
use vstd::prelude::*;
use crate::text::{opt_view, views};
use crate::evict::config::Config;

verus! {

/// What `default-author` does.
pub struct DefaultAuthorOutcome {
    /// The line to show, if any.
    pub message: Option<String>,
    /// The settings to save, if they change.
    pub save: Option<Config>,
    /// The exit code.
    pub exit: isize,
}

/// The outcome as values: the line to show, the author the saved settings
/// name (when they are saved), and the exit code.
pub open spec fn author_outcome_view(r: DefaultAuthorOutcome) -> (Option<Seq<char>>, Option<Option<Seq<char>>>, int) {
    (opt_view(r.message), match r.save {
        Some(c) => Some(opt_view(c.author)),
        None => None,
    }, r.exit as int)
}

/// What `default-author` does with the arguments `args` when the settings
/// name the author `author`: with no argument it shows the author (or that
/// none is set); with one argument it saves settings naming it; more
/// arguments show the usage (exit code 1).
pub open spec fn default_author_spec(args: Seq<Seq<char>>, author: Option<Seq<char>>) -> (Option<Seq<char>>, Option<Option<Seq<char>>>, int) {
    if args.len() > 1 {
        (Some("default-author usage: evict default-author [new-author]"@), None, 1)
    } else if args.len() == 0 {
        (Some(match author {
            Some(a) => a,
            None => "No author set"@,
        }), None, 0)
    } else {
        (None, Some(Some(args[0])), 0)
    }
}

/// With no argument shows the configured author (or that none is set);
/// with one argument sets it; more arguments show the usage (exit code 1).
pub fn default_author(args: Vec<String>, config: Config) -> (r: DefaultAuthorOutcome)
    ensures
        author_outcome_view(r) == default_author_spec(views(args@), opt_view(config.author)),
{
    let mut args = args;
    if args.len() > 1 {
        DefaultAuthorOutcome {
            message: Some("default-author usage: evict default-author [new-author]".to_owned()),
            save: None,
            exit: 1,
        }
    } else if args.len() == 0 {
        let m = match config.author {
            Some(author) => author,
            None => "No author set".to_owned(),
        };
        DefaultAuthorOutcome { message: Some(m), save: None, exit: 0 }
    } else {
        let author = args.swap_remove(0);
        DefaultAuthorOutcome { message: None, save: Some(Config { author: Some(author) }), exit: 0 }
    }
}

/// The author that `default-author <name>` saves is the one that
/// `default-author` then shows.
pub proof fn law_default_author_set_then_shown(name: Seq<char>, author: Option<Seq<char>>)
    ensures
        default_author_spec(seq![name], author).1 matches Some(saved)
            && default_author_spec(Seq::empty(), saved).0 == Some(name),
{
}

} // verus!
