//! `create`: reports a new issue on the current branch.
use vstd::prelude::*;
use crate::text::{views, opt_view};
use crate::issue::{Issue, IssueView, IssueStatus, default_status_view};
use crate::selection::issue_views;
use crate::file_manager::committableIssueFilename;
use crate::evict::commands::create::{CreatePlan, create_args, body_source_spec, body_source_view, create_issue};

verus! {

/// What `create` does for the arguments `args`: the title and author they
/// give (`--title`, `--author`), and where the body comes from (the editor
/// unless `--no-body` or `--body-file <file>`). Storing the issue then
/// follows `creationStep`.
pub fn createIssue(args: Vec<String>) -> (r: CreatePlan)
    ensures
        opt_view(r.title) == create_args(views(args@)).1.title,
        opt_view(r.author) == create_args(views(args@)).1.author,
        body_source_view(r.body) == body_source_spec(create_args(views(args@)).1),
{
    create_issue(args)
}

/// The new issue with the id `ident`: its title, body (`None`: no body, an
/// empty one) and author, created now with the unknown status on the branch
/// `branch` (`None`: not known).
pub fn doIssueCreation(title: String, author: String, body: Option<String>, ident: String, branch: Option<String>) -> (r: Issue)
    ensures
        r.title@ == title@,
        r.author@ == author@,
        r.bodyText@ == (match body {
            Some(b) => b@,
            None => Seq::empty(),
        }),
        r.id@ == ident@,
        r.branch@ == (match branch {
            Some(b) => b@,
            None => "<unknown>"@,
        }),
        r.comments@.len() == 0,
        r.status@ == default_status_view(),
{
    let text = match body {
        Some(b) => b,
        None => String::new(),
    };
    Issue::new(title, text, author, ident, branch)
}

/// The branch's issues with the new issue added at the end.
pub fn writeIssue(committable: Vec<Issue>, issue: Issue) -> (r: Vec<Issue>)
    ensures
        issue_views(r@) == issue_views(committable@).push(issue@),
{
    let mut committable = committable;
    let ghost before = issue_views(committable@);
    committable.push(issue);
    assert(issue_views(committable@) =~= before.push(issue@));
    committable
}

/// What happened last while storing a new issue.
pub enum CreateEvent {
    /// The body file could not be read.
    BodyUnread,
    /// The issue was made; the current branch (`None`: not known).
    Made(Option<String>),
    /// The branch's stored issues were read; the branch, those issues and
    /// the new issue.
    Read(String, Vec<Issue>, Issue),
    /// Writing the branch's issue file succeeded or failed; the new issue's
    /// id.
    Written(String, bool),
}

/// What storing a new issue does next.
pub enum CreateAction {
    /// Read the stored issues of this branch.
    ReadIssues(String),
    /// Write these issues to this file.
    Write(String, Vec<Issue>),
    /// Show the line and stop with the exit code.
    Finish(String, isize),
}

/// The next step of storing a new issue on the current branch: an
/// unreadable body file or an unknown branch stop it with exit code 1 and
/// nothing written; else the issue goes at the end of the branch's issues,
/// which are written to the branch's file, and the exit code is 0 when
/// that succeeded, 1 otherwise.
pub fn creationStep(event: CreateEvent) -> (r: CreateAction)
    ensures
        match event {
            CreateEvent::BodyUnread => r matches CreateAction::Finish(m, c) && m@ == "Could not open body file."@ && c == 1,
            CreateEvent::Made(None) => r matches CreateAction::Finish(m, c)
                && m@ == "Could determine current branch.  Is there an active VCS for this directory?"@ && c == 1,
            CreateEvent::Made(Some(b)) => r matches CreateAction::ReadIssues(x) && x@ == b@,
            CreateEvent::Read(b, committable, issue) => r matches CreateAction::Write(f, v)
                && f@ == ".evict/"@ + b@ + ".ebtdlocal"@
                && issue_views(v@) == issue_views(committable@).push(issue@),
            CreateEvent::Written(id, true) => r matches CreateAction::Finish(m, c) && m@ == "Issue "@ + id@ + " created."@ && c == 0,
            CreateEvent::Written(_, false) => r matches CreateAction::Finish(m, c) && m@ == "Could not write issue to file."@ && c == 1,
        },
{
    match event {
        CreateEvent::BodyUnread => CreateAction::Finish("Could not open body file.".to_owned(), 1),
        CreateEvent::Made(None) => CreateAction::Finish(
            "Could determine current branch.  Is there an active VCS for this directory?".to_owned(),
            1,
        ),
        CreateEvent::Made(Some(b)) => CreateAction::ReadIssues(b),
        CreateEvent::Read(b, committable, issue) => {
            let file = committableIssueFilename(b.as_str());
            CreateAction::Write(file, writeIssue(committable, issue))
        },
        CreateEvent::Written(id, true) => {
            let mut m = "Issue ".to_owned();
            m.append(id.as_str());
            m.append(" created.");
            CreateAction::Finish(m, 0)
        },
        CreateEvent::Written(_, false) => CreateAction::Finish("Could not write issue to file.".to_owned(), 1),
    }
}

} // verus!
