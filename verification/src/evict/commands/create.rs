//! `create`: reports a new issue.
use vstd::prelude::*;
use crate::text::{views, opt_view, str_eq};
use crate::fsm::{Executor, NextState, StateMachine};
use crate::evict::issue::{Issue, IssueView, IssueStatus, unknown_branch};
use crate::evict::selection::issue_views;

verus! {

/// The file that the editor opens for the body of a new issue.
pub const DEFAULT_ISSUE_BODY_FILE: &'static str = "ISSUE_MSG";

/// The options of `create`.
pub struct CreateFlags {
    /// Whether the issue gets a body (`--no-body` says no).
    pub hasBody: bool,
    /// A file to read the body from (`--body-file <file>`).
    pub bodyFile: Option<String>,
    /// The title (`--title <title>`).
    pub title: Option<String>,
    /// The author (`--author <name>`).
    pub author: Option<String>,
}

/// The options of `create` as values.
pub struct CreateFlagsView {
    pub has_body: bool,
    pub body_file: Option<Seq<char>>,
    pub title: Option<Seq<char>>,
    pub author: Option<Seq<char>>,
}

impl View for CreateFlags {
    type V = CreateFlagsView;

    open spec fn view(&self) -> CreateFlagsView {
        CreateFlagsView {
            has_body: self.hasBody,
            body_file: opt_view(self.bodyFile),
            title: opt_view(self.title),
            author: opt_view(self.author),
        }
    }
}

/// What the next argument of `create` is read as.
#[derive(Clone, Copy, PartialEq, Eq, Structural)]
pub enum CreateHandler {
    Std,
    GetBodyFile,
    GetTitle,
    GetAuthor,
}

/// One argument read by the handler `h`. Unknown arguments are ignored.
pub open spec fn create_step(h: CreateHandler, f: CreateFlagsView, a: Seq<char>) -> (CreateHandler, CreateFlagsView) {
    match h {
        CreateHandler::Std => if a == "--no-body"@ {
            (CreateHandler::Std, CreateFlagsView { has_body: false, ..f })
        } else if a == "--body-file"@ {
            (CreateHandler::GetBodyFile, f)
        } else if a == "--title"@ {
            (CreateHandler::GetTitle, f)
        } else if a == "--author"@ {
            (CreateHandler::GetAuthor, f)
        } else {
            (CreateHandler::Std, f)
        },
        CreateHandler::GetBodyFile => (CreateHandler::Std, CreateFlagsView { body_file: Some(a), ..f }),
        CreateHandler::GetTitle => (CreateHandler::Std, CreateFlagsView { title: Some(a), ..f }),
        CreateHandler::GetAuthor => (CreateHandler::Std, CreateFlagsView { author: Some(a), ..f }),
    }
}

/// The handler and the options after the arguments `args`.
pub open spec fn create_args(args: Seq<Seq<char>>) -> (CreateHandler, CreateFlagsView)
    decreases args.len(),
{
    if args.len() == 0 {
        (CreateHandler::Std, CreateFlagsView { has_body: true, body_file: None, title: None, author: None })
    } else {
        let (h, f) = create_args(args.drop_last());
        create_step(h, f, args.last())
    }
}

impl Executor<CreateFlags, String> for CreateHandler {
    open spec fn next(&self, state: CreateFlags, input: String, r: NextState<CreateFlags, CreateHandler>) -> bool {
        let (h, f) = create_step(*self, state@, input@);
        match r {
            NextState::ChangeState(e, s) => e == h && s@ == f,
            NextState::Continue(s) => *self == h && s@ == f,
            NextState::End(_) => false,
        }
    }

    fn execute(&self, state: CreateFlags, input: String) -> (r: NextState<CreateFlags, CreateHandler>) {
        let mut flags = state;
        match self {
            CreateHandler::Std => {
                if str_eq(input.as_str(), "--no-body") {
                    flags.hasBody = false;
                    NextState::Continue(flags)
                } else if str_eq(input.as_str(), "--body-file") {
                    NextState::ChangeState(CreateHandler::GetBodyFile, flags)
                } else if str_eq(input.as_str(), "--title") {
                    NextState::ChangeState(CreateHandler::GetTitle, flags)
                } else if str_eq(input.as_str(), "--author") {
                    NextState::ChangeState(CreateHandler::GetAuthor, flags)
                } else {
                    NextState::Continue(flags)
                }
            },
            CreateHandler::GetBodyFile => {
                flags.bodyFile = Some(input);
                NextState::ChangeState(CreateHandler::Std, flags)
            },
            CreateHandler::GetTitle => {
                flags.title = Some(input);
                NextState::ChangeState(CreateHandler::Std, flags)
            },
            CreateHandler::GetAuthor => {
                flags.author = Some(input);
                NextState::ChangeState(CreateHandler::Std, flags)
            },
        }
    }
}

/// The options given by the arguments of `create`.
pub fn create_flags(args: Vec<String>) -> (r: CreateFlags)
    ensures
        r@ == create_args(views(args@)).1,
{
    let init = CreateFlags { hasBody: true, bodyFile: None, title: None, author: None };
    let mut stateMachine = StateMachine::new(CreateHandler::Std, init);
    let ghost a = views(args@);
    assert(a.take(0) =~= Seq::<Seq<char>>::empty());
    let mut i: usize = 0;
    while i < args.len()
        invariant
            a == views(args@),
            i <= args@.len(),
            stateMachine.executor() == Some(create_args(a.take(i as int)).0),
            stateMachine.state() matches Some(s) && s@ == create_args(a.take(i as int)).1,
        decreases args@.len() - i,
    {
        let ghost e = stateMachine.executor().unwrap();
        let ghost st = stateMachine.state().unwrap();
        let arg = args[i].clone();
        stateMachine.process(arg);
        proof {
            assert(a.take(i + 1).drop_last() =~= a.take(i as int));
            assert(a.take(i + 1).last() == args@[i as int]@);
            let r = choose|r: NextState<CreateFlags, CreateHandler>| #[trigger] e.next(st, arg, r) && StateMachine::<CreateFlags, CreateHandler>::after(e, r) == (stateMachine.executor(), stateMachine.state());
            match r {
                NextState::ChangeState(_, _) => {},
                NextState::Continue(_) => {},
                NextState::End(_) => {},
            }
        }
        i = i + 1;
    }
    assert(a.take(args@.len() as int) =~= a);
    stateMachine.consumeToState()
}

/// Where the body of a new issue comes from.
pub enum BodySource {
    /// The user writes it in the editor, in this file; without an edit the
    /// command gives up (exit code 2).
    Edit(String),
    /// It is read from this file.
    File(String),
    /// The issue has no body.
    NoBody,
}

/// What `create` needs before it makes the issue.
pub struct CreatePlan {
    /// The title; `None`: ask the user (`Title: `).
    pub title: Option<String>,
    /// The author; `None`: the configured author, or ask.
    pub author: Option<String>,
    /// Where the body comes from.
    pub body: BodySource,
}

/// The body source that the options ask for: the editor when a body is
/// wanted and no file is given, no body with `--no-body`, else the file.
pub open spec fn body_source_spec(f: CreateFlagsView) -> (bool, Option<Seq<char>>) {
    if f.has_body && f.body_file is None {
        (true, Some("ISSUE_MSG"@))
    } else if !f.has_body {
        (false, None)
    } else {
        (false, f.body_file)
    }
}

/// The body source as `(edit first, file)`.
pub open spec fn body_source_view(b: BodySource) -> (bool, Option<Seq<char>>) {
    match b {
        BodySource::Edit(f) => (true, Some(f@)),
        BodySource::File(f) => (false, Some(f@)),
        BodySource::NoBody => (false, None),
    }
}

/// What `create` does for the arguments `args`: the title and author they
/// give, and where the body comes from.
pub fn create_issue(args: Vec<String>) -> (r: CreatePlan)
    ensures
        opt_view(r.title) == create_args(views(args@)).1.title,
        opt_view(r.author) == create_args(views(args@)).1.author,
        body_source_view(r.body) == body_source_spec(create_args(views(args@)).1),
{
    let finalFlags = create_flags(args);
    let body = if finalFlags.hasBody && finalFlags.bodyFile.is_none() {
        BodySource::Edit(DEFAULT_ISSUE_BODY_FILE.to_owned())
    } else if !finalFlags.hasBody {
        BodySource::NoBody
    } else {
        match finalFlags.bodyFile {
            Some(f) => BodySource::File(f),
            None => BodySource::NoBody,
        }
    };
    CreatePlan { title: finalFlags.title, author: finalFlags.author, body }
}

/// The new issue: its title, its body (`None`: no body, an empty one), its
/// author and the status new issues get, on the branch `branch` (`None`:
/// not known).
pub fn do_issue_creation(title: String, author: String, body: Option<String>, status: IssueStatus, branch: Option<String>) -> (r: Issue)
    ensures
        r.base.title@ == title@,
        r.base.author@ == author@,
        r.base.body_text@ == (match body {
            Some(b) => b@,
            None => Seq::empty(),
        }),
        r.base.branch@ == (match branch {
            Some(b) => b@,
            None => unknown_branch(),
        }),
        r.status == status,
        r.events@.len() == 0,
{
    let text = match body {
        Some(b) => b,
        None => String::new(),
    };
    let mut issue = Issue::new(title, text, author, branch);
    issue.status = status;
    issue
}

/// The stored issues with the new issue added at the end.
pub fn write_issue(committable: Vec<Issue>, issue: Issue) -> (r: Vec<Issue>)
    ensures
        issue_views(r@) == issue_views(committable@).push(issue@),
{
    let mut committable = committable;
    let ghost before = issue_views(committable@);
    committable.push(issue);
    assert(issue_views(committable@) =~= before.push(issue@));
    committable
}

/// What `create` reports: the new issue's id and exit code 0, or a failure
/// and exit code 1.
pub fn creation_report(created: Option<&str>) -> (r: (String, isize))
    ensures
        match created {
            Some(id) => r.0@ == "Issue "@ + id@ + " created."@ && r.1 == 0,
            None => r.0@ == "Issue creation failed."@ && r.1 == 1,
        },
{
    match created {
        Some(id) => {
            let mut m = "Issue ".to_owned();
            m.append(id);
            m.append(" created.");
            (m, 0)
        },
        None => ("Issue creation failed.".to_owned(), 1),
    }
}


/// Whether `a` is an option name of `create`.
pub open spec fn create_option(a: Seq<char>) -> bool {
    a == "--no-body"@ || a == "--body-file"@ || a == "--title"@ || a == "--author"@
}

/// `create` ignores an argument that is not an option name where an option
/// name is expected.
pub proof fn law_create_ignores_unknown(args: Seq<Seq<char>>, a: Seq<char>)
    requires
        create_args(args).0 == CreateHandler::Std,
        !create_option(a),
    ensures
        create_args(args.push(a)) == create_args(args),
{
    assert(args.push(a).drop_last() =~= args);
}

/// Each value of `create` comes from the argument right after its option:
/// the author only from one after `--author`, the title only from one
/// after `--title`, the body file only from one after `--body-file`; and
/// only `--no-body` leaves the body out. A value is awaited only right
/// after its option.
pub proof fn law_create_values_follow_options(args: Seq<Seq<char>>)
    ensures
        create_args(args).1.author matches Some(a) ==> exists|k: int|
            0 <= k < args.len() - 1 && #[trigger] args[k] == "--author"@ && args[k + 1] == a,
        create_args(args).1.title matches Some(t) ==> exists|k: int|
            0 <= k < args.len() - 1 && #[trigger] args[k] == "--title"@ && args[k + 1] == t,
        create_args(args).1.body_file matches Some(b) ==> exists|k: int|
            0 <= k < args.len() - 1 && #[trigger] args[k] == "--body-file"@ && args[k + 1] == b,
        !create_args(args).1.has_body ==> exists|k: int| 0 <= k < args.len() && #[trigger] args[k] == "--no-body"@,
        create_args(args).0 == CreateHandler::GetAuthor ==> args.len() > 0 && args.last() == "--author"@,
        create_args(args).0 == CreateHandler::GetTitle ==> args.len() > 0 && args.last() == "--title"@,
        create_args(args).0 == CreateHandler::GetBodyFile ==> args.len() > 0 && args.last() == "--body-file"@,
    decreases args.len(),
{
    if args.len() > 0 {
        let p = args.drop_last();
        let x = args.last();
        law_create_values_follow_options(p);
        let (h, f) = create_args(p);
        let r = create_args(args).1;
        assert(forall|k: int| 0 <= k < p.len() ==> args[k] == #[trigger] p[k]);
        if r.author is Some {
            if h == CreateHandler::GetAuthor {
                assert(args[p.len() - 1] == "--author"@);
                assert(args[p.len() as int] == x);
            } else {
                let k = choose|k: int| 0 <= k < p.len() - 1 && #[trigger] p[k] == "--author"@ && p[k + 1] == f.author->0;
                assert(args[k] == "--author"@);
                assert(args[k + 1] == p[k + 1]);
            }
        }
        if r.title is Some {
            if h == CreateHandler::GetTitle {
                assert(args[p.len() - 1] == "--title"@);
                assert(args[p.len() as int] == x);
            } else {
                let k = choose|k: int| 0 <= k < p.len() - 1 && #[trigger] p[k] == "--title"@ && p[k + 1] == f.title->0;
                assert(args[k] == "--title"@);
                assert(args[k + 1] == p[k + 1]);
            }
        }
        if r.body_file is Some {
            if h == CreateHandler::GetBodyFile {
                assert(args[p.len() - 1] == "--body-file"@);
                assert(args[p.len() as int] == x);
            } else {
                let k = choose|k: int| 0 <= k < p.len() - 1 && #[trigger] p[k] == "--body-file"@ && p[k + 1] == f.body_file->0;
                assert(args[k] == "--body-file"@);
                assert(args[k + 1] == p[k + 1]);
            }
        }
        if !r.has_body {
            if f.has_body {
                assert(args[p.len() as int] == "--no-body"@);
            } else {
                let k = choose|k: int| 0 <= k < p.len() && #[trigger] p[k] == "--no-body"@;
                assert(args[k] == "--no-body"@);
            }
        }
    }
}

} // verus!
