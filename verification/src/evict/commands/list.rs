//! `list`: shows issues, newest first, with their comments and tags.
use vstd::prelude::*;
use crate::text::{views, lines, lines_spec, join_spec, str_eq, push_char};
use crate::clock::{printable, time_text, format_time};
use crate::fsm::{Executor, NextState, StateMachine};
use crate::evict::issue::{Issue, IssueView, IssueComment, IssueTimelineEvent, tag_scan, contains_string};
use crate::evict::selection::{issue_views, matching_spec, find_matching_issues, lemma_filter_all};
use crate::evict::date_sort::{sort_by_time, sorted_by_keys, sorted_item, reordered, permuted, stamps_in_range, issue_stamps};
use crate::order::stable_sort_order;

verus! {

/// The options of `list`.
pub struct ListFlags {
    /// Titles and ids only (`--short`, `-s`).
    pub short: bool,
    /// Only issues with one of these statuses (`--status <name>`, repeatable).
    pub statuses: Vec<String>,
    /// No comments or tags (`--nocomment`).
    pub noComments: bool,
    /// Only issues whose id ends with this (`--id <part>`).
    pub id: Option<String>,
    /// Only issues with one of these tags (`--tag <name>`, repeatable).
    pub tags: Vec<String>,
}

/// The options of `list` as values.
pub struct ListFlagsView {
    pub short: bool,
    pub statuses: Seq<Seq<char>>,
    pub no_comments: bool,
    pub id: Option<Seq<char>>,
    pub tags: Seq<Seq<char>>,
}

impl View for ListFlags {
    type V = ListFlagsView;

    open spec fn view(&self) -> ListFlagsView {
        ListFlagsView {
            short: self.short,
            statuses: views(self.statuses@),
            no_comments: self.noComments,
            id: match self.id {
                Some(i) => Some(i@),
                None => None,
            },
            tags: views(self.tags@),
        }
    }
}

/// What the next argument of `list` is read as.
#[derive(Clone, Copy, PartialEq, Eq, Structural)]
pub enum ListHandler {
    /// An option name.
    Std,
    /// The value of `--status`.
    GetStatus,
    /// The value of `--id`.
    GetId,
    /// The value of `--tag`.
    GetTag,
}

/// The options before any argument.
pub open spec fn no_list_flags() -> ListFlagsView {
    ListFlagsView { short: false, statuses: Seq::empty(), no_comments: false, id: None, tags: Seq::empty() }
}

/// One argument read by the handler `h`. Unknown arguments are ignored.
pub open spec fn list_step(h: ListHandler, f: ListFlagsView, a: Seq<char>) -> (ListHandler, ListFlagsView) {
    match h {
        ListHandler::Std => if a == "--short"@ || a == "-s"@ {
            (ListHandler::Std, ListFlagsView { short: true, ..f })
        } else if a == "--status"@ {
            (ListHandler::GetStatus, f)
        } else if a == "--nocomment"@ {
            (ListHandler::Std, ListFlagsView { no_comments: true, ..f })
        } else if a == "--id"@ {
            (ListHandler::GetId, f)
        } else if a == "--tag"@ {
            (ListHandler::GetTag, f)
        } else {
            (ListHandler::Std, f)
        },
        ListHandler::GetStatus => (ListHandler::Std, ListFlagsView { statuses: f.statuses.push(a), ..f }),
        ListHandler::GetId => (ListHandler::Std, ListFlagsView { id: Some(a), ..f }),
        ListHandler::GetTag => (ListHandler::Std, ListFlagsView { tags: f.tags.push(a), ..f }),
    }
}

/// The handler and the options after the arguments `args`.
pub open spec fn list_args(args: Seq<Seq<char>>) -> (ListHandler, ListFlagsView)
    decreases args.len(),
{
    if args.len() == 0 {
        (ListHandler::Std, no_list_flags())
    } else {
        let (h, f) = list_args(args.drop_last());
        list_step(h, f, args.last())
    }
}

impl Executor<ListFlags, String> for ListHandler {
    open spec fn next(&self, state: ListFlags, input: String, r: NextState<ListFlags, ListHandler>) -> bool {
        let (h, f) = list_step(*self, state@, input@);
        match r {
            NextState::ChangeState(e, s) => e == h && s@ == f,
            NextState::Continue(s) => *self == h && s@ == f,
            NextState::End(_) => false,
        }
    }

    fn execute(&self, state: ListFlags, input: String) -> (r: NextState<ListFlags, ListHandler>) {
        let mut flags = state;
        match self {
            ListHandler::Std => {
                if str_eq(input.as_str(), "--short") || str_eq(input.as_str(), "-s") {
                    flags.short = true;
                    NextState::Continue(flags)
                } else if str_eq(input.as_str(), "--status") {
                    NextState::ChangeState(ListHandler::GetStatus, flags)
                } else if str_eq(input.as_str(), "--nocomment") {
                    flags.noComments = true;
                    NextState::Continue(flags)
                } else if str_eq(input.as_str(), "--id") {
                    NextState::ChangeState(ListHandler::GetId, flags)
                } else if str_eq(input.as_str(), "--tag") {
                    NextState::ChangeState(ListHandler::GetTag, flags)
                } else {
                    NextState::Continue(flags)
                }
            },
            ListHandler::GetStatus => {
                flags.statuses.push(input);
                assert(views(flags.statuses@) =~= views(state.statuses@).push(input@));
                NextState::ChangeState(ListHandler::Std, flags)
            },
            ListHandler::GetId => {
                flags.id = Some(input);
                NextState::ChangeState(ListHandler::Std, flags)
            },
            ListHandler::GetTag => {
                flags.tags.push(input);
                assert(views(flags.tags@) =~= views(state.tags@).push(input@));
                NextState::ChangeState(ListHandler::Std, flags)
            },
        }
    }
}

/// The options given by the arguments of `list`.
pub fn list_flags(args: Vec<String>) -> (r: ListFlags)
    ensures
        r@ == list_args(views(args@)).1,
{
    let init = ListFlags { short: false, statuses: Vec::new(), noComments: false, id: None, tags: Vec::new() };
    assert(init@ == no_list_flags()) by {
        assert(views(init.statuses@) =~= Seq::<Seq<char>>::empty());
        assert(views(init.tags@) =~= Seq::<Seq<char>>::empty());
    }
    let mut stateMachine = StateMachine::new(ListHandler::Std, init);
    let ghost a = views(args@);
    assert(a.take(0) =~= Seq::<Seq<char>>::empty());
    let mut i: usize = 0;
    while i < args.len()
        invariant
            a == views(args@),
            i <= args@.len(),
            stateMachine.executor() == Some(list_args(a.take(i as int)).0),
            stateMachine.state() matches Some(s) && s@ == list_args(a.take(i as int)).1,
        decreases args@.len() - i,
    {
        let ghost e = stateMachine.executor().unwrap();
        let ghost st = stateMachine.state().unwrap();
        let arg = args[i].clone();
        stateMachine.process(arg);
        proof {
            assert(a.take(i + 1).drop_last() =~= a.take(i as int));
            assert(a.take(i + 1).last() == args@[i as int]@);
            let r = choose|r: NextState<ListFlags, ListHandler>| #[trigger] e.next(st, arg, r) && StateMachine::<ListFlags, ListHandler>::after(e, r) == (stateMachine.executor(), stateMachine.state());
            match r {
                NextState::ChangeState(_, _) => {},
                NextState::Continue(_) => {},
                NextState::End(_) => {},
            }
        }
        i = i + 1;
    }
    assert(a.take(args@.len() as int) =~= a);
    stateMachine.consumeToState()
}

// ---------------------------------------------------------------------------
// What `list` shows.

/// `s` as a line.
pub open spec fn ln(s: Seq<char>) -> Seq<char> {
    s + seq!['\n']
}

/// The lines of a comment's body, each indented by four spaces.
pub open spec fn body_lines_text(ls: Seq<Seq<char>>) -> Seq<char>
    decreases ls.len(),
{
    if ls.len() == 0 {
        Seq::empty()
    } else {
        body_lines_text(ls.drop_last()) + ln("    "@ + ls.last())
    }
}

/// How a comment is shown: its author and time, its branch, its body.
pub open spec fn comment_text(c: IssueComment) -> Seq<char> {
    ln("  \x1b[32m"@ + c.author@ + " on "@ + time_text(c.creation_time.0) + "\x1b[0m"@)
        + ln("  For branch "@ + c.branch@)
        + body_lines_text(lines_spec(c.body_text@))
        + ln(Seq::empty())
}

/// The comments among `events`, shown in order.
pub open spec fn comments_text(events: Seq<IssueTimelineEvent>) -> Seq<char>
    decreases events.len(),
{
    if events.len() == 0 {
        Seq::empty()
    } else {
        comments_text(events.drop_last()) + match events.last() {
            IssueTimelineEvent::TimelineComment(c) => comment_text(c),
            IssueTimelineEvent::TimelineTag(_) => Seq::empty(),
        }
    }
}

/// How the tags of an issue are shown.
pub open spec fn tags_text(tags: Seq<Seq<char>>) -> Seq<char> {
    if tags.len() == 0 {
        "  No tags for this issue"@
    } else {
        "  Tags: "@ + join_spec(tags, ", "@)
    }
}

/// How an issue is shown: a blank line and its title and id; unless short,
/// its status, author and time, branch and body; and unless comments are
/// left out, its tags and comments.
pub open spec fn issue_text(i: IssueView, short: bool, no_comments: bool) -> Seq<char> {
    ln(Seq::empty()) + ln("\x1b[33m"@ + i.base.title@ + " (Issue ID: "@ + i.base.id@ + ")\x1b[0m"@) + if short {
        Seq::empty()
    } else {
        ln("Current status: "@ + i.status.name@)
            + ln("\x1b[34mReported by "@ + i.base.author@ + " on "@ + time_text(i.base.creation_time.0) + "\x1b[0m"@)
            + ln("Originated on branch "@ + i.base.branch@ + "\n"@)
            + (if i.base.body_text@.len() > 0 { ln(i.base.body_text@) } else { Seq::empty() })
            + if no_comments {
            Seq::empty()
        } else if i.events.len() == 0 {
            ln("    Nothing here for this issue."@)
        } else {
            ln(tags_text(tag_scan(i.events).0)) + ln(comments_text(i.events))
        }
    }
}

/// Whether the event's time can be written, if it is a comment.
pub open spec fn event_printable(e: IssueTimelineEvent) -> bool {
    match e {
        IssueTimelineEvent::TimelineComment(c) => printable(c.creation_time.0),
        IssueTimelineEvent::TimelineTag(_) => true,
    }
}

/// Whether the times that showing the issue writes can be written.
pub open spec fn issue_printable(i: IssueView, short: bool, no_comments: bool) -> bool {
    &&& !short ==> printable(i.base.creation_time.0)
    &&& (!short && !no_comments) ==> forall|k: int| 0 <= k < i.events.len() ==> event_printable(#[trigger] i.events[k])
}

/// Whether an issue is shown: no status was asked for, or its status was.
pub open spec fn status_shown(i: IssueView, f: ListFlagsView) -> bool {
    f.statuses.len() == 0 || f.statuses.contains(i.status.name@)
}

/// The issues of `s` that are shown, from the last one to the first.
pub open spec fn vec_text(s: Seq<IssueView>, f: ListFlagsView) -> Seq<char>
    decreases s.len(),
{
    if s.len() == 0 {
        Seq::empty()
    } else {
        (if status_shown(s.last(), f) { issue_text(s.last(), f.short, f.no_comments) } else { Seq::empty() })
            + vec_text(s.drop_last(), f)
    }
}

/// Every issue of `s` shown, from the last one to the first, with no
/// issue left out.
pub open spec fn all_issues_text(s: Seq<IssueView>, short: bool, no_comments: bool) -> Seq<char>
    decreases s.len(),
{
    if s.len() == 0 {
        Seq::empty()
    } else {
        issue_text(s.last(), short, no_comments) + all_issues_text(s.drop_last(), short, no_comments)
    }
}

/// The issues of `s` whose status name is one of `names`, in order.
pub open spec fn with_status_among(s: Seq<IssueView>, names: Seq<Seq<char>>) -> Seq<IssueView> {
    s.filter(|i: IssueView| names.contains(i.status.name@))
}

/// The status filter of `list`: without `--status` every issue is shown;
/// with it, exactly the issues whose status name was asked for are shown,
/// each as it would be shown without the filter and in the same order.
pub proof fn law_status_filter(s: Seq<IssueView>, f: ListFlagsView)
    ensures
        f.statuses.len() == 0 ==> vec_text(s, f) == all_issues_text(s, f.short, f.no_comments),
        f.statuses.len() > 0 ==> vec_text(s, f) == all_issues_text(with_status_among(s, f.statuses), f.short, f.no_comments),
    decreases s.len(),
{
    reveal_with_fuel(Seq::filter, 1);
    if s.len() > 0 {
        law_status_filter(s.drop_last(), f);
        let x = s.last();
        let rest = with_status_among(s.drop_last(), f.statuses);
        if f.statuses.contains(x.status.name@) {
            assert(rest.push(x).drop_last() =~= rest);
            assert(rest.push(x).last() == x);
        }
    }
}

/// Appends `s` and a line break.
fn push_strln(to: &mut String, s: &str)
    ensures
        final(to)@ == old(to)@ + ln(s@),
{
    to.append(s);
    push_char(to, '\n');
}

/// The lines of a comment's body, indented.
fn body_lines(body: &str) -> (r: String)
    ensures
        r@ == body_lines_text(lines_spec(body@)),
{
    let ls = lines(body);
    let ghost v = views(ls@);
    let mut r = String::new();
    let mut i: usize = 0;
    assert(v.take(0) =~= Seq::<Seq<char>>::empty());
    while i < ls.len()
        invariant
            v == views(ls@),
            v == lines_spec(body@),
            i <= ls@.len(),
            r@ == body_lines_text(v.take(i as int)),
        decreases ls@.len() - i,
    {
        assert(v.take(i + 1).drop_last() =~= v.take(i as int));
        assert(v.take(i + 1).last() == ls@[i as int]@);
        let mut line = "    ".to_owned();
        line.append(ls[i].as_str());
        push_strln(&mut r, line.as_str());
        i = i + 1;
    }
    assert(v.take(ls@.len() as int) =~= v);
    r
}

/// How a comment is shown.
fn comment_output(c: &IssueComment) -> (r: String)
    requires
        printable(c.creation_time.0),
    ensures
        r@ == comment_text(*c),
{
    let mut r = String::new();
    let mut l1 = "  \x1b[32m".to_owned();
    l1.append(c.author.as_str());
    l1.append(" on ");
    let t = format_time(&c.creation_time.0);
    l1.append(t.as_str());
    l1.append("\x1b[0m");
    push_strln(&mut r, l1.as_str());
    let mut l2 = "  For branch ".to_owned();
    l2.append(c.branch.as_str());
    push_strln(&mut r, l2.as_str());
    let b = body_lines(c.body_text.as_str());
    r.append(b.as_str());
    push_strln(&mut r, "");
    proof {
        reveal_strlit("");
    }
    assert(r@ =~= comment_text(*c));
    r
}

/// The tags of an issue, as shown.
fn tag_output(tag_list: &Vec<String>) -> (r: String)
    ensures
        r@ == tags_text(views(tag_list@)),
{
    let mut tag_output = String::new();
    if tag_list.len() == 0 {
        tag_output.append("  No tags for this issue");
    } else {
        tag_output.append("  Tags: ");
        let ghost v = views(tag_list@);
        let mut isStart = true;
        let mut i: usize = 0;
        while i < tag_list.len()
            invariant
                v == views(tag_list@),
                v.len() > 0,
                i <= v.len(),
                isStart == (i == 0),
                i > 0 ==> tag_output@ == "  Tags: "@ + crate::text::join_spec(v.take(i as int), ", "@),
                i == 0 ==> tag_output@ == "  Tags: "@,
            decreases v.len() - i,
        {
            if !isStart {
                tag_output.append(", ");
            }
            isStart = false;
            tag_output.append(tag_list[i].as_str());
            i = i + 1;
            proof {
                assert(v.take(i as int).drop_last() =~= v.take(i - 1));
                assert(v.take(i as int).last() == tag_list@[i - 1]@);
                if i == 1 {
                    assert(crate::text::join_spec(v.take(1), ", "@) == v.take(1)[0]);
                }
            }
        }
        assert(v.take(v.len() as int) =~= v);
    }
    tag_output
}

/// The comments among `events`, as shown.
fn comments_output(events: &Vec<IssueTimelineEvent>) -> (r: String)
    requires
        forall|j: int| 0 <= j < events@.len() ==> event_printable(#[trigger] events@[j]),
    ensures
        r@ == comments_text(events@),
{
    let mut comments = String::new();
    let ghost ev = events@;
    let mut k: usize = 0;
    assert(ev.take(0) =~= Seq::<IssueTimelineEvent>::empty());
    while k < events.len()
        invariant
            ev == events@,
            k <= ev.len(),
            forall|j: int| 0 <= j < ev.len() ==> event_printable(#[trigger] ev[j]),
            comments@ == comments_text(ev.take(k as int)),
        decreases ev.len() - k,
    {
        assert(ev.take(k + 1).drop_last() =~= ev.take(k as int));
        assert(ev.take(k + 1).last() == ev[k as int]);
        assert(event_printable(ev[k as int]));
        match &events[k] {
            IssueTimelineEvent::TimelineComment(comment) => {
                let c = comment_output(comment);
                comments.append(c.as_str());
            },
            IssueTimelineEvent::TimelineTag(_) => {
                assert(comments@ =~= comments@ + Seq::<char>::empty());
            },
        }
        k = k + 1;
    }
    assert(ev.take(ev.len() as int) =~= ev);
    comments
}

/// Appends how `issue` is shown to `to_print`.
#[verifier::rlimit(40)]
#[verifier::spinoff_prover]
fn print_issue(issue: &Issue, flags: &ListFlags, to_print: String) -> (r: String)
    requires
        issue_printable(issue@, flags.short, flags.noComments),
    ensures
        r@ == to_print@ + issue_text(issue@, flags.short, flags.noComments),
{
    let ghost start = to_print@;
    let mut to_print = to_print;
    push_strln(&mut to_print, "");
    let mut head = "\x1b[33m".to_owned();
    head.append(issue.title());
    head.append(" (Issue ID: ");
    head.append(issue.id());
    head.append(")\x1b[0m");
    push_strln(&mut to_print, head.as_str());
    let ghost after_head = to_print@;
    proof {
        reveal_strlit("");
    }
    if !flags.short {
        let mut l1 = "Current status: ".to_owned();
        l1.append(issue.status.name.as_str());
        push_strln(&mut to_print, l1.as_str());
        let mut l2 = "\x1b[34mReported by ".to_owned();
        l2.append(issue.author());
        l2.append(" on ");
        let ct = issue.creation_time();
        let t = format_time(&ct);
        l2.append(t.as_str());
        l2.append("\x1b[0m");
        push_strln(&mut to_print, l2.as_str());
        let mut l3 = "Originated on branch ".to_owned();
        l3.append(issue.branch());
        l3.append("\n");
        push_strln(&mut to_print, l3.as_str());
        if issue.body_text().unicode_len() > 0 {
            push_strln(&mut to_print, issue.body_text());
        }
        let ghost before_comments = to_print@;
        if !flags.noComments {
            if issue.events.len() == 0 {
                push_strln(&mut to_print, "    Nothing here for this issue.");
            } else {
                assert(issue@.events == issue.events@);
                assert(forall|j: int| 0 <= j < issue.events@.len() ==> event_printable(#[trigger] issue@.events[j]));
                let comments = comments_output(&issue.events);
                let tag_list = issue.all_tags();
                let tags = tag_output(&tag_list);
                push_strln(&mut to_print, tags.as_str());
                push_strln(&mut to_print, comments.as_str());
            }
        }
        assert(to_print@ =~= start + issue_text(issue@, flags.short, flags.noComments));
    } else {
        assert(to_print@ =~= start + issue_text(issue@, flags.short, flags.noComments));
    }
    to_print
}

/// The issues of `date_sorted` that are shown, from the last to the first.
pub fn print_sorted(date_sorted: &Vec<Issue>, flags: &ListFlags) -> (r: String)
    requires
        forall|k: int| 0 <= k < date_sorted@.len() ==> issue_printable(#[trigger] date_sorted@[k]@, flags.short, flags.noComments),
    ensures
        r@ == vec_text(issue_views(date_sorted@), flags@),
        flags.statuses@.len() == 0 ==> r@ == all_issues_text(issue_views(date_sorted@), flags.short, flags.noComments),
        flags.statuses@.len() > 0 ==> r@ == all_issues_text(
            with_status_among(issue_views(date_sorted@), flags@.statuses),
            flags.short,
            flags.noComments,
        ),
{
    let ghost s = issue_views(date_sorted@);
    proof {
        law_status_filter(s, flags@);
        assert(views(flags.statuses@).len() == flags.statuses@.len());
    }
    let mut to_print = String::new();
    let mut k: usize = date_sorted.len();
    assert(s.take(k as int) =~= s);
    while k > 0
        invariant
            s == issue_views(date_sorted@),
            k <= s.len(),
            forall|j: int| 0 <= j < date_sorted@.len() ==> issue_printable(#[trigger] date_sorted@[j]@, flags.short, flags.noComments),
            to_print@ + vec_text(s.take(k as int), flags@) == vec_text(s, flags@),
        decreases k,
    {
        let issue = &date_sorted[k - 1];
        proof {
            assert(s.take(k as int).drop_last() =~= s.take(k - 1));
            assert(s.take(k as int).last() == issue@);
        }
        let shown = flags.statuses.len() == 0 || contains_string(&flags.statuses, &issue.status.name);
        proof {
            assert(views(flags.statuses@).len() == flags.statuses@.len());
        }
        if shown {
            to_print = print_issue(issue, flags, to_print);
        }
        k = k - 1;
    }
    assert(s.take(0) =~= Seq::<IssueView>::empty());
    to_print
}

proof fn lemma_sorted_printable(r: Seq<IssueView>, issues: Seq<IssueView>, ik: Seq<crate::clock::Timespec>, ek: Seq<Seq<crate::clock::Timespec>>, short: bool, nc: bool)
    requires
        sorted_by_keys(r, issues, ik, ek),
        ik.len() == issues.len(),
        ek.len() == issues.len(),
        forall|i: int| 0 <= i < issues.len() ==> (#[trigger] ek[i]).len() == issues[i].events.len(),
        forall|i: int| 0 <= i < issues.len() ==> issue_printable(#[trigger] issues[i], short, nc),
    ensures
        forall|t: int| 0 <= t < r.len() ==> issue_printable(#[trigger] r[t], short, nc),
{
    let p = choose|p: Seq<int>| {
        &&& #[trigger] stable_sort_order(ik, p)
        &&& r.len() == p.len()
        &&& forall|i: int| 0 <= i < r.len() ==> #[trigger] sorted_item(r[i], issues[p[i]], ek[p[i]])
    };
    assert forall|t: int| 0 <= t < r.len() implies issue_printable(#[trigger] r[t], short, nc) by {
        let i0 = p[t];
        assert(0 <= i0 < issues.len());
        assert(sorted_item(r[t], issues[i0], ek[i0]));
        let q = choose|q: Seq<int>| #[trigger] stable_sort_order(ek[i0], q) && reordered(r[t], issues[i0], q);
        assert(issue_printable(issues[i0], short, nc));
        if !short && !nc {
            assert forall|j: int| 0 <= j < r[t].events.len() implies event_printable(#[trigger] r[t].events[j]) by {
                assert(r[t].events[j] == issues[i0].events[q[j]]);
                assert(0 <= q[j] < ek[i0].len());
            }
        }
    }
}

/// The issues of `issues` shown with the options `flags`: sorted by time,
/// newest first, those with an asked-for status (if any status was asked
/// for). The order is that of the time crate's stamps of the times (see
/// `sort_by_time`).
pub fn print_issue_vec(issues: Vec<Issue>, flags: &ListFlags) -> (r: String)
    requires
        forall|i: int| 0 <= i < issues@.len() ==> stamps_in_range(#[trigger] issues@[i]),
        forall|i: int| 0 <= i < issues@.len() ==> issue_printable(#[trigger] issues@[i]@, flags.short, flags.noComments),
    ensures
        exists|s: Seq<IssueView>, ik: Seq<crate::clock::Timespec>, ek: Seq<Seq<crate::clock::Timespec>>|
            #[trigger] sorted_by_keys(s, issue_views(issues@), ik, ek) && issue_stamps(issue_views(issues@), ik, ek)
            && r@ == vec_text(s, flags@),
{
    let ghost iv = issue_views(issues@);
    let date_sorted = sort_by_time(issues);
    proof {
        let (ik, ek) = choose|ik: Seq<crate::clock::Timespec>, ek: Seq<Seq<crate::clock::Timespec>>| #[trigger] sorted_by_keys(issue_views(date_sorted@), iv, ik, ek)
            && issue_stamps(iv, ik, ek);
        lemma_sorted_printable(issue_views(date_sorted@), iv, ik, ek, flags.short, flags.noComments);
        assert forall|k: int| 0 <= k < date_sorted@.len() implies issue_printable(#[trigger] date_sorted@[k]@, flags.short, flags.noComments) by {
            assert(issue_views(date_sorted@)[k] == date_sorted@[k]@);
        }
    }
    print_sorted(&date_sorted, flags)
}

/// Whether the issue has one of the tags `tags`, or no tag was asked for.
pub open spec fn has_asked_tag(i: IssueView, tags: Seq<Seq<char>>) -> bool {
    tags.len() == 0 || exists|k: int| 0 <= k < tags.len() && tag_scan(i.events).0.contains(#[trigger] tags[k])
}

/// The issues that `list` considers with the options `f`: those whose id
/// ends with the asked-for part (if one was given) and that have
/// an asked-for tag (if any was given), in order.
pub open spec fn selected(v: Seq<IssueView>, f: ListFlagsView) -> Seq<IssueView> {
    let m = match f.id {
        Some(id) => matching_spec(v, id),
        None => v,
    };
    m.filter(|i: IssueView| has_asked_tag(i, f.tags))
}

/// The selection of `list`: an issue is selected exactly when it is one of
/// the issues, its id ends with the asked-for part (if one was given), and
/// no tag was asked for or at least one asked-for tag is among its enabled
/// tags.
pub proof fn law_tag_filter(v: Seq<IssueView>, f: ListFlagsView, x: IssueView)
    ensures
        selected(v, f).contains(x) <==> {
            &&& v.contains(x)
            &&& f.id matches Some(part) ==> part.is_suffix_of(x.base.id@)
            &&& f.tags.len() == 0 || exists|k: int| 0 <= k < f.tags.len() && tag_scan(x.events).0.contains(#[trigger] f.tags[k])
        },
{
    let tp = |i: IssueView| has_asked_tag(i, f.tags);
    let m = match f.id {
        Some(id) => matching_spec(v, id),
        None => v,
    };
    let sel = selected(v, f);
    assert(sel == m.filter(tp));
    if sel.contains(x) {
        m.lemma_filter_contains_rev(tp, x);
        let i = choose|i: int| 0 <= i < sel.len() && sel[i] == x;
        m.lemma_filter_pred(tp, i);
        match f.id {
            Some(id) => {
                let ip = |i: IssueView| crate::evict::selection::id_matches(i, id);
                v.lemma_filter_contains_rev(ip, x);
                let j = choose|j: int| 0 <= j < m.len() && m[j] == x;
                v.lemma_filter_pred(ip, j);
            },
            None => {},
        }
    }
    if v.contains(x) && (f.id matches Some(part) ==> part.is_suffix_of(x.base.id@)) && has_asked_tag(x, f.tags) {
        let j = choose|j: int| 0 <= j < v.len() && v[j] == x;
        match f.id {
            Some(id) => {
                let ip = |i: IssueView| crate::evict::selection::id_matches(i, id);
                v.lemma_filter_contains(ip, j);
            },
            None => {},
        }
        assert(m.contains(x));
        let i = choose|i: int| 0 <= i < m.len() && m[i] == x;
        m.lemma_filter_contains(tp, i);
    }
}

/// Whether the issue can be sorted and shown with the options `f`.
pub open spec fn listable(i: IssueView, f: ListFlagsView) -> bool {
    &&& 0 <= i.base.creation_time.0.tm_nsec < 1_000_000_000
    &&& forall|k: int| 0 <= k < i.events.len() ==> 0 <= (#[trigger] i.events[k]).time_spec().tm_nsec < 1_000_000_000
    &&& issue_printable(i, f.short, f.no_comments)
}

/// What `list` shows for the arguments `args` and the stored issues
/// `issues`: the selected issues (see `selected`), shown as
/// `print_issue_vec` shows them.
pub fn list_issues(args: Vec<String>, issues: Vec<Issue>) -> (r: String)
    requires
        forall|i: int| 0 <= i < issues@.len() ==> listable(#[trigger] issues@[i]@, list_args(views(args@)).1),
    ensures
        exists|s: Seq<IssueView>, ik: Seq<crate::clock::Timespec>, ek: Seq<Seq<crate::clock::Timespec>>|
            #[trigger] sorted_by_keys(s, selected(issue_views(issues@), list_args(views(args@)).1), ik, ek)
            && issue_stamps(selected(issue_views(issues@), list_args(views(args@)).1), ik, ek)
            && r@ == vec_text(s, list_args(views(args@)).1),
{
    let final_flags = list_flags(args);
    let ghost f = final_flags@;
    let ghost lp = |i: IssueView| listable(i, f);
    let mut issues = issues;
    let ghost v0 = issue_views(issues@);
    proof {
        assert forall|i: int| 0 <= i < v0.len() implies lp(#[trigger] v0[i]) by {
            assert(v0[i] == issues@[i]@);
        }
    }
    match &final_flags.id {
        Some(id) => {
            issues = find_matching_issues(id.as_str(), issues.as_slice());
            proof {
                lemma_filter_all(v0, |i: IssueView| crate::evict::selection::id_matches(i, id@), lp);
            }
        },
        None => {},
    }
    let ghost m = issue_views(issues@);
    assert(forall|i: int| 0 <= i < m.len() ==> lp(#[trigger] m[i]));
    let ghost keep = |i: IssueView| has_asked_tag(i, f.tags);
    let mut kept: Vec<Issue> = Vec::new();
    let mut k: usize = 0;
    assert(m.take(0) =~= Seq::<IssueView>::empty());
    while k < issues.len()
        invariant
            m == issue_views(issues@),
            k <= m.len(),
            f == final_flags@,
            keep == (|i: IssueView| has_asked_tag(i, f.tags)),
            issue_views(kept@) == m.take(k as int).filter(keep),
        decreases m.len() - k,
    {
        proof {
            reveal_with_fuel(Seq::filter, 1);
            assert(m.take(k + 1).drop_last() =~= m.take(k as int));
            assert(m.take(k + 1).last() == issues@[k as int]@);
        }
        let check = &issues[k];
        let mut found = final_flags.tags.len() == 0;
        let all_tags = check.all_tags();
        let mut t: usize = 0;
        while t < final_flags.tags.len()
            invariant
                t <= final_flags.tags@.len(),
                f == final_flags@,
                views(all_tags@) == tag_scan(check@.events).0,
                found == (f.tags.len() == 0 || exists|j: int| 0 <= j < t && tag_scan(check@.events).0.contains(#[trigger] f.tags[j])),
            decreases final_flags.tags@.len() - t,
        {
            let c = contains_string(&all_tags, &final_flags.tags[t]);
            proof {
                assert(f.tags[t as int] == final_flags.tags@[t as int]@);
                if c {
                    assert(tag_scan(check@.events).0.contains(f.tags[t as int]));
                }
                if found || c {
                    if !found {
                        assert(0 <= t < t + 1);
                    }
                } else {
                    assert forall|j: int| 0 <= j < t + 1 implies !tag_scan(check@.events).0.contains(#[trigger] f.tags[j]) by {
                        if j < t {
                        }
                    }
                }
            }
            found = found || c;
            t = t + 1;
        }
        assert(found == has_asked_tag(check@, f.tags));
        if found {
            let ghost before = issue_views(kept@);
            kept.push(check.clone());
            assert(issue_views(kept@) =~= before.push(check@));
        }
        k = k + 1;
    }
    assert(m.take(m.len() as int) =~= m);
    proof {
        lemma_filter_all(m, keep, lp);
        assert(issue_views(kept@) == m.filter(keep));
        assert forall|i: int| 0 <= i < kept@.len() implies stamps_in_range(#[trigger] kept@[i]) by {
            assert(issue_views(kept@)[i] == kept@[i]@);
            assert(lp(kept@[i]@));
            assert(listable(kept@[i]@, f));
            assert forall|e: int| 0 <= e < kept@[i].events@.len() implies 0 <= (#[trigger] kept@[i].events@[e]).time_spec().tm_nsec < 1_000_000_000 by {
                assert(kept@[i]@.events[e] == kept@[i].events@[e]);
            }
        }
        assert forall|i: int| 0 <= i < kept@.len() implies issue_printable(#[trigger] kept@[i]@, final_flags.short, final_flags.noComments) by {
            assert(issue_views(kept@)[i] == kept@[i]@);
            assert(lp(kept@[i]@));
        }
    }
    proof {
        let sel = selected(v0, f);
        assert(sel == m.filter(keep)) by {
            assert((|i: IssueView| has_asked_tag(i, f.tags)) =~= keep);
        }
    }
    print_issue_vec(kept, &final_flags)
}


/// Whether `a` is an option name of `list`.
pub open spec fn list_option(a: Seq<char>) -> bool {
    a == "--short"@ || a == "-s"@ || a == "--status"@ || a == "--nocomment"@ || a == "--id"@ || a == "--tag"@
}

/// `list` ignores an argument that is not an option name where an option
/// name is expected.
pub proof fn law_list_ignores_unknown(args: Seq<Seq<char>>, a: Seq<char>)
    requires
        list_args(args).0 == ListHandler::Std,
        !list_option(a),
    ensures
        list_args(args.push(a)) == list_args(args),
{
    assert(args.push(a).drop_last() =~= args);
}

/// Only `--short` or `-s` makes the listing short, and only `--nocomment`
/// leaves the comments and tags out.
pub proof fn law_list_short_only_by_option(args: Seq<Seq<char>>)
    ensures
        list_args(args).1.short ==> exists|k: int| 0 <= k < args.len() && (#[trigger] args[k] == "--short"@ || args[k] == "-s"@),
        list_args(args).1.no_comments ==> exists|k: int| 0 <= k < args.len() && #[trigger] args[k] == "--nocomment"@,
    decreases args.len(),
{
    if args.len() > 0 {
        let p = args.drop_last();
        law_list_short_only_by_option(p);
        let (h, f) = list_args(p);
        let r = list_args(args).1;
        assert(forall|k: int| 0 <= k < p.len() ==> args[k] == #[trigger] p[k]);
        if r.short {
            if f.short {
                let k = choose|k: int| 0 <= k < p.len() && (#[trigger] p[k] == "--short"@ || p[k] == "-s"@);
                assert(args[k] == p[k]);
            } else {
                assert(args[p.len() as int] == args.last());
            }
        }
        if r.no_comments {
            if f.no_comments {
                let k = choose|k: int| 0 <= k < p.len() && #[trigger] p[k] == "--nocomment"@;
                assert(args[k] == p[k]);
            } else {
                assert(args[p.len() as int] == args.last());
            }
        }
    }
}

/// Where an option name is expected, `--nocomment` leaves the comments and
/// tags out and changes nothing else, and `--short` and `-s` make the
/// listing short and change nothing else.
pub proof fn law_list_display_options(args: Seq<Seq<char>>)
    requires
        list_args(args).0 == ListHandler::Std,
    ensures
        list_args(args.push("--nocomment"@)) == (ListHandler::Std, (ListFlagsView { no_comments: true, ..list_args(args).1 })),
        list_args(args.push("--short"@)) == (ListHandler::Std, (ListFlagsView { short: true, ..list_args(args).1 })),
        list_args(args.push("-s"@)) == (ListHandler::Std, (ListFlagsView { short: true, ..list_args(args).1 })),
{
    reveal_strlit("--nocomment");
    reveal_strlit("--short");
    reveal_strlit("-s");
    reveal_strlit("--status");
    assert("--nocomment"@.len() != "--status"@.len());
    assert("--nocomment"@.len() != "--short"@.len());
    assert("--nocomment"@.len() != "-s"@.len());
    assert(args.push("--nocomment"@).drop_last() =~= args);
    assert(args.push("--short"@).drop_last() =~= args);
    assert(args.push("-s"@).drop_last() =~= args);
}

} // verus!
