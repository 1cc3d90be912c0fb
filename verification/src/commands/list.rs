//! `list`: shows the issues of the current branch (or the committed ones),
//! newest first.
use vstd::prelude::*;
use crate::text::{views, lines, lines_spec, str_eq, push_char};
use crate::clock::{self, Timespec, printable, time_text, format_time};
use crate::issue::{Issue, IssueView, CommentView, issue_printable};
use crate::clock::stamp_of;
use crate::order::{sort_indices, stable_sort_order, is_permutation, as_ints};
use crate::evict::date_sort::permuted;
use crate::selection::issue_views;
use crate::evict::commands::list::{ln, body_lines_text};

verus! {

/// How a comment is shown: its author and time, its branch, its body.
pub open spec fn comment_text(c: CommentView) -> Seq<char> {
    ln("  \x1b[32m"@ + c.author + " on "@ + time_text(c.creation_time) + "\x1b[0m"@)
        + ln("  For branch "@ + c.branch)
        + body_lines_text(lines_spec(c.body_text))
        + ln(Seq::empty())
}

/// The comments, shown in order.
pub open spec fn comments_text(cs: Seq<CommentView>) -> Seq<char>
    decreases cs.len(),
{
    if cs.len() == 0 {
        Seq::empty()
    } else {
        comments_text(cs.drop_last()) + comment_text(cs.last())
    }
}

/// How an issue is shown: a blank line and its title and id; unless short,
/// its status, author and time, branch, body and comments.
pub open spec fn issue_text(i: IssueView, short: bool) -> Seq<char> {
    ln(Seq::empty()) + ln("\x1b[33m"@ + i.title + " (Issue ID: "@ + i.id + ")\x1b[0m"@) + if short {
        Seq::empty()
    } else {
        ln("Current status: "@ + i.status.name)
            + ln("\x1b[34mReported by "@ + i.author + " on "@ + time_text(i.creation_time) + "\x1b[0m"@)
            + ln("Originated on branch "@ + i.branch + "\n"@)
            + (if i.body_text.len() > 0 { ln(i.body_text) } else { Seq::empty() })
            + if i.comments.len() == 0 {
            ln("    No comments on this issue."@)
        } else {
            comments_text(i.comments)
        }
    }
}

/// Whether the times that showing the issue writes can be written.
pub open spec fn shows(i: IssueView, short: bool) -> bool {
    !short ==> printable(i.creation_time) && forall|k: int| 0 <= k < i.comments.len() ==> printable(#[trigger] i.comments[k].creation_time)
}

/// The issues of `s` shown from the last to the first.
pub open spec fn vec_text(s: Seq<Issue>, short: bool) -> Seq<char>
    decreases s.len(),
{
    if s.len() == 0 {
        Seq::empty()
    } else {
        issue_text(s.last()@, short) + vec_text(s.drop_last(), short)
    }
}

/// What `list` shows: the issue file to read and whether to show titles
/// and ids only.
pub struct ListPlan {
    /// The committed issues' file (`--committed`), or the current branch's.
    pub file: String,
    /// Titles and ids only (`--short`, `-s`).
    pub short: bool,
}

/// What `list` shows for the arguments `args` on the current branch
/// `branch`: without a branch, exit code 1 and nothing shown; else the
/// committed issues (`--committed`) or the branch's, in full or as titles
/// and ids only (`--short`, `-s`). Other arguments are ignored.
pub fn listIssues(args: Vec<String>, branch: Option<String>) -> (r: Result<ListPlan, isize>)
    ensures
        branch is None ==> r == Err::<ListPlan, isize>(1),
        branch matches Some(b) ==> (r matches Ok(p)
            && p.file@ == (if views(args@).contains("--committed"@) { ".evict/issues.ebtd"@ } else { ".evict/"@ + b@ + ".ebtdlocal"@ })
            && p.short == (views(args@).contains("--short"@) || views(args@).contains("-s"@))),
{
    match branch {
        None => Err(1),
        Some(b) => {
            let short = has_arg(&args, "--short") || has_arg(&args, "-s");
            let committed = has_arg(&args, "--committed");
            let file = if committed {
                crate::file_manager::activeIssueFilename()
            } else {
                crate::file_manager::committableIssueFilename(b.as_str())
            };
            Ok(ListPlan { file, short })
        },
    }
}

/// Whether `a` is among the arguments.
fn has_arg(args: &Vec<String>, a: &str) -> (r: bool)
    ensures
        r == views(args@).contains(a@),
{
    let mut i: usize = 0;
    while i < args.len()
        invariant
            i <= args@.len(),
            forall|k: int| 0 <= k < i ==> args@[k]@ != a@,
        decreases args@.len() - i,
    {
        if str_eq(args[i].as_str(), a) {
            assert(views(args@)[i as int] == a@);
            return true;
        }
        i = i + 1;
    }
    assert(!views(args@).contains(a@)) by {
        if views(args@).contains(a@) {
            let k = choose|k: int| 0 <= k < args@.len() && views(args@)[k] == a@;
            assert(args@[k]@ == a@);
        }
    }
    false
}

/// Appends `s` and a line break.
fn push_strln(to: &mut String, s: &str)
    ensures
        final(to)@ == old(to)@ + ln(s@),
{
    to.append(s);
    push_char(to, '\n');
}

/// Appends how `issue` is shown to `resultStr`.
pub fn printIssue(issue: &Issue, short: bool, resultStr: String) -> (r: String)
    requires
        shows(issue@, short),
    ensures
        r@ == resultStr@ + issue_text(issue@, short),
{
    let ghost start = resultStr@;
    let mut resultStr = resultStr;
    proof {
        reveal_strlit("");
    }
    push_strln(&mut resultStr, "");
    let mut head = "\x1b[33m".to_owned();
    head.append(issue.title.as_str());
    head.append(" (Issue ID: ");
    head.append(issue.id.as_str());
    head.append(")\x1b[0m");
    push_strln(&mut resultStr, head.as_str());
    if !short {
        let mut l1 = "Current status: ".to_owned();
        l1.append(issue.status.name.as_str());
        push_strln(&mut resultStr, l1.as_str());
        let mut l2 = "\x1b[34mReported by ".to_owned();
        l2.append(issue.author.as_str());
        l2.append(" on ");
        let t = format_time(&issue.creationTime);
        l2.append(t.as_str());
        l2.append("\x1b[0m");
        push_strln(&mut resultStr, l2.as_str());
        let mut l3 = "Originated on branch ".to_owned();
        l3.append(issue.branch.as_str());
        l3.append("\n");
        push_strln(&mut resultStr, l3.as_str());
        if issue.bodyText.unicode_len() > 0 {
            push_strln(&mut resultStr, issue.bodyText.as_str());
        }
        if issue.comments.len() == 0 {
            push_strln(&mut resultStr, "    No comments on this issue.");
        } else {
            let ghost cs = issue@.comments;
            let ghost before = resultStr@;
            let mut k: usize = 0;
            assert(cs.take(0) =~= Seq::<CommentView>::empty());
            while k < issue.comments.len()
                invariant
                    cs == issue@.comments,
                    cs.len() == issue.comments@.len(),
                    k <= cs.len(),
                    shows(issue@, short),
                    !short,
                    resultStr@ == before + comments_text(cs.take(k as int)),
                decreases cs.len() - k,
            {
                let comment = &issue.comments[k];
                let ghost pre = resultStr@;
                assert(cs[k as int] == comment@);
                assert(printable(cs[k as int].creation_time));
                let mut c1 = "  \x1b[32m".to_owned();
                c1.append(comment.author.as_str());
                c1.append(" on ");
                let ct = format_time(&comment.creationTime);
                c1.append(ct.as_str());
                c1.append("\x1b[0m");
                push_strln(&mut resultStr, c1.as_str());
                let mut c2 = "  For branch ".to_owned();
                c2.append(comment.branch.as_str());
                push_strln(&mut resultStr, c2.as_str());
                let ls = lines(comment.bodyText.as_str());
                let ghost lv = views(ls@);
                let mut j: usize = 0;
                let ghost mid = resultStr@;
                assert(lv.take(0) =~= Seq::<Seq<char>>::empty());
                while j < ls.len()
                    invariant
                        lv == views(ls@),
                        j <= ls@.len(),
                        resultStr@ == mid + body_lines_text(lv.take(j as int)),
                    decreases ls@.len() - j,
                {
                    assert(lv.take(j + 1).drop_last() =~= lv.take(j as int));
                    assert(lv.take(j + 1).last() == ls@[j as int]@);
                    let mut line = "    ".to_owned();
                    line.append(ls[j].as_str());
                    push_strln(&mut resultStr, line.as_str());
                    j = j + 1;
                }
                assert(lv.take(ls@.len() as int) =~= lv);
                proof {
                    reveal_strlit("");
                }
                push_strln(&mut resultStr, "");
                assert(resultStr@ =~= pre + comment_text(comment@));
                k = k + 1;
                assert(cs.take(k as int).drop_last() =~= cs.take(k - 1));
                assert(cs.take(k as int).last() == comment@);
                assert(resultStr@ =~= before + comments_text(cs.take(k as int)));
            }
            assert(cs.take(cs.len() as int) =~= cs);
        }
        assert(resultStr@ =~= start + issue_text(issue@, short));
    } else {
        assert(resultStr@ =~= start + issue_text(issue@, short));
    }
    resultStr
}

/// The issues shown newest first: ordered by the time crate's stamps of
/// their creation times (see `stamp_of`; issues with equal stamps keep
/// their order) and shown from the last to the first.
pub fn printIssueVec(issues: Vec<Issue>, short: bool) -> (r: String)
    requires
        forall|i: int| 0 <= i < issues@.len() ==> 0 <= (#[trigger] issues@[i]).creationTime.tm_nsec < 1_000_000_000,
        forall|i: int| 0 <= i < issues@.len() ==> shows(#[trigger] issues@[i]@, short),
    ensures
        exists|ks: Seq<Timespec>, p: Seq<int>, s: Seq<Issue>|
            ks.len() == issues@.len()
            && (forall|i: int| 0 <= i < ks.len() ==> stamp_of(issues@[i].creationTime, #[trigger] ks[i]))
            && #[trigger] stable_sort_order(ks, p)
            && #[trigger] issue_views(s) == permuted(issue_views(issues@), p)
            && r@ == vec_text(s, short),
{
    let mut keys: Vec<Timespec> = Vec::new();
    let mut i: usize = 0;
    while i < issues.len()
        invariant
            i <= issues@.len(),
            keys@.len() == i,
            forall|k: int| 0 <= k < issues@.len() ==> 0 <= (#[trigger] issues@[k]).creationTime.tm_nsec < 1_000_000_000,
            forall|k: int| 0 <= k < i ==> stamp_of(issues@[k].creationTime, #[trigger] keys@[k]),
        decreases issues@.len() - i,
    {
        keys.push(clock::to_timespec(&issues[i].creationTime));
        i = i + 1;
    }
    let p = sort_indices(&keys);
    let ghost pi = as_ints(p@);
    let ghost iv = issue_views(issues@);
    let mut sorted: Vec<Issue> = Vec::new();
    let mut j: usize = 0;
    while j < p.len()
        invariant
            j <= p@.len(),
            pi == as_ints(p@),
            iv == issue_views(issues@),
            is_permutation(pi, issues@.len()),
            issue_views(sorted@) == permuted(iv, pi.take(j as int)),
        decreases p@.len() - j,
    {
        assert(pi[j as int] == p@[j as int] as int);
        let c = issues[p[j]].clone();
        let ghost before = issue_views(sorted@);
        sorted.push(c);
        j = j + 1;
        assert(c@ == iv[pi[j - 1]]);
        assert(pi.take(j as int) =~= pi.take(j - 1).push(pi[j - 1]));
        assert(issue_views(sorted@) =~= before.push(c@));
        assert(permuted(iv, pi.take(j as int)) =~= permuted(iv, pi.take(j - 1)).push(iv[pi[j - 1]]));
    }
    assert(pi.take(p@.len() as int) =~= pi);
    let ghost s = sorted@;
    proof {
        assert forall|k: int| 0 <= k < s.len() implies shows(#[trigger] s[k]@, short) by {
            assert(issue_views(s)[k] == s[k]@);
            assert(issue_views(s)[k] == iv[pi[k]]);
            assert(iv[pi[k]] == issues@[pi[k]]@);
        }
    }
    let mut resultStr = String::new();
    let mut k: usize = sorted.len();
    assert(s.take(k as int) =~= s);
    while k > 0
        invariant
            s == sorted@,
            k <= s.len(),
            forall|j: int| 0 <= j < s.len() ==> shows(#[trigger] s[j]@, short),
            resultStr@ + vec_text(s.take(k as int), short) == vec_text(s, short),
        decreases k,
    {
        assert(s.take(k as int).drop_last() =~= s.take(k - 1));
        assert(s.take(k as int).last() == s[k - 1]);
        assert(shows(s[k - 1]@, short));
        resultStr = printIssue(&sorted[k - 1], short, resultStr);
        k = k - 1;
    }
    assert(s.take(0) =~= Seq::<Issue>::empty());
    resultStr
}

} // verus!
