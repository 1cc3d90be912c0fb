//! `tag` and `untag`: enable or disable a tag on an issue.
use vstd::prelude::*;
use crate::text::views;
use crate::evict::issue::{Issue, IssueView, IssueTag, IssueTimelineEvent, is_tag_named, tag_scan, tag_stamps_in_range, law_added_tag_change, most_recent_index, lemma_most_recent_index};
use crate::clock::{Timespec, stamp_of};
use crate::evict::selection::{issue_views, matching_spec, without_id, update_issue, IssueUpdate, ambiguous_header, id_title_line};
use crate::evict::commands::failed_with;

verus! {

/// Whether `e` is a change of the tag `name` to `enabled` by `author`.
pub open spec fn tag_change(e: IssueTimelineEvent, name: Seq<char>, enabled: bool, author: Seq<char>) -> bool {
    match e {
        IssueTimelineEvent::TimelineTag(t) => t.tag_name@ == name && t.enabled == enabled && t.author@ == author,
        IssueTimelineEvent::TimelineComment(_) => false,
    }
}

/// Whether some change of the tag `name` among `events` set it to `enabled`.
pub open spec fn some_change_to(events: Seq<IssueTimelineEvent>, name: Seq<char>, enabled: bool) -> bool {
    exists|i: int| 0 <= i < events.len() && #[trigger] is_tag_named(events[i], name)
        && events[i]->TimelineTag_0.enabled == enabled
}

/// `r` is `i` as `modify_tag` may leave it: unchanged, when a most recent
/// change of the tag already set it to `enabled`; or with a new change of
/// the tag to `enabled` by `author` at the end of its timeline, when the tag
/// never changed or a most recent change set it otherwise. Which of the
/// two happens is `tag_decided`.
pub open spec fn tag_modified(r: IssueView, i: IssueView, name: Seq<char>, enabled: bool, author: Seq<char>) -> bool {
    &&& r.base == i.base
    &&& r.status == i.status
    &&& (r.events == i.events && some_change_to(i.events, name, enabled))
        || (r.events.len() == i.events.len() + 1 && r.events.drop_last() == i.events
            && tag_change(r.events.last(), name, enabled, author)
            && (some_change_to(i.events, name, !enabled)
                || !(exists|k: int| 0 <= k < i.events.len() && #[trigger] is_tag_named(i.events[k], name))))
}

/// `r` is `i` with the tag `name` set to `enabled` as the most recent
/// change of the tag decides: by the time crate's stamps `ks` of the
/// changes (see `stamp_of` and `most_recent_index`), `r` keeps the
/// timeline exactly when that change already set the tag so.
pub open spec fn tag_decided(r: IssueView, i: IssueView, name: Seq<char>, enabled: bool) -> bool {
    exists|ks: Seq<Timespec>| #[trigger] ks.len() == i.events.len()
        && (forall|k: int| 0 <= k < ks.len() && #[trigger] is_tag_named(i.events[k], name)
            ==> stamp_of(i.events[k]->TimelineTag_0.time.0, ks[k]))
        && (r.events == i.events <==> (most_recent_index(i.events, ks, name) matches Some(j)
            && i.events[j]->TimelineTag_0.enabled == enabled))
}

/// Sets the tag `tag` of the issue to `enabledAfter`, by `author`: adds a
/// change unless the most recent change of the tag already did so (see
/// `tag_decided`).
pub fn modify_tag(issue: Issue, tag: &str, enabledAfter: bool, author: String) -> (r: Issue)
    requires
        tag_stamps_in_range(issue.events@, tag@),
    ensures
        tag_modified(r@, issue@, tag@, enabledAfter, author@),
        r.events@.len() > issue.events@.len() ==> tag_scan(r.events@).0.contains(tag@) == enabledAfter,
        tag_decided(r@, issue@, tag@, enabledAfter),
{
    let mut issue = issue;
    let lastTag = match issue.most_recent_tag_for_name(tag) {
        Some(t) => Some(t.clone()),
        None => None,
    };
    let ghost ev = issue.events@;
    let add = match &lastTag {
        None => true,
        Some(t) => t.enabled != enabledAfter,
    };
    let ghost ks = choose|ks: Seq<Timespec>| #[trigger] ks.len() == ev.len()
        && (forall|i: int| 0 <= i < ks.len() && #[trigger] is_tag_named(ev[i], tag@)
            ==> stamp_of(ev[i]->TimelineTag_0.time.0, ks[i]))
        && match most_recent_index(ev, ks, tag@) {
            Some(j) => lastTag matches Some(t) && ev[j] == IssueTimelineEvent::TimelineTag(t),
            None => lastTag is None,
        };
    proof {
        if lastTag is Some {
            let t = lastTag.unwrap();
            let i = choose|i: int| 0 <= i < ev.len() && #[trigger] ev[i] == IssueTimelineEvent::TimelineTag(t) && t.tag_name@ == tag@;
            assert(is_tag_named(ev[i], tag@));
        }
        lemma_most_recent_index(ev, ks, tag@);
    }
    if add {
        let new_tag = IssueTag::new(tag.to_owned(), author, enabledAfter);
        proof {
            law_added_tag_change(ev, new_tag);
        }
        issue.add_tag(new_tag);
        assert(issue.events@.drop_last() =~= ev);
        assert(issue.events@.len() != ev.len());
    }
    issue
}

/// The usage line of a tag command.
pub open spec fn tag_usage(cmdName: Seq<char>) -> Seq<char> {
    cmdName + " usage: evict "@ + cmdName + " <issue-id> <tag>"@
}

/// Whether the changes of the tag `name` on every issue have their
/// nanoseconds in range.
pub open spec fn all_tag_stamps_in_range(v: Seq<Issue>, name: Seq<char>) -> bool {
    forall|k: int| 0 <= k < v.len() ==> #[trigger] tag_stamps_in_range(v[k]@.events, name)
}

/// Sets the tag named by the second argument to `enabledAfter` on the issue
/// named by the first (see `update_issue` and `modify_tag`); another number
/// of arguments shows the usage of `cmdName` (exit code 1).
pub fn tag_cmd(args: Vec<String>, cmdName: &str, enabledAfter: bool, issues: Vec<Issue>, author: String) -> (r: Result<IssueUpdate, (String, isize)>)
    requires
        args@.len() == 2 ==> all_tag_stamps_in_range(issues@, args@[1]@),
    ensures
        args@.len() != 2 ==> failed_with(r, tag_usage(cmdName@), 1),
        args@.len() == 2 ==> (r matches Ok(u) && ({
            let m = matching_spec(issue_views(issues@), args@[0]@);
            &&& m.len() != 1 ==> issue_views(u.issues@) == issue_views(issues@)
                && views(u.report@) == seq![ambiguous_header()] + m.map_values(|i: IssueView| id_title_line(i))
            &&& m.len() == 1 ==> u.report@.len() == 0 && exists|x: IssueView|
                #[trigger] tag_modified(x, m[0], args@[1]@, enabledAfter, author@)
                && tag_decided(x, m[0], args@[1]@, enabledAfter)
                && issue_views(u.issues@) == without_id(issue_views(issues@), m[0].base.id@).push(x)
        })),
{
    if args.len() != 2 {
        let mut m = cmdName.to_owned();
        m.append(" usage: evict ");
        m.append(cmdName);
        m.append(" <issue-id> <tag>");
        return Err((m, 1));
    }
    let ghost a1 = args@[1]@;
    let ghost v = issue_views(issues@);
    let id_part = args[0].clone();
    let tag_name = args[1].clone();
    let update = |issue: Issue| -> (u: Issue)
        requires
            tag_stamps_in_range(issue.events@, tag_name@),
        ensures
            tag_modified(u@, issue@, tag_name@, enabledAfter, author@),
            tag_decided(u@, issue@, tag_name@, enabledAfter),
        {
            modify_tag(issue, tag_name.as_str(), enabledAfter, author.clone())
        };
    proof {
        assert forall|i: Issue| v.contains(i@) implies update.requires((i,)) by {
            let k = choose|k: int| 0 <= k < v.len() && v[k] == i@;
            assert(v[k] == issues@[k]@);
            assert(tag_stamps_in_range(issues@[k]@.events, tag_name@));
        }
    }
    let updated = update_issue(id_part.as_str(), issues, update);
    proof {
        let m = matching_spec(v, args@[0]@);
        if m.len() == 1 {
            let (c, u) = choose|c: Issue, u: Issue| c@ == m[0] && #[trigger] update.ensures((c,), u)
                && issue_views(updated.issues@) == without_id(v, m[0].base.id@).push(u@);
            assert(tag_modified(u@, m[0], args@[1]@, enabledAfter, author@));
            assert(tag_decided(u@, m[0], args@[1]@, enabledAfter));
        }
    }
    Ok(updated)
}

/// `tag <issue-id> <tag>`: enables the tag.
pub fn tag(args: Vec<String>, issues: Vec<Issue>, author: String) -> (r: Result<IssueUpdate, (String, isize)>)
    requires
        args@.len() == 2 ==> all_tag_stamps_in_range(issues@, args@[1]@),
    ensures
        args@.len() != 2 ==> failed_with(r, tag_usage("tag"@), 1),
        args@.len() == 2 ==> (r matches Ok(u) && ({
            let m = matching_spec(issue_views(issues@), args@[0]@);
            &&& m.len() != 1 ==> issue_views(u.issues@) == issue_views(issues@)
            &&& m.len() == 1 ==> exists|x: IssueView|
                #[trigger] tag_modified(x, m[0], args@[1]@, true, author@)
                && tag_decided(x, m[0], args@[1]@, true)
                && issue_views(u.issues@) == without_id(issue_views(issues@), m[0].base.id@).push(x)
        })),
{
    tag_cmd(args, "tag", true, issues, author)
}

/// `untag <issue-id> <tag>`: disables the tag.
pub fn untag(args: Vec<String>, issues: Vec<Issue>, author: String) -> (r: Result<IssueUpdate, (String, isize)>)
    requires
        args@.len() == 2 ==> all_tag_stamps_in_range(issues@, args@[1]@),
    ensures
        args@.len() != 2 ==> failed_with(r, tag_usage("untag"@), 1),
        args@.len() == 2 ==> (r matches Ok(u) && ({
            let m = matching_spec(issue_views(issues@), args@[0]@);
            &&& m.len() != 1 ==> issue_views(u.issues@) == issue_views(issues@)
            &&& m.len() == 1 ==> exists|x: IssueView|
                #[trigger] tag_modified(x, m[0], args@[1]@, false, author@)
                && tag_decided(x, m[0], args@[1]@, false)
                && issue_views(u.issues@) == without_id(issue_views(issues@), m[0].base.id@).push(x)
        })),
{
    tag_cmd(args, "untag", false, issues, author)
}

} // verus!
