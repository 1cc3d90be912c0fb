//! `set-status`: changes the status of an issue of the current branch.
use vstd::prelude::*;
use crate::text::{views, parse_usize, str_eq};
use crate::issue::{Issue, IssueView, IssueStatus};
use crate::status_storage::{StatusOption, option_names};
use crate::selection::{issue_views, matching_end, other_ids, updateIssue, IssuesUpdate, id_title_line};
use crate::evict::commands::set_status::{resolve_status_spec, set_status_usage};

verus! {

/// The index of the first option named `name`.
fn option_index(search: &Vec<StatusOption>, name: &str) -> (r: Option<usize>)
    ensures
        r matches Some(i) ==> i < search@.len() && search@[i as int].name@ == name@,
        r is None ==> !option_names(search@).contains(name@),
{
    let mut i: usize = 0;
    while i < search.len()
        invariant
            i <= search@.len(),
            forall|k: int| 0 <= k < i ==> search@[k].name@ != name@,
        decreases search@.len() - i,
    {
        if str_eq(search[i].name.as_str(), name) {
            return Some(i);
        }
        i = i + 1;
    }
    assert(!option_names(search@).contains(name@)) by {
        if option_names(search@).contains(name@) {
            let k = choose|k: int| 0 <= k < search@.len() && option_names(search@)[k] == name@;
            assert(search@[k].name@ == name@);
        }
    }
    None
}

/// The status that `statusIdent` names among `search` (by index or by
/// name, see `resolve_status_spec`), changed now.
pub fn resolveNewStatus(statusIdent: &str, search: &Vec<StatusOption>) -> (r: Option<IssueStatus>)
    ensures
        match resolve_status_spec(statusIdent@, option_names(search@)) {
            Some(n) => r matches Some(s) && s.name@ == n && s.lastChangeTime.formattable(),
            None => r is None,
        },
{
    let found: Option<&StatusOption> = match parse_usize(statusIdent) {
        Some(index) => if search.len() > index {
            assert(option_names(search@)[index as int] == search@[index as int].name@);
            Some(&search[index])
        } else {
            None
        },
        None => match option_index(search, statusIdent) {
            Some(i) => {
                assert(option_names(search@)[i as int] == statusIdent@);
                Some(&search[i])
            },
            None => None,
        },
    };
    match found {
        Some(x) => Some(x.makeStatus()),
        None => None,
    }
}

/// Sets the status of the issue whose id ends with the first argument to
/// the status option named (or numbered) by the second (see `updateIssue`),
/// among the issues of the current branch (`branch_known`). Another number
/// of arguments shows the usage (exit code 1); an unknown branch gives exit
/// code 3; a status that is not an option gives exit code 2 and the line
/// "Could not read current branch". Some issue must match the id.
pub fn setStatus(args: Vec<String>, branch_known: bool, options: Vec<StatusOption>, issues: Vec<Issue>) -> (r: Result<IssuesUpdate, (Vec<String>, isize)>)
    requires
        args@.len() == 2 && branch_known && resolve_status_spec(args@[1]@, option_names(options@)) is Some
            ==> matching_end(issue_views(issues@), args@[0]@).len() > 0,
    ensures
        args@.len() != 2 ==> (r matches Err(e) && e.1 == 1 && views(e.0@) == set_status_usage()),
        args@.len() == 2 && !branch_known ==> (r matches Err(e) && e.1 == 3 && e.0@.len() == 0),
        args@.len() == 2 && branch_known && resolve_status_spec(args@[1]@, option_names(options@)) is None ==> (r matches Err(e) && e.1 == 2
            && views(e.0@) == seq!["Could not read current branch"@]),
        args@.len() == 2 && branch_known && resolve_status_spec(args@[1]@, option_names(options@)) is Some ==> (r matches Ok(u) && ({
            let m = matching_end(issue_views(issues@), args@[0]@);
            let name = resolve_status_spec(args@[1]@, option_names(options@)).unwrap();
            &&& m.len() > 1 ==> issue_views(u.issues@) == issue_views(issues@)
            &&& m.len() == 1 ==> u.report@.len() == 0 && exists|s: IssueStatus| #[trigger] s.name@ == name
                && issue_views(u.issues@) == other_ids(issue_views(issues@), m[0].id).push(IssueView { status: s@, ..m[0] })
        })),
{
    if args.len() != 2 {
        let lines = vec![
            "set-status usage: evict set-status <issue-id> <status>".to_owned(),
            "    Where <status> is either the full name of a status".to_owned(),
            "    or the index of a status".to_owned(),
        ];
        assert(views(lines@) =~= set_status_usage());
        return Err((lines, 1));
    }
    if !branch_known {
        return Err((Vec::new(), 3));
    }
    match resolveNewStatus(args[1].as_str(), &options) {
        Some(newStatus) => {
            let ghost v = issue_views(issues@);
            let st = &newStatus;
            let update = |oldIssue: Issue| -> (u: Issue)
                ensures
                    u@ == (IssueView { status: st@, ..oldIssue@ }),
                {
                    let mut oldIssue = oldIssue;
                    oldIssue.status = st.clone();
                    oldIssue
                };
            let edited = updateIssue(args[0].as_str(), issues, update);
            proof {
                let m = matching_end(v, args@[0]@);
                if m.len() == 1 {
                    let (c, u) = choose|c: Issue, u: Issue| c@ == m[0] && #[trigger] update.ensures((c,), u)
                        && issue_views(edited.issues@) == other_ids(v, m[0].id).push(u@);
                    assert(newStatus.name@ == resolve_status_spec(args@[1]@, option_names(options@)).unwrap());
                }
            }
            Ok(edited)
        },
        None => {
            let lines = vec!["Could not read current branch".to_owned()];
            assert(views(lines@) =~= seq!["Could not read current branch"@]);
            Err((lines, 2))
        },
    }
}

} // verus!
