//! `set-status`: changes the status of an issue.
use vstd::prelude::*;
use crate::text::{views, parse_usize, parse_usize_spec, str_eq};
use crate::evict::issue::{Issue, IssueView, IssueStatus};
use crate::evict::status_storage::{StatusOption, option_names};
use crate::evict::selection::{issue_views, matching_spec, without_id, update_issue, IssueUpdate, ambiguous_header, id_title_line};

verus! {

/// The name of the status that `ident` names among the option names
/// `names`: by its index when `ident` is a number (nothing when the index
/// is out of range), else by its name.
pub open spec fn resolve_status_spec(ident: Seq<char>, names: Seq<Seq<char>>) -> Option<Seq<char>> {
    match parse_usize_spec(ident) {
        Some(i) => if i < names.len() {
            Some(names[i as int])
        } else {
            None
        },
        None => if names.contains(ident) {
            Some(ident)
        } else {
            None
        },
    }
}

/// The index of the first option named `name`.
fn option_index(search: &Vec<StatusOption>, name: &str) -> (r: Option<usize>)
    ensures
        r matches Some(i) ==> i < search@.len() && search@[i as int].name@ == name@,
        r is None ==> !option_names(search@).contains(name@),
{
    let mut i: usize = 0;
    while i < search.len()
        invariant
            i <= search@.len(),
            forall|k: int| 0 <= k < i ==> search@[k].name@ != name@,
        decreases search@.len() - i,
    {
        if str_eq(search[i].name.as_str(), name) {
            return Some(i);
        }
        i = i + 1;
    }
    assert(!option_names(search@).contains(name@)) by {
        if option_names(search@).contains(name@) {
            let k = choose|k: int| 0 <= k < search@.len() && option_names(search@)[k] == name@;
            assert(search@[k].name@ == name@);
        }
    }
    None
}

/// The status that `statusIdent` names among `search`, changed now.
pub fn resolve_new_status(statusIdent: &str, search: &Vec<StatusOption>) -> (r: Option<IssueStatus>)
    ensures
        match resolve_status_spec(statusIdent@, option_names(search@)) {
            Some(n) => r matches Some(s) && s.name@ == n && s.last_change_time.0.formattable(),
            None => r is None,
        },
{
    let found: Option<&StatusOption> = match parse_usize(statusIdent) {
        Some(index) => if search.len() > index {
            assert(option_names(search@)[index as int] == search@[index as int].name@);
            Some(&search[index])
        } else {
            None
        },
        None => match option_index(search, statusIdent) {
            Some(i) => {
                assert(option_names(search@)[i as int] == statusIdent@);
                Some(&search[i])
            },
            None => None,
        },
    };
    match found {
        Some(x) => Some(x.make_status()),
        None => None,
    }
}

/// The usage lines of `set-status`.
pub open spec fn set_status_usage() -> Seq<Seq<char>> {
    seq![
        "set-status usage: evict set-status <issue-id> <status>"@,
        "    Where <status> is either the full name of a status"@,
        "    or the index of a status"@,
    ]
}

/// Sets the status of the issue named by the first argument to the status
/// option named (or numbered) by the second (see `update_issue`). Another
/// number of arguments shows the usage (exit code 1); a status that is not
/// an option gives exit code 2.
pub fn set_status(args: Vec<String>, options: Vec<StatusOption>, issues: Vec<Issue>) -> (r: Result<IssueUpdate, (Vec<String>, isize)>)
    ensures
        args@.len() != 2 ==> (r matches Err(e) && e.1 == 1 && views(e.0@) == set_status_usage()),
        args@.len() == 2 && resolve_status_spec(args@[1]@, option_names(options@)) is None ==> (r matches Err(e) && e.1 == 2
            && views(e.0@) == seq!["Given status does not exist"@]),
        args@.len() == 2 && resolve_status_spec(args@[1]@, option_names(options@)) is Some ==> (r matches Ok(u) && ({
            let m = matching_spec(issue_views(issues@), args@[0]@);
            let name = resolve_status_spec(args@[1]@, option_names(options@)).unwrap();
            &&& m.len() != 1 ==> issue_views(u.issues@) == issue_views(issues@)
                && views(u.report@) == seq![ambiguous_header()] + m.map_values(|i: IssueView| id_title_line(i))
            &&& m.len() == 1 ==> u.report@.len() == 0 && exists|s: IssueStatus| #[trigger] s.name@ == name
                && issue_views(u.issues@) == without_id(issue_views(issues@), m[0].base.id@).push(IssueView { status: s, ..m[0] })
        })),
{
    if args.len() != 2 {
        let lines = vec![
            "set-status usage: evict set-status <issue-id> <status>".to_owned(),
            "    Where <status> is either the full name of a status".to_owned(),
            "    or the index of a status".to_owned(),
        ];
        assert(views(lines@) =~= set_status_usage());
        return Err((lines, 1));
    }
    match resolve_new_status(args[1].as_str(), &options) {
        Some(newStatus) => {
            let ghost v = issue_views(issues@);
            let st = &newStatus;
            let update = |oldIssue: Issue| -> (u: Issue)
                ensures
                    u@ == (IssueView { status: *st, ..oldIssue@ }),
                {
                    let mut oldIssue = oldIssue;
                    oldIssue.status = st.clone();
                    oldIssue
                };
            let edited = update_issue(args[0].as_str(), issues, update);
            proof {
                let m = matching_spec(v, args@[0]@);
                if m.len() == 1 {
                    let (c, u) = choose|c: Issue, u: Issue| c@ == m[0] && #[trigger] update.ensures((c,), u)
                        && issue_views(edited.issues@) == without_id(v, m[0].base.id@).push(u@);
                    assert(newStatus.name@ == resolve_status_spec(args@[1]@, option_names(options@)).unwrap());
                }
            }
            Ok(edited)
        },
        None => {
            let lines = vec!["Given status does not exist".to_owned()];
            assert(views(lines@) =~= seq!["Given status does not exist"@]);
            Err((lines, 2))
        },
    }
}


/// A status added with `new-status` can then be set by its name, unless
/// the name reads as a number (a number names a status by its index).
pub proof fn law_new_status_can_be_set(names: Seq<Seq<char>>, name: Seq<char>)
    requires
        parse_usize_spec(name) is None,
    ensures
        resolve_status_spec(name, names.push(name)) == Some(name),
{
    assert(names.push(name)[names.len() as int] == name);
}

} // verus!
