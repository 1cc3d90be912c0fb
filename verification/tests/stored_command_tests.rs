use evict::evict::status_storage::StatusWriteError;
use evict::commands::create::{createIssue, doIssueCreation, writeIssue};
use evict::commands::default_author::defaultAuthor;
use evict::commands::default_status::{defaultStatus, defaultStatusReport};
use evict::commands::getAuthor;
use evict::commands::set_status::setStatus;
use evict::config::Config;
use evict::evict::commands::create::BodySource;
use evict::evict::commands::default_status::DefaultStatusPlan;
use evict::evict::commands::merge::merge_branches;
use evict::evict::issue::{IssueComment as EvictComment, IssueTag, IssueTimelineEvent};
use evict::issue::Issue;
use evict::status_storage::{
    fullDefaultStatusFilename, fullStatusFilename, readDefaultStatus, readStatusOptions, writeDefaultStatus,
    writeStatusOptions, StatusOption,
};
use evict::vcs_status::{currentVCS, VCS};

fn args(v: &[&str]) -> Vec<String> {
    v.iter().map(|s| s.to_string()).collect()
}

fn option(name: &str) -> StatusOption {
    StatusOption { name: name.to_string() }
}

#[test]
fn stored_status_file_names() {
    assert_eq!(fullStatusFilename(), ".evict/status_types");
    assert_eq!(fullDefaultStatusFilename(), ".evict/default_status");
}

#[test]
fn stored_status_options_round_trip() {
    let text = writeStatusOptions(vec![option("open"), option("closed")]);
    assert_eq!(text, "open\nclosed");
    let back = readStatusOptions(Some(text));
    let names: Vec<&str> = back.iter().map(|o| o.name.as_str()).collect();
    assert_eq!(names, vec!["open", "closed"]);
    assert!(readStatusOptions(None).is_empty());
}

#[test]
fn stored_default_status() {
    let statuses = Some("open\nclosed".to_string());
    assert_eq!(readDefaultStatus(Some("closed\n".to_string()), statuses.clone()).name, "closed");
    assert_eq!(readDefaultStatus(Some("gone".to_string()), statuses.clone()).name, "<unknown>");
    assert_eq!(readDefaultStatus(None, statuses.clone()).name, "<unknown>");
    assert_eq!(writeDefaultStatus(&option("open"), statuses.clone()), Ok("open".to_string()));
    assert_eq!(
        writeDefaultStatus(&option("wip"), statuses),
        Err("wip is not a status option".to_string())
    );
}

#[test]
fn stored_issue_ids_are_digits() {
    let id = Issue::generateId();
    assert!(!id.is_empty());
    assert!(id.chars().all(|c| c.is_ascii_digit() || c == '-'));
}

#[test]
fn the_vcs_is_git() {
    assert!(matches!(currentVCS(), VCS::Git));
}

#[test]
fn event_types() {
    let c = EvictComment::new("me".to_string(), "text".to_string(), None);
    let t = IssueTag::new("bug".to_string(), "me".to_string(), true);
    assert_eq!(IssueTimelineEvent::TimelineComment(c).event_type(), "comment");
    assert_eq!(IssueTimelineEvent::TimelineTag(t).event_type(), "tag");
}

#[test]
fn merge_branch_plans() {
    let p = merge_branches(args(&["feature"]), Some("master".to_string())).ok().unwrap();
    assert_eq!(p.from_branch, "feature");
    assert_eq!(p.from_file, ".evict/feature.ebtdlocal");
    assert_eq!(p.to_file, ".evict/master.ebtdlocal");
    let e = merge_branches(args(&["feature"]), None).err().unwrap();
    assert_eq!(e, ("Could not determine current branch".to_string(), 2));
    assert_eq!(merge_branches(args(&[]), None).err().unwrap().1, 1);
}

#[test]
fn stored_default_author() {
    let c = Config { author: Some("Ann".to_string()) };
    let shown = defaultAuthor(args(&[]), c);
    assert_eq!(shown.message, Some("Ann".to_string()));
    assert_eq!(shown.exit, 0);
    let set = defaultAuthor(args(&["Bob"]), Config { author: None });
    assert_eq!(set.save.unwrap().author, Some("Bob".to_string()));
    let bad = defaultAuthor(args(&["a", "b"]), Config { author: None });
    assert_eq!(bad.exit, 1);
    assert_eq!(getAuthor(&Config { author: Some("Cy".to_string()) }), Some("Cy".to_string()));
    assert_eq!(getAuthor(&Config { author: None }), None);
}

#[test]
fn stored_create() {
    let plan = createIssue(args(&["--title", "T", "--no-body", "--author", "A"]));
    assert_eq!(plan.title, Some("T".to_string()));
    assert_eq!(plan.author, Some("A".to_string()));
    assert!(matches!(plan.body, BodySource::NoBody));
    let plan = createIssue(args(&["--body-file", "msg.txt"]));
    assert!(matches!(plan.body, BodySource::File(ref f) if f == "msg.txt"));
    let plan = createIssue(args(&[]));
    assert!(matches!(plan.body, BodySource::Edit(ref f) if f == "ISSUE_MSG"));

    let issue = doIssueCreation("T".to_string(), "A".to_string(), None, "42".to_string(), None);
    assert_eq!(issue.title, "T");
    assert_eq!(issue.bodyText, "");
    assert_eq!(issue.id, "42");
    assert_eq!(issue.branch, "<unknown>");
    assert_eq!(issue.status.name, "<unknown>");
    let all = writeIssue(vec![], issue);
    assert_eq!(all.len(), 1);
}

#[test]
fn stored_default_status_command() {
    let current = option("open");
    assert!(matches!(defaultStatus(args(&[]), &current), DefaultStatusPlan::Report(ref m, 2) if m == "Current default status is: open"));
    assert!(matches!(defaultStatus(args(&["closed"]), &current), DefaultStatusPlan::Write(ref o) if o.name == "closed"));
    assert!(matches!(defaultStatus(args(&["a", "b"]), &current), DefaultStatusPlan::Report(_, 1)));
    assert_eq!(defaultStatusReport(Ok(true)), (None, 0));
    assert_eq!(defaultStatusReport(Ok(false)), (Some("Could not write to file".to_string()), 3));
    assert_eq!(defaultStatusReport(Err("no".to_string())), (Some("no".to_string()), 4));
}

#[test]
fn stored_set_status() {
    let issues = vec![
        Issue::new("A".to_string(), "b".to_string(), "me".to_string(), "11".to_string(), None),
        Issue::new("B".to_string(), "b".to_string(), "me".to_string(), "22".to_string(), None),
    ];
    let options = vec![option("open"), option("closed")];
    let u = setStatus(args(&["11", "closed"]), true, options.clone(), issues.clone()).ok().unwrap();
    assert!(u.report.is_empty());
    assert_eq!(u.issues.len(), 2);
    assert_eq!(u.issues[1].id, "11");
    assert_eq!(u.issues[1].status.name, "closed");
    let u = setStatus(args(&["22", "0"]), true, options.clone(), issues.clone()).ok().unwrap();
    assert_eq!(u.issues[1].status.name, "open");
    assert_eq!(setStatus(args(&["11"]), true, options.clone(), issues.clone()).err().unwrap().1, 1);
    assert_eq!(setStatus(args(&["11", "closed"]), false, options.clone(), issues.clone()).err().unwrap().1, 3);
    assert_eq!(setStatus(args(&["11", "wip"]), true, options, issues).err().unwrap().1, 2);
}

#[test]
fn status_write_error_texts() {
    let io = StatusWriteError::IoWriteFailure(std::io::Error::new(std::io::ErrorKind::Other, "disk"));
    assert_eq!(io.description(), "I/O to the file failed");
    assert!(io.cause().is_some());
    let bad = StatusWriteError::InvalidStatus("wip is not a valid status option".to_string());
    assert_eq!(bad.description(), "wip is not a valid status option");
    assert!(bad.cause().is_none());
}
