use evict::commands::clear::{clearData, ClearAction, ClearEvent};
use evict::commands::delete::{checkCommitted, deleteIssue, execDelete};
use evict::commands::list::{listIssues, printIssue, printIssueVec};
use evict::commands::merge::{mergeBranches, mergeFiles, mergeFromMissing, mergeWritten};
use evict::commands::create::{creationStep, CreateAction, CreateEvent};
use evict::commands::sync::{syncIssues, SyncAction, SyncEvent};
use evict::commands::{executeCommand, standardCommands, Command};
use evict::config::Config;
use evict::file_manager::{activeIssueFilename, committableIssueFilename, issueListJson, readIssuesFromJson};
use evict::issue::{Issue, IssueComment};
use evict::merge::{mergeComments, mergeIssues};
use evict::date_sort::sortByTime;
use evict::vcs_status::currentBranch;

fn args(v: &[&str]) -> Vec<String> {
    v.iter().map(|s| s.to_string()).collect()
}

fn issue(title: &str, id: &str) -> Issue {
    Issue::new(title.to_string(), "body".to_string(), "me".to_string(), id.to_string(), Some("dev".to_string()))
}

#[test]
fn stored_commands_resolve() {
    let table = standardCommands();
    assert_eq!(executeCommand("sync", &table), Ok(Command::Sync));
    assert_eq!(executeCommand("tag", &table), Err(("Command tag not found".to_string(), 1)));
}

#[test]
fn file_names() {
    assert_eq!(activeIssueFilename(), ".evict/issues.ebtd");
    assert_eq!(committableIssueFilename("master"), ".evict/master.ebtdlocal");
}

#[test]
fn current_branch_is_first_line() {
    assert_eq!(currentBranch("master\n".to_string()), Some("master".to_string()));
    assert_eq!(currentBranch("\nx".to_string()), None);
    assert_eq!(currentBranch("".to_string()), None);
}

#[test]
fn list_options_and_text() {
    let p = listIssues(args(&["--committed", "-s"]), Some("dev".to_string())).ok().unwrap();
    assert_eq!((p.file.as_str(), p.short), (".evict/issues.ebtd", true));
    let p = listIssues(args(&["--other"]), Some("dev".to_string())).ok().unwrap();
    assert_eq!((p.file.as_str(), p.short), (".evict/dev.ebtdlocal", false));
    assert_eq!(listIssues(args(&["-s"]), None).err(), Some(1));
    let i = issue("Title", "77");
    let text = printIssue(&i, true, String::new());
    assert_eq!(text, "\n\u{1b}[33mTitle (Issue ID: 77)\u{1b}[0m\n");
    let long = printIssue(&i, false, String::new());
    assert!(long.ends_with("Originated on branch dev\n\nbody\n    No comments on this issue.\n"));
    let both = printIssueVec(vec![i.clone()], true);
    assert_eq!(both, text);
}

#[test]
fn stored_delete() {
    let committed = vec![issue("C", "105")];
    assert_eq!(deleteIssue(args(&["5"]), Some("dev".to_string()), &vec![]), Ok(("dev".to_string(), "5".to_string())));
    assert_eq!(deleteIssue(args(&["5"]), None, &committed), Err((vec![], 2)));
    assert_eq!(deleteIssue(args(&[]), Some("dev".to_string()), &committed).err().unwrap().1, 1);
    assert_eq!(
        deleteIssue(args(&["x", "05"]), Some("dev".to_string()), &committed),
        Err((args(&["Issue 105 (C) has already been committed, cannot delete."]), 3))
    );
    assert_eq!(deleteIssue(args(&["10"]), Some("dev".to_string()), &committed), Ok(("dev".to_string(), "10".to_string())));
    let (found, lines) = checkCommitted("05", &committed);
    assert!(found);
    assert_eq!(lines, args(&["Issue 105 (C) has already been committed, cannot delete."]));
    let issues = vec![issue("A", "11"), issue("B", "22")];
    let out = execDelete("1", issues);
    assert_eq!(out.exit, 0);
    assert_eq!(out.remaining.unwrap().len(), 1);
}

#[test]
fn merge_plan() {
    let p = mergeBranches(args(&["feature"]), Some("master".to_string())).unwrap();
    assert_eq!(p.from_file, ".evict/feature.ebtdlocal");
    assert_eq!(p.to_file, ".evict/master.ebtdlocal");
    let p = mergeBranches(args(&["a", "b"]), None).unwrap();
    assert_eq!(p.to_file, ".evict/b.ebtdlocal");
    assert_eq!(mergeBranches(args(&["a"]), None).err(), Some(("Could not determine current branch".to_string(), 2)));
    assert_eq!(mergeBranches(args(&[]), None).err().unwrap().1, 1);
    assert_eq!(mergeFromMissing(&p), ("There are no issues for a".to_string(), 3));
    assert_eq!(mergeWritten(false), (Some("Could not write issues to file".to_string()), 4));
}

#[test]
fn merge_files_step() {
    let p = mergeBranches(args(&["feature"]), Some("master".to_string())).unwrap();
    assert_eq!(mergeFiles(&p, false, vec![], vec![]).err(), Some(("There are no issues for feature".to_string(), 3)));
    let merged = mergeFiles(&p, true, vec![issue("A", "1")], vec![issue("A old", "1"), issue("B", "2")]).ok().unwrap();
    assert_eq!(merged.len(), 2);
    assert!(merged.iter().any(|i| i.id == "1" && i.title == "A"));
    assert!(merged.iter().any(|i| i.id == "2" && i.title == "B"));
}

#[test]
fn creation_steps() {
    assert!(matches!(creationStep(CreateEvent::BodyUnread), CreateAction::Finish(ref m, 1) if m == "Could not open body file."));
    assert!(matches!(creationStep(CreateEvent::Made(None)), CreateAction::Finish(_, 1)));
    assert!(matches!(creationStep(CreateEvent::Made(Some("dev".to_string()))), CreateAction::ReadIssues(ref b) if b == "dev"));
    match creationStep(CreateEvent::Read("dev".to_string(), vec![issue("A", "1")], issue("B", "2"))) {
        CreateAction::Write(f, v) => {
            assert_eq!(f, ".evict/dev.ebtdlocal");
            assert_eq!(v.len(), 2);
            assert_eq!(v[1].id, "2");
        }
        _ => panic!("expected a write"),
    }
    assert!(matches!(creationStep(CreateEvent::Written("2".to_string(), true)), CreateAction::Finish(ref m, 0) if m == "Issue 2 created."));
    assert!(matches!(creationStep(CreateEvent::Written("2".to_string(), false)), CreateAction::Finish(_, 1)));
}

#[test]
fn merge_keeps_one_issue_per_id() {
    let mut a = issue("A", "1");
    a.addComment(IssueComment::new("x".to_string(), "from a".to_string(), None));
    let mut a2 = issue("A old", "1");
    a2.addComment(IssueComment::new("y".to_string(), "from b".to_string(), None));
    let b = issue("B", "2");
    let merged = mergeIssues(vec![a], vec![a2, b]);
    assert_eq!(merged.len(), 2);
    let one = merged.iter().find(|i| i.id == "1").unwrap();
    assert_eq!(one.title, "A");
    assert_eq!(one.comments.len(), 2);
    assert!(merged.iter().any(|i| i.id == "2" && i.title == "B"));
}

#[test]
fn merge_comments_keeps_all() {
    let c1 = IssueComment::new("x".to_string(), "1".to_string(), None);
    let c2 = IssueComment::new("y".to_string(), "2".to_string(), None);
    let c3 = IssueComment::new("z".to_string(), "3".to_string(), None);
    let m = mergeComments(vec![c1, c2], vec![c3]);
    assert_eq!(m.len(), 3);
    let mut authors: Vec<String> = m.iter().map(|c| c.author.clone()).collect();
    authors.sort();
    assert_eq!(authors, args(&["x", "y", "z"]));
}

#[test]
fn sync_steps() {
    assert!(matches!(syncIssues(SyncEvent::Start(None)), SyncAction::Exit(2)));
    assert!(matches!(syncIssues(SyncEvent::Start(Some("m".to_string()))), SyncAction::ReadIssues(ref b) if b == "m"));
    match syncIssues(SyncEvent::Read(vec![issue("A", "1")], vec![issue("B", "2")])) {
        SyncAction::Write(v) => assert_eq!(v.len(), 2),
        _ => panic!("expected a write"),
    }
    assert!(matches!(syncIssues(SyncEvent::Written(true, false)), SyncAction::Exit(1)));
    assert!(matches!(syncIssues(SyncEvent::Written(true, true)), SyncAction::Exit(0)));
}

#[test]
fn clear_stored() {
    assert!(matches!(clearData(ClearEvent::Answered("y".to_string())), ClearAction::RemoveAll));
    assert!(matches!(clearData(ClearEvent::Answered("no".to_string())), ClearAction::Exit(0)));
}

#[test]
fn issue_list_json_round_trip() {
    let issues = vec![issue("A", "1"), issue("B", "2")];
    let json = issueListJson(issues);
    let back = readIssuesFromJson(json);
    assert_eq!(back.len(), 2);
    assert!(back.iter().any(|i| i.id == "1" && i.title == "A"));
    assert!(back.iter().any(|i| i.id == "2" && i.title == "B"));
}

#[test]
fn config_save_then_load() {
    let c = Config { author: Some("Ann".to_string()) };
    let back = Config::load(Some(c.save()));
    assert_eq!(back.author, Some("Ann".to_string()));
    assert_eq!(Config::load(None).author, None);
    assert_eq!(Config::default().author, None);
}

fn at_second(mut i: Issue, sec: i32) -> Issue {
    i.creationTime.tm_year = 100;
    i.creationTime.tm_mon = 0;
    i.creationTime.tm_mday = 1;
    i.creationTime.tm_hour = 12;
    i.creationTime.tm_min = 0;
    i.creationTime.tm_sec = sec;
    i.creationTime.tm_nsec = 0;
    i.creationTime.tm_utcoff = 0;
    i.creationTime.tm_isdst = 0;
    i
}

#[test]
fn sort_by_time_orders_by_creation() {
    let a = at_second(issue("A", "1"), 30);
    let b = at_second(issue("B", "2"), 10);
    let c = at_second(issue("C", "3"), 20);
    let sorted = sortByTime(vec![a, b, c]);
    let ids: Vec<&str> = sorted.iter().map(|i| i.id.as_str()).collect();
    assert_eq!(ids, vec!["2", "3", "1"]);
}

#[test]
fn merge_comments_orders_by_time() {
    let mut c1 = IssueComment::new("x".to_string(), "late".to_string(), None);
    let mut c2 = IssueComment::new("y".to_string(), "early".to_string(), None);
    let mut c3 = IssueComment::new("z".to_string(), "middle".to_string(), None);
    for (c, s) in [(&mut c1, 50), (&mut c2, 5), (&mut c3, 25)] {
        c.creationTime.tm_year = 100;
        c.creationTime.tm_mday = 1;
        c.creationTime.tm_sec = s;
        c.creationTime.tm_nsec = 0;
        c.creationTime.tm_utcoff = 0;
    }
    let m = mergeComments(vec![c1], vec![c2, c3]);
    let bodies: Vec<&str> = m.iter().map(|c| c.bodyText.as_str()).collect();
    assert_eq!(bodies, vec!["early", "middle", "late"]);
}

#[test]
fn stored_list_shows_newest_first_even_with_shared_ids() {
    let a = at_second(issue("Old", "1"), 10);
    let b = at_second(issue("New", "1"), 50);
    let text = printIssueVec(vec![a, b], true);
    assert_eq!(text, "\n\u{1b}[33mNew (Issue ID: 1)\u{1b}[0m\n\n\u{1b}[33mOld (Issue ID: 1)\u{1b}[0m\n");
}
