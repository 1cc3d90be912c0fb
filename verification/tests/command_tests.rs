use evict::evict::commands::clear::{clear_data, ClearAction, ClearEvent};
use evict::evict::commands::create::{create_issue, BodySource};
use evict::evict::commands::delete::{delete_issue, exec_delete};
use evict::evict::commands::init::{initialize, InitStep};
use evict::evict::commands::list::{list_flags, list_issues};
use evict::evict::commands::new_status::new_status;
use evict::evict::commands::parse::parse_issues;
use evict::evict::commands::set_status::{resolve_new_status, set_status};
use evict::evict::commands::tag::{modify_tag, tag, untag};
use evict::evict::commands::{resolve_command, standard_commands, strip_line_breaks, Command};
use evict::evict::issue::Issue;
use evict::evict::status_storage::StatusOption;

fn args(v: &[&str]) -> Vec<String> {
    v.iter().map(|s| s.to_string()).collect()
}

fn issue_with_id(title: &str, id: &str) -> Issue {
    let mut i = Issue::new(title.to_string(), "body".to_string(), "me".to_string(), Some("main".to_string()));
    i.base.id = id.to_string();
    i
}

#[test]
fn standard_commands_resolve() {
    let table = standard_commands();
    assert_eq!(table.len(), 12);
    assert_eq!(resolve_command("list", &table, true), Ok(Command::List));
    assert_eq!(resolve_command("untag", &table, true), Ok(Command::Untag));
    assert_eq!(resolve_command("init", &table, false), Ok(Command::Init));
    assert_eq!(
        resolve_command("list", &table, false),
        Err(("There is no evict directory.  Run evict init.".to_string(), 2))
    );
    assert_eq!(resolve_command("nope", &table, true), Err(("Command nope not found".to_string(), 1)));
}

#[test]
fn prompt_answers_lose_line_breaks() {
    assert_eq!(strip_line_breaks("yes\r\n"), "yes");
    assert_eq!(strip_line_breaks("a\nb"), "ab");
}

#[test]
fn create_flags_decide_the_plan() {
    let plan = create_issue(args(&["--title", "T", "--author", "A", "--body-file", "f.txt"]));
    assert_eq!(plan.title.as_deref(), Some("T"));
    assert_eq!(plan.author.as_deref(), Some("A"));
    assert!(matches!(plan.body, BodySource::File(ref f) if f == "f.txt"));
    let plan = create_issue(args(&["--no-body"]));
    assert!(plan.title.is_none());
    assert!(matches!(plan.body, BodySource::NoBody));
    let plan = create_issue(args(&[]));
    assert!(matches!(plan.body, BodySource::Edit(ref f) if f == "ISSUE_MSG"));
}

#[test]
fn list_flags_are_read() {
    let f = list_flags(args(&["-s", "--status", "open", "--tag", "bug", "--id", "12", "--nocomment", "--status", "closed"]));
    assert!(f.short);
    assert!(f.noComments);
    assert_eq!(f.statuses, args(&["open", "closed"]));
    assert_eq!(f.tags, args(&["bug"]));
    assert_eq!(f.id.as_deref(), Some("12"));
}

#[test]
fn list_short_shows_titles_newest_first() {
    let a = issue_with_id("First", "100");
    let b = issue_with_id("Second", "200");
    let text = list_issues(args(&["--short", "--id", "100"]), vec![a, b]);
    assert_eq!(text, "\n\u{1b}[33mFirst (Issue ID: 100)\u{1b}[0m\n");
}

#[test]
fn list_filters_by_tag() {
    let a = issue_with_id("First", "100");
    let b = issue_with_id("Second", "200");
    let b = modify_tag(b, "bug", true, "me".to_string());
    let text = list_issues(args(&["-s", "--tag", "bug"]), vec![a, b]);
    assert_eq!(text, "\n\u{1b}[33mSecond (Issue ID: 200)\u{1b}[0m\n");
}

#[test]
fn list_long_shows_details() {
    let a = issue_with_id("First", "100");
    let text = list_issues(args(&[]), vec![a]);
    assert!(text.contains("Current status: <unknown>\n"));
    assert!(text.contains("Originated on branch main\n\n"));
    assert!(text.contains("body\n"));
    assert!(text.contains("    Nothing here for this issue.\n"));
}

#[test]
fn delete_picks_the_one_match() {
    assert_eq!(
        delete_issue(args(&[])),
        Err(("The id of the issue to delete or an end segment of the id must be provided.".to_string(), 1))
    );
    assert_eq!(delete_issue(args(&["12", "34"])), Ok("34".to_string()));
    let issues = vec![issue_with_id("A", "1234"), issue_with_id("B", "5678")];
    let out = exec_delete("34", issues.clone());
    assert_eq!(out.exit, 0);
    let rest = out.remaining.unwrap();
    assert_eq!(rest.len(), 1);
    assert_eq!(rest[0].id(), "5678");
    assert_eq!(out.lines, args(&["Issue 1234 (A) deleted."]));
    let out = exec_delete("12", issues.clone());
    assert_eq!(out.exit, 4);
    let out = exec_delete("9", issues.clone());
    assert_eq!(out.exit, 4);
    assert_eq!(out.lines, args(&["No issue matching 9 found."]));
    let out = exec_delete("", issues);
    assert_eq!(out.exit, 5);
    assert_eq!(out.lines, args(&["Multiple matching issues found:", "1234 (A)", "5678 (B)"]));
}

#[test]
fn tag_and_untag_change_all_tags() {
    let issues = vec![issue_with_id("A", "1234")];
    let u = tag(args(&["34", "bug"]), issues, "me".to_string()).unwrap();
    assert!(u.report.is_empty());
    assert_eq!(u.issues[0].all_tags(), args(&["bug"]));
    let again = tag(args(&["34", "bug"]), u.issues.clone(), "me".to_string()).unwrap();
    assert_eq!(again.issues[0].events.len(), 1);
    let u2 = untag(args(&["1234", "bug"]), u.issues, "me".to_string()).unwrap();
    assert!(u2.issues[0].all_tags().is_empty());
    assert_eq!(tag(args(&["x"]), vec![], "me".to_string()).err(), Some(("tag usage: evict tag <issue-id> <tag>".to_string(), 1)));
}

#[test]
fn new_and_set_status() {
    let opts = vec![StatusOption { name: "open".to_string() }];
    let more = new_status(args(&["closed"]), opts).unwrap();
    assert_eq!(more.len(), 2);
    assert_eq!(more[1].name, "closed");
    assert_eq!(new_status(args(&[]), vec![]).err(), Some(("new-status usage: evict new-status <status-name>".to_string(), 1)));
    assert_eq!(resolve_new_status("1", &more).unwrap().name, "closed");
    assert_eq!(resolve_new_status("open", &more).unwrap().name, "open");
    assert!(resolve_new_status("7", &more).is_none());
    assert!(resolve_new_status("gone", &more).is_none());
    let issues = vec![issue_with_id("A", "1234"), issue_with_id("B", "99")];
    let u = set_status(args(&["1234", "closed"]), more.clone(), issues).unwrap();
    assert_eq!(u.issues.len(), 2);
    assert_eq!(u.issues[1].id(), "1234");
    assert_eq!(u.issues[1].status.name, "closed");
    let e = set_status(args(&["1234", "gone"]), more, vec![]).err().unwrap();
    assert_eq!(e, (args(&["Given status does not exist"]), 2));
}

#[test]
fn init_steps() {
    assert!(matches!(initialize(&vec![]), InitStep::CreateEvictDir));
    match initialize(&vec![true]) {
        InitStep::WriteStatusOptions(v) => {
            assert_eq!(v.len(), 2);
            assert_eq!(v[0].name, "open");
            assert_eq!(v[1].name, "closed");
        }
        _ => panic!("expected the status options"),
    }
    assert!(matches!(initialize(&vec![true, true]), InitStep::WriteDefaultStatus(ref o) if o.name == "open"));
    assert!(matches!(initialize(&vec![true, true, true]), InitStep::CreateIssueDir));
    assert!(matches!(initialize(&vec![true, true, true, true]), InitStep::Done(0)));
    assert!(matches!(initialize(&vec![false]), InitStep::Done(4)));
    assert!(matches!(initialize(&vec![true, false]), InitStep::Done(3)));
    assert!(matches!(initialize(&vec![true, true, false]), InitStep::Done(2)));
    assert!(matches!(initialize(&vec![true, true, true, false]), InitStep::Done(1)));
}

#[test]
fn clear_asks_first() {
    match clear_data(ClearEvent::Start(Some("/x/.evict".to_string()))) {
        ClearAction::Ask(q) => assert_eq!(q, "Really clear everything from /x/.evict? [y/n]"),
        _ => panic!("expected a question"),
    }
    assert!(matches!(clear_data(ClearEvent::Answered("y".to_string())), ClearAction::RemoveAll));
    assert!(matches!(clear_data(ClearEvent::Answered("n".to_string())), ClearAction::Finish(ref m, 0) if m == "Aborting."));
    assert!(matches!(clear_data(ClearEvent::Start(None)), ClearAction::Finish(_, 2)));
    assert!(matches!(clear_data(ClearEvent::Removed(false)), ClearAction::Finish(_, 1)));
}

#[test]
fn parse_command_reads_source_dir() {
    assert_eq!(parse_issues(args(&["--src-dir", "src"])), "src");
    assert_eq!(parse_issues(args(&["x"])), "");
}

fn created_at(mut i: Issue, sec: i32) -> Issue {
    let t = &mut i.base.creation_time.0;
    t.tm_year = 120;
    t.tm_mon = 5;
    t.tm_mday = 3;
    t.tm_hour = 9;
    t.tm_min = 0;
    t.tm_sec = sec;
    t.tm_nsec = 0;
    t.tm_utcoff = 0;
    t.tm_isdst = 0;
    i
}

#[test]
fn list_shows_newest_first() {
    let a = created_at(issue_with_id("Old", "1"), 10);
    let b = created_at(issue_with_id("New", "2"), 50);
    let c = created_at(issue_with_id("Middle", "3"), 30);
    let text = list_issues(args(&["-s"]), vec![a, b, c]);
    assert_eq!(
        text,
        "\n\u{1b}[33mNew (Issue ID: 2)\u{1b}[0m\n\n\u{1b}[33mMiddle (Issue ID: 3)\u{1b}[0m\n\n\u{1b}[33mOld (Issue ID: 1)\u{1b}[0m\n"
    );
}

#[test]
fn tagging_follows_the_latest_change() {
    let mut i = issue_with_id("A", "1234");
    let mut on = evict::evict::issue::IssueTag::new("bug".to_string(), "me".to_string(), true);
    let mut off = evict::evict::issue::IssueTag::new("bug".to_string(), "me".to_string(), false);
    for (t, s) in [(&mut on, 40), (&mut off, 20)] {
        t.time.0.tm_year = 120;
        t.time.0.tm_mday = 1;
        t.time.0.tm_sec = s;
        t.time.0.tm_nsec = 0;
        t.time.0.tm_utcoff = 0;
    }
    i.add_tag(on);
    i.add_tag(off);
    // The latest change (at second 40) enabled the tag: tagging adds nothing.
    let u = tag(args(&["34", "bug"]), vec![i.clone()], "me".to_string()).unwrap();
    assert_eq!(u.issues[0].events.len(), 2);
    // Untagging adds a change.
    let u = untag(args(&["34", "bug"]), vec![i], "me".to_string()).unwrap();
    assert_eq!(u.issues[0].events.len(), 3);
}
