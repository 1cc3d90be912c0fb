use evict::clock::{format_time, strptime, time_format, Tm};
use evict::evict::commands::comment::{comment_branch, comment_filename, comment_on_matching, comment_target, new_comment, process_new_issue};
use evict::evict::config::Config;
use evict::evict::file_manager::{issue_body_filename, issue_directory, single_issue_filename};
use evict::evict::issue::{Issue, IssueComment, IssueTag, IssueTimelineEvent};
use evict::evict::merge::{merge_issues, merge_pair};
use evict::evict::status_storage::{read_default_status, read_status_options, write_default_status, write_status_options, StatusOption, StatusWriteError};
use evict::evict::vcs_status::{current_branch, grab_first_line};
use evict::text::{join, lines, parse_int, parse_usize, split_on, trim};

fn issue_with_id(title: &str, id: &str) -> Issue {
    let mut i = Issue::new(title.to_string(), "body".to_string(), "me".to_string(), None);
    i.base.id = id.to_string();
    i
}

#[test]
fn text_functions() {
    assert_eq!(trim("  a b \t"), "a b");
    assert_eq!(split_on("a,,b", ','), vec!["a".to_string(), "".to_string(), "b".to_string()]);
    assert_eq!(lines("a\r\nb\n\nc\n"), vec!["a".to_string(), "b".to_string(), "".to_string(), "c".to_string()]);
    assert_eq!(join(&vec!["x".to_string(), "y".to_string()], ", "), "x, y");
    assert_eq!(parse_usize("+42"), Some(42));
    assert_eq!(parse_usize("4x"), None);
    assert_eq!(parse_int("-9223372036854775808"), Some(i64::MIN));
    assert_eq!(parse_int("9223372036854775808"), None);
    assert_eq!(parse_int("1"), Some(1));
    assert_eq!(parse_int("-"), None);
}

#[test]
fn status_files() {
    let opts = read_status_options(Some("open\nclosed".to_string()));
    assert_eq!(opts.len(), 2);
    assert_eq!(write_status_options(opts), "open\nclosed");
    assert_eq!(read_status_options(None).len(), 0);
    assert_eq!(read_default_status(Some("closed\n".to_string()), Some("open\nclosed".to_string())).name, "closed");
    assert_eq!(read_default_status(Some("gone".to_string()), Some("open".to_string())).name, "<unknown>");
    assert_eq!(read_default_status(None, None).name, "<unknown>");
    let ok = write_default_status(&StatusOption { name: "open".to_string() }, Some("open".to_string()));
    assert!(matches!(ok, Ok(ref t) if t == "open"));
    let bad = write_default_status(&StatusOption { name: "x".to_string() }, Some("open".to_string()));
    assert!(matches!(bad, Err(StatusWriteError::InvalidStatus(ref m)) if m == "x is not a valid status option"));
}

#[test]
fn branch_and_paths() {
    assert_eq!(grab_first_line("main\nrest".to_string()), Some("main".to_string()));
    assert_eq!(current_branch(None), None);
    assert_eq!(current_branch(Some("".to_string())), None);
    assert_eq!(issue_directory(), ".evict/issue-dirs");
    let i = issue_with_id("T", "42");
    assert_eq!(single_issue_filename(&i), ".evict/issue-dirs/42");
    assert_eq!(issue_body_filename(&i), ".evict/issue-dirs/42/body");
    assert_eq!(Config::load(None).author, None);
}

#[test]
fn merge_issues_by_id() {
    let mut a = issue_with_id("A", "1");
    a.add_tag(IssueTag::new("bug".to_string(), "me".to_string(), true));
    let mut a_other = issue_with_id("A elsewhere", "1");
    a_other.add_comment(IssueComment::new("you".to_string(), "hi".to_string(), None));
    let b = issue_with_id("B", "2");
    let merged = merge_issues(vec![a], vec![a_other, b]);
    assert_eq!(merged.len(), 2);
    let one = merged.iter().find(|i| i.id() == "1").unwrap();
    assert_eq!(one.title(), "A");
    assert_eq!(one.events.len(), 2);
    assert!(merged.iter().any(|i| i.id() == "2"));
}

#[test]
fn merge_drops_repeated_events() {
    let mut a = issue_with_id("A", "1");
    a.add_tag(IssueTag::new("bug".to_string(), "me".to_string(), true));
    let same = a.clone();
    let merged = merge_issues(vec![a], vec![same]);
    assert_eq!(merged.len(), 1);
    assert_eq!(merged[0].events.len(), 1);
}

#[test]
fn comment_steps() {
    assert_eq!(new_comment(vec![]).err().unwrap().1, 1);
    assert_eq!(new_comment(vec!["x".to_string(), "12".to_string()]), Ok("12".to_string()));
    let t = comment_target(vec![issue_with_id("A", "9")]).unwrap();
    assert_eq!(comment_filename(&t), "COMMENT_ON_9");
    let none = comment_target(vec![]).err().unwrap();
    assert_eq!(none, (vec!["No issue matching the given id found.".to_string()], 3));
    let many = comment_target(vec![issue_with_id("A", "9"), issue_with_id("B", "19")]).err().unwrap();
    assert_eq!(many.1, 6);
    assert_eq!(many.0, vec!["Multiple matching issues".to_string(), "9 (A)".to_string(), "19 (B)".to_string()]);
    assert_eq!(comment_on_matching(t.clone(), "me".to_string(), false, None, None).err(), Some(("No comment body provided".to_string(), 4)));
    assert_eq!(comment_on_matching(t.clone(), "me".to_string(), true, None, None).err(), Some(("Could not read comment body from file".to_string(), 5)));
    let c = comment_on_matching(t, "me".to_string(), true, Some("text".to_string()), Some("dev".to_string())).unwrap();
    match c.events.last().unwrap() {
        IssueTimelineEvent::TimelineComment(cm) => {
            assert_eq!(cm.body_text, "text");
            assert_eq!(cm.branch, "dev");
        }
        _ => panic!("expected a comment"),
    }
    let all = process_new_issue(vec![issue_with_id("Z", "5"), issue_with_id("A", "9")], c);
    assert_eq!(all.len(), 2);
    assert_eq!(all[1].events.len(), 1);
}

#[test]
fn comment_needs_a_branch() {
    assert_eq!(comment_branch(None), Err(("Could not resolve current branch.".to_string(), 2)));
    assert_eq!(comment_branch(Some("dev".to_string())), Ok("dev".to_string()));
}

#[test]
fn merged_pair_keeps_the_merged_into_status() {
    let mut a = issue_with_id("A", "1");
    a.status.name = "incoming".to_string();
    let mut b = issue_with_id("A old", "1");
    b.status.name = "kept".to_string();
    let m = merge_pair((Some(a), Some(b)));
    assert_eq!(m.status.name, "kept");
    assert_eq!(m.base.title, "A");
}

#[test]
fn times_are_written_and_read_in_the_time_format() {
    let mut tm = Tm::empty();
    tm.tm_year = 100;
    tm.tm_mon = 0;
    tm.tm_mday = 1;
    tm.tm_hour = 12;
    tm.tm_min = 5;
    tm.tm_sec = 7;
    let text = format_time(&tm);
    assert_eq!(text, "2000-01-01 2000 at 12:05:07");
    let f = time_format();
    let back = strptime(text.as_str(), f.as_str()).unwrap();
    assert_eq!(back, tm);
    let back = strptime("1999-12-31 2001 at 3:4:60 and more", f.as_str()).unwrap();
    assert_eq!((back.tm_year, back.tm_mon, back.tm_mday, back.tm_hour, back.tm_min, back.tm_sec), (101, 11, 31, 3, 4, 60));
    assert!(strptime("2000-13-01 2000 at 12:05:07", f.as_str()).is_none());
    assert!(strptime("200-01-01 2000 at 12:05:07", f.as_str()).is_none());
    assert!(strptime("2000-01-01 2000 12:05:07", f.as_str()).is_none());
}
