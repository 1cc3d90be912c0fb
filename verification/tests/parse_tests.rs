use evict::evict::issue::Issue;
use evict::evict::source::recursive_parser::collect_file_results;
use evict::evict::issue::IssueTimelineEvent;
use evict::evict::source::parse::SourceSearcher;
use evict::evict::status_storage::read_default_status;

fn searcher(author: &str) -> SourceSearcher {
    let status = read_default_status(None, None).make_status();
    SourceSearcher::new_default_searcher(author.to_string(), status, None)
}

#[test]
fn basic_parse_test() {
    let searcher = searcher("me");
    let lines = vec!["  //[sometag] This is a title".to_string()];
    let result = searcher.parse_file_lines(lines, "foo".to_string());
    assert!(result.new_issues.len() == 1);

    println!("{}", result.new_file_contents.lines().count());
    println!("{}", result.new_file_contents);

    assert!(result.new_file_contents.lines().count() == 2);
    assert!(result.new_file_contents.lines().collect::<Vec<&str>>()[0].starts_with("  "));

    let issue = &result.new_issues[0];

    assert!(issue.title() == "This is a title");
    assert!(issue.author() == "me");
    assert!(issue.body_text() == "Parsed from foo line 1\n\n");
    assert!(issue.events.len() == 1);
    match &issue.events[0] {
        IssueTimelineEvent::TimelineTag(tag) => assert!(tag.tag_name == "sometag"),
        _ => panic!("Didn't get a tag"),
    }
}

#[test]
fn parse_writes_id_line_above_comment() {
    let searcher = searcher("me");
    let lines = vec![
        "fn main() {\n".to_string(),
        "    //[bug, ui] Broken button\n".to_string(),
        "    // first line\n".to_string(),
        "    //second line\n".to_string(),
        "    call();\n".to_string(),
        "}\n".to_string(),
    ];
    let result = searcher.parse_file_lines(lines, "src/main.rs".to_string());
    assert_eq!(result.new_issues.len(), 1);
    let issue = &result.new_issues[0];
    let expected = format!(
        "fn main() {{\n    // EVICT-BT-ID: {}\n    //[bug, ui] Broken button\n    // first line\n    //second line\n    call();\n}}\n",
        issue.id()
    );
    assert_eq!(result.new_file_contents, expected);
    assert_eq!(issue.title(), "Broken button");
    assert_eq!(issue.body_text(), "Parsed from src/main.rs line 2\n\nfirst line\nsecond line\n");
    assert_eq!(issue.branch(), "<unknown>");
    assert_eq!(issue.events.len(), 2);
    match (&issue.events[0], &issue.events[1]) {
        (IssueTimelineEvent::TimelineTag(a), IssueTimelineEvent::TimelineTag(b)) => {
            assert_eq!(a.tag_name, "bug");
            assert_eq!(b.tag_name, " ui");
            assert!(a.enabled && b.enabled);
            assert_eq!(a.author, "me");
        }
        _ => panic!("Didn't get two tags"),
    }
}

#[test]
fn parse_skips_comments_that_have_ids() {
    let searcher = searcher("me");
    let lines = vec![
        "// EVICT-BT-ID: 123\n".to_string(),
        "//[bug] Already known\n".to_string(),
        "// body\n".to_string(),
        "code();\n".to_string(),
    ];
    let result = searcher.parse_file_lines(lines.clone(), "a.rs".to_string());
    assert_eq!(result.new_issues.len(), 0);
    assert_eq!(result.new_file_contents, lines.concat());
}

#[test]
fn parse_block_comment_body_ends_at_closer() {
    let searcher = searcher("me");
    let lines = vec![
        "/*[todo] Block title\n".to_string(),
        " * block body\n".to_string(),
        " */\n".to_string(),
        "//[later] Second\n".to_string(),
    ];
    let result = searcher.parse_file_lines(lines, "b.rs".to_string());
    assert_eq!(result.new_issues.len(), 2);
    assert_eq!(result.new_issues[0].title(), "Block title");
    assert_eq!(result.new_issues[0].body_text(), "Parsed from b.rs line 1\n\nblock body\n");
    assert_eq!(result.new_issues[1].title(), "Second");
    assert_eq!(result.new_issues[1].body_text(), "Parsed from b.rs line 4\n\n");
}

#[test]
fn parse_without_tag_list_is_no_issue() {
    let searcher = searcher("me");
    let lines = vec!["// just a comment\n".to_string(), "//[unclosed tag\n".to_string()];
    let result = searcher.parse_file_lines(lines.clone(), "c.rs".to_string());
    assert_eq!(result.new_issues.len(), 0);
    assert_eq!(result.new_file_contents, lines.concat());
}

#[test]
fn parse_blank_tags_are_dropped() {
    let searcher = searcher("you");
    let lines = vec!["//[a,, ,b] T".to_string()];
    let result = searcher.parse_file_lines(lines, "d.rs".to_string());
    assert_eq!(result.new_issues.len(), 1);
    assert_eq!(result.new_issues[0].events.len(), 2);
    assert_eq!(result.new_issues[0].title(), "T");
}

#[test]
fn collected_results_keep_file_order() {
    let a = Issue::new("A".to_string(), String::new(), "me".to_string(), None);
    let b = Issue::new("B".to_string(), String::new(), "me".to_string(), None);
    let c = Issue::new("C".to_string(), String::new(), "me".to_string(), None);
    let results: Vec<Result<Vec<Issue>, String>> = vec![
        Ok(vec![a]),
        Err("cannot read x".to_string()),
        Ok(vec![]),
        Ok(vec![b, c]),
        Err("cannot write y".to_string()),
    ];
    let r = collect_file_results(results);
    let titles: Vec<&str> = r.new_issues.iter().map(|i| i.title()).collect();
    assert_eq!(titles, vec!["A", "B", "C"]);
    assert_eq!(r.failures, vec!["cannot read x".to_string(), "cannot write y".to_string()]);
}

#[test]
fn collected_results_of_no_files_are_empty() {
    let r = collect_file_results(vec![]);
    assert!(r.new_issues.is_empty());
    assert!(r.failures.is_empty());
}
