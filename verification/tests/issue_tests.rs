use evict::clock::format_time;
use evict::evict::issue::{Issue, IssueTag};
use evict::issue::Issue as StoredIssue;
use evict::issue::IssueComment as StoredComment;
use evict::json::Json;

#[test]
fn issue_equality() {
    let i1 = Issue::new("A".to_string(), "B".to_string(), "C".to_string(), None);
    let mut i2 = Issue::new("X".to_string(), "Y".to_string(), "Z".to_string(), None);
    i2.base.id = i1.id().to_string();
    let i3 = Issue::new("D".to_string(), "E".to_string(), "F".to_string(), None);
    //identify by ids
    assert!(i1 == i2);
    assert!(i2 != i3);
}

#[test]
fn issueEquality() {
    let i1 = StoredIssue::new("A".to_string(), "B".to_string(), "C".to_string(), "D".to_string(), None);
    let i2 = StoredIssue::new("X".to_string(), "Y".to_string(), "Z".to_string(), "D".to_string(), None);
    let i3 = StoredIssue::new("D".to_string(), "E".to_string(), "F".to_string(), "G".to_string(), None);
    //identify by ids
    assert!(i1 == i2);
    assert!(i2 != i3);
}

#[test]
fn writeReadIssue() {
    let title = "Foo".to_string();
    let body = "Body".to_string();
    let author = "Author".to_string();
    let ident = "TestIdent".to_string();

    let issue = StoredIssue::new(title.clone(), body.clone(), author.clone(), ident.clone(), None);

    let json = issue.getJson();

    let readResult = StoredIssue::fromJson(&json);

    assert!(readResult.is_some());

    let readIssue = readResult.unwrap();

    assert!(readIssue == issue);
    assert!(readIssue.title == title);
    assert!(readIssue.author == author);
    assert!(readIssue.bodyText == body);
    assert!(readIssue.id == ident);
    assert!(format_time(&readIssue.creationTime) == format_time(&issue.creationTime));
}

#[test]
fn json_round_trip_keeps_comments() {
    let mut issue = StoredIssue::new("T".to_string(), "B".to_string(), "A".to_string(), "42".to_string(), Some("main".to_string()));
    issue.addComment(StoredComment::new("c1".to_string(), "first".to_string(), Some("dev".to_string())));
    issue.addComment(StoredComment::new("c2".to_string(), "second\nline".to_string(), None));
    let back = StoredIssue::fromJson(&issue.getJson()).unwrap();
    assert_eq!(back.branch, "main");
    assert_eq!(back.comments.len(), 2);
    assert_eq!(back.comments[0].author, "c1");
    assert_eq!(back.comments[0].branch, "dev");
    assert_eq!(back.comments[1].bodyText, "second\nline");
    assert_eq!(back.comments[1].branch, "<unknown>");
    assert_eq!(back.status.name, "<unknown>");
}

#[test]
fn from_json_rejects_other_versions_and_missing_fields() {
    let issue = StoredIssue::new("T".to_string(), "B".to_string(), "A".to_string(), "42".to_string(), None);
    let entries = |json: Json| match json {
        Json::Object(entries) => entries,
        _ => panic!("not an object"),
    };
    let mut v2 = entries(issue.getJson());
    for e in v2.iter_mut() {
        if e.0 == "evict-version" {
            e.1 = Json::String("2".to_string());
        }
    }
    assert!(StoredIssue::fromJson(&Json::Object(v2)).is_none());
    let no_title: Vec<(String, Json)> = entries(issue.getJson()).into_iter().filter(|e| e.0 != "title").collect();
    assert!(StoredIssue::fromJson(&Json::Object(no_title)).is_none());
    assert!(StoredIssue::fromJson(&Json::List(vec![])).is_none());
    let no_comments: Vec<(String, Json)> = entries(issue.getJson()).into_iter().filter(|e| e.0 != "comments").collect();
    let read = StoredIssue::fromJson(&Json::Object(no_comments)).unwrap();
    assert_eq!(read.comments.len(), 0);
}

#[test]
fn tag_then_all_tags_lists_it() {
    let mut issue = Issue::new("T".to_string(), "B".to_string(), "A".to_string(), None);
    issue.add_tag(IssueTag::new("bug".to_string(), "A".to_string(), true));
    assert_eq!(issue.all_tags(), vec!["bug".to_string()]);
    issue.add_tag(IssueTag::new("bug".to_string(), "A".to_string(), false));
    assert!(issue.all_tags().is_empty());
    issue.add_tag(IssueTag::new("ui".to_string(), "A".to_string(), true));
    issue.add_tag(IssueTag::new("bug".to_string(), "A".to_string(), true));
    assert_eq!(issue.all_tags(), vec!["bug".to_string(), "ui".to_string()]);
}

#[test]
fn generated_ids_are_digits() {
    let id = evict::evict::issue::generate_id();
    assert!(!id.is_empty());
    assert!(id.chars().all(|c| c.is_ascii_digit() || c == '-'));
}
