//! Issues in the list format: each issue with its comments and status,
//! all issues of a branch in one JSON list.
use vstd::prelude::*;
use crate::clock::{self, Tm, printable, time_text, format_time, parse_time_text, time_format, in_calendar, calendar_part};
use crate::json::{
    Json, JsonView, find_key, get_string_for_key, string_for_key, find_entry, json_view, list_view,
    entries_view, lemma_list_view, lemma_entries_view,
};
use crate::text::{opt_view, parse_int, parse_int_spec, decimal, decimal_string, signed_decimal_string, signed_decimal};
use crate::evict::issue::tm_eq;

verus! {

/// The format in which times are written.
pub const TIME_FORMAT: &'static str = "%F %Y at %T";

pub const BODY_KEY: &'static str = "bodyText";
pub const TIME_KEY: &'static str = "time";
pub const AUTHOR_KEY: &'static str = "author";
pub const TITLE_KEY: &'static str = "title";
pub const ID_KEY: &'static str = "id";
pub const VERSION_KEY: &'static str = "evict-version";
pub const COMMENTS_KEY: &'static str = "comments";
pub const BRANCH_KEY: &'static str = "branch";
pub const STATE_KEY: &'static str = "status";
pub const NAME_KEY: &'static str = "name";

/// The version of the issue format that this code writes and reads.
pub const CURRENT_VERSION: u64 = 1;

/// A comment on an issue.
pub struct IssueComment {
    pub creationTime: Tm,
    pub author: String,
    pub bodyText: String,
    pub branch: String,
}

/// The status of an issue, and when it last changed.
pub struct IssueStatus {
    pub name: String,
    pub lastChangeTime: Tm,
}

/// An issue with its comments.
pub struct Issue {
    pub title: String,
    pub creationTime: Tm,
    pub author: String,
    pub bodyText: String,
    pub id: String,
    pub comments: Vec<IssueComment>,
    pub branch: String,
    pub status: IssueStatus,
}

/// A comment as a value.
pub struct CommentView {
    pub creation_time: Tm,
    pub author: Seq<char>,
    pub body_text: Seq<char>,
    pub branch: Seq<char>,
}

/// A status as a value.
pub struct StatusView {
    pub name: Seq<char>,
    pub last_change_time: Tm,
}

/// An issue as a value.
pub struct IssueView {
    pub title: Seq<char>,
    pub creation_time: Tm,
    pub author: Seq<char>,
    pub body_text: Seq<char>,
    pub id: Seq<char>,
    pub comments: Seq<CommentView>,
    pub branch: Seq<char>,
    pub status: StatusView,
}

impl View for IssueComment {
    type V = CommentView;

    open spec fn view(&self) -> CommentView {
        CommentView { creation_time: self.creationTime, author: self.author@, body_text: self.bodyText@, branch: self.branch@ }
    }
}

impl View for IssueStatus {
    type V = StatusView;

    open spec fn view(&self) -> StatusView {
        StatusView { name: self.name@, last_change_time: self.lastChangeTime }
    }
}

/// The values of a list of comments.
pub open spec fn comment_views(v: Seq<IssueComment>) -> Seq<CommentView> {
    v.map_values(|c: IssueComment| c@)
}

impl View for Issue {
    type V = IssueView;

    open spec fn view(&self) -> IssueView {
        IssueView {
            title: self.title@,
            creation_time: self.creationTime,
            author: self.author@,
            body_text: self.bodyText@,
            id: self.id@,
            comments: comment_views(self.comments@),
            branch: self.branch@,
            status: self.status@,
        }
    }
}

impl Clone for IssueComment {
    fn clone(&self) -> (r: Self)
        ensures
            r@ == self@,
    {
        IssueComment {
            creationTime: self.creationTime,
            author: self.author.clone(),
            bodyText: self.bodyText.clone(),
            branch: self.branch.clone(),
        }
    }
}

impl Clone for IssueStatus {
    fn clone(&self) -> (r: Self)
        ensures
            r@ == self@,
    {
        IssueStatus { name: self.name.clone(), lastChangeTime: self.lastChangeTime }
    }
}

/// Copies of the comments.
fn clone_comments(v: &Vec<IssueComment>) -> (r: Vec<IssueComment>)
    ensures
        comment_views(r@) == comment_views(v@),
{
    let mut r: Vec<IssueComment> = Vec::new();
    let mut i: usize = 0;
    while i < v.len()
        invariant
            i <= v@.len(),
            comment_views(r@) == comment_views(v@).take(i as int),
        decreases v@.len() - i,
    {
        let ghost prev = comment_views(r@);
        r.push(v[i].clone());
        i = i + 1;
        assert(comment_views(r@) =~= prev.push(v@[i - 1]@));
        assert(comment_views(v@).take(i as int) =~= comment_views(v@).take(i - 1).push(v@[i - 1]@));
    }
    assert(comment_views(v@).take(v@.len() as int) =~= comment_views(v@));
    r
}

impl Clone for Issue {
    fn clone(&self) -> (r: Self)
        ensures
            r@ == self@,
    {
        Issue {
            title: self.title.clone(),
            creationTime: self.creationTime,
            author: self.author.clone(),
            bodyText: self.bodyText.clone(),
            id: self.id.clone(),
            comments: clone_comments(&self.comments),
            branch: self.branch.clone(),
            status: self.status.clone(),
        }
    }
}

/// Two comments are the same comment when their authors and texts are.
impl PartialEq for IssueComment {
    fn eq(&self, other: &IssueComment) -> (r: bool) {
        self.author == other.author && self.bodyText == other.bodyText
    }
}

impl vstd::std_specs::cmp::PartialEqSpecImpl for IssueComment {
    open spec fn obeys_eq_spec() -> bool {
        true
    }

    open spec fn eq_spec(&self, other: &IssueComment) -> bool {
        self.author@ == other.author@ && self.bodyText@ == other.bodyText@
    }
}

/// Two statuses are equal when their names and change times are.
impl PartialEq for IssueStatus {
    fn eq(&self, other: &IssueStatus) -> (r: bool) {
        self.name == other.name && tm_eq(&self.lastChangeTime, &other.lastChangeTime)
    }
}

impl vstd::std_specs::cmp::PartialEqSpecImpl for IssueStatus {
    open spec fn obeys_eq_spec() -> bool {
        true
    }

    open spec fn eq_spec(&self, other: &IssueStatus) -> bool {
        self.name@ == other.name@ && self.lastChangeTime == other.lastChangeTime
    }
}

/// Two issues are the same issue when their ids are equal.
impl PartialEq for Issue {
    fn eq(&self, other: &Issue) -> (r: bool) {
        self.id == other.id
    }
}

impl vstd::std_specs::cmp::PartialEqSpecImpl for Issue {
    open spec fn obeys_eq_spec() -> bool {
        true
    }

    open spec fn eq_spec(&self, other: &Issue) -> bool {
        self.id@ == other.id@
    }
}

// ---------------------------------------------------------------------------
// Reading issues from JSON.

/// The time that a stored time text stands for, if it parses.
pub open spec fn time_of(s: Seq<char>) -> Option<Tm> {
    parse_time_text(s)
}

/// The status of an issue whose status is not known.
pub open spec fn default_status_view() -> StatusView {
    StatusView { name: "<unknown>"@, last_change_time: Tm::empty_spec() }
}

/// The comment stored in `j`: an object with the body, author, branch and
/// a time that parses; nothing otherwise.
pub open spec fn comment_from_json(j: JsonView) -> Option<CommentView> {
    match j {
        JsonView::Object(m) => {
            let b = string_for_key(m, "bodyText"@);
            let a = string_for_key(m, "author"@);
            let br = string_for_key(m, "branch"@);
            let t = string_for_key(m, "time"@);
            if b is Some && a is Some && br is Some && t is Some && time_of(t.unwrap()) is Some {
                Some(CommentView {
                    creation_time: time_of(t.unwrap()).unwrap(),
                    author: a.unwrap(),
                    body_text: b.unwrap(),
                    branch: br.unwrap(),
                })
            } else {
                None
            }
        },
        _ => None,
    }
}

/// The comments stored in the list `l`, those that read as comments.
pub open spec fn comments_from(l: Seq<JsonView>) -> Seq<CommentView>
    decreases l.len(),
{
    if l.len() == 0 {
        Seq::empty()
    } else {
        let rest = comments_from(l.drop_last());
        match comment_from_json(l.last()) {
            Some(c) => rest.push(c),
            None => rest,
        }
    }
}

/// The comments stored in `j`: none unless it is a list.
pub open spec fn load_comments_spec(j: JsonView) -> Seq<CommentView> {
    match j {
        JsonView::List(l) => comments_from(l),
        _ => Seq::empty(),
    }
}

/// The status stored in `j`: an object with a name and a time that parses;
/// the unknown status otherwise.
pub open spec fn status_from_json(j: JsonView) -> StatusView {
    match j {
        JsonView::Object(m) => {
            let n = string_for_key(m, "name"@);
            let t = string_for_key(m, "time"@);
            if n is Some && t is Some && time_of(t.unwrap()) is Some {
                StatusView { name: n.unwrap(), last_change_time: time_of(t.unwrap()).unwrap() }
            } else {
                default_status_view()
            }
        },
        _ => default_status_view(),
    }
}

/// Whether the object has a version that reads as a number.
pub open spec fn version_readable(m: Seq<(Seq<char>, JsonView)>) -> bool {
    string_for_key(m, "evict-version"@) matches Some(v) && parse_int_spec(v) is Some
}

/// The issue stored in the object `m`: version 1 with a title, body,
/// author, branch, id and a time that parses; its comments and status when
/// present. Nothing for another version or a missing field.
pub open spec fn read_from_map_spec(m: Seq<(Seq<char>, JsonView)>) -> Option<IssueView> {
    let title = string_for_key(m, "title"@);
    let body = string_for_key(m, "bodyText"@);
    let author = string_for_key(m, "author"@);
    let branch = string_for_key(m, "branch"@);
    let id = string_for_key(m, "id"@);
    let t = string_for_key(m, "time"@);
    if parse_int_spec(string_for_key(m, "evict-version"@).unwrap()) == Some(1int) && title is Some && body is Some
        && author is Some && branch is Some && id is Some && t is Some && time_of(t.unwrap()) is Some {
        Some(IssueView {
            title: title.unwrap(),
            creation_time: time_of(t.unwrap()).unwrap(),
            author: author.unwrap(),
            body_text: body.unwrap(),
            id: id.unwrap(),
            comments: match find_entry(m, "comments"@) {
                Some(c) => load_comments_spec(c),
                None => Seq::empty(),
            },
            branch: branch.unwrap(),
            status: match find_entry(m, "status"@) {
                Some(s) => status_from_json(s),
                None => default_status_view(),
            },
        })
    } else {
        None
    }
}

/// The issue stored in `j`: nothing unless it is an object.
pub open spec fn issue_from_json(j: JsonView) -> Option<IssueView> {
    match j {
        JsonView::Object(m) => read_from_map_spec(m),
        _ => None,
    }
}

/// Whether reading `j` as an issue can go ahead: an object must carry a
/// version that reads as a number.
pub open spec fn json_readable(j: JsonView) -> bool {
    match j {
        JsonView::Object(m) => version_readable(m),
        _ => true,
    }
}

/// The value of an optional issue.
pub open spec fn opt_issue_view(o: Option<Issue>) -> Option<IssueView> {
    match o {
        Some(i) => Some(i@),
        None => None,
    }
}

// ---------------------------------------------------------------------------
// Writing issues as JSON.

/// A comment as stored.
pub open spec fn comment_json(c: CommentView) -> JsonView {
    JsonView::Object(seq![
        ("bodyText"@, JsonView::Str(c.body_text)),
        ("time"@, JsonView::Str(time_text(c.creation_time))),
        ("author"@, JsonView::Str(c.author)),
        ("branch"@, JsonView::Str(c.branch)),
    ])
}

/// A status as stored.
pub open spec fn status_json(s: StatusView) -> JsonView {
    JsonView::Object(seq![("name"@, JsonView::Str(s.name)), ("time"@, JsonView::Str(time_text(s.last_change_time)))])
}

/// An issue as stored.
pub open spec fn issue_json(i: IssueView) -> JsonView {
    JsonView::Object(seq![
        ("evict-version"@, JsonView::Str(decimal(CURRENT_VERSION as nat))),
        ("title"@, JsonView::Str(i.title)),
        ("bodyText"@, JsonView::Str(i.body_text)),
        ("time"@, JsonView::Str(time_text(i.creation_time))),
        ("author"@, JsonView::Str(i.author)),
        ("id"@, JsonView::Str(i.id)),
        ("comments"@, JsonView::List(i.comments.map_values(|c: CommentView| comment_json(c)))),
        ("branch"@, JsonView::Str(i.branch)),
        ("status"@, status_json(i.status)),
    ])
}

/// Whether the times of the issue, its comments and its status can be
/// written.
pub open spec fn issue_printable(i: IssueView) -> bool {
    &&& printable(i.creation_time)
    &&& printable(i.status.last_change_time)
    &&& forall|k: int| 0 <= k < i.comments.len() ==> printable(#[trigger] i.comments[k].creation_time)
}

/// `s` as a JSON string.
fn jstr(s: &str) -> (r: Json)
    ensures
        r@ == JsonView::Str(s@),
{
    Json::String(s.to_owned())
}

impl IssueStatus {
    /// A status of the given name, changed now.
    pub fn new(name: String) -> (r: IssueStatus)
        ensures
            r.name@ == name@,
            r.lastChangeTime.formattable(),
    {
        IssueStatus { name, lastChangeTime: clock::now() }
    }

    /// The unknown status, with an empty time.
    pub fn default() -> (r: IssueStatus)
        ensures
            r@ == default_status_view(),
    {
        IssueStatus { name: "<unknown>".to_owned(), lastChangeTime: Tm::empty() }
    }

    /// The status as stored.
    pub fn to_json(&self) -> (r: Json)
        requires
            printable(self.lastChangeTime),
        ensures
            r@ == status_json(self@),
    {
        let t = format_time(&self.lastChangeTime);
        let entries = vec![(NAME_KEY.to_owned(), jstr(self.name.as_str())), (TIME_KEY.to_owned(), jstr(t.as_str()))];
        proof {
            lemma_entries_view(entries@);
        }
        let r = Json::Object(entries);
        assert(entries_view(entries@) =~= seq![("name"@, JsonView::Str(self.name@)), ("time"@, JsonView::Str(time_text(self.lastChangeTime)))]);
        r
    }

    /// The status stored in `json` (see `status_from_json`).
    pub fn from_json(json: &Json) -> (r: IssueStatus)
        ensures
            r@ == status_from_json(json@),
    {
        match json {
            Json::Object(map) => {
                let name = get_string_for_key(map, NAME_KEY);
                let time = get_string_for_key(map, TIME_KEY);
                match (name, time) {
                    (Some(name), Some(time)) => {
                        let f = time_format();
                        match clock::strptime(time.as_str(), f.as_str()) {
                            Some(tm) => IssueStatus { name, lastChangeTime: tm },
                            None => IssueStatus::default(),
                        }
                    },
                    _ => IssueStatus::default(),
                }
            },
            _ => IssueStatus::default(),
        }
    }
}

impl IssueComment {
    /// A comment made now on the given branch (`None`: not known).
    pub fn new(author: String, body: String, branch: Option<String>) -> (r: IssueComment)
        ensures
            r.author@ == author@,
            r.bodyText@ == body@,
            r.branch@ == (match branch {
                Some(b) => b@,
                None => "<unknown>"@,
            }),
            r.creationTime.formattable(),
            clock::fields_in_range(r.creationTime),
    {
        let branch = match branch {
            Some(b) => b,
            None => "<unknown>".to_owned(),
        };
        IssueComment { author, bodyText: body, creationTime: clock::now(), branch }
    }

    /// The comment as stored.
    pub fn getJson(&self) -> (r: Json)
        requires
            printable(self.creationTime),
        ensures
            r@ == comment_json(self@),
    {
        let t = format_time(&self.creationTime);
        let entries = vec![
            (BODY_KEY.to_owned(), jstr(self.bodyText.as_str())),
            (TIME_KEY.to_owned(), jstr(t.as_str())),
            (AUTHOR_KEY.to_owned(), jstr(self.author.as_str())),
            (BRANCH_KEY.to_owned(), jstr(self.branch.as_str())),
        ];
        proof {
            lemma_entries_view(entries@);
        }
        let r = Json::Object(entries);
        assert(entries_view(entries@) =~= seq![
            ("bodyText"@, JsonView::Str(self.bodyText@)),
            ("time"@, JsonView::Str(time_text(self.creationTime))),
            ("author"@, JsonView::Str(self.author@)),
            ("branch"@, JsonView::Str(self.branch@)),
        ]);
        r
    }

    /// The comment stored in `json` (see `comment_from_json`).
    pub fn fromJson(json: &Json) -> (r: Option<IssueComment>)
        ensures
            match r {
                Some(c) => comment_from_json(json@) == Some(c@),
                None => comment_from_json(json@) is None,
            },
    {
        match json {
            Json::Object(map) => IssueComment::readFromMap(map),
            _ => None,
        }
    }

    fn readFromMap(map: &Vec<(String, Json)>) -> (r: Option<IssueComment>)
        ensures
            match r {
                Some(c) => comment_from_json(JsonView::Object(entries_view(map@))) == Some(c@),
                None => comment_from_json(JsonView::Object(entries_view(map@))) is None,
            },
    {
        let body = get_string_for_key(map, BODY_KEY);
        let author = get_string_for_key(map, AUTHOR_KEY);
        let branch = get_string_for_key(map, BRANCH_KEY);
        let time = get_string_for_key(map, TIME_KEY);
        match (body, author, branch, time) {
            (Some(body), Some(author), Some(branch), Some(time)) => {
                let f = time_format();
                match clock::strptime(time.as_str(), f.as_str()) {
                    Some(tm) => Some(IssueComment { bodyText: body, author, creationTime: tm, branch }),
                    None => None,
                }
            },
            _ => None,
        }
    }
}

impl Issue {
    pub fn addComment(&mut self, comment: IssueComment)
        ensures
            final(self)@ == (IssueView { comments: old(self)@.comments.push(comment@), ..old(self)@ }),
    {
        let ghost before = comment_views(self.comments@);
        self.comments.push(comment);
        assert(comment_views(self.comments@) =~= before.push(comment@));
    }

    /// The issue as stored.
    pub fn getJson(&self) -> (r: Json)
        requires
            issue_printable(self@),
        ensures
            r@ == issue_json(self@),
    {
        let ghost cs = comment_views(self.comments@);
        let mut comments: Vec<Json> = Vec::new();
        let mut i: usize = 0;
        while i < self.comments.len()
            invariant
                cs == comment_views(self.comments@),
                i <= cs.len(),
                issue_printable(self@),
                list_view(comments@) == cs.take(i as int).map_values(|c: CommentView| comment_json(c)),
            decreases cs.len() - i,
        {
            proof {
                lemma_list_view(comments@);
            }
            assert(printable(self@.comments[i as int].creation_time));
            let c = self.comments[i].getJson();
            let ghost prev = comments@;
            comments.push(c);
            i = i + 1;
            proof {
                lemma_list_view(comments@);
                lemma_list_view(prev);
                assert(list_view(comments@) =~= list_view(prev).push(c@));
                assert(cs.take(i as int).map_values(|c: CommentView| comment_json(c)) =~= cs.take(i - 1).map_values(|c: CommentView| comment_json(c)).push(comment_json(cs[i - 1])));
            }
        }
        assert(cs.take(cs.len() as int) =~= cs);
        let version = decimal_string(CURRENT_VERSION);
        let t = format_time(&self.creationTime);
        let entries = vec![
            (VERSION_KEY.to_owned(), jstr(version.as_str())),
            (TITLE_KEY.to_owned(), jstr(self.title.as_str())),
            (BODY_KEY.to_owned(), jstr(self.bodyText.as_str())),
            (TIME_KEY.to_owned(), jstr(t.as_str())),
            (AUTHOR_KEY.to_owned(), jstr(self.author.as_str())),
            (ID_KEY.to_owned(), jstr(self.id.as_str())),
            (COMMENTS_KEY.to_owned(), Json::List(comments)),
            (BRANCH_KEY.to_owned(), jstr(self.branch.as_str())),
            (STATE_KEY.to_owned(), self.status.to_json()),
        ];
        proof {
            lemma_entries_view(entries@);
        }
        let r = Json::Object(entries);
        assert(entries_view(entries@) =~= match issue_json(self@) {
            JsonView::Object(m) => m,
            _ => Seq::empty(),
        });
        r
    }

    /// The issue stored in `json` (see `issue_from_json`).
    pub fn fromJson(json: &Json) -> (r: Option<Issue>)
        requires
            json_readable(json@),
        ensures
            opt_issue_view(r) == issue_from_json(json@),
    {
        match json {
            Json::Object(map) => Issue::readFromMap(map),
            _ => None,
        }
    }

    fn readFromMap(map: &Vec<(String, Json)>) -> (r: Option<Issue>)
        requires
            version_readable(entries_view(map@)),
        ensures
            opt_issue_view(r) == read_from_map_spec(entries_view(map@)),
    {
        let versionOpt = get_string_for_key(map, VERSION_KEY);
        let version: i64 = parse_int(versionOpt.unwrap().as_str()).unwrap();
        if version == 1 {
            let title = get_string_for_key(map, TITLE_KEY);
            let body = get_string_for_key(map, BODY_KEY);
            let author = get_string_for_key(map, AUTHOR_KEY);
            let branch = get_string_for_key(map, BRANCH_KEY);
            let id = get_string_for_key(map, ID_KEY);
            match (title, body, author, branch, id) {
                (Some(title), Some(body), Some(author), Some(branch), Some(id)) => {
                    let comments = match find_key(map, COMMENTS_KEY) {
                        Some(c) => Issue::loadComments(c),
                        None => Vec::new(),
                    };
                    let status = match find_key(map, STATE_KEY) {
                        Some(s) => IssueStatus::from_json(s),
                        None => IssueStatus::default(),
                    };
                    match get_string_for_key(map, TIME_KEY) {
                        Some(time) => {
                            let f = time_format();
                            match clock::strptime(time.as_str(), f.as_str()) {
                                Some(tm) => {
                                    let r = Issue {
                                        title,
                                        bodyText: body,
                                        author,
                                        creationTime: tm,
                                        id,
                                        comments,
                                        branch,
                                        status,
                                    };
                                    let ghost m = entries_view(map@);
                                    assert(comment_views(r.comments@) == comment_views(comments@));
                                    assert(parse_int_spec(string_for_key(m, "evict-version"@).unwrap()) == Some(1int));
                                    assert(string_for_key(m, "title"@) == Some(title@));
                                    assert(string_for_key(m, "time"@) == Some(time@));
                                    assert(time_of(time@) == Some(tm));
                                    assert(r@.comments == (match find_entry(m, "comments"@) {
                                        Some(c) => load_comments_spec(c),
                                        None => Seq::<CommentView>::empty(),
                                    }));
                                    assert(r@.status == (match find_entry(m, "status"@) {
                                        Some(s) => status_from_json(s),
                                        None => default_status_view(),
                                    }));
                                    Some(r)
                                },
                                None => None,
                            }
                        },
                        None => None,
                    }
                },
                _ => None,
            }
        } else {
            None
        }
    }

    /// The comments stored in `json` (see `load_comments_spec`).
    fn loadComments(json: &Json) -> (r: Vec<IssueComment>)
        ensures
            comment_views(r@) == load_comments_spec(json@),
    {
        match json {
            Json::List(list) => {
                let ghost l = list_view(list@);
                proof {
                    lemma_list_view(list@);
                }
                let mut comments: Vec<IssueComment> = Vec::new();
                let mut i: usize = 0;
                assert(l.take(0) =~= Seq::<JsonView>::empty());
                while i < list.len()
                    invariant
                        l == list_view(list@),
                        l.len() == list@.len(),
                        forall|k: int| 0 <= k < list@.len() ==> #[trigger] l[k] == json_view(list@[k]),
                        i <= list@.len(),
                        comment_views(comments@) == comments_from(l.take(i as int)),
                    decreases list@.len() - i,
                {
                    assert(l.take(i + 1).drop_last() =~= l.take(i as int));
                    assert(l.take(i + 1).last() == list@[i as int]@);
                    match IssueComment::fromJson(&list[i]) {
                        Some(c) => {
                            let ghost prev = comment_views(comments@);
                            comments.push(c);
                            assert(comment_views(comments@) =~= prev.push(c@));
                        },
                        None => {},
                    }
                    i = i + 1;
                }
                assert(l.take(list@.len() as int) =~= l);
                comments
            },
            _ => {
                let r: Vec<IssueComment> = Vec::new();
                assert(comment_views(r@) =~= Seq::<CommentView>::empty());
                r
            },
        }
    }

    /// A new issue with the id `ident`, created now with the unknown
    /// status and no comments, on the given branch (`None`: not known).
    pub fn new(title: String, body: String, author: String, ident: String, branch: Option<String>) -> (r: Issue)
        ensures
            r.title@ == title@,
            r.bodyText@ == body@,
            r.author@ == author@,
            r.id@ == ident@,
            r.branch@ == (match branch {
                Some(b) => b@,
                None => "<unknown>"@,
            }),
            r.comments@.len() == 0,
            r.status@ == default_status_view(),
            r.creationTime.formattable(),
            clock::fields_in_range(r.creationTime),
    {
        let branch = match branch {
            Some(b) => b,
            None => "<unknown>".to_owned(),
        };
        Issue {
            title,
            bodyText: body,
            author,
            id: ident,
            creationTime: clock::now(),
            comments: Vec::new(),
            branch,
            status: IssueStatus::default(),
        }
    }

    /// A fresh id: the current timestamp's seconds followed by its
    /// nanoseconds.
    pub fn generateId() -> (r: String)
        ensures
            exists|t: clock::Timespec| 0 <= t.nsec < 1_000_000_000 && r@ == #[trigger] crate::evict::issue::id_text(t),
    {
        let cTime = clock::get_time();
        let mut r = signed_decimal_string(cTime.sec);
        let n = decimal_string(cTime.nsec as u64);
        r.append(n.as_str());
        assert(r@ == crate::evict::issue::id_text(cTime));
        r
    }
}

/// `j` is `i` read back: the same texts and comments, each time as its
/// text parses back, and the status with its time as it parses back (the
/// unknown status when its time does not parse).
pub open spec fn read_back(j: IssueView, i: IssueView) -> bool {
    &&& j.title == i.title
    &&& j.author == i.author
    &&& j.body_text == i.body_text
    &&& j.id == i.id
    &&& j.branch == i.branch
    &&& Some(j.creation_time) == time_of(time_text(i.creation_time))
    &&& j.status == (match time_of(time_text(i.status.last_change_time)) {
        Some(t) => StatusView { name: i.status.name, last_change_time: t },
        None => default_status_view(),
    })
    &&& j.comments.len() == i.comments.len()
    &&& forall|k: int| 0 <= k < i.comments.len() ==> {
        &&& (#[trigger] j.comments[k]).author == i.comments[k].author
        &&& j.comments[k].body_text == i.comments[k].body_text
        &&& j.comments[k].branch == i.comments[k].branch
        &&& Some(j.comments[k].creation_time) == time_of(time_text(i.comments[k].creation_time))
    }
}

proof fn lemma_keys_differ()
    ensures
        "evict-version"@ != "title"@,
        "evict-version"@ != "bodyText"@,
        "evict-version"@ != "time"@,
        "evict-version"@ != "author"@,
        "evict-version"@ != "id"@,
        "evict-version"@ != "comments"@,
        "evict-version"@ != "branch"@,
        "evict-version"@ != "status"@,
        "title"@ != "bodyText"@,
        "title"@ != "time"@,
        "title"@ != "author"@,
        "title"@ != "id"@,
        "title"@ != "comments"@,
        "title"@ != "branch"@,
        "title"@ != "status"@,
        "bodyText"@ != "time"@,
        "bodyText"@ != "author"@,
        "bodyText"@ != "id"@,
        "bodyText"@ != "comments"@,
        "bodyText"@ != "branch"@,
        "bodyText"@ != "status"@,
        "time"@ != "author"@,
        "time"@ != "id"@,
        "time"@ != "comments"@,
        "time"@ != "branch"@,
        "time"@ != "status"@,
        "author"@ != "id"@,
        "author"@ != "comments"@,
        "author"@ != "branch"@,
        "author"@ != "status"@,
        "id"@ != "comments"@,
        "id"@ != "branch"@,
        "id"@ != "status"@,
        "comments"@ != "branch"@,
        "comments"@ != "status"@,
        "branch"@ != "status"@,
        "name"@ != "time"@,
{
    reveal_strlit("evict-version");
    reveal_strlit("title");
    reveal_strlit("bodyText");
    reveal_strlit("time");
    reveal_strlit("author");
    reveal_strlit("id");
    reveal_strlit("comments");
    reveal_strlit("branch");
    reveal_strlit("status");
    reveal_strlit("name");
    assert("evict-version"@.len() != "title"@.len());
    assert("evict-version"@.len() != "bodyText"@.len());
    assert("evict-version"@.len() != "time"@.len());
    assert("evict-version"@.len() != "author"@.len());
    assert("evict-version"@.len() != "id"@.len());
    assert("evict-version"@.len() != "comments"@.len());
    assert("evict-version"@.len() != "branch"@.len());
    assert("evict-version"@.len() != "status"@.len());
    assert("title"@[0] != "bodyText"@[0]);
    assert("title"@[0] != "time"@[1]);
    assert("title"@.len() != "author"@.len());
    assert("title"@.len() != "id"@.len());
    assert("title"@.len() != "comments"@.len());
    assert("title"@[0] != "branch"@[0]);
    assert("title"@[0] != "status"@[0]);
    assert("bodyText"@.len() != "time"@.len());
    assert("bodyText"@.len() != "author"@.len());
    assert("bodyText"@.len() != "id"@.len());
    assert("bodyText"@[0] != "comments"@[0]);
    assert("bodyText"@.len() != "branch"@.len());
    assert("bodyText"@.len() != "status"@.len());
    assert("time"@.len() != "author"@.len());
    assert("time"@.len() != "id"@.len());
    assert("time"@.len() != "comments"@.len());
    assert("time"@.len() != "branch"@.len());
    assert("time"@.len() != "status"@.len());
    assert("author"@.len() != "id"@.len());
    assert("author"@.len() != "comments"@.len());
    assert("author"@[0] != "branch"@[0]);
    assert("author"@[0] != "status"@[0]);
    assert("id"@.len() != "comments"@.len());
    assert("id"@.len() != "branch"@.len());
    assert("id"@.len() != "status"@.len());
    assert("comments"@.len() != "branch"@.len());
    assert("comments"@.len() != "status"@.len());
    assert("branch"@[0] != "status"@[0]);
    assert("name"@[0] != "time"@[0]);
}

proof fn lemma_comments_round_trip(cs: Seq<CommentView>)
    requires
        forall|k: int| 0 <= k < cs.len() ==> time_of(time_text(#[trigger] cs[k].creation_time)) is Some,
    ensures
        ({
            let r = comments_from(cs.map_values(|c: CommentView| comment_json(c)));
            &&& r.len() == cs.len()
            &&& forall|k: int| 0 <= k < cs.len() ==> {
                &&& (#[trigger] r[k]).author == cs[k].author
                &&& r[k].body_text == cs[k].body_text
                &&& r[k].branch == cs[k].branch
                &&& Some(r[k].creation_time) == time_of(time_text(cs[k].creation_time))
            }
        }),
    decreases cs.len(),
{
    if cs.len() > 0 {
        let l = cs.map_values(|c: CommentView| comment_json(c));
        assert(l.drop_last() =~= cs.drop_last().map_values(|c: CommentView| comment_json(c)));
        assert forall|k: int| 0 <= k < cs.drop_last().len() implies time_of(time_text(#[trigger] cs.drop_last()[k].creation_time)) is Some by {
            assert(cs.drop_last()[k] == cs[k]);
        }
        lemma_comments_round_trip(cs.drop_last());
        lemma_keys_differ();
        let c = cs.last();
        assert(time_of(time_text(cs[cs.len() - 1].creation_time)) is Some);
        reveal_with_fuel(find_entry, 5);
        let m = seq![
            ("bodyText"@, JsonView::Str(c.body_text)),
            ("time"@, JsonView::Str(time_text(c.creation_time))),
            ("author"@, JsonView::Str(c.author)),
            ("branch"@, JsonView::Str(c.branch)),
        ];
        assert(m.drop_first()[0].0 == "time"@);
        assert(m.drop_first().drop_first()[0].0 == "author"@);
        assert(m.drop_first().drop_first().drop_first()[0].0 == "branch"@);
        assert(string_for_key(m, "bodyText"@) == Some(c.body_text));
        assert(string_for_key(m, "time"@) == Some(time_text(c.creation_time)));
        assert(string_for_key(m, "author"@) == Some(c.author));
        assert(string_for_key(m, "branch"@) == Some(c.branch));
        assert(comment_from_json(l.last()) is Some);
    }
}

/// Reading back what `getJson` wrote gives the issue back, as far as the
/// times it wrote parse back (see `read_back`): the creation time and the
/// comments' times must parse back for the issue to be read at all.
#[verifier::rlimit(40)]
#[verifier::spinoff_prover]
pub proof fn law_json_round_trip(i: IssueView)
    requires
        time_of(time_text(i.creation_time)) is Some,
        forall|k: int| 0 <= k < i.comments.len() ==> time_of(time_text(#[trigger] i.comments[k].creation_time)) is Some,
    ensures
        json_readable(issue_json(i)),
        issue_from_json(issue_json(i)) matches Some(j) && read_back(j, i),
{
    lemma_keys_differ();
    lemma_comments_round_trip(i.comments);
    reveal_with_fuel(find_entry, 10);
    let m = match issue_json(i) {
        JsonView::Object(m) => m,
        _ => Seq::empty(),
    };
    assert(decimal(1) == seq!['1']);
    assert(digits_value_one()) by {
        reveal_with_fuel(crate::text::digits_value, 2);
    }
    assert(parse_int_spec(seq!['1']) == Some(1int));
    assert(string_for_key(m, "evict-version"@) == Some(seq!['1']));
    assert(string_for_key(m, "title"@) == Some(i.title));
    assert(string_for_key(m, "bodyText"@) == Some(i.body_text));
    assert(string_for_key(m, "time"@) == Some(time_text(i.creation_time)));
    assert(string_for_key(m, "author"@) == Some(i.author));
    assert(string_for_key(m, "id"@) == Some(i.id));
    assert(string_for_key(m, "branch"@) == Some(i.branch));
    let sj = status_json(i.status);
    let sm = seq![("name"@, JsonView::Str(i.status.name)), ("time"@, JsonView::Str(time_text(i.status.last_change_time)))];
    assert(string_for_key(sm, "name"@) == Some(i.status.name));
    assert(string_for_key(sm, "time"@) == Some(time_text(i.status.last_change_time)));
}

spec fn digits_value_one() -> bool {
    crate::text::digits_value(seq!['1']) == 1
}


/// `c` with its time as it reads back from its text.
pub open spec fn stored_comment(c: CommentView) -> CommentView {
    CommentView { creation_time: calendar_part(c.creation_time), ..c }
}

/// The issue `i` as it is read back after `getJson` wrote it: each time
/// as its text shows it (its date and clock fields); the status with its
/// time so when that time is in its calendar ranges, else the unknown
/// status.
pub open spec fn stored_view(i: IssueView) -> IssueView {
    IssueView {
        creation_time: calendar_part(i.creation_time),
        comments: i.comments.map_values(|c: CommentView| stored_comment(c)),
        status: if in_calendar(i.status.last_change_time) {
            StatusView { name: i.status.name, last_change_time: calendar_part(i.status.last_change_time) }
        } else {
            default_status_view()
        },
        ..i
    }
}

/// An issue that `getJson` wrote is read back as it was, its times as
/// their text shows them (so each time is written the same again), when
/// its times are in their calendar ranges with four-digit years. A new
/// issue's unknown status, whose time is the empty time, is read back as
/// it was.
pub proof fn law_issue_read_back(i: IssueView)
    requires
        in_calendar(i.creation_time),
        forall|k: int| 0 <= k < i.comments.len() ==> in_calendar(#[trigger] i.comments[k].creation_time),
        in_calendar(i.status.last_change_time) || i.status == default_status_view(),
    ensures
        issue_from_json(issue_json(i)) == Some(stored_view(i)),
        time_text(stored_view(i).creation_time) == time_text(i.creation_time),
        forall|k: int| 0 <= k < i.comments.len()
            ==> time_text((#[trigger] stored_view(i).comments[k]).creation_time) == time_text(i.comments[k].creation_time),
        i.status == default_status_view() ==> stored_view(i).status == i.status,
{
    clock::lemma_time_text_parses(i.creation_time);
    assert forall|k: int| 0 <= k < i.comments.len() implies time_of(time_text(#[trigger] i.comments[k].creation_time)) is Some by {
        clock::lemma_time_text_parses(i.comments[k].creation_time);
    }
    law_json_round_trip(i);
    let j = issue_from_json(issue_json(i)).unwrap();
    let v = stored_view(i);
    assert forall|k: int| 0 <= k < i.comments.len() implies j.comments[k] == #[trigger] v.comments[k] by {
        clock::lemma_time_text_parses(i.comments[k].creation_time);
    }
    assert(j.comments =~= v.comments);
    if in_calendar(i.status.last_change_time) {
        clock::lemma_time_text_parses(i.status.last_change_time);
    } else {
        clock::lemma_empty_time_unreadable();
    }
    assert(j == v);
    assert forall|k: int| 0 <= k < i.comments.len()
        implies time_text((#[trigger] v.comments[k]).creation_time) == time_text(i.comments[k].creation_time) by {
        clock::lemma_time_text_parses(i.comments[k].creation_time);
    }
}
} // verus!
