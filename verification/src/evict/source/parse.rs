//! Turns issue comments in a source file into issues.
//!
//! A comment such as `//[bug, ui] The title` opens an issue with the tags
//! `bug` and ` ui` and the title `The title`; the comment lines right after
//! it make its body. The parser writes a line `// EVICT-BT-ID: <id>` above
//! each such comment, so that a comment that already carries an id line is
//! not parsed twice.
use vstd::prelude::*;
use crate::text::{
    trim_spec, trim_start, trim_end, split_spec, views, is_ws, decimal, trim, starts_with,
    split_on, chars_of, string_of, decimal_string, push_char, lemma_split_nonempty, one_line,
};
use crate::fsm::NextState;
use crate::evict::issue::{Issue, IssueView, IssueStatus, IssueTag, IssueTimelineEvent, unknown_branch, id_text, lemma_id_text_one_line};
use crate::clock::Timespec;

verus! {

/// How one kind of comment looks: what opens an issue, what starts each
/// body line, and what ends the comment (if anything does).
pub struct CommentFormat {
    pub issue_start: String,
    pub body_line_start: String,
    pub body_end_line_start: Option<String>,
}

impl Clone for CommentFormat {
    fn clone(&self) -> (r: Self)
        ensures
            r == *self,
    {
        CommentFormat {
            issue_start: self.issue_start.clone(),
            body_line_start: self.body_line_start.clone(),
            body_end_line_start: match &self.body_end_line_start {
                Some(e) => Some(e.clone()),
                None => None,
            },
        }
    }
}

/// What the parser looks for, and what it gives the issues it finds.
pub struct SourceSearcher {
    pub comment_fmts: Vec<CommentFormat>,
    pub issue_id_comment_start: String,
    pub tag_start_delim: char,
    pub tag_end_delim: char,
    pub tag_split_delim: char,
    pub issue_author_name: String,
    pub issue_status: IssueStatus,
    /// The branch the issues are reported on (`None`: not known).
    pub issue_branch: Option<String>,
}

impl Clone for SourceSearcher {
    fn clone(&self) -> (r: Self)
        ensures
            r.comment_fmts@ == self.comment_fmts@,
            r.issue_id_comment_start == self.issue_id_comment_start,
            r.tag_start_delim == self.tag_start_delim,
            r.tag_end_delim == self.tag_end_delim,
            r.tag_split_delim == self.tag_split_delim,
            r.issue_author_name == self.issue_author_name,
            r.issue_status == self.issue_status,
            r.issue_branch == self.issue_branch,
    {
        let fmts = self.comment_fmts.clone();
        assert(fmts@ =~= self.comment_fmts@);
        SourceSearcher {
            comment_fmts: fmts,
            issue_id_comment_start: self.issue_id_comment_start.clone(),
            tag_start_delim: self.tag_start_delim,
            tag_end_delim: self.tag_end_delim,
            tag_split_delim: self.tag_split_delim,
            issue_author_name: self.issue_author_name.clone(),
            issue_status: self.issue_status.clone(),
            issue_branch: match &self.issue_branch {
                Some(b) => Some(b.clone()),
                None => None,
            },
        }
    }
}

/// The issues found in a file, and the file's text with an id line written
/// above each comment that opened one of them.
pub struct ParseResult {
    pub new_issues: Vec<Issue>,
    pub new_file_contents: String,
}

impl SourceSearcher {
    /// Every comment format has something that opens an issue.
    pub open spec fn wf(&self) -> bool {
        forall|k: int| 0 <= k < self.comment_fmts@.len() ==> (#[trigger] self.comment_fmts@[k]).issue_start@.len() > 0
    }
}

// ---------------------------------------------------------------------------
// The parser as a function of the lines it reads.

/// A piece of the rewritten file: a line as it was read, or an id line with
/// its indentation and the number of the issue whose id it carries.
pub enum Piece {
    Text(Seq<char>),
    IdLine(Seq<char>, nat),
}

/// An issue the parser found: its title, the names of its tags and its body.
pub struct FoundIssue {
    pub title: Seq<char>,
    pub tags: Seq<Seq<char>>,
    pub body: Seq<char>,
}

/// Where the parser is: the issues it has finished, the one whose body it
/// is reading, the pieces of the file so far and the comment format in use.
pub struct ParseModel {
    pub found: Seq<FoundIssue>,
    pub current: Option<FoundIssue>,
    pub pieces: Seq<Piece>,
    pub fmt: Option<int>,
}

/// What the parser does with the next line.
#[derive(Clone, Copy)]
pub enum ParseHandler {
    /// Looking for an issue comment.
    MainParse,
    /// Just read an id line; skipping the comment below it.
    ReadToIssueEnd,
    /// Skipping the rest of a comment that already has an id.
    ReadToIssueEndFormatted,
    /// Reading the body of a new issue.
    ParseBody,
}

/// Whether `input` is the last line of a comment of format `f`.
pub open spec fn line_ends_format_spec(input: Seq<char>, f: CommentFormat) -> bool {
    match f.body_end_line_start {
        Some(e) => e@.is_prefix_of(input),
        None => false,
    }
}

/// The tag names and the title of the text after a comment's opener:
/// `[a, b] title` gives the pieces of `a, b` between commas that are not
/// blank (kept as written) and the trimmed text after `]`. Text that does
/// not begin with a tag list gives nothing.
pub open spec fn read_tags_spec(s: SourceSearcher, line_text: Seq<char>) -> Option<(Seq<Seq<char>>, Seq<char>)> {
    let t = trim_spec(line_text);
    if t[0] == s.tag_start_delim {
        let parts = split_spec(t.drop_first(), s.tag_end_delim);
        if parts.len() < 2 {
            None
        } else {
            Some((split_spec(parts[0], s.tag_split_delim).filter(|p: Seq<char>| trim_spec(p).len() > 0), trim_spec(parts[1])))
        }
    } else {
        None
    }
}

/// Whether the trimmed line `t` opens an issue in format `k`.
pub open spec fn opens_issue(s: SourceSearcher, t: Seq<char>, k: int) -> bool {
    let start = s.comment_fmts@[k].issue_start@;
    &&& start.is_prefix_of(t)
    &&& t.len() > start.len()
    &&& read_tags_spec(s, t.skip(start.len() as int)) is Some
}

/// The first format from `k` on in which the trimmed line `t` opens an issue.
pub open spec fn first_opening(s: SourceSearcher, t: Seq<char>, k: int) -> Option<int>
    decreases s.comment_fmts@.len() - k,
{
    if k >= s.comment_fmts@.len() {
        None
    } else if opens_issue(s, t, k) {
        Some(k)
    } else {
        first_opening(s, t, k + 1)
    }
}

/// The first format from `k` on whose opener begins the trimmed line `t`.
pub open spec fn first_start(s: SourceSearcher, t: Seq<char>, k: int) -> Option<int>
    decreases s.comment_fmts@.len() - k,
{
    if k >= s.comment_fmts@.len() {
        None
    } else if s.comment_fmts@[k].issue_start@.is_prefix_of(t) {
        Some(k)
    } else {
        first_start(s, t, k + 1)
    }
}

/// The text of `line` before the first `c` (all of it if there is none).
pub open spec fn indent_of(line: Seq<char>, c: char) -> Seq<char>
    decreases line.len(),
{
    if line.len() == 0 || line[0] == c {
        Seq::empty()
    } else {
        seq![line[0]] + indent_of(line.drop_first(), c)
    }
}

/// The first lines of a parsed issue's body: `Parsed from <file> line <n>`
/// and an empty line.
pub open spec fn parsed_from(file: Seq<char>, n: nat) -> Seq<char> {
    seq!['P', 'a', 'r', 's', 'e', 'd', ' ', 'f', 'r', 'o', 'm', ' '] + file + seq![' ', 'l', 'i', 'n', 'e', ' ']
        + decimal(n) + seq!['\n', '\n']
}

/// The model after adding the line `line` as it was read.
pub open spec fn with_text(m: ParseModel, line: Seq<char>) -> ParseModel {
    ParseModel { pieces: m.pieces.push(Piece::Text(line)), ..m }
}

/// One line read while looking for an issue comment.
pub open spec fn main_step(s: SourceSearcher, m: ParseModel, line: Seq<char>, file: Seq<char>, n: nat) -> (ParseHandler, ParseModel) {
    let t = trim_spec(line);
    if s.issue_id_comment_start@.is_prefix_of(t) {
        (ParseHandler::ReadToIssueEnd, with_text(m, line))
    } else {
        match first_opening(s, t, 0) {
            Some(k) => {
                let start = s.comment_fmts@[k].issue_start@;
                let tt = read_tags_spec(s, t.skip(start.len() as int)).unwrap();
                (ParseHandler::ParseBody, ParseModel {
                    found: m.found,
                    current: Some(FoundIssue { title: tt.1, tags: tt.0, body: parsed_from(file, n) }),
                    pieces: m.pieces.push(Piece::IdLine(indent_of(line, start[0]), m.found.len())).push(Piece::Text(line)),
                    fmt: Some(k),
                })
            },
            None => (ParseHandler::MainParse, with_text(m, line)),
        }
    }
}

/// One line read right after an id line.
pub open spec fn to_issue_end_step(s: SourceSearcher, m: ParseModel, line: Seq<char>) -> (ParseHandler, ParseModel) {
    match first_start(s, trim_spec(line), 0) {
        Some(k) => (ParseHandler::ReadToIssueEndFormatted, ParseModel { fmt: Some(k), ..with_text(m, line) }),
        None => (ParseHandler::MainParse, with_text(m, line)),
    }
}

/// One line read in a comment that already has an id.
pub open spec fn formatted_step(s: SourceSearcher, m: ParseModel, line: Seq<char>) -> (ParseHandler, ParseModel) {
    let f = s.comment_fmts@[m.fmt.unwrap()];
    if line_ends_format_spec(line, f) || !f.body_line_start@.is_prefix_of(trim_spec(line)) {
        (ParseHandler::MainParse, with_text(m, line))
    } else {
        (ParseHandler::ReadToIssueEndFormatted, with_text(m, line))
    }
}

/// One line read in the body of a new issue: a body line adds its text
/// (after the body marker, trimmed) to the body; any other line ends it.
pub open spec fn body_step(s: SourceSearcher, m: ParseModel, line: Seq<char>) -> (ParseHandler, ParseModel) {
    let t = trim_spec(line);
    let f = s.comment_fmts@[m.fmt.unwrap()];
    let c = m.current.unwrap();
    if line_ends_format_spec(t, f) || !f.body_line_start@.is_prefix_of(t) {
        (ParseHandler::MainParse, ParseModel { found: m.found.push(c), current: None, ..with_text(m, line) })
    } else {
        let more = trim_spec(t.skip(f.body_line_start@.len() as int));
        (ParseHandler::ParseBody, ParseModel {
            current: Some(FoundIssue { body: c.body + more + seq!['\n'], ..c }),
            ..with_text(m, line)
        })
    }
}

/// One line read by the handler `h`; `n` is the line's number.
pub open spec fn step(s: SourceSearcher, h: ParseHandler, m: ParseModel, line: Seq<char>, file: Seq<char>, n: nat) -> (ParseHandler, ParseModel) {
    match h {
        ParseHandler::MainParse => main_step(s, m, line, file, n),
        ParseHandler::ReadToIssueEnd => to_issue_end_step(s, m, line),
        ParseHandler::ReadToIssueEndFormatted => formatted_step(s, m, line),
        ParseHandler::ParseBody => body_step(s, m, line),
    }
}

/// Where the parser starts.
pub open spec fn initial_model() -> ParseModel {
    ParseModel { found: Seq::empty(), current: None, pieces: Seq::empty(), fmt: None }
}

/// The parser after reading `lines` of the file `file`, numbered from 1.
pub open spec fn run(s: SourceSearcher, lines: Seq<Seq<char>>, file: Seq<char>) -> (ParseHandler, ParseModel)
    decreases lines.len(),
{
    if lines.len() == 0 {
        (ParseHandler::MainParse, initial_model())
    } else {
        let (h, m) = run(s, lines.drop_last(), file);
        step(s, h, m, lines.last(), file, lines.len())
    }
}

/// The issues found once the file has ended: the one being read is done too.
pub open spec fn final_issues(m: ParseModel) -> Seq<FoundIssue> {
    match m.current {
        Some(c) => m.found.push(c),
        None => m.found,
    }
}

/// The text of one piece, given the ids of the issues by number.
pub open spec fn piece_text(id_start: Seq<char>, p: Piece, ids: Seq<Seq<char>>) -> Seq<char> {
    match p {
        Piece::Text(t) => t,
        Piece::IdLine(indent, k) => indent + id_start + ids[k as int] + seq!['\n'],
    }
}

/// The text of the pieces, given the ids of the issues by number.
pub open spec fn render(id_start: Seq<char>, pieces: Seq<Piece>, ids: Seq<Seq<char>>) -> Seq<char>
    decreases pieces.len(),
{
    if pieces.len() == 0 {
        Seq::empty()
    } else {
        render(id_start, pieces.drop_last(), ids) + piece_text(id_start, pieces.last(), ids)
    }
}

/// The ids of a list of issues.
pub open spec fn issue_ids(v: Seq<Issue>) -> Seq<Seq<char>> {
    v.map_values(|i: Issue| i.base.id@)
}

/// The branch text an issue gets from the searcher.
pub open spec fn branch_text(b: Option<String>) -> Seq<char> {
    match b {
        Some(b) => b@,
        None => unknown_branch(),
    }
}

/// `v` holds tag changes that enable the tags `names`, in order, by `author`.
pub open spec fn tags_made(v: Seq<IssueTag>, names: Seq<Seq<char>>, author: Seq<char>) -> bool {
    &&& v.len() == names.len()
    &&& forall|j: int| 0 <= j < v.len() ==> (#[trigger] v[j]).tag_name@ == names[j] && v[j].enabled && v[j].author@ == author
}

/// Whether `e` enables the tag `name`, changed by `author`.
pub open spec fn tag_event(e: IssueTimelineEvent, name: Seq<char>, author: Seq<char>) -> bool {
    match e {
        IssueTimelineEvent::TimelineTag(t) => t.tag_name@ == name && t.enabled && t.author@ == author,
        IssueTimelineEvent::TimelineComment(_) => false,
    }
}

/// Whether `id` is an id made from a timestamp (see `id_text`).
pub open spec fn fresh_id(id: Seq<char>) -> bool {
    exists|t: Timespec| 0 <= t.nsec < 1_000_000_000 && #[trigger] id_text(t) == id
}

/// The issue `i` is the found issue `f` as the searcher `s` reports it,
/// save for its body: it has a fresh id.
pub open spec fn issue_opened(s: SourceSearcher, i: IssueView, f: FoundIssue) -> bool {
    &&& fresh_id(i.base.id@)
    &&& i.base.title@ == f.title
    &&& i.base.author@ == s.issue_author_name@
    &&& i.base.branch@ == branch_text(s.issue_branch)
    &&& i.status == s.issue_status
    &&& i.events.len() == f.tags.len()
    &&& forall|j: int| 0 <= j < i.events.len() ==> tag_event(#[trigger] i.events[j], f.tags[j], s.issue_author_name@)
}

/// The issue `i` is the found issue `f` as the searcher `s` reports it.
pub open spec fn issue_found(s: SourceSearcher, i: IssueView, f: FoundIssue) -> bool {
    &&& issue_opened(s, i, f)
    &&& i.base.body_text@ == f.body
}

/// `r` is what parsing `lines` of the file `file` gives: the issues found,
/// in order, and the lines with an id line (carrying the id of the issue
/// it opened) above each comment that opened an issue.
pub open spec fn parsed(s: SourceSearcher, lines: Seq<Seq<char>>, file: Seq<char>, r: ParseResult) -> bool {
    let m = run(s, lines, file).1;
    let fin = final_issues(m);
    &&& r.new_issues@.len() == fin.len()
    &&& forall|k: int| 0 <= k < fin.len() ==> issue_found(s, (#[trigger] r.new_issues@[k])@, fin[k])
    &&& r.new_file_contents@ == render(s.issue_id_comment_start@, m.pieces, issue_ids(r.new_issues@))
}

// ---------------------------------------------------------------------------
// Text helpers.

/// The text of `s` from character `k` on.
fn skip_chars(s: &str, k: usize) -> (r: String)
    requires
        k <= s@.len(),
    ensures
        r@ == s@.skip(k as int),
{
    let v = chars_of(s);
    let r = string_of(&v, k, v.len());
    assert(r@ =~= s@.skip(k as int));
    r
}

proof fn lemma_indent_step(s: Seq<char>, i: int, c: char)
    requires
        0 <= i < s.len(),
        forall|j: int| 0 <= j < i ==> s[j] != c,
    ensures
        indent_of(s, c) == s.take(i) + indent_of(s.skip(i), c),
    decreases i,
{
    if i > 0 {
        assert(s.drop_first().skip(i - 1) =~= s.skip(i));
        lemma_indent_step(s.drop_first(), i - 1, c);
        assert(seq![s[0]] + s.drop_first().take(i - 1) =~= s.take(i));
    } else {
        assert(s.take(0) =~= Seq::<char>::empty());
        assert(s.skip(0) =~= s);
    }
}

/// The text of `s` before the first `c`.
fn prefix_before(s: &str, c: char) -> (r: String)
    ensures
        r@ == indent_of(s@, c),
{
    let v = chars_of(s);
    let mut i: usize = 0;
    while i < v.len() && v[i] != c
        invariant
            v@ == s@,
            i <= v@.len(),
            forall|j: int| 0 <= j < i ==> s@[j] != c,
        decreases v@.len() - i,
    {
        i = i + 1;
    }
    proof {
        if i < v@.len() {
            lemma_indent_step(s@, i as int, c);
            assert(indent_of(s@.skip(i as int), c) =~= Seq::<char>::empty());
        } else {
            lemma_indent_all(s@, c);
        }
        assert(s@.take(i as int) + Seq::<char>::empty() =~= s@.take(i as int));
    }
    string_of(&v, 0, i)
}

proof fn lemma_indent_all(s: Seq<char>, c: char)
    requires
        forall|j: int| 0 <= j < s.len() ==> s[j] != c,
    ensures
        indent_of(s, c) == s,
    decreases s.len(),
{
    if s.len() > 0 {
        lemma_indent_all(s.drop_first(), c);
        assert(seq![s[0]] + s.drop_first() =~= s);
    }
}

proof fn lemma_trim_start_suffix(s: Seq<char>)
    ensures
        exists|k: int| 0 <= k <= s.len() && trim_start(s) == #[trigger] s.skip(k),
        forall|j: int| 0 <= j < s.len() && !is_ws(s[j]) ==> trim_start(s).len() > 0,
    decreases s.len(),
{
    if s.len() > 0 && is_ws(s[0]) {
        lemma_trim_start_suffix(s.drop_first());
        let k = choose|k: int| 0 <= k <= s.drop_first().len() && trim_start(s.drop_first()) == #[trigger] s.drop_first().skip(k);
        assert(s.drop_first().skip(k) =~= s.skip(k + 1));
        assert forall|j: int| 0 <= j < s.len() && !is_ws(s[j]) implies trim_start(s).len() > 0 by {
            assert(s.drop_first()[j - 1] == s[j]);
        }
    } else {
        assert(s.skip(0) =~= s);
    }
}

proof fn lemma_trim_end_keeps(s: Seq<char>)
    requires
        s.len() > 0,
        !is_ws(s.last()),
    ensures
        trim_end(s) == s,
{
}

proof fn lemma_trim_end_last(s: Seq<char>)
    ensures
        trim_end(s).len() > 0 ==> !is_ws(trim_end(s).last()),
        trim_end(s).len() <= s.len(),
        trim_end(s) =~= s.take(trim_end(s).len() as int),
    decreases s.len(),
{
    if s.len() > 0 && is_ws(s.last()) {
        lemma_trim_end_last(s.drop_last());
    } else {
        assert(s.take(s.len() as int) =~= s);
    }
}

/// A piece of a trimmed line that keeps its last character trims to
/// something nonempty.
proof fn lemma_rest_not_blank(x: Seq<char>, t: Seq<char>, k: int)
    requires
        t == trim_spec(x),
        0 <= k < t.len(),
    ensures
        trim_spec(t.skip(k)).len() > 0,
{
    let u = trim_start(x);
    lemma_trim_end_last(u);
    assert(!is_ws(t.last()));
    let r = t.skip(k);
    assert(r.last() == t.last());
    lemma_trim_start_suffix(r);
    assert(r[r.len() - 1] == r.last());
    let q = trim_start(r);
    let j = choose|j: int| 0 <= j <= r.len() && trim_start(r) == #[trigger] r.skip(j);
    assert(q.last() == r.last());
    lemma_trim_end_keeps(q);
}

// ---------------------------------------------------------------------------
// Tags.

/// A tag change that enables `tag_name`, unless the name is blank.
fn tag_from_nonempty_str(tag_name: &str, author: &str) -> (r: Option<IssueTag>)
    ensures
        r is Some == (trim_spec(tag_name@).len() > 0),
        r matches Some(t) ==> t.tag_name@ == tag_name@ && t.enabled && t.author@ == author@,
{
    let trimmed_str = trim(tag_name);
    if trimmed_str.unicode_len() > 0 {
        Some(IssueTag::new(tag_name.to_owned(), author.to_owned(), true))
    } else {
        None
    }
}

/// The tags and the title of the text after a comment's opener (see
/// `read_tags_spec`); without a tag list, no tags and the text unchanged.
fn read_tags(line_text: &str, format: &SourceSearcher) -> (r: (Option<Vec<IssueTag>>, String))
    requires
        trim_spec(line_text@).len() > 0,
    ensures
        match read_tags_spec(*format, line_text@) {
            Some((names, title)) => r.0 matches Some(v) && tags_made(v@, names, format.issue_author_name@)
                && r.1@ == title,
            None => r.0 is None && r.1@ == line_text@,
        },
{
    let trimmed = trim(line_text);
    let tv = chars_of(trimmed.as_str());
    if tv[0] == format.tag_start_delim {
        let with_tags = string_of(&tv, 1, tv.len());
        assert(with_tags@ =~= trimmed@.drop_first());
        let split = split_on(with_tags.as_str(), format.tag_end_delim);
        if split.len() < 2 {
            (None, line_text.to_owned())
        } else {
            let title_part = trim(split[1].as_str());
            let split_tags = split_on(split[0].as_str(), format.tag_split_delim);
            let ghost parts = views(split_tags@);
            let ghost pred = |p: Seq<char>| trim_spec(p).len() > 0;
            let mut tag_vec: Vec<IssueTag> = Vec::new();
            let mut i: usize = 0;
            while i < split_tags.len()
                invariant
                    parts == views(split_tags@),
                    pred == (|p: Seq<char>| trim_spec(p).len() > 0),
                    i <= split_tags@.len(),
                    tags_made(tag_vec@, parts.take(i as int).filter(pred), format.issue_author_name@),
                decreases split_tags@.len() - i,
            {
                proof {
                    reveal_with_fuel(Seq::filter, 1);
                    assert(parts.take(i + 1).drop_last() =~= parts.take(i as int));
                    assert(parts[i as int] == split_tags@[i as int]@);
                }
                match tag_from_nonempty_str(split_tags[i].as_str(), format.issue_author_name.as_str()) {
                    Some(t) => {
                        tag_vec.push(t);
                    },
                    None => {},
                }
                i = i + 1;
            }
            assert(parts.take(split_tags@.len() as int) =~= parts);
            (Some(tag_vec), title_part)
        }
    } else {
        (None, line_text.to_owned())
    }
}

/// Whether `input` is the last line of a comment of format `format`.
pub fn line_ends_format(input: &str, format: &CommentFormat) -> (r: bool)
    ensures
        r == line_ends_format_spec(input@, *format),
{
    match &format.body_end_line_start {
        Some(e) => starts_with(input, e.as_str()),
        None => false,
    }
}

// ---------------------------------------------------------------------------
// The parser's state while it reads a file.

/// The parser's state: the issues finished so far, the issue whose body is
/// being read and that body, the comment format in use and the file's new
/// text so far. `model` is where this stands in the parse.
struct PartialParseResult {
    new_issues: Vec<Issue>,
    issue_in_progress: Option<Issue>,
    body_in_progress: Option<String>,
    current_comment_format: Option<usize>,
    new_contents: String,
    model: Ghost<ParseModel>,
}

/// One line of the file, with the file's name and the line's number.
struct ParseLineInfo {
    content: String,
    filename: String,
    line_number: usize,
}

/// The number of issues the parser has opened.
spec fn issue_count(m: ParseModel) -> nat {
    m.found.len() + if m.current is Some { 1nat } else { 0nat }
}

/// Whether the piece `p` names an issue below `n`, if it names one.
spec fn piece_below(p: Piece, n: nat) -> bool {
    match p {
        Piece::IdLine(_, k) => k < n,
        Piece::Text(_) => true,
    }
}

/// Whether the format in use is a format of the searcher.
spec fn fmt_valid(s: SourceSearcher, m: ParseModel) -> bool {
    m.fmt matches Some(k) && 0 <= k < s.comment_fmts@.len()
}

/// What holds of the model in each handler.
spec fn model_ok(s: SourceSearcher, h: ParseHandler, m: ParseModel) -> bool {
    &&& forall|i: int| 0 <= i < m.pieces.len() ==> piece_below(#[trigger] m.pieces[i], issue_count(m))
    &&& match h {
        ParseHandler::MainParse => m.current is None,
        ParseHandler::ReadToIssueEnd => m.current is None,
        ParseHandler::ReadToIssueEndFormatted => m.current is None && fmt_valid(s, m),
        ParseHandler::ParseBody => m.current is Some && fmt_valid(s, m),
    }
}

/// The ids of the issues the parser has opened, by number.
spec fn all_ids(p: PartialParseResult) -> Seq<Seq<char>> {
    match p.issue_in_progress {
        Some(i) => issue_ids(p.new_issues@).push(i.base.id@),
        None => issue_ids(p.new_issues@),
    }
}

spec fn body_is(b: Option<String>, body: Seq<char>) -> bool {
    b matches Some(t) && t@ == body
}

spec fn fmt_is(f: Option<usize>, g: Option<int>) -> bool {
    match (f, g) {
        (Some(k), Some(j)) => k == j,
        (None, None) => true,
        _ => false,
    }
}

/// The parser's state is what its model says.
spec fn corresponds(s: SourceSearcher, p: PartialParseResult) -> bool {
    let m = p.model@;
    &&& p.new_issues@.len() == m.found.len()
    &&& forall|k: int| 0 <= k < m.found.len() ==> issue_found(s, (#[trigger] p.new_issues@[k])@, m.found[k])
    &&& (p.issue_in_progress is Some) == (m.current is Some)
    &&& (p.issue_in_progress matches Some(ip) ==> issue_opened(s, ip@, m.current.unwrap()))
    &&& (m.current is Some ==> body_is(p.body_in_progress, m.current.unwrap().body))
    &&& fmt_is(p.current_comment_format, m.fmt)
    &&& p.new_contents@ == render(s.issue_id_comment_start@, m.pieces, all_ids(p))
}

/// The handler after a step that began with `h0`.
spec fn next_handler(h0: ParseHandler, r: NextState<PartialParseResult, ParseHandler>) -> ParseHandler {
    match r {
        NextState::ChangeState(h, _) => h,
        _ => h0,
    }
}

/// The state after a step.
spec fn next_state(r: NextState<PartialParseResult, ParseHandler>) -> PartialParseResult {
    match r {
        NextState::ChangeState(_, q) => q,
        NextState::Continue(q) => q,
        NextState::End(q) => q,
    }
}

/// The handler `h0` read the line `info` in the state `p` as `step` says.
spec fn handled(
    s: SourceSearcher,
    h0: ParseHandler,
    p: PartialParseResult,
    info: ParseLineInfo,
    r: NextState<PartialParseResult, ParseHandler>,
) -> bool {
    &&& r !is End
    &&& (next_handler(h0, r), next_state(r).model@) == step(s, h0, p.model@, info.content@, info.filename@, info.line_number as nat)
    &&& corresponds(s, next_state(r))
    &&& model_ok(s, next_handler(h0, r), next_state(r).model@)
}

proof fn lemma_render_push(id_start: Seq<char>, pieces: Seq<Piece>, p: Piece, ids: Seq<Seq<char>>)
    ensures
        render(id_start, pieces.push(p), ids) == render(id_start, pieces, ids) + piece_text(id_start, p, ids),
{
    assert(pieces.push(p).drop_last() =~= pieces);
}

proof fn lemma_render_more_ids(id_start: Seq<char>, pieces: Seq<Piece>, ids: Seq<Seq<char>>, x: Seq<char>)
    requires
        forall|i: int| 0 <= i < pieces.len() ==> piece_below(#[trigger] pieces[i], ids.len()),
    ensures
        render(id_start, pieces, ids.push(x)) == render(id_start, pieces, ids),
    decreases pieces.len(),
{
    if pieces.len() > 0 {
        assert forall|i: int| 0 <= i < pieces.drop_last().len() implies piece_below(#[trigger] pieces.drop_last()[i], ids.len()) by {
            assert(pieces.drop_last()[i] == pieces[i]);
        }
        lemma_render_more_ids(id_start, pieces.drop_last(), ids, x);
        assert(piece_below(pieces[pieces.len() - 1], ids.len()));
    }
}

proof fn lemma_ids_push(v: Seq<Issue>, i: Issue)
    ensures
        issue_ids(v.push(i)) == issue_ids(v).push(i.base.id@),
{
    assert(issue_ids(v.push(i)) =~= issue_ids(v).push(i.base.id@));
}

/// The state with `line` added to the file's new text.
fn add_line(presult: PartialParseResult, line: &str) -> (r: PartialParseResult)
    ensures
        r.new_contents@ == presult.new_contents@ + line@,
        r.new_issues == presult.new_issues,
        r.issue_in_progress == presult.issue_in_progress,
        r.body_in_progress == presult.body_in_progress,
        r.current_comment_format == presult.current_comment_format,
        r.model == presult.model,
{
    let mut presult = presult;
    if presult.new_contents.unicode_len() == 0 {
        presult.new_contents = line.to_owned();
        assert(presult.new_contents@ =~= Seq::<char>::empty() + line@);
    } else {
        presult.new_contents.append(line);
    }
    presult
}

/// A copy of the searcher's branch.
fn branch_copy(b: &Option<String>) -> (r: Option<String>)
    ensures
        branch_text(r) == branch_text(*b),
{
    match b {
        Some(x) => Some(x.clone()),
        None => None,
    }
}

/// `Parsed from <file> line <n>` and an empty line.
fn parsed_from_text(file: &str, n: usize) -> (r: String)
    ensures
        r@ == parsed_from(file@, n as nat),
{
    proof {
        reveal_strlit("Parsed from ");
        reveal_strlit(" line ");
    }
    let mut r = "Parsed from ".to_owned();
    r.append(file);
    r.append(" line ");
    let num = decimal_string(n as u64);
    r.append(num.as_str());
    push_char(&mut r, '\n');
    push_char(&mut r, '\n');
    assert(r@ =~= parsed_from(file@, n as nat));
    r
}

/// Reads a line while looking for an issue comment: a line that carries an
/// issue id hands over to skipping that issue's comment; a comment that
/// opens an issue (`//[tags] title`) starts a new issue, writes an id line
/// above it and hands over to reading its body; any other line is kept.
fn main_parse_handler(s: &SourceSearcher, partial_result: PartialParseResult, lineinfo: ParseLineInfo) -> (r: NextState<PartialParseResult, ParseHandler>)
    requires
        s.wf(),
        corresponds(*s, partial_result),
        model_ok(*s, ParseHandler::MainParse, partial_result.model@),
    ensures
        handled(*s, ParseHandler::MainParse, partial_result, lineinfo, r),
{
    let ghost info = lineinfo;
    let ghost m = partial_result.model@;
    let ghost ids = all_ids(partial_result);
    let ParseLineInfo { content: input, filename: file, line_number: linenum } = lineinfo;
    let trimmed = trim(input.as_str());
    if starts_with(trimmed.as_str(), s.issue_id_comment_start.as_str()) {
        let mut with_line = add_line(partial_result, input.as_str());
        with_line.model = Ghost(with_text(m, input@));
        proof {
            lemma_render_push(s.issue_id_comment_start@, m.pieces, Piece::Text(input@), ids);
            assert(with_text(m, input@).pieces[m.pieces.len() as int] == Piece::Text(input@));
        }
        return NextState::ChangeState(ParseHandler::ReadToIssueEnd, with_line);
    }
    let n = s.comment_fmts.len();
    let mut k: usize = 0;
    while k < n
        invariant
            n == s.comment_fmts@.len(),
            k <= n,
            trimmed@ == trim_spec(input@),
            first_opening(*s, trimmed@, 0) == first_opening(*s, trimmed@, k as int),
            s.wf(),
            m == partial_result.model@,
            ids == all_ids(partial_result),
            corresponds(*s, partial_result),
            model_ok(*s, ParseHandler::MainParse, m),
            !s.issue_id_comment_start@.is_prefix_of(trimmed@),
            info == lineinfo,
            info.content == input,
            info.filename == file,
            info.line_number == linenum,
        decreases n - k,
    {
        let cformat = &s.comment_fmts[k];
        assert(cformat.issue_start@.len() > 0);
        if starts_with(trimmed.as_str(), cformat.issue_start.as_str())
            && trimmed.unicode_len() > cformat.issue_start.unicode_len() {
            let ghost start = cformat.issue_start@;
            let rem_text = skip_chars(trimmed.as_str(), cformat.issue_start.unicode_len());
            proof {
                lemma_rest_not_blank(input@, trimmed@, start.len() as int);
            }
            let (tags, title_text) = read_tags(rem_text.as_str(), s);
            match tags {
                Some(tags) => {
                    let ghost tt = read_tags_spec(*s, rem_text@).unwrap();
                    assert(first_opening(*s, trimmed@, k as int) == Some(k as int));
                    let mut new_issue = Issue::new(
                        title_text,
                        String::new(),
                        s.issue_author_name.clone(),
                        branch_copy(&s.issue_branch),
                    );
                    new_issue.status = s.issue_status.clone();
                    let ghost base = new_issue.base;
                    let mut j: usize = 0;
                    while j < tags.len()
                        invariant
                            j <= tags@.len(),
                            tags_made(tags@, tt.0, s.issue_author_name@),
                            new_issue.base == base,
                            new_issue.status == s.issue_status,
                            new_issue.events@.len() == j,
                            forall|q: int| 0 <= q < j ==> tag_event(#[trigger] new_issue.events@[q], tt.0[q], s.issue_author_name@),
                        decreases tags@.len() - j,
                    {
                        new_issue.add_tag(tags[j].clone());
                        j = j + 1;
                    }
                    let whitespace_end = cformat.issue_start.as_str().get_char(0);
                    let mut id_line = prefix_before(input.as_str(), whitespace_end);
                    id_line.append(s.issue_id_comment_start.as_str());
                    id_line.append(new_issue.id());
                    push_char(&mut id_line, '\n');
                    let body_start = parsed_from_text(file.as_str(), linenum);
                    let ghost new_id = new_issue.base.id@;
                    let ghost f = FoundIssue { title: tt.1, tags: tt.0, body: parsed_from(file@, linenum as nat) };
                    let ghost m2 = ParseModel {
                        found: m.found,
                        current: Some(f),
                        pieces: m.pieces.push(Piece::IdLine(indent_of(input@, start[0]), m.found.len())).push(Piece::Text(input@)),
                        fmt: Some(k as int),
                    };
                    let with_issue_line = add_line(partial_result, id_line.as_str());
                    let mut issue_and_input = add_line(with_issue_line, input.as_str());
                    issue_and_input.issue_in_progress = Some(new_issue);
                    issue_and_input.current_comment_format = Some(k);
                    issue_and_input.body_in_progress = Some(body_start);
                    issue_and_input.model = Ghost(m2);
                    proof {
                        let ids2 = ids.push(new_id);
                        assert(all_ids(issue_and_input) == ids2);
                        let p1 = m.pieces.push(Piece::IdLine(indent_of(input@, start[0]), m.found.len()));
                        lemma_render_more_ids(s.issue_id_comment_start@, m.pieces, ids, new_id);
                        lemma_render_push(s.issue_id_comment_start@, m.pieces, Piece::IdLine(indent_of(input@, start[0]), m.found.len()), ids2);
                        lemma_render_push(s.issue_id_comment_start@, p1, Piece::Text(input@), ids2);
                        assert(ids2[m.found.len() as int] == new_id);
                        assert forall|i: int| 0 <= i < m2.pieces.len() implies piece_below(#[trigger] m2.pieces[i], issue_count(m2)) by {
                            if i < m.pieces.len() {
                                assert(m2.pieces[i] == m.pieces[i]);
                            }
                        }
                        assert(main_step(*s, m, input@, file@, linenum as nat) == (ParseHandler::ParseBody, m2));
                    }
                    let r = NextState::ChangeState(ParseHandler::ParseBody, issue_and_input);
                    proof {
                        assert(issue_opened(*s, new_issue@, f));
                        assert(body_is(issue_and_input.body_in_progress, f.body));
                        assert(issue_and_input.new_contents@ == render(s.issue_id_comment_start@, m2.pieces, all_ids(issue_and_input)));
                        assert(corresponds(*s, issue_and_input));
                        assert(step(*s, ParseHandler::MainParse, m, info.content@, info.filename@, info.line_number as nat) == (ParseHandler::ParseBody, m2));
                        assert(handled(*s, ParseHandler::MainParse, partial_result, lineinfo, r));
                    }
                    return r;
                },
                None => {
                    assert(!opens_issue(*s, trimmed@, k as int));
                },
            }
        }
        k = k + 1;
    }
    let mut with_line = add_line(partial_result, input.as_str());
    with_line.model = Ghost(with_text(m, input@));
    proof {
        lemma_render_push(s.issue_id_comment_start@, m.pieces, Piece::Text(input@), ids);
        assert(with_text(m, input@).pieces[m.pieces.len() as int] == Piece::Text(input@));
    }
    NextState::Continue(with_line)
}

/// Reads the line after an id line: a comment there is the issue's comment,
/// to be skipped; anything else goes back to looking for issues.
fn read_to_issue_end(s: &SourceSearcher, partial_result: PartialParseResult, line_info: ParseLineInfo) -> (r: NextState<PartialParseResult, ParseHandler>)
    requires
        s.wf(),
        corresponds(*s, partial_result),
        model_ok(*s, ParseHandler::ReadToIssueEnd, partial_result.model@),
    ensures
        handled(*s, ParseHandler::ReadToIssueEnd, partial_result, line_info, r),
{
    let ghost m = partial_result.model@;
    let ghost ids = all_ids(partial_result);
    let input = line_info.content;
    let trimmed = trim(input.as_str());
    let mut result_w_line = add_line(partial_result, input.as_str());
    let ghost mt = with_text(m, input@);
    result_w_line.model = Ghost(mt);
    proof {
        lemma_render_push(s.issue_id_comment_start@, m.pieces, Piece::Text(input@), ids);
        assert(mt.pieces[m.pieces.len() as int] == Piece::Text(input@));
        assert(corresponds(*s, result_w_line));
    }
    let n = s.comment_fmts.len();
    let mut k: usize = 0;
    while k < n
        invariant
            n == s.comment_fmts@.len(),
            k <= n,
            trimmed@ == trim_spec(input@),
            first_start(*s, trimmed@, 0) == first_start(*s, trimmed@, k as int),
            s.wf(),
            m == partial_result.model@,
            mt == with_text(m, input@),
            result_w_line.model@ == mt,
            corresponds(*s, result_w_line),
            model_ok(*s, ParseHandler::ReadToIssueEnd, m),
            model_ok(*s, ParseHandler::MainParse, mt),
            line_info.content == input,
        decreases n - k,
    {
        if starts_with(trimmed.as_str(), s.comment_fmts[k].issue_start.as_str()) {
            result_w_line.current_comment_format = Some(k);
            let ghost mf = ParseModel { fmt: Some(k as int), ..mt };
            result_w_line.model = Ghost(mf);
            assert(first_start(*s, trimmed@, k as int) == Some(k as int));
            assert(corresponds(*s, result_w_line));
            assert(model_ok(*s, ParseHandler::ReadToIssueEndFormatted, mf));
            return NextState::ChangeState(ParseHandler::ReadToIssueEndFormatted, result_w_line);
        }
        k = k + 1;
    }
    NextState::ChangeState(ParseHandler::MainParse, result_w_line)
}

/// Reads a line of a comment that already has an id: the comment's last
/// line, or a line that is not a body line, goes back to looking for issues.
fn read_to_issue_end_formatted(s: &SourceSearcher, partial_result: PartialParseResult, line_info: ParseLineInfo) -> (r: NextState<PartialParseResult, ParseHandler>)
    requires
        s.wf(),
        corresponds(*s, partial_result),
        model_ok(*s, ParseHandler::ReadToIssueEndFormatted, partial_result.model@),
    ensures
        handled(*s, ParseHandler::ReadToIssueEndFormatted, partial_result, line_info, r),
{
    let ghost m = partial_result.model@;
    let ghost ids = all_ids(partial_result);
    let input = line_info.content;
    let trimmed = trim(input.as_str());
    let mut npresult = add_line(partial_result, input.as_str());
    let ghost mt = with_text(m, input@);
    npresult.model = Ghost(mt);
    proof {
        lemma_render_push(s.issue_id_comment_start@, m.pieces, Piece::Text(input@), ids);
        assert(mt.pieces[m.pieces.len() as int] == Piece::Text(input@));
    }
    let format = &s.comment_fmts[npresult.current_comment_format.unwrap()];
    let is_end = line_ends_format(input.as_str(), format);
    if is_end || !starts_with(trimmed.as_str(), format.body_line_start.as_str()) {
        NextState::ChangeState(ParseHandler::MainParse, npresult)
    } else {
        NextState::Continue(npresult)
    }
}

/// Reads a line of a new issue's body: a body line adds its text to the
/// body; the comment's last line, or any line that is not a body line,
/// finishes the issue and goes back to looking for issues.
fn parse_body(s: &SourceSearcher, partial_result: PartialParseResult, line_info: ParseLineInfo) -> (r: NextState<PartialParseResult, ParseHandler>)
    requires
        s.wf(),
        corresponds(*s, partial_result),
        model_ok(*s, ParseHandler::ParseBody, partial_result.model@),
    ensures
        handled(*s, ParseHandler::ParseBody, partial_result, line_info, r),
{
    let ghost m = partial_result.model@;
    let ghost ids = all_ids(partial_result);
    let input = line_info.content;
    let trimmed = trim(input.as_str());
    let mut with_line = add_line(partial_result, input.as_str());
    let ghost mt = with_text(m, input@);
    proof {
        lemma_render_push(s.issue_id_comment_start@, m.pieces, Piece::Text(input@), ids);
        assert(mt.pieces[m.pieces.len() as int] == Piece::Text(input@));
    }
    let format = &s.comment_fmts[with_line.current_comment_format.unwrap()];
    let is_end = line_ends_format(trimmed.as_str(), format);
    if is_end || !starts_with(trimmed.as_str(), format.body_line_start.as_str()) {
        let mut issue = with_line.issue_in_progress.take().unwrap();
        let nbody = with_line.body_in_progress.take().unwrap_or(String::new());
        issue.base.body_text = nbody;
        let ghost c = m.current.unwrap();
        let ghost v = with_line.new_issues@;
        with_line.new_issues.push(issue);
        let ghost mf = ParseModel { found: m.found.push(c), current: None, ..mt };
        with_line.model = Ghost(mf);
        proof {
            lemma_ids_push(v, issue);
            assert(all_ids(with_line) == ids);
            assert forall|k: int| 0 <= k < mf.found.len() implies issue_found(*s, (#[trigger] with_line.new_issues@[k])@, mf.found[k]) by {
                if k < v.len() {
                    assert(with_line.new_issues@[k] == v[k]);
                }
            }
            assert forall|i: int| 0 <= i < mf.pieces.len() implies piece_below(#[trigger] mf.pieces[i], issue_count(mf)) by {
                if i < m.pieces.len() {
                    assert(mf.pieces[i] == m.pieces[i]);
                }
            }
            assert(corresponds(*s, with_line));
        }
        NextState::ChangeState(ParseHandler::MainParse, with_line)
    } else {
        let mut new_body = with_line.body_in_progress.take().unwrap_or(String::new());
        let ghost c = m.current.unwrap();
        assert(new_body@ == c.body);
        let rest = skip_chars(trimmed.as_str(), format.body_line_start.unicode_len());
        let stripped_body_line = trim(rest.as_str());
        new_body.append(stripped_body_line.as_str());
        push_char(&mut new_body, '\n');
        assert(new_body@ =~= c.body + stripped_body_line@ + seq!['\n']);
        let ghost mf = ParseModel {
            current: Some(FoundIssue { body: c.body + stripped_body_line@ + seq!['\n'], ..c }),
            ..mt
        };
        with_line.body_in_progress = Some(new_body);
        with_line.model = Ghost(mf);
        proof {
            assert(body_is(with_line.body_in_progress, mf.current.unwrap().body));
            assert(forall|i: int| 0 <= i < mf.pieces.len() ==> mf.pieces[i] == mt.pieces[i]);
            assert(corresponds(*s, with_line));
        }
        NextState::Continue(with_line)
    }
}

/// The result once the file has ended: the issue being read is finished.
fn to_final_result(s: &SourceSearcher, p: PartialParseResult) -> (r: ParseResult)
    requires
        corresponds(*s, p),
    ensures
        r.new_issues@.len() == final_issues(p.model@).len(),
        forall|k: int| 0 <= k < final_issues(p.model@).len() ==> issue_found(*s, (#[trigger] r.new_issues@[k])@, final_issues(p.model@)[k]),
        r.new_file_contents@ == render(s.issue_id_comment_start@, p.model@.pieces, issue_ids(r.new_issues@)),
{
    let ghost m = p.model@;
    let ghost ids = all_ids(p);
    let PartialParseResult { mut new_issues, issue_in_progress, body_in_progress, new_contents, .. } = p;
    let ghost v = new_issues@;
    match issue_in_progress {
        Some(mut issue) => {
            match body_in_progress {
                Some(b) => {
                    issue.base.body_text = b;
                },
                None => {},
            }
            new_issues.push(issue);
            proof {
                lemma_ids_push(v, issue);
                assert forall|k: int| 0 <= k < final_issues(m).len() implies issue_found(*s, (#[trigger] new_issues@[k])@, final_issues(m)[k]) by {
                    if k < v.len() {
                        assert(new_issues@[k] == v[k]);
                    }
                }
            }
        },
        None => {},
    }
    ParseResult { new_issues, new_file_contents: new_contents }
}

/// Finds the issues in the lines of one file: see `parsed`. The lines are
/// given as read, each with its line break if it had one.
impl SourceSearcher {
    pub fn parse_file_lines(&self, lines: Vec<String>, filename: String) -> (r: ParseResult)
        requires
            self.wf(),
        ensures
            parsed(*self, views(lines@), filename@, r),
            forall|k: int| 0 <= k < r.new_issues@.len() ==> one_line(#[trigger] r.new_issues@[k].base.id@),
    {
        let mut partial = PartialParseResult {
            new_issues: Vec::new(),
            issue_in_progress: None,
            body_in_progress: None,
            current_comment_format: None,
            new_contents: String::new(),
            model: Ghost(initial_model()),
        };
        let mut handler = ParseHandler::MainParse;
        let mut i: usize = 0;
        proof {
            assert(all_ids(partial) =~= Seq::<Seq<char>>::empty());
            assert(views(lines@).take(0) =~= Seq::<Seq<char>>::empty());
        }
        while i < lines.len()
            invariant
                self.wf(),
                i <= lines@.len(),
                (handler, partial.model@) == run(*self, views(lines@).take(i as int), filename@),
                corresponds(*self, partial),
                model_ok(*self, handler, partial.model@),
            decreases lines@.len() - i,
        {
            let info = ParseLineInfo { content: lines[i].clone(), filename: filename.clone(), line_number: i + 1 };
            proof {
                assert(views(lines@).take(i + 1).drop_last() =~= views(lines@).take(i as int));
                assert(views(lines@).take(i + 1).last() == lines@[i as int]@);
            }
            let next = match handler {
                ParseHandler::MainParse => main_parse_handler(self, partial, info),
                ParseHandler::ReadToIssueEnd => read_to_issue_end(self, partial, info),
                ParseHandler::ReadToIssueEndFormatted => read_to_issue_end_formatted(self, partial, info),
                ParseHandler::ParseBody => parse_body(self, partial, info),
            };
            match next {
                NextState::ChangeState(h, q) => {
                    handler = h;
                    partial = q;
                },
                NextState::Continue(q) => {
                    partial = q;
                },
                NextState::End(q) => {
                    partial = q;
                },
            }
            i = i + 1;
        }
        assert(views(lines@).take(lines@.len() as int) =~= views(lines@));
        let r = to_final_result(self, partial);
        proof {
            let fin = final_issues(run(*self, views(lines@), filename@).1);
            assert forall|k: int| 0 <= k < r.new_issues@.len() implies one_line(#[trigger] r.new_issues@[k].base.id@) by {
                assert(issue_found(*self, r.new_issues@[k]@, fin[k]));
                let t = choose|t: Timespec| 0 <= t.nsec < 1_000_000_000 && #[trigger] id_text(t) == r.new_issues@[k].base.id@;
                lemma_id_text_one_line(t);
            }
        }
        r
    }
}

/// The opener of an id line: `// EVICT-BT-ID: `.
pub open spec fn id_comment_start() -> Seq<char> {
    seq!['/', '/', ' ', 'E', 'V', 'I', 'C', 'T', '-', 'B', 'T', '-', 'I', 'D', ':', ' ']
}

impl SourceSearcher {
    /// The searcher for `//` comments and `/* ... */` comments (body lines
    /// start with `*`), with tags in `[...]` split by `,`. Its issues get
    /// the author `auth`, the status `status` and the branch `branch`
    /// (`None`: not known).
    pub fn new_default_searcher(auth: String, status: IssueStatus, branch: Option<String>) -> (r: SourceSearcher)
        ensures
            r.wf(),
            r.comment_fmts@.len() == 2,
            r.comment_fmts@[0].issue_start@ == seq!['/', '/'],
            r.comment_fmts@[0].body_line_start@ == seq!['/', '/'],
            r.comment_fmts@[0].body_end_line_start is None,
            r.comment_fmts@[1].issue_start@ == seq!['/', '*'],
            r.comment_fmts@[1].body_line_start@ == seq!['*'],
            r.comment_fmts@[1].body_end_line_start matches Some(e) && e@ == seq!['*', '/'],
            r.issue_id_comment_start@ == id_comment_start(),
            r.tag_start_delim == '[',
            r.tag_end_delim == ']',
            r.tag_split_delim == ',',
            r.issue_author_name == auth,
            r.issue_status == status,
            r.issue_branch == branch,
    {
        proof {
            reveal_strlit("//");
            reveal_strlit("/*");
            reveal_strlit("*");
            reveal_strlit("*/");
            reveal_strlit("// EVICT-BT-ID: ");
        }
        let double_slash_format = CommentFormat {
            issue_start: "//".to_owned(),
            body_line_start: "//".to_owned(),
            body_end_line_start: None,
        };
        let mline_comment_format = CommentFormat {
            issue_start: "/*".to_owned(),
            body_line_start: "*".to_owned(),
            body_end_line_start: Some("*/".to_owned()),
        };
        let r = SourceSearcher {
            comment_fmts: vec![double_slash_format, mline_comment_format],
            issue_id_comment_start: "// EVICT-BT-ID: ".to_owned(),
            tag_start_delim: '[',
            tag_end_delim: ']',
            tag_split_delim: ',',
            issue_author_name: auth,
            issue_status: status,
            issue_branch: branch,
        };
        assert(r.comment_fmts@[0].issue_start@ =~= seq!['/', '/']);
        assert(r.comment_fmts@[0].body_line_start@ =~= seq!['/', '/']);
        assert(r.comment_fmts@[1].issue_start@ =~= seq!['/', '*']);
        assert(r.comment_fmts@[1].body_line_start@ =~= seq!['*']);
        assert(r.issue_id_comment_start@ =~= id_comment_start());
        r
    }
}

} // verus!
