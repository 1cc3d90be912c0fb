//! Issues, their comments and tags, and the timeline of an issue.
use vstd::prelude::*;
use crate::clock::{self, Tm, Timespec, ts_lt};
use crate::text::{signed_decimal, decimal, signed_decimal_string, decimal_string};
use crate::evict::serdetime::SerdeTime;
use crate::evict::status_storage::{default_status_name, default_status_string};

verus! {

pub struct IssueComment {
    pub creation_time: SerdeTime,
    pub author: String,
    pub body_text: String,
    pub branch: String,
    pub id: String,
}

pub struct IssueTag {
    pub time: SerdeTime,
    pub tag_name: String,
    pub enabled: bool,
    pub author: String,
    pub change_id: String,
}

/// One event on an issue's timeline.
pub enum IssueTimelineEvent {
    TimelineComment(IssueComment),
    TimelineTag(IssueTag),
}

pub struct IssueStatus {
    pub name: String,
    pub last_change_time: SerdeTime,
}

pub struct IssueBase {
    pub title: String,
    pub creation_time: SerdeTime,
    pub author: String,
    pub id: String,
    pub branch: String,
    pub body_text: String,
}

pub struct Issue {
    pub events: Vec<IssueTimelineEvent>,
    pub status: IssueStatus,
    pub base: IssueBase,
}

impl Clone for IssueComment {
    fn clone(&self) -> (r: Self)
        ensures
            r == *self,
    {
        IssueComment {
            creation_time: self.creation_time,
            author: self.author.clone(),
            body_text: self.body_text.clone(),
            branch: self.branch.clone(),
            id: self.id.clone(),
        }
    }
}

impl Clone for IssueTag {
    fn clone(&self) -> (r: Self)
        ensures
            r == *self,
    {
        IssueTag {
            time: self.time,
            tag_name: self.tag_name.clone(),
            enabled: self.enabled,
            author: self.author.clone(),
            change_id: self.change_id.clone(),
        }
    }
}

impl Clone for IssueTimelineEvent {
    fn clone(&self) -> (r: Self)
        ensures
            r == *self,
    {
        match self {
            IssueTimelineEvent::TimelineComment(c) => IssueTimelineEvent::TimelineComment(c.clone()),
            IssueTimelineEvent::TimelineTag(t) => IssueTimelineEvent::TimelineTag(t.clone()),
        }
    }
}

impl Clone for IssueStatus {
    fn clone(&self) -> (r: Self)
        ensures
            r == *self,
    {
        IssueStatus { name: self.name.clone(), last_change_time: self.last_change_time }
    }
}

impl Clone for IssueBase {
    fn clone(&self) -> (r: Self)
        ensures
            r == *self,
    {
        IssueBase {
            title: self.title.clone(),
            creation_time: self.creation_time,
            author: self.author.clone(),
            id: self.id.clone(),
            branch: self.branch.clone(),
            body_text: self.body_text.clone(),
        }
    }
}

/// An issue as a value: its timeline as a sequence.
pub struct IssueView {
    pub events: Seq<IssueTimelineEvent>,
    pub status: IssueStatus,
    pub base: IssueBase,
}

impl View for Issue {
    type V = IssueView;

    open spec fn view(&self) -> IssueView {
        IssueView { events: self.events@, status: self.status, base: self.base }
    }
}

impl Clone for Issue {
    fn clone(&self) -> (r: Self)
        ensures
            r@ == self@,
    {
        let events = self.events.clone();
        assert(events@ =~= self.events@);
        Issue { events, status: self.status.clone(), base: self.base.clone() }
    }
}

/// Two issues are the same issue when their ids are equal.
impl PartialEq for Issue {
    fn eq(&self, other: &Issue) -> (r: bool) {
        self.base.id == other.base.id
    }
}

impl vstd::std_specs::cmp::PartialEqSpecImpl for Issue {
    open spec fn obeys_eq_spec() -> bool {
        true
    }

    open spec fn eq_spec(&self, other: &Issue) -> bool {
        self.base.id@ == other.base.id@
    }
}

/// The text of an issue id made from a timestamp: seconds, then nanoseconds.
pub open spec fn id_text(t: Timespec) -> Seq<char> {
    signed_decimal(t.sec as int) + decimal(t.nsec as nat)
}

/// An id made from a timestamp is one line: digits, after a `-` for a
/// time before the epoch.
pub proof fn lemma_id_text_one_line(t: Timespec)
    ensures
        crate::text::one_line(id_text(t)),
{
    let a = signed_decimal(t.sec as int);
    let b = decimal(t.nsec as nat);
    let s = id_text(t);
    crate::text::lemma_decimal_digits(t.nsec as nat);
    if t.sec < 0 {
        crate::text::lemma_decimal_digits((-t.sec) as nat);
    } else {
        crate::text::lemma_decimal_digits(t.sec as nat);
    }
    assert forall|i: int| 0 <= i < s.len() implies s[i] != '\n' by {
        if i < a.len() {
            assert(s[i] == a[i]);
            if t.sec < 0 && i > 0 {
                assert(a[i] == decimal((-t.sec) as nat)[i - 1]);
            }
        } else {
            assert(s[i] == b[i - a.len()]);
        }
    }
    assert(b.len() > 0);
    assert(s.last() == b.last());
    assert(crate::text::is_digit(b[b.len() - 1]));
}

/// The text that stands for a branch that could not be determined.
pub open spec fn unknown_branch() -> Seq<char> {
    seq!['<', 'u', 'n', 'k', 'n', 'o', 'w', 'n', '>']
}

/// A fresh id: the current timestamp's seconds followed by its nanoseconds.
pub fn generate_id() -> (r: String)
    ensures
        exists|t: Timespec| 0 <= t.nsec < 1_000_000_000 && r@ == #[trigger] id_text(t),
{
    let ctime = clock::get_time();
    let mut r = signed_decimal_string(ctime.sec);
    let n = decimal_string(ctime.nsec as u64);
    r.append(n.as_str());
    assert(r@ == id_text(ctime));
    r
}

impl IssueStatus {
    /// A status of the given name, changed now.
    pub fn new(name: String) -> (r: IssueStatus)
        ensures
            r.name@ == name@,
            r.last_change_time.0.formattable(),
    {
        IssueStatus { name, last_change_time: SerdeTime(clock::now()) }
    }

    /// The status of an issue whose status is not known, changed now.
    pub fn default() -> (r: IssueStatus)
        ensures
            r.name@ == default_status_name(),
            r.last_change_time.0.formattable(),
    {
        IssueStatus { name: default_status_string(), last_change_time: SerdeTime(clock::now()) }
    }
}

impl IssueTag {
    /// A tag change made now, with a fresh id.
    pub fn new(name: String, author: String, enabled: bool) -> (r: IssueTag)
        ensures
            r.tag_name@ == name@,
            r.author@ == author@,
            r.enabled == enabled,
            r.time.0.formattable(),
            0 <= r.time.0.tm_nsec < 1_000_000_000,
    {
        IssueTag {
            time: SerdeTime(clock::now()),
            author,
            enabled,
            tag_name: name,
            change_id: generate_id(),
        }
    }
}

impl IssueComment {
    /// A comment made now on the given branch (`None`: the branch could not
    /// be determined), with a fresh id.
    pub fn new(author: String, body: String, branch: Option<String>) -> (r: IssueComment)
        ensures
            r.author@ == author@,
            r.body_text@ == body@,
            r.branch@ == (match branch {
                Some(b) => b@,
                None => unknown_branch(),
            }),
            r.creation_time.0.formattable(),
            0 <= r.creation_time.0.tm_nsec < 1_000_000_000,
    {
        let branch = match branch {
            Some(b) => b,
            None => unknown_branch_string(),
        };
        IssueComment {
            author,
            body_text: body,
            creation_time: SerdeTime(clock::now()),
            branch,
            id: generate_id(),
        }
    }
}

/// The text that stands for an unknown branch, as a string.
pub fn unknown_branch_string() -> (r: String)
    ensures
        r@ == unknown_branch(),
{
    proof {
        reveal_strlit("<unknown>");
    }
    let r = "<unknown>".to_owned();
    assert(r@ =~= unknown_branch());
    r
}


/// Whether event `e` is a tag change of the tag `name`.
pub open spec fn is_tag_named(e: IssueTimelineEvent, name: Seq<char>) -> bool {
    e matches IssueTimelineEvent::TimelineTag(t) && t.tag_name@ == name
}

/// The most recent change of the tag `name` among `events`, by the time
/// stamps `keys` (one per event): the first of the changes whose stamp no
/// other change of that tag exceeds. `None` when the tag never changed.
pub open spec fn most_recent_index(
    events: Seq<IssueTimelineEvent>,
    keys: Seq<Timespec>,
    name: Seq<char>,
) -> Option<int>
    decreases events.len(),
{
    if events.len() == 0 {
        None
    } else {
        let k = events.len() - 1;
        let r = most_recent_index(events.drop_last(), keys, name);
        if is_tag_named(events[k], name) {
            match r {
                None => Some(k),
                Some(j) => if ts_lt(keys[j], keys[k]) {
                    Some(k)
                } else {
                    Some(j)
                },
            }
        } else {
            r
        }
    }
}

pub proof fn lemma_most_recent_index(events: Seq<IssueTimelineEvent>, keys: Seq<Timespec>, name: Seq<char>)
    ensures
        most_recent_index(events, keys, name) matches Some(j) ==> 0 <= j < events.len() && is_tag_named(events[j], name),
        most_recent_index(events, keys, name) is None <==> !(exists|i: int| 0 <= i < events.len() && #[trigger] is_tag_named(events[i], name)),
    decreases events.len(),
{
    if events.len() > 0 {
        lemma_most_recent_index(events.drop_last(), keys, name);
        let k = events.len() - 1;
        if !is_tag_named(events[k], name) {
            assert forall|i: int| 0 <= i < events.len() && #[trigger] is_tag_named(events[i], name) implies 0 <= i < k && is_tag_named(events.drop_last()[i], name) by {
            }
        }
        if most_recent_index(events.drop_last(), keys, name) is Some {
            let j = choose|i: int| 0 <= i < events.drop_last().len() && #[trigger] is_tag_named(events.drop_last()[i], name);
        }
    }
}

/// The state of `all_tags` after scanning `events` from the last to the
/// first: the tags found enabled, and the tags found disabled.
pub open spec fn tag_scan(events: Seq<IssueTimelineEvent>) -> (Seq<Seq<char>>, Seq<Seq<char>>)
    decreases events.len(),
{
    if events.len() == 0 {
        (Seq::empty(), Seq::empty())
    } else {
        let (tags, untagged) = tag_scan(events.drop_first());
        match events[0] {
            IssueTimelineEvent::TimelineTag(t) => if untagged.contains(t.tag_name@) {
                (tags, untagged)
            } else if t.enabled {
                (tags.push(t.tag_name@), untagged)
            } else {
                (tags, untagged.push(t.tag_name@))
            },
            _ => (tags, untagged),
        }
    }
}

/// The index of the last change of the tag `name` among `events`.
pub open spec fn last_change(events: Seq<IssueTimelineEvent>, name: Seq<char>) -> Option<int>
    decreases events.len(),
{
    if events.len() == 0 {
        None
    } else if is_tag_named(events.last(), name) {
        Some(events.len() - 1)
    } else {
        last_change(events.drop_last(), name)
    }
}

impl Issue {
    pub fn title(&self) -> (r: &str)
        ensures
            r@ == self.base.title@,
    {
        self.base.title.as_str()
    }

    pub fn creation_time(&self) -> (r: Tm)
        ensures
            r == self.base.creation_time.0,
    {
        self.base.creation_time.0
    }

    pub fn author(&self) -> (r: &str)
        ensures
            r@ == self.base.author@,
    {
        self.base.author.as_str()
    }

    pub fn id(&self) -> (r: &str)
        ensures
            r@ == self.base.id@,
    {
        self.base.id.as_str()
    }

    pub fn branch(&self) -> (r: &str)
        ensures
            r@ == self.base.branch@,
    {
        self.base.branch.as_str()
    }

    pub fn body_text(&self) -> (r: &str)
        ensures
            r@ == self.base.body_text@,
    {
        self.base.body_text.as_str()
    }

    pub fn add_comment(&mut self, comment: IssueComment)
        ensures
            final(self).events@ == old(self).events@.push(IssueTimelineEvent::TimelineComment(comment)),
            final(self).status == old(self).status,
            final(self).base == old(self).base,
    {
        self.events.push(IssueTimelineEvent::TimelineComment(comment))
    }

    pub fn add_tag(&mut self, tag: IssueTag)
        ensures
            final(self).events@ == old(self).events@.push(IssueTimelineEvent::TimelineTag(tag)),
            final(self).status == old(self).status,
            final(self).base == old(self).base,
    {
        self.events.push(IssueTimelineEvent::TimelineTag(tag))
    }

    /// A new issue on the given branch (`None`: the branch could not be
    /// determined), created now, with a fresh id and the unknown status.
    pub fn new(title: String, body: String, author: String, branch: Option<String>) -> (r: Issue)
        ensures
            r.base.title@ == title@,
            r.base.body_text@ == body@,
            r.base.author@ == author@,
            r.base.branch@ == (match branch {
                Some(b) => b@,
                None => unknown_branch(),
            }),
            exists|t: Timespec| 0 <= t.nsec < 1_000_000_000 && r.base.id@ == #[trigger] id_text(t),
            r.base.creation_time.0.formattable(),
            0 <= r.base.creation_time.0.tm_nsec < 1_000_000_000,
            r.events@.len() == 0,
            r.status.name@ == default_status_name(),
    {
        let branch = match branch {
            Some(b) => b,
            None => unknown_branch_string(),
        };
        Issue {
            base: IssueBase {
                title,
                author,
                id: generate_id(),
                creation_time: SerdeTime(clock::now()),
                branch,
                body_text: body,
            },
            events: Vec::new(),
            status: IssueStatus::default(),
        }
    }

    /// The index of the most recent change of the tag `name`, by the given
    /// time stamps of the events (`keys[i]` stands for `events[i]`).
    pub fn most_recent_tag_index(events: &Vec<IssueTimelineEvent>, keys: &Vec<Timespec>, name: &str) -> (r: Option<usize>)
        requires
            keys@.len() == events@.len(),
        ensures
            r matches Some(i) ==> most_recent_index(events@, keys@, name@) == Some(i as int),
            r is None ==> most_recent_index(events@, keys@, name@) is None,
    {
        let mut recent: Option<usize> = None;
        let mut i: usize = 0;
        while i < events.len()
            invariant
                i <= events@.len(),
                keys@.len() == events@.len(),
                recent matches Some(j) ==> most_recent_index(events@.take(i as int), keys@, name@) == Some(j as int),
                recent is None ==> most_recent_index(events@.take(i as int), keys@, name@) is None,
                recent matches Some(j) ==> j < i,
            decreases events@.len() - i,
        {
            assert(events@.take(i + 1).drop_last() =~= events@.take(i as int));
            assert(events@.take(i + 1)[i as int] == events@[i as int]);
            match &events[i] {
                IssueTimelineEvent::TimelineTag(tag) => {
                    if crate::text::str_eq(tag.tag_name.as_str(), name) {
                        match recent {
                            None => {
                                recent = Some(i);
                            },
                            Some(j) => {
                                if clock::timespec_lt(keys[j], keys[i]) {
                                    recent = Some(i);
                                }
                            },
                        }
                    }
                },
                _ => {},
            }
            i = i + 1;
        }
        assert(events@.take(events@.len() as int) =~= events@);
        recent
    }

    /// The most recent change of the tag `name` on this issue, by the time
    /// crate's stamps of the changes (`ks`, see `stamp_of` and
    /// `most_recent_index`); `None` when the tag never changed.
    pub fn most_recent_tag_for_name<'x>(&'x self, name: &str) -> (r: Option<&'x IssueTag>)
        requires
            forall|i: int| 0 <= i < self.events@.len() && is_tag_named(#[trigger] self.events@[i], name@)
                ==> 0 <= self.events@[i]->TimelineTag_0.time.0.tm_nsec < 1_000_000_000,
        ensures
            r is None <==> !(exists|i: int| 0 <= i < self.events@.len() && #[trigger] is_tag_named(self.events@[i], name@)),
            r matches Some(t) ==> exists|i: int| 0 <= i < self.events@.len()
                && #[trigger] self.events@[i] == IssueTimelineEvent::TimelineTag(*t)
                && t.tag_name@ == name@,
            exists|ks: Seq<Timespec>| #[trigger] ks.len() == self.events@.len()
                && (forall|i: int| 0 <= i < ks.len() && #[trigger] is_tag_named(self.events@[i], name@)
                    ==> clock::stamp_of(self.events@[i]->TimelineTag_0.time.0, ks[i]))
                && match most_recent_index(self.events@, ks, name@) {
                    Some(j) => r matches Some(t) && self.events@[j] == IssueTimelineEvent::TimelineTag(*t),
                    None => r is None,
                },
    {
        let mut keys: Vec<Timespec> = Vec::new();
        let mut i: usize = 0;
        while i < self.events.len()
            invariant
                i <= self.events@.len(),
                keys@.len() == i,
                forall|k: int| 0 <= k < self.events@.len() && is_tag_named(#[trigger] self.events@[k], name@)
                    ==> 0 <= self.events@[k]->TimelineTag_0.time.0.tm_nsec < 1_000_000_000,
                forall|k: int| 0 <= k < i && #[trigger] is_tag_named(self.events@[k], name@)
                    ==> clock::stamp_of(self.events@[k]->TimelineTag_0.time.0, keys@[k]),
            decreases self.events@.len() - i,
        {
            let key = match &self.events[i] {
                IssueTimelineEvent::TimelineTag(tag) => {
                    if crate::text::str_eq(tag.tag_name.as_str(), name) {
                        clock::to_timespec(&tag.time.0)
                    } else {
                        Timespec { sec: 0, nsec: 0 }
                    }
                },
                _ => Timespec { sec: 0, nsec: 0 },
            };
            keys.push(key);
            i = i + 1;
        }
        let idx = Self::most_recent_tag_index(&self.events, &keys, name);
        proof {
            lemma_most_recent_index(self.events@, keys@, name@);
        }
        match idx {
            None => None,
            Some(j) => match &self.events[j] {
                IssueTimelineEvent::TimelineTag(tag) => Some(tag),
                _ => None,
            },
        }
    }

    /// The tags currently enabled on this issue: scanning the timeline from
    /// its end, a tag counts as enabled when its latest change enabled it.
    /// The timeline is taken to be in time order.
    pub fn all_tags(&self) -> (r: Vec<String>)
        ensures
            crate::text::views(r@) == tag_scan(self.events@).0,
    {
        let mut untagged: Vec<String> = Vec::new();
        let mut tag_list: Vec<String> = Vec::new();
        let n = self.events.len();
        let mut i: usize = n;
        assert(self.events@.skip(n as int) =~= Seq::<IssueTimelineEvent>::empty());
        while i > 0
            invariant
                i <= n,
                n == self.events@.len(),
                (crate::text::views(tag_list@), crate::text::views(untagged@)) == tag_scan(self.events@.skip(i as int)),
            decreases i,
        {
            i = i - 1;
            assert(self.events@.skip(i as int).drop_first() =~= self.events@.skip(i + 1));
            assert(self.events@.skip(i as int)[0] == self.events@[i as int]);
            match &self.events[i] {
                IssueTimelineEvent::TimelineTag(tag) => {
                    let is_untag = contains_string(&untagged, &tag.tag_name);
                    if !is_untag && tag.enabled {
                        let ghost prev = crate::text::views(tag_list@);
                        tag_list.push(tag.tag_name.clone());
                        assert(crate::text::views(tag_list@) =~= prev.push(tag.tag_name@));
                    } else if !is_untag && !tag.enabled {
                        let ghost prev = crate::text::views(untagged@);
                        untagged.push(tag.tag_name.clone());
                        assert(crate::text::views(untagged@) =~= prev.push(tag.tag_name@));
                    }
                },
                _ => {},
            }
        }
        assert(self.events@.skip(0) =~= self.events@);
        tag_list
    }
}

/// Whether `v` holds a string equal to `s`.
pub fn contains_string(v: &Vec<String>, s: &String) -> (r: bool)
    ensures
        r == crate::text::views(v@).contains(s@),
{
    let mut i: usize = 0;
    while i < v.len()
        invariant
            i <= v@.len(),
            forall|k: int| 0 <= k < i ==> v@[k]@ != s@,
        decreases v@.len() - i,
    {
        if v[i] == *s {
            assert(crate::text::views(v@)[i as int] == s@);
            return true;
        }
        i = i + 1;
    }
    assert(!crate::text::views(v@).contains(s@)) by {
        if crate::text::views(v@).contains(s@) {
            let k = choose|k: int| 0 <= k < v@.len() && crate::text::views(v@)[k] == s@;
            assert(v@[k]@ == s@);
        }
    }
    false
}

impl IssueTimelineEvent {
    pub open spec fn time_spec(self) -> Tm {
        match self {
            IssueTimelineEvent::TimelineComment(c) => c.creation_time.0,
            IssueTimelineEvent::TimelineTag(t) => t.time.0,
        }
    }

    pub open spec fn id_spec(self) -> Seq<char> {
        match self {
            IssueTimelineEvent::TimelineComment(c) => c.id@,
            IssueTimelineEvent::TimelineTag(t) => t.change_id@,
        }
    }

    /// `"comment"` or `"tag"`.
    pub fn event_type(&self) -> (r: String)
        ensures
            r@ == (match self {
                IssueTimelineEvent::TimelineComment(_) => seq!['c', 'o', 'm', 'm', 'e', 'n', 't'],
                IssueTimelineEvent::TimelineTag(_) => seq!['t', 'a', 'g'],
            }),
    {
        proof {
            reveal_strlit("comment");
            reveal_strlit("tag");
        }
        let r = match self {
            IssueTimelineEvent::TimelineComment(_) => "comment",
            IssueTimelineEvent::TimelineTag(_) => "tag",
        }.to_owned();
        assert(r@ =~= (match self {
            IssueTimelineEvent::TimelineComment(_) => seq!['c', 'o', 'm', 'm', 'e', 'n', 't'],
            IssueTimelineEvent::TimelineTag(_) => seq!['t', 'a', 'g'],
        }));
        r
    }

    pub fn time<'x>(&'x self) -> (r: &'x Tm)
        ensures
            *r == self.time_spec(),
    {
        match self {
            IssueTimelineEvent::TimelineComment(comment) => &comment.creation_time.0,
            IssueTimelineEvent::TimelineTag(tag) => &tag.time.0,
        }
    }

    pub fn id<'x>(&'x self) -> (r: &'x str)
        ensures
            r@ == self.id_spec(),
    {
        match self {
            IssueTimelineEvent::TimelineComment(comment) => comment.id.as_str(),
            IssueTimelineEvent::TimelineTag(tag) => tag.change_id.as_str(),
        }
    }
}


/// Whether the event at `i` is a change that enables its tag.
pub open spec fn enables(events: Seq<IssueTimelineEvent>, i: int) -> bool {
    events[i] matches IssueTimelineEvent::TimelineTag(t) && t.enabled
}

proof fn lemma_last_change_drop_first(s: Seq<IssueTimelineEvent>, name: Seq<char>)
    requires
        s.len() > 0,
    ensures
        last_change(s, name) == (match last_change(s.drop_first(), name) {
            Some(j) => Some(j + 1),
            None => if is_tag_named(s[0], name) {
                Some(0int)
            } else {
                None
            },
        }),
        last_change(s, name) matches Some(i) ==> 0 <= i < s.len() && is_tag_named(s[i], name),
    decreases s.len(),
{
    if s.len() == 1 {
        assert(s.drop_first().len() == 0);
        assert(s.last() == s[0]);
    } else {
        lemma_last_change_drop_first(s.drop_last(), name);
        assert(s.drop_last().drop_first() =~= s.drop_first().drop_last());
        assert(s.drop_first().last() == s.last());
        assert(s.drop_last()[0] == s[0]);
    }
}

proof fn lemma_tag_scan(s: Seq<IssueTimelineEvent>, name: Seq<char>)
    ensures
        tag_scan(s).0.contains(name) <==> (last_change(s, name) matches Some(i) && enables(s, i)),
        (last_change(s, name) matches Some(i) && !enables(s, i)) ==> tag_scan(s).1.contains(name),
        tag_scan(s).1.contains(name) ==> last_change(s, name) is Some,
    decreases s.len(),
{
    if s.len() > 0 {
        let t = s.drop_first();
        lemma_tag_scan(t, name);
        lemma_last_change_drop_first(s, name);
        lemma_last_change_drop_first_shift(s, name);
        let (tags, untagged) = tag_scan(t);
        match s[0] {
            IssueTimelineEvent::TimelineTag(tg) => {
                if tg.tag_name@ != name {
                    lemma_push_other_contains(tags, tg.tag_name@, name);
                    lemma_push_other_contains(untagged, tg.tag_name@, name);
                } else {
                    assert(tags.push(name)[tags.len() as int] == name);
                    assert(untagged.push(name)[untagged.len() as int] == name);
                    assert(tags.contains(name) ==> tags.push(name).contains(name)) by {
                        if tags.contains(name) {
                            let k = choose|k: int| 0 <= k < tags.len() && tags[k] == name;
                            assert(tags.push(name)[k] == name);
                        }
                    }
                }
            },
            _ => {},
        }
    }
}

proof fn lemma_last_change_drop_first_shift(s: Seq<IssueTimelineEvent>, name: Seq<char>)
    requires
        s.len() > 0,
    ensures
        last_change(s.drop_first(), name) matches Some(j) ==> s.drop_first()[j] == s[j + 1]
            && (enables(s.drop_first(), j) == enables(s, j + 1)),
{
    lemma_last_change_bounds(s.drop_first(), name);
}

proof fn lemma_last_change_bounds(s: Seq<IssueTimelineEvent>, name: Seq<char>)
    ensures
        last_change(s, name) matches Some(i) ==> 0 <= i < s.len(),
    decreases s.len(),
{
    if s.len() > 0 {
        lemma_last_change_bounds(s.drop_last(), name);
    }
}

proof fn lemma_push_other_contains(v: Seq<Seq<char>>, x: Seq<char>, name: Seq<char>)
    requires
        x != name,
    ensures
        v.push(x).contains(name) == v.contains(name),
{
    if v.push(x).contains(name) {
        let k = choose|k: int| 0 <= k < v.len() + 1 && v.push(x)[k] == name;
        assert(v[k] == name);
    }
    if v.contains(name) {
        let k = choose|k: int| 0 <= k < v.len() && v[k] == name;
        assert(v.push(x)[k] == name);
    }
}

/// The tags `all_tags` reports are exactly those whose latest change, in
/// timeline order, enabled them.
pub proof fn law_all_tags_latest_change(issue: Issue, name: Seq<char>)
    ensures
        tag_scan(issue.events@).0.contains(name) <==> (last_change(issue.events@, name) matches Some(i)
            && enables(issue.events@, i)),
{
    lemma_tag_scan(issue.events@, name);
}

/// A tag change added at the end of a timeline decides the tag: `all_tags`
/// lists the tag afterwards exactly when the change enables it.
pub proof fn law_added_tag_change(events: Seq<IssueTimelineEvent>, t: IssueTag)
    ensures
        tag_scan(events.push(IssueTimelineEvent::TimelineTag(t))).0.contains(t.tag_name@) == t.enabled,
{
    let s = events.push(IssueTimelineEvent::TimelineTag(t));
    lemma_tag_scan(s, t.tag_name@);
    assert(is_tag_named(s.last(), t.tag_name@));
    assert(last_change(s, t.tag_name@) == Some(events.len() as int));
}

/// The changes of the tag `name` among `events` have their nanoseconds
/// below one second.
pub open spec fn tag_stamps_in_range(events: Seq<IssueTimelineEvent>, name: Seq<char>) -> bool {
    forall|i: int| 0 <= i < events.len() && is_tag_named(#[trigger] events[i], name)
        ==> 0 <= events[i]->TimelineTag_0.time.0.tm_nsec < 1_000_000_000
}

/// An event as a value: its texts as character sequences.
pub enum EventView {
    Comment { time: Tm, author: Seq<char>, body_text: Seq<char>, branch: Seq<char>, id: Seq<char> },
    Tag { time: Tm, tag_name: Seq<char>, enabled: bool, author: Seq<char>, change_id: Seq<char> },
}

impl View for IssueTimelineEvent {
    type V = EventView;

    open spec fn view(&self) -> EventView {
        match self {
            IssueTimelineEvent::TimelineComment(c) => EventView::Comment {
                time: c.creation_time.0,
                author: c.author@,
                body_text: c.body_text@,
                branch: c.branch@,
                id: c.id@,
            },
            IssueTimelineEvent::TimelineTag(t) => EventView::Tag {
                time: t.time.0,
                tag_name: t.tag_name@,
                enabled: t.enabled,
                author: t.author@,
                change_id: t.change_id@,
            },
        }
    }
}

/// Two times are equal in every field.
pub fn tm_eq(a: &Tm, b: &Tm) -> (r: bool)
    ensures
        r == (*a == *b),
{
    a.tm_sec == b.tm_sec && a.tm_min == b.tm_min && a.tm_hour == b.tm_hour && a.tm_mday == b.tm_mday
        && a.tm_mon == b.tm_mon && a.tm_year == b.tm_year && a.tm_wday == b.tm_wday && a.tm_yday
        == b.tm_yday && a.tm_isdst == b.tm_isdst && a.tm_utcoff == b.tm_utcoff && a.tm_nsec
        == b.tm_nsec
}

/// Events are equal when all their fields are.
impl PartialEq for IssueTimelineEvent {
    fn eq(&self, other: &IssueTimelineEvent) -> (r: bool) {
        match (self, other) {
            (IssueTimelineEvent::TimelineComment(a), IssueTimelineEvent::TimelineComment(b)) => {
                tm_eq(&a.creation_time.0, &b.creation_time.0) && a.author == b.author && a.body_text
                    == b.body_text && a.branch == b.branch && a.id == b.id
            },
            (IssueTimelineEvent::TimelineTag(a), IssueTimelineEvent::TimelineTag(b)) => {
                tm_eq(&a.time.0, &b.time.0) && a.tag_name == b.tag_name && a.enabled == b.enabled
                    && a.author == b.author && a.change_id == b.change_id
            },
            _ => false,
        }
    }
}

impl vstd::std_specs::cmp::PartialEqSpecImpl for IssueTimelineEvent {
    open spec fn obeys_eq_spec() -> bool {
        true
    }

    open spec fn eq_spec(&self, other: &IssueTimelineEvent) -> bool {
        self@ == other@
    }
}

} // verus!
