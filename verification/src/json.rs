//! JSON values as the issue file stores them, and finding keys in objects.
use vstd::prelude::*;
use crate::text::{opt_view, str_eq};

verus! {

/// A JSON value: the kinds that issues are stored with, and any other.
/// An object lists its keys once each, in any order.
pub enum Json {
    String(String),
    List(Vec<Json>),
    Object(Vec<(String, Json)>),
    /// A number, a boolean or null.
    Other,
}

/// A JSON value as a value.
pub enum JsonView {
    Str(Seq<char>),
    List(Seq<JsonView>),
    Object(Seq<(Seq<char>, JsonView)>),
    Other,
}

/// The value of a JSON value.
pub open spec fn json_view(j: Json) -> JsonView
    decreases j,
{
    match j {
        Json::String(s) => JsonView::Str(s@),
        Json::List(v) => JsonView::List(list_view(v@)),
        Json::Object(v) => JsonView::Object(entries_view(v@)),
        Json::Other => JsonView::Other,
    }
}

/// The values of a list of JSON values.
pub open spec fn list_view(s: Seq<Json>) -> Seq<JsonView>
    decreases s,
{
    if s.len() == 0 {
        Seq::empty()
    } else {
        seq![json_view(s[0])] + list_view(s.drop_first())
    }
}

/// The values of the entries of an object.
pub open spec fn entries_view(s: Seq<(String, Json)>) -> Seq<(Seq<char>, JsonView)>
    decreases s,
{
    if s.len() == 0 {
        Seq::empty()
    } else {
        seq![(s[0].0@, json_view(s[0].1))] + entries_view(s.drop_first())
    }
}

impl View for Json {
    type V = JsonView;

    open spec fn view(&self) -> JsonView {
        json_view(*self)
    }
}

pub proof fn lemma_list_view(s: Seq<Json>)
    ensures
        list_view(s).len() == s.len(),
        forall|i: int| 0 <= i < s.len() ==> #[trigger] list_view(s)[i] == json_view(s[i]),
    decreases s.len(),
{
    if s.len() > 0 {
        lemma_list_view(s.drop_first());
        assert forall|i: int| 0 <= i < s.len() implies #[trigger] list_view(s)[i] == json_view(s[i]) by {
            if i > 0 {
                assert(list_view(s)[i] == list_view(s.drop_first())[i - 1]);
            }
        }
    }
}

pub proof fn lemma_entries_view(s: Seq<(String, Json)>)
    ensures
        entries_view(s).len() == s.len(),
        forall|i: int| 0 <= i < s.len() ==> #[trigger] entries_view(s)[i] == (s[i].0@, json_view(s[i].1)),
    decreases s.len(),
{
    if s.len() > 0 {
        lemma_entries_view(s.drop_first());
        assert forall|i: int| 0 <= i < s.len() implies #[trigger] entries_view(s)[i] == (s[i].0@, json_view(s[i].1)) by {
            if i > 0 {
                assert(entries_view(s)[i] == entries_view(s.drop_first())[i - 1]);
            }
        }
    }
}

/// The value of the first entry with the key `key`.
pub open spec fn find_entry(m: Seq<(Seq<char>, JsonView)>, key: Seq<char>) -> Option<JsonView>
    decreases m.len(),
{
    if m.len() == 0 {
        None
    } else if m[0].0 == key {
        Some(m[0].1)
    } else {
        find_entry(m.drop_first(), key)
    }
}

/// The text stored under `key`, when it is a string.
pub open spec fn string_for_key(m: Seq<(Seq<char>, JsonView)>, key: Seq<char>) -> Option<Seq<char>> {
    match find_entry(m, key) {
        Some(JsonView::Str(s)) => Some(s),
        _ => None,
    }
}

/// The value stored under `key` in the object `map`.
pub fn find_key<'a>(map: &'a Vec<(String, Json)>, key: &str) -> (r: Option<&'a Json>)
    ensures
        match r {
            Some(j) => find_entry(entries_view(map@), key@) == Some(j@),
            None => find_entry(entries_view(map@), key@) is None,
        },
{
    let ghost e = entries_view(map@);
    proof {
        lemma_entries_view(map@);
    }
    let mut i: usize = 0;
    assert(e.skip(0) =~= e);
    while i < map.len()
        invariant
            e == entries_view(map@),
            e.len() == map@.len(),
            forall|k: int| 0 <= k < map@.len() ==> #[trigger] e[k] == (map@[k].0@, json_view(map@[k].1)),
            i <= map@.len(),
            find_entry(e, key@) == find_entry(e.skip(i as int), key@),
        decreases map@.len() - i,
    {
        assert(e.skip(i as int)[0] == e[i as int]);
        assert(e.skip(i as int).drop_first() =~= e.skip(i + 1));
        if str_eq(map[i].0.as_str(), key) {
            return Some(&map[i].1);
        }
        i = i + 1;
    }
    assert(e.skip(i as int).len() == 0);
    None
}

/// The text stored under `key` in the object `map`, when it is a string.
pub fn get_string_for_key(map: &Vec<(String, Json)>, key: &str) -> (r: Option<String>)
    ensures
        opt_view(r) == string_for_key(entries_view(map@), key@),
{
    match find_key(map, key) {
        Some(Json::String(s)) => Some(s.clone()),
        _ => None,
    }
}

} // verus!
