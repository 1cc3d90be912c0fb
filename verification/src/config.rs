//! The repository's settings, kept as JSON in `.evict/config`.
use vstd::prelude::*;
use crate::json::{Json, JsonView, find_key, find_entry, entries_view, lemma_entries_view};
use crate::text::opt_view;

verus! {

/// The file the settings are kept in.
pub const CONFIG_FILE: &'static str = ".evict/config";

/// The key of the author in the settings.
pub const AUTHOR_KEY: &'static str = "author";

/// The settings: the author name to use for new issues and comments.
pub struct Config {
    pub author: Option<String>,
}

/// The author that the stored settings `j` name: the text under `author`
/// of an object; none otherwise.
pub open spec fn config_author(j: JsonView) -> Option<Seq<char>> {
    match j {
        JsonView::Object(m) => match find_entry(m, "author"@) {
            Some(JsonView::Str(s)) => Some(s),
            _ => None,
        },
        _ => None,
    }
}

/// The settings as they are stored: an object with the author, if set.
pub open spec fn config_json(c: Config) -> JsonView {
    JsonView::Object(match c.author {
        Some(a) => seq![("author"@, JsonView::Str(a@))],
        None => Seq::empty(),
    })
}

/// The text of a JSON string.
pub fn extractString(json: &Json) -> (r: Option<String>)
    ensures
        opt_view(r) == (match json@ {
            JsonView::Str(s) => Some(s),
            _ => None,
        }),
{
    match json {
        Json::String(string) => Some(string.clone()),
        _ => None,
    }
}

impl Config {
    /// The settings as they are stored: an object with the author, if set.
    pub fn to_json(&self) -> (r: Json)
        ensures
            r@ == config_json(*self),
    {
        let mut map: Vec<(String, Json)> = Vec::new();
        match &self.author {
            Some(auth) => {
                map.push((AUTHOR_KEY.to_owned(), Json::String(auth.clone())));
            },
            None => {},
        }
        proof {
            lemma_entries_view(map@);
        }
        assert(entries_view(map@) =~= match self.author {
            Some(a) => seq![("author"@, JsonView::Str(a@))],
            None => Seq::<(Seq<char>, JsonView)>::empty(),
        });
        let r = Json::Object(map);
        assert(r@ == config_json(*self));
        r
    }

    /// The settings from the config file as it was read and parsed
    /// (`None`: there is no config file, or it is not JSON): the defaults
    /// when there is nothing to read.
    pub fn load(read: Option<Json>) -> (r: Config)
        ensures
            opt_view(r.author) == (match read {
                Some(j) => config_author(j@),
                None => None,
            }),
    {
        match read {
            Some(json) => Config::jsonToConfig(json),
            None => Config::default(),
        }
    }

    /// The default settings: no author.
    pub fn default() -> (r: Config)
        ensures
            r.author is None,
    {
        Config { author: None }
    }

    /// The settings stored in `json`.
    pub fn jsonToConfig(json: Json) -> (r: Config)
        ensures
            opt_view(r.author) == config_author(json@),
    {
        match json {
            Json::Object(map) => {
                let author = match find_key(&map, AUTHOR_KEY) {
                    Some(x) => extractString(x),
                    None => None,
                };
                Config { author }
            },
            _ => Config::default(),
        }
    }

    /// The settings as they are saved.
    pub fn save(&self) -> (r: Json)
        ensures
            r@ == config_json(*self),
    {
        self.to_json()
    }
}


/// Settings that were saved are loaded back with the same author.
pub proof fn law_config_round_trip(c: Config)
    ensures
        config_author(config_json(c)) == opt_view(c.author),
{
}

} // verus!
