//! The repository's settings, kept as JSON in `.evict/config`.
use vstd::prelude::*;

verus! {

/// The settings: the author name to use for new issues and comments.
pub struct Config {
    pub author: Option<String>,
}

impl Clone for Config {
    fn clone(&self) -> (r: Self)
        ensures
            r == *self,
    {
        Config {
            author: match &self.author {
                Some(a) => Some(a.clone()),
                None => None,
            },
        }
    }
}

impl Config {
    /// The settings from the config file as it was read: `None` when there
    /// is no config file or it could not be read as settings, and then the
    /// defaults.
    pub fn load(read: Option<Config>) -> (r: Config)
        ensures
            r == (match read {
                Some(c) => c,
                None => Config { author: None },
            }),
    {
        match read {
            Some(conf) => conf,
            None => Config::default(),
        }
    }

    /// The default settings: no author.
    pub fn default() -> (r: Config)
        ensures
            r.author is None,
    {
        Config { author: None }
    }
}

} // verus!
