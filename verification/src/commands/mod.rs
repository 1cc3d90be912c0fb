//! The commands of the command-line tool: what each decides from its
//! arguments and from what was read, leaving the reading and writing to
//! the caller.
use vstd::prelude::*;
use crate::text::str_eq;
use crate::config::Config;
use crate::evict::commands::failed_with;

pub mod create;
pub mod clear;
pub mod list;
pub mod delete;
pub mod merge;
pub mod sync;
pub mod new_status;
pub mod default_author;
pub mod set_status;
pub mod default_status;

verus! {

/// The commands of the tool.
#[derive(Clone, Copy, Debug, PartialEq, Eq, Structural)]
pub enum Command {
    Create,
    Clear,
    Init,
    List,
    Delete,
    Comment,
    Merge,
    Sync,
    NewStatus,
    DefaultAuthor,
    SetStatus,
    DefaultStatus,
}

/// The command names and the commands they run.
pub open spec fn command_table() -> Seq<(Seq<char>, Command)> {
    seq![
        ("create"@, Command::Create),
        ("clear"@, Command::Clear),
        ("init"@, Command::Init),
        ("list"@, Command::List),
        ("delete"@, Command::Delete),
        ("comment"@, Command::Comment),
        ("merge"@, Command::Merge),
        ("sync"@, Command::Sync),
        ("new-status"@, Command::NewStatus),
        ("default-author"@, Command::DefaultAuthor),
        ("set-status"@, Command::SetStatus),
        ("default-status"@, Command::DefaultStatus),
    ]
}

/// The names and commands of a table, as values.
pub open spec fn table_view(t: Seq<(String, Command)>) -> Seq<(Seq<char>, Command)> {
    t.map_values(|p: (String, Command)| (p.0@, p.1))
}

/// The command that `name` runs by the table `t`: the first entry of that
/// name.
pub open spec fn lookup(t: Seq<(Seq<char>, Command)>, name: Seq<char>) -> Option<Command>
    decreases t.len(),
{
    if t.len() == 0 {
        None
    } else if t[0].0 == name {
        Some(t[0].1)
    } else {
        lookup(t.drop_first(), name)
    }
}

/// The commands the tool knows, by name.
pub fn standardCommands() -> (r: Vec<(String, Command)>)
    ensures
        table_view(r@) == command_table(),
{
    let mut hmap: Vec<(String, Command)> = Vec::new();
    hmap.push(("create".to_owned(), Command::Create));
    hmap.push(("clear".to_owned(), Command::Clear));
    hmap.push(("init".to_owned(), Command::Init));
    hmap.push(("list".to_owned(), Command::List));
    hmap.push(("delete".to_owned(), Command::Delete));
    hmap.push(("comment".to_owned(), Command::Comment));
    hmap.push(("merge".to_owned(), Command::Merge));
    hmap.push(("sync".to_owned(), Command::Sync));
    hmap.push(("new-status".to_owned(), Command::NewStatus));
    hmap.push(("default-author".to_owned(), Command::DefaultAuthor));
    hmap.push(("set-status".to_owned(), Command::SetStatus));
    hmap.push(("default-status".to_owned(), Command::DefaultStatus));
    assert(table_view(hmap@) =~= command_table());
    hmap
}

/// The command that `command` runs by the table `commandList`; an unknown
/// name gives its message and exit status 1.
pub fn executeCommand(command: &str, commandList: &Vec<(String, Command)>) -> (r: Result<Command, (String, i32)>)
    ensures
        match lookup(table_view(commandList@), command@) {
            Some(c) => r == Ok::<Command, (String, i32)>(c),
            None => failed_with(r, "Command "@ + command@ + " not found"@, 1),
        },
{
    let ghost t = table_view(commandList@);
    let mut i: usize = 0;
    assert(t.skip(0) =~= t);
    while i < commandList.len()
        invariant
            t == table_view(commandList@),
            i <= commandList@.len(),
            lookup(t, command@) == lookup(t.skip(i as int), command@),
        decreases commandList@.len() - i,
    {
        assert(t.skip(i as int)[0] == t[i as int]);
        assert(t.skip(i as int).drop_first() =~= t.skip(i + 1));
        if str_eq(commandList[i].0.as_str(), command) {
            return Ok(commandList[i].1);
        }
        i = i + 1;
    }
    assert(t.skip(i as int).len() == 0);
    let mut m = "Command ".to_owned();
    m.append(command);
    m.append(" not found");
    Err((m, 1))
}

/// The exit code of `init`: 0 when the tracker's directory was made.
pub fn init(made: bool) -> (r: isize)
    ensures
        r == (if made { 0isize } else { 1isize }),
{
    if made {
        0
    } else {
        1
    }
}

/// The author for new issues from the settings; `None` when none is set,
/// and then the user is asked.
pub fn getAuthor(config: &Config) -> (r: Option<String>)
    ensures
        r == config.author,
{
    match &config.author {
        Some(author) => Some(author.clone()),
        None => None,
    }
}

} // verus!
