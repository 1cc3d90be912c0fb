//! The commands of the command-line tool: what each decides from its
//! arguments and from what was read, leaving the reading and writing to
//! the caller.
use vstd::prelude::*;
use crate::text::{str_eq, views, opt_view};
use crate::fsm::{Executor, NextState, StateMachine};
use crate::evict::config::Config;

pub mod list;
pub mod create;
pub mod delete;
pub mod comment;
pub mod default_author;
pub mod new_status;
pub mod default_status;
pub mod init;
pub mod tag;
pub mod set_status;
pub mod clear;
pub mod parse;
pub mod merge;
pub mod sync;

verus! {

/// The commands of the tool.
#[derive(Clone, Copy, Debug, PartialEq, Eq, Structural)]
pub enum Command {
    Create,
    Clear,
    Init,
    List,
    Delete,
    Comment,
    NewStatus,
    DefaultAuthor,
    SetStatus,
    DefaultStatus,
    Tag,
    Untag,
}

/// The command names and the commands they run.
pub open spec fn command_table() -> Seq<(Seq<char>, Command)> {
    seq![
        ("create"@, Command::Create),
        ("clear"@, Command::Clear),
        ("init"@, Command::Init),
        ("list"@, Command::List),
        ("delete"@, Command::Delete),
        ("comment"@, Command::Comment),
        ("new-status"@, Command::NewStatus),
        ("default-author"@, Command::DefaultAuthor),
        ("set-status"@, Command::SetStatus),
        ("default-status"@, Command::DefaultStatus),
        ("tag"@, Command::Tag),
        ("untag"@, Command::Untag),
    ]
}

/// The names and commands of a table, as values.
pub open spec fn table_view(t: Seq<(String, Command)>) -> Seq<(Seq<char>, Command)> {
    t.map_values(|p: (String, Command)| (p.0@, p.1))
}

/// The command that `name` runs by the table `t`: the first entry of that
/// name.
pub open spec fn lookup(t: Seq<(Seq<char>, Command)>, name: Seq<char>) -> Option<Command>
    decreases t.len(),
{
    if t.len() == 0 {
        None
    } else if t[0].0 == name {
        Some(t[0].1)
    } else {
        lookup(t.drop_first(), name)
    }
}

/// The name by which the tool runs the command `c`.
pub open spec fn command_name(c: Command) -> Seq<char> {
    match c {
        Command::Create => "create"@,
        Command::Clear => "clear"@,
        Command::Init => "init"@,
        Command::List => "list"@,
        Command::Delete => "delete"@,
        Command::Comment => "comment"@,
        Command::NewStatus => "new-status"@,
        Command::DefaultAuthor => "default-author"@,
        Command::SetStatus => "set-status"@,
        Command::DefaultStatus => "default-status"@,
        Command::Tag => "tag"@,
        Command::Untag => "untag"@,
    }
}

/// Each command's name runs that command, and a name that runs a command
/// is that command's name.
pub proof fn law_each_name_runs_its_command(c: Command, name: Seq<char>)
    ensures
        lookup(command_table(), command_name(c)) == Some(c),
        lookup(command_table(), name) == Some(c) ==> name == command_name(c),
{
    reveal_strlit("create");
    reveal_strlit("clear");
    reveal_strlit("init");
    reveal_strlit("list");
    reveal_strlit("delete");
    reveal_strlit("comment");
    reveal_strlit("new-status");
    reveal_strlit("default-author");
    reveal_strlit("set-status");
    reveal_strlit("default-status");
    reveal_strlit("tag");
    reveal_strlit("untag");
    assert("create"@.len() == 6);
    assert("clear"@.len() == 5);
    assert("init"@.len() == 4);
    assert("list"@.len() == 4);
    assert("delete"@.len() == 6);
    assert("comment"@.len() == 7);
    assert("new-status"@.len() == 10);
    assert("default-author"@.len() == 14);
    assert("set-status"@.len() == 10);
    assert("default-status"@.len() == 14);
    assert("tag"@.len() == 3);
    assert("untag"@.len() == 5);
    assert("create"@[0] != "delete"@[0]);
    assert("clear"@[0] != "untag"@[0]);
    assert("init"@[0] != "list"@[0]);
    assert("new-status"@[0] != "set-status"@[0]);
    assert("default-author"@[8] != "default-status"@[8]);
    reveal_with_fuel(lookup, 13);
    let t = command_table();
    assert(t.len() == 12);
}

/// The commands the tool knows, by name.
pub fn standard_commands() -> (r: Vec<(String, Command)>)
    ensures
        table_view(r@) == command_table(),
{
    let mut hmap: Vec<(String, Command)> = Vec::new();
    hmap.push(("create".to_owned(), Command::Create));
    hmap.push(("clear".to_owned(), Command::Clear));
    hmap.push(("init".to_owned(), Command::Init));
    hmap.push(("list".to_owned(), Command::List));
    hmap.push(("delete".to_owned(), Command::Delete));
    hmap.push(("comment".to_owned(), Command::Comment));
    hmap.push(("new-status".to_owned(), Command::NewStatus));
    hmap.push(("default-author".to_owned(), Command::DefaultAuthor));
    hmap.push(("set-status".to_owned(), Command::SetStatus));
    hmap.push(("default-status".to_owned(), Command::DefaultStatus));
    hmap.push(("tag".to_owned(), Command::Tag));
    hmap.push(("untag".to_owned(), Command::Untag));
    assert(table_view(hmap@) =~= command_table());
    hmap
}

/// The command that `name` runs by the table `table`.
pub fn find_command(table: &Vec<(String, Command)>, name: &str) -> (r: Option<Command>)
    ensures
        r == lookup(table_view(table@), name@),
{
    let ghost t = table_view(table@);
    let mut i: usize = 0;
    assert(t.skip(0) =~= t);
    while i < table.len()
        invariant
            t == table_view(table@),
            i <= table@.len(),
            lookup(t, name@) == lookup(t.skip(i as int), name@),
        decreases table@.len() - i,
    {
        assert(t.skip(i as int)[0] == t[i as int]);
        assert(t.skip(i as int).drop_first() =~= t.skip(i + 1));
        if str_eq(table[i].0.as_str(), name) {
            return Some(table[i].1);
        }
        i = i + 1;
    }
    assert(t.skip(i as int).len() == 0);
    None
}

/// `r` failed with the message `msg` and the exit code `code`.
pub open spec fn failed_with<T, C>(r: Result<T, (String, C)>, msg: Seq<char>, code: C) -> bool {
    r matches Err(e) && e.0@ == msg && e.1 == code
}

/// The message shown when the tracker's directory is missing.
pub open spec fn no_directory_message() -> Seq<char> {
    "There is no evict directory.  Run evict init."@
}

/// Which command to run for the name `command`, or the message to show and
/// the exit code: every command but `init` needs the tracker's directory
/// (exit code 2 without it), and an unknown name gives exit code 1.
pub fn resolve_command(command: &str, commandList: &Vec<(String, Command)>, evict_dir_exists: bool) -> (r: Result<Command, (String, i32)>)
    ensures
        command@ != "init"@ && !evict_dir_exists ==> failed_with(r, no_directory_message(), 2),
        command@ == "init"@ || evict_dir_exists ==> match lookup(table_view(commandList@), command@) {
            Some(c) => r == Ok::<Command, (String, i32)>(c),
            None => failed_with(r, "Command "@ + command@ + " not found"@, 1),
        },
{
    if !str_eq(command, "init") && !evict_dir_exists {
        return Err(("There is no evict directory.  Run evict init.".to_owned(), 2));
    }
    match find_command(commandList, command) {
        Some(cmd) => Ok(cmd),
        None => {
            let mut m = "Command ".to_owned();
            m.append(command);
            m.append(" not found");
            Err((m, 1))
        },
    }
}

/// The author for new issues and comments from the settings; `None` when
/// none is set, and then the user is asked.
pub fn get_author(config: &Config) -> (r: Option<String>)
    ensures
        r == config.author,
{
    match &config.author {
        Some(author) => Some(author.clone()),
        None => None,
    }
}

/// Whether `c` is a line break character.
pub open spec fn is_break(c: char) -> bool {
    c == '\n' || c == '\r'
}

/// A typed answer without its line break characters.
pub fn strip_line_breaks(s: &str) -> (r: String)
    ensures
        r@ == s@.filter(|c: char| !is_break(c)),
{
    let n = s.unicode_len();
    let mut r = String::new();
    let mut i: usize = 0;
    while i < n
        invariant
            n == s@.len(),
            i <= n,
            r@ == s@.take(i as int).filter(|c: char| !is_break(c)),
        decreases n - i,
    {
        let c = s.get_char(i);
        proof {
            reveal_with_fuel(Seq::filter, 1);
            assert(s@.take(i + 1).drop_last() =~= s@.take(i as int));
        }
        if c != '\n' && c != '\r' {
            crate::text::push_char(&mut r, c);
        }
        i = i + 1;
    }
    assert(s@.take(n as int) =~= s@);
    r
}

/// Reads arguments keeping the last one, as `delete` and `comment` read
/// the id of their issue.
#[derive(Clone, Copy, PartialEq, Eq, Structural)]
pub enum LastArg {
    Std,
}

impl Executor<Option<String>, String> for LastArg {
    open spec fn next(&self, state: Option<String>, input: String, r: NextState<Option<String>, LastArg>) -> bool {
        r matches NextState::Continue(s) && opt_view(s) == Some(input@)
    }

    fn execute(&self, state: Option<String>, input: String) -> (r: NextState<Option<String>, LastArg>) {
        NextState::Continue(Some(input))
    }
}

/// The last of the arguments, if there is one.
pub fn last_arg(args: Vec<String>) -> (r: Option<String>)
    ensures
        opt_view(r) == (if args@.len() == 0 { None } else { Some(args@.last()@) }),
{
    let mut stateMachine = StateMachine::new(LastArg::Std, None);
    let mut i: usize = 0;
    while i < args.len()
        invariant
            i <= args@.len(),
            stateMachine.executor() == Some(LastArg::Std),
            stateMachine.state() matches Some(s) && opt_view(s) == (if i == 0 { None } else { Some(args@[i - 1]@) }),
        decreases args@.len() - i,
    {
        let ghost st = stateMachine.state().unwrap();
        let arg = args[i].clone();
        stateMachine.process(arg);
        proof {
            let r = choose|r: NextState<Option<String>, LastArg>| #[trigger] LastArg::Std.next(st, arg, r) && StateMachine::<Option<String>, LastArg>::after(LastArg::Std, r) == (stateMachine.executor(), stateMachine.state());
        }
        i = i + 1;
    }
    stateMachine.consumeToState()
}

} // verus!
