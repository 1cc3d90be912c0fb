//! The statuses an issue may have, and which of them new issues get.
use vstd::prelude::*;
use crate::text::{views, lines, lines_spec, join, join_spec, str_eq, one_line, lemma_lines_join};
use crate::evict::issue::IssueStatus;

verus! {

/// The status of an issue whose status is not known.
pub const DEFAULT_STATUS_NAME: &'static str = "<unknown>";

/// The characters of `DEFAULT_STATUS_NAME`.
pub open spec fn default_status_name() -> Seq<char> {
    seq!['<', 'u', 'n', 'k', 'n', 'o', 'w', 'n', '>']
}

/// `DEFAULT_STATUS_NAME` as an owned string.
pub fn default_status_string() -> (r: String)
    ensures
        r@ == default_status_name(),
{
    proof {
        reveal_strlit("<unknown>");
    }
    let r = DEFAULT_STATUS_NAME.to_owned();
    assert(r@ =~= default_status_name());
    r
}


/// `std::io::Error`, carried through unread.
#[verifier::external_type_specification]
#[verifier::external_body]
pub struct ExIoError(std::io::Error);

/// Why a default status could not be stored.
#[derive(Debug)]
pub enum StatusWriteError {
    IoWriteFailure(std::io::Error),
    InvalidStatus(String),
}

impl StatusWriteError {
    /// What went wrong, as text: a fixed line for a failed write, the
    /// reason for a status that is not an option.
    pub fn description(&self) -> (r: String)
        ensures
            r@ == (match self {
                StatusWriteError::IoWriteFailure(_) => "I/O to the file failed"@,
                StatusWriteError::InvalidStatus(m) => m@,
            }),
    {
        match self {
            StatusWriteError::IoWriteFailure(_) => "I/O to the file failed".to_owned(),
            StatusWriteError::InvalidStatus(m) => m.clone(),
        }
    }

    /// The I/O error behind a failed write; nothing for an invalid status.
    pub fn cause(&self) -> (r: Option<&std::io::Error>)
        ensures
            r is Some <==> self is IoWriteFailure,
            self matches StatusWriteError::IoWriteFailure(e) ==> r == Some(e),
    {
        match self {
            StatusWriteError::IoWriteFailure(e) => Some(e),
            StatusWriteError::InvalidStatus(_) => None,
        }
    }
}

/// One status an issue may have.
#[derive(Debug)]
pub struct StatusOption {
    pub name: String,
}

impl Clone for StatusOption {
    fn clone(&self) -> (r: Self)
        ensures
            r == *self,
    {
        StatusOption { name: self.name.clone() }
    }
}

impl PartialEq for StatusOption {
    fn eq(&self, other: &StatusOption) -> (r: bool) {
        self.name == other.name
    }
}

impl vstd::std_specs::cmp::PartialEqSpecImpl for StatusOption {
    open spec fn obeys_eq_spec() -> bool {
        true
    }

    open spec fn eq_spec(&self, other: &StatusOption) -> bool {
        self.name@ == other.name@
    }
}

impl StatusOption {
    /// A status of this option's name, changed now.
    pub fn make_status(&self) -> (r: IssueStatus)
        ensures
            r.name@ == self.name@,
            r.last_change_time.0.formattable(),
    {
        IssueStatus::new(self.name.clone())
    }
}

/// The names of a list of status options.
pub open spec fn option_names(v: Seq<StatusOption>) -> Seq<Seq<char>> {
    v.map_values(|o: StatusOption| o.name@)
}

/// The status options a status file lists: one per line. A file that
/// could not be read lists none.
pub open spec fn status_options_spec(file_contents: Option<Seq<char>>) -> Seq<Seq<char>> {
    match file_contents {
        Some(c) => lines_spec(c),
        None => Seq::empty(),
    }
}

/// The path of the file that lists the status options.
pub fn full_status_filename() -> (r: String)
    ensures
        r@ == seq!['.', 'e', 'v', 'i', 'c', 't', '/', 's', 't', 'a', 't', 'u', 's', '_', 't', 'y', 'p', 'e', 's'],
{
    proof {
        reveal_strlit(".evict/status_types");
    }
    let r = ".evict/status_types".to_owned();
    assert(r@ =~= seq!['.', 'e', 'v', 'i', 'c', 't', '/', 's', 't', 'a', 't', 'u', 's', '_', 't', 'y', 'p', 'e', 's']);
    r
}

/// The path of the file that names the default status.
pub fn full_default_status_filename() -> (r: String)
    ensures
        r@ == seq!['.', 'e', 'v', 'i', 'c', 't', '/', 'd', 'e', 'f', 'a', 'u', 'l', 't', '_', 's', 't', 'a', 't', 'u', 's'],
{
    proof {
        reveal_strlit(".evict/default_status");
    }
    let r = ".evict/default_status".to_owned();
    assert(r@ =~= seq!['.', 'e', 'v', 'i', 'c', 't', '/', 'd', 'e', 'f', 'a', 'u', 'l', 't', '_', 's', 't', 'a', 't', 'u', 's']);
    r
}

/// The status options listed by the status file's contents (`None`: the
/// file could not be read).
pub fn read_status_options(file_contents: Option<String>) -> (r: Vec<StatusOption>)
    ensures
        option_names(r@) == status_options_spec(match file_contents {
            Some(c) => Some(c@),
            None => None,
        }),
{
    let full = match file_contents {
        Some(c) => c,
        None => String::new(),
    };
    let ls = lines(full.as_str());
    proof {
        assert(lines_spec(Seq::<char>::empty()) =~= Seq::<Seq<char>>::empty()) by {
            assert(crate::text::split_spec(Seq::<char>::empty(), '\n') =~= seq![Seq::<char>::empty()]);
        }
    }
    let mut r: Vec<StatusOption> = Vec::new();
    let mut i: usize = 0;
    while i < ls.len()
        invariant
            i <= ls@.len(),
            option_names(r@) == views(ls@).take(i as int),
        decreases ls@.len() - i,
    {
        let ghost prev = option_names(r@);
        r.push(StatusOption { name: ls[i].clone() });
        i = i + 1;
        assert(option_names(r@) =~= prev.push(ls@[i - 1]@));
        assert(views(ls@).take(i as int) =~= views(ls@).take(i - 1).push(ls@[i - 1]@));
    }
    assert(views(ls@).take(ls@.len() as int) =~= views(ls@));
    r
}

/// The status file's text for a list of options: their names, one per line.
pub fn write_status_options(statuses: Vec<StatusOption>) -> (r: String)
    ensures
        r@ == join_spec(option_names(statuses@), seq!['\n']),
{
    let mut names: Vec<String> = Vec::new();
    let mut i: usize = 0;
    while i < statuses.len()
        invariant
            i <= statuses@.len(),
            views(names@) == option_names(statuses@).take(i as int),
        decreases statuses@.len() - i,
    {
        let ghost prev = views(names@);
        names.push(statuses[i].name.clone());
        i = i + 1;
        assert(views(names@) =~= prev.push(statuses@[i - 1].name@));
        assert(option_names(statuses@).take(i as int) =~= option_names(statuses@).take(i - 1).push(statuses@[i - 1].name@));
    }
    assert(option_names(statuses@).take(statuses@.len() as int) =~= option_names(statuses@));
    proof {
        reveal_strlit("\n");
    }
    let sep = "\n";
    assert(sep@ =~= seq!['\n']);
    join(&names, sep)
}

/// Whether one of `options` has the name `name`.
pub fn has_option(options: &Vec<StatusOption>, name: &String) -> (r: bool)
    ensures
        r == option_names(options@).contains(name@),
{
    let mut i: usize = 0;
    while i < options.len()
        invariant
            i <= options@.len(),
            forall|k: int| 0 <= k < i ==> options@[k].name@ != name@,
        decreases options@.len() - i,
    {
        if str_eq(options[i].name.as_str(), name.as_str()) {
            assert(option_names(options@)[i as int] == name@);
            return true;
        }
        i = i + 1;
    }
    assert(!option_names(options@).contains(name@)) by {
        if option_names(options@).contains(name@) {
            let k = choose|k: int| 0 <= k < options@.len() && option_names(options@)[k] == name@;
            assert(options@[k].name@ == name@);
        }
    }
    false
}

/// The name of the default status: the first line of the default status
/// file (`"<unknown>"` when the file cannot be read or has no line), when
/// it is one of the status options; `"<unknown>"` otherwise.
pub open spec fn default_status_spec(default_file: Option<Seq<char>>, status_file: Option<Seq<char>>) -> Seq<char> {
    let full = match default_file {
        Some(c) => c,
        None => default_status_name(),
    };
    let ls = lines_spec(full);
    let first = if ls.len() > 0 {
        ls[0]
    } else {
        default_status_name()
    };
    if status_options_spec(status_file).contains(first) {
        first
    } else {
        default_status_name()
    }
}

/// The default status, from the contents of the default status file and
/// of the status file (`None`: the file could not be read).
pub fn read_default_status(default_file: Option<String>, status_file: Option<String>) -> (r: StatusOption)
    ensures
        r.name@ == default_status_spec(
            match default_file { Some(c) => Some(c@), None => None },
            match status_file { Some(c) => Some(c@), None => None },
        ),
{
    let full = match default_file {
        Some(c) => c,
        None => default_status_string(),
    };
    let ls = lines(full.as_str());
    let first = if ls.len() > 0 {
        assert(views(ls@)[0] == ls@[0]@);
        ls[0].clone()
    } else {
        default_status_string()
    };
    let options = read_status_options(status_file);
    if !has_option(&options, &first) {
        StatusOption { name: default_status_string() }
    } else {
        StatusOption { name: first }
    }
}

/// The text `" is not a valid status option"`.
pub open spec fn not_an_option_suffix() -> Seq<char> {
    seq![' ', 'i', 's', ' ', 'n', 'o', 't', ' ', 'a', ' ', 'v', 'a', 'l', 'i', 'd', ' ', 's', 't', 'a', 't', 'u', 's', ' ', 'o', 'p', 't', 'i', 'o', 'n']
}

/// Checks a new default status against the status file's contents
/// (`None`: the file could not be read). On success gives the text that
/// the default status file is to hold: the status's name.
pub fn write_default_status(status: &StatusOption, status_file: Option<String>) -> (r: Result<String, StatusWriteError>)
    ensures
        r is Ok <==> status_options_spec(match status_file { Some(c) => Some(c@), None => None }).contains(status.name@),
        r matches Ok(text) ==> text@ == status.name@,
        r matches Err(e) ==> (e matches StatusWriteError::InvalidStatus(m) && m@ == status.name@ + not_an_option_suffix()),
{
    let options = read_status_options(status_file);
    if !has_option(&options, &status.name) {
        proof {
            reveal_strlit(" is not a valid status option");
        }
        let mut m = status.name.clone();
        m.append(" is not a valid status option");
        assert(m@ =~= status.name@ + not_an_option_suffix());
        Err(StatusWriteError::InvalidStatus(m))
    } else {
        Ok(status.name.clone())
    }
}


/// Status options written to the status file are read back, in order, when
/// each name is one line and the last name is not empty.
pub proof fn law_status_options_round_trip(names: Seq<Seq<char>>)
    requires
        forall|i: int| 0 <= i < names.len() ==> one_line(#[trigger] names[i]),
        names.len() > 0 ==> names.last().len() > 0,
    ensures
        status_options_spec(Some(join_spec(names, seq!['\n']))) == names,
{
    lemma_lines_join(names);
}

/// A default status that was stored is read back as the default while it
/// is one of the status options, when its name is one line and not empty.
pub proof fn law_default_status_round_trip(name: Seq<char>, status_file: Option<Seq<char>>)
    requires
        one_line(name),
        name.len() > 0,
        status_options_spec(status_file).contains(name),
    ensures
        default_status_spec(Some(name), status_file) == name,
{
    lemma_lines_join(seq![name]);
    assert(join_spec(seq![name], seq!['\n']) == name);
}

} // verus!
