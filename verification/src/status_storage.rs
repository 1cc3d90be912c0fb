//! The statuses an issue may have, and which of them new issues get.
use vstd::prelude::*;
use crate::text::{views, lines, lines_spec, join_spec};
use crate::issue::IssueStatus;
use crate::evict::status_storage as current;
use crate::evict::status_storage::{status_options_spec, default_status_spec, default_status_name};

verus! {

/// The status of an issue whose status is not known.
pub const DEFAULT_STATUS_NAME: &'static str = "<unknown>";

/// One status an issue may have.
pub struct StatusOption {
    pub name: String,
}

impl Clone for StatusOption {
    fn clone(&self) -> (r: Self)
        ensures
            r == *self,
    {
        StatusOption { name: self.name.clone() }
    }
}

impl PartialEq for StatusOption {
    fn eq(&self, other: &StatusOption) -> (r: bool) {
        self.name == other.name
    }
}

impl vstd::std_specs::cmp::PartialEqSpecImpl for StatusOption {
    open spec fn obeys_eq_spec() -> bool {
        true
    }

    open spec fn eq_spec(&self, other: &StatusOption) -> bool {
        self.name@ == other.name@
    }
}

impl StatusOption {
    /// A status of this option's name, changed now.
    pub fn makeStatus(&self) -> (r: IssueStatus)
        ensures
            r.name@ == self.name@,
            r.lastChangeTime.formattable(),
    {
        IssueStatus::new(self.name.clone())
    }
}

/// The names of a list of status options.
pub open spec fn option_names(v: Seq<StatusOption>) -> Seq<Seq<char>> {
    v.map_values(|o: StatusOption| o.name@)
}

/// The path of the file that lists the status options.
pub fn fullStatusFilename() -> (r: String)
    ensures
        r@ == ".evict/status_types"@,
{
    let mut r = crate::file_manager::EVICT_DIRECTORY.to_owned();
    r.append("status_types");
    proof {
        reveal_strlit(".evict/");
        reveal_strlit("status_types");
        reveal_strlit(".evict/status_types");
    }
    assert(r@ =~= ".evict/status_types"@);
    r
}

/// The path of the file that names the default status.
pub fn fullDefaultStatusFilename() -> (r: String)
    ensures
        r@ == ".evict/default_status"@,
{
    let mut r = crate::file_manager::EVICT_DIRECTORY.to_owned();
    r.append("default_status");
    proof {
        reveal_strlit(".evict/");
        reveal_strlit("default_status");
        reveal_strlit(".evict/default_status");
    }
    assert(r@ =~= ".evict/default_status"@);
    r
}

/// The status options listed by the status file's contents (`None`: the
/// file could not be read): one per line.
pub fn readStatusOptions(file_contents: Option<String>) -> (r: Vec<StatusOption>)
    ensures
        option_names(r@) == status_options_spec(crate::text::opt_view(file_contents)),
{
    let opts = current::read_status_options(file_contents);
    let mut r: Vec<StatusOption> = Vec::new();
    let mut i: usize = 0;
    while i < opts.len()
        invariant
            i <= opts@.len(),
            option_names(r@) == current::option_names(opts@).take(i as int),
        decreases opts@.len() - i,
    {
        let ghost prev = option_names(r@);
        r.push(StatusOption { name: opts[i].name.clone() });
        i = i + 1;
        assert(option_names(r@) =~= prev.push(opts@[i - 1].name@));
        assert(current::option_names(opts@).take(i as int) =~= current::option_names(opts@).take(i - 1).push(opts@[i - 1].name@));
    }
    assert(current::option_names(opts@).take(opts@.len() as int) =~= current::option_names(opts@));
    r
}

/// The status file's text for a list of options: their names, one per line.
pub fn writeStatusOptions(statuses: Vec<StatusOption>) -> (r: String)
    ensures
        r@ == join_spec(option_names(statuses@), seq!['\n']),
{
    let mut opts: Vec<current::StatusOption> = Vec::new();
    let mut i: usize = 0;
    while i < statuses.len()
        invariant
            i <= statuses@.len(),
            current::option_names(opts@) == option_names(statuses@).take(i as int),
        decreases statuses@.len() - i,
    {
        let ghost prev = current::option_names(opts@);
        opts.push(current::StatusOption { name: statuses[i].name.clone() });
        i = i + 1;
        assert(current::option_names(opts@) =~= prev.push(statuses@[i - 1].name@));
        assert(option_names(statuses@).take(i as int) =~= option_names(statuses@).take(i - 1).push(statuses@[i - 1].name@));
    }
    assert(option_names(statuses@).take(statuses@.len() as int) =~= option_names(statuses@));
    current::write_status_options(opts)
}

/// The default status, from the contents of the default status file and
/// of the status file (`None`: the file could not be read): the first line
/// of the default status file when it names a status option, else the
/// unknown status.
pub fn readDefaultStatus(default_file: Option<String>, status_file: Option<String>) -> (r: StatusOption)
    ensures
        r.name@ == default_status_spec(crate::text::opt_view(default_file), crate::text::opt_view(status_file)),
{
    let d = current::read_default_status(default_file, status_file);
    StatusOption { name: d.name }
}

/// Checks a new default status against the status file's contents
/// (`None`: the file could not be read). On success gives the text that
/// the default status file is to hold; otherwise the reason.
pub fn writeDefaultStatus(status: &StatusOption, status_file: Option<String>) -> (r: Result<String, String>)
    ensures
        r is Ok <==> status_options_spec(crate::text::opt_view(status_file)).contains(status.name@),
        r matches Ok(text) ==> text@ == status.name@,
        r matches Err(m) ==> m@ == status.name@ + " is not a status option"@,
{
    let opts = current::read_status_options(status_file);
    if !current::has_option(&opts, &status.name) {
        let mut m = status.name.clone();
        m.append(" is not a status option");
        Err(m)
    } else {
        Ok(status.name.clone())
    }
}

} // verus!
