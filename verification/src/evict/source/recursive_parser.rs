//! Parsing a whole directory tree: each file is parsed on its own, and what
//! the files gave is gathered into one result.
use vstd::prelude::*;
use crate::evict::issue::{Issue, IssueView};
use crate::evict::selection::issue_views;

verus! {

/// What parsing a tree gave: the issues found in all its files, and the
/// errors of the files that could not be read or written back.
pub struct RecursiveParseResult {
    pub new_issues: Vec<Issue>,
    pub failures: Vec<String>,
}

/// The issues that the parsed files gave, file after file.
pub open spec fn issues_found(results: Seq<Result<Vec<Issue>, String>>) -> Seq<IssueView>
    decreases results.len(),
{
    if results.len() == 0 {
        Seq::empty()
    } else {
        issues_found(results.drop_last()) + match results.last() {
            Ok(v) => issue_views(v@),
            Err(_) => Seq::empty(),
        }
    }
}

/// The errors of the files that failed, file after file.
pub open spec fn failures_found(results: Seq<Result<Vec<Issue>, String>>) -> Seq<Seq<char>>
    decreases results.len(),
{
    if results.len() == 0 {
        Seq::empty()
    } else {
        failures_found(results.drop_last()) + match results.last() {
            Ok(_) => Seq::empty(),
            Err(e) => seq![e@],
        }
    }
}

/// The views of a list of error texts.
pub open spec fn texts_view(v: Seq<String>) -> Seq<Seq<char>> {
    v.map_values(|s: String| s@)
}

/// Gathers the outcome of each file of the tree, in the order given: the
/// issues of the files that were parsed, one after another, and the error
/// of each file that failed.
pub fn collect_file_results(results: Vec<Result<Vec<Issue>, String>>) -> (r: RecursiveParseResult)
    ensures
        issue_views(r.new_issues@) == issues_found(results@),
        texts_view(r.failures@) == failures_found(results@),
{
    let mut rest = results;
    let ghost all = rest@;
    let mut out = RecursiveParseResult { new_issues: Vec::new(), failures: Vec::new() };
    let mut k: usize = 0;
    assert(all.len() == rest.len());
    assert(all.take(0) =~= Seq::<Result<Vec<Issue>, String>>::empty());
    assert(issue_views(out.new_issues@) =~= Seq::<IssueView>::empty());
    assert(texts_view(out.failures@) =~= Seq::<Seq<char>>::empty());
    while rest.len() > 0
        invariant
            k + rest@.len() == all.len(),
            all.len() <= usize::MAX,
            rest@ == all.skip(k as int),
            issue_views(out.new_issues@) == issues_found(all.take(k as int)),
            texts_view(out.failures@) == failures_found(all.take(k as int)),
        decreases rest@.len(),
    {
        let item = rest.remove(0);
        proof {
            assert(item == all[k as int]);
            assert(all.take(k as int + 1).drop_last() =~= all.take(k as int));
            assert(all.take(k as int + 1).last() == all[k as int]);
        }
        let ghost before_issues = out.new_issues@;
        let ghost before_failures = out.failures@;
        match item {
            Ok(mut issues) => {
                let ghost found = issues@;
                out.new_issues.append(&mut issues);
                assert(issue_views(out.new_issues@) =~= issue_views(before_issues) + issue_views(found));
                assert(texts_view(out.failures@) =~= texts_view(before_failures));
            },
            Err(e) => {
                out.failures.push(e);
                assert(texts_view(out.failures@) =~= texts_view(before_failures) + seq![e@]);
                assert(issue_views(out.new_issues@) =~= issue_views(before_issues) + Seq::<IssueView>::empty());
            },
        }
        k = k + 1;
        assert(rest@ =~= all.skip(k as int));
    }
    assert(all.take(k as int) =~= all);
    out
}

} // verus!
