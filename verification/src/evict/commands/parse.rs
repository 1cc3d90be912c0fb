//! `parse`: finds issues in source comments under a directory.
use vstd::prelude::*;
use crate::text::{views, opt_view, str_eq};
use crate::fsm::{Executor, NextState, StateMachine};

verus! {

/// What the next argument of `parse` is read as.
#[derive(Clone, Copy, PartialEq, Eq, Structural)]
pub enum ParseArgHandler {
    /// An option name.
    Std,
    /// The value of `--src-dir`.
    GetSourceDir,
}

/// The source directory after reading the arguments `args`, and what the
/// next argument would be read as.
pub open spec fn parse_args(args: Seq<Seq<char>>) -> (ParseArgHandler, Option<Seq<char>>)
    decreases args.len(),
{
    if args.len() == 0 {
        (ParseArgHandler::Std, None)
    } else {
        let (h, d) = parse_args(args.drop_last());
        match h {
            ParseArgHandler::Std => if args.last() == "--src-dir"@ {
                (ParseArgHandler::GetSourceDir, d)
            } else {
                (ParseArgHandler::Std, d)
            },
            ParseArgHandler::GetSourceDir => (ParseArgHandler::Std, Some(args.last())),
        }
    }
}

impl Executor<Option<String>, String> for ParseArgHandler {
    open spec fn next(&self, state: Option<String>, input: String, r: NextState<Option<String>, ParseArgHandler>) -> bool {
        match self {
            ParseArgHandler::Std => if input@ == "--src-dir"@ {
                r matches NextState::ChangeState(h, s) && h == ParseArgHandler::GetSourceDir && s == state
            } else {
                r matches NextState::Continue(s) && s == state
            },
            ParseArgHandler::GetSourceDir => r matches NextState::ChangeState(h, s) && h == ParseArgHandler::Std
                && opt_view(s) == Some(input@),
        }
    }

    fn execute(&self, state: Option<String>, input: String) -> (r: NextState<Option<String>, ParseArgHandler>) {
        match self {
            ParseArgHandler::Std => if str_eq(input.as_str(), "--src-dir") {
                NextState::ChangeState(ParseArgHandler::GetSourceDir, state)
            } else {
                NextState::Continue(state)
            },
            ParseArgHandler::GetSourceDir => NextState::ChangeState(ParseArgHandler::Std, Some(input)),
        }
    }
}

/// The directory to parse, from the arguments of `parse`: the value of the
/// last `--src-dir`, or the current directory (the empty path).
pub fn parse_issues(args: Vec<String>) -> (r: String)
    ensures
        r@ == (match parse_args(views(args@)).1 {
            Some(d) => d,
            None => Seq::empty(),
        }),
{
    let mut stateMachine = StateMachine::new(ParseArgHandler::Std, None);
    let ghost a = views(args@);
    assert(a.take(0) =~= Seq::<Seq<char>>::empty());
    let mut i: usize = 0;
    while i < args.len()
        invariant
            a == views(args@),
            i <= args@.len(),
            stateMachine.executor() == Some(parse_args(a.take(i as int)).0),
            stateMachine.state() matches Some(s) && opt_view(s) == parse_args(a.take(i as int)).1,
        decreases args@.len() - i,
    {
        let ghost e = stateMachine.executor().unwrap();
        let ghost st = stateMachine.state().unwrap();
        let arg = args[i].clone();
        stateMachine.process(arg);
        proof {
            assert(a.take(i + 1).drop_last() =~= a.take(i as int));
            assert(a.take(i + 1).last() == args@[i as int]@);
            let r = choose|r: NextState<Option<String>, ParseArgHandler>| #[trigger] e.next(st, arg, r) && StateMachine::<Option<String>, ParseArgHandler>::after(e, r) == (stateMachine.executor(), stateMachine.state());
        }
        i = i + 1;
    }
    assert(a.take(args@.len() as int) =~= a);
    match stateMachine.consumeToState() {
        Some(d) => d,
        None => String::new(),
    }
}

} // verus!
