//! A tiny state machine: a current state and the executor that consumes
//! the next input. An executor either keeps running, hands over to another
//! executor, or ends the machine.
use vstd::prelude::*;

verus! {

/// What an executor decides after consuming one input.
pub enum NextState<S, E> {
    /// Continue with a (possibly different) executor and a new state.
    ChangeState(E, S),
    /// Keep the same executor, with a new state.
    Continue(S),
    /// Stop executing; the state is kept.
    End(S),
}

/// A step function of the machine: from a state and an input to the next
/// step. `next` says which decisions `execute` may return (one, for an
/// executor that depends on nothing else); an executor that does not say
/// may return any.
pub trait Executor<S, I>: Sized {
    open spec fn next(&self, state: S, input: I, r: NextState<S, Self>) -> bool {
        true
    }

    fn execute(&self, state: S, input: I) -> (r: NextState<S, Self>)
        ensures
            self.next(state, input, r),
    ;
}

pub struct StateMachine<S, E> {
    next_executor: Option<E>,
    /// Only `None` while `process` runs.
    current_state: Option<S>,
}

impl<S, E> StateMachine<S, E> {
    /// The executor that will consume the next input, if the machine runs.
    pub closed spec fn executor(&self) -> Option<E> {
        self.next_executor
    }

    /// The state held by the machine.
    pub closed spec fn state(&self) -> Option<S> {
        self.current_state
    }

    /// The executor and the state after the executor `e` decided `r`.
    pub open spec fn after(e: E, r: NextState<S, E>) -> (Option<E>, Option<S>) {
        match r {
            NextState::ChangeState(e2, s) => (Some(e2), Some(s)),
            NextState::Continue(s) => (Some(e), Some(s)),
            NextState::End(s) => (None, Some(s)),
        }
    }

    /// Whether one input can take the machine from `(executor, state)` to
    /// `(executor2, state2)`: the executor decides, and the machine follows.
    /// A machine that has ended keeps its state.
    pub open spec fn step<I>(
        executor: Option<E>,
        state: Option<S>,
        input: I,
        executor2: Option<E>,
        state2: Option<S>,
    ) -> bool where E: Executor<S, I> {
        match executor {
            None => executor2 is None && state2 == state,
            Some(e) => exists|r: NextState<S, E>| #[trigger] e.next(state.unwrap(), input, r) && Self::after(e, r) == (
                executor2,
                state2,
            ),
        }
    }

    /// A machine that has ended stays ended: the next input leaves it
    /// without an executor and with the state it had.
    pub proof fn law_ended_stays_ended<I>(state: Option<S>, input: I, executor2: Option<E>, state2: Option<S>) where E: Executor<S, I>
        requires
            Self::step(None, state, input, executor2, state2),
        ensures
            executor2 is None,
            state2 == state,
    {
    }

    pub fn new(exec: E, state: S) -> (r: Self)
        ensures
            r.executor() == Some(exec),
            r.state() == Some(state),
    {
        StateMachine { next_executor: Some(exec), current_state: Some(state) }
    }

    /// Feeds one input to the current executor. A machine that has ended
    /// ignores the input and keeps its state.
    pub fn process<I>(&mut self, pVal: I) where E: Executor<S, I>
        requires
            old(self).state() is Some,
        ensures
            Self::step(old(self).executor(), old(self).state(), pVal, final(self).executor(), final(self).state()),
    {
        let old_state = self.current_state.take().unwrap();
        match self.next_executor.take() {
            None => {
                self.current_state = Some(old_state);
            },
            Some(executor) => {
                match executor.execute(old_state, pVal) {
                    NextState::ChangeState(exec, state) => {
                        self.next_executor = Some(exec);
                        self.current_state = Some(state);
                    },
                    NextState::Continue(state) => {
                        self.next_executor = Some(executor);
                        self.current_state = Some(state);
                    },
                    NextState::End(state) => {
                        self.next_executor = None;
                        self.current_state = Some(state);
                    },
                }
            },
        }
    }

    pub fn isComplete(&self) -> (r: bool)
        ensures
            r == (self.executor() is None),
    {
        self.next_executor.is_none()
    }

    pub fn consumeToState(self) -> (r: S)
        requires
            self.state() is Some,
        ensures
            Some(r) == self.state(),
    {
        self.current_state.unwrap()
    }

    /// Reads the state out while the machine keeps running.
    pub fn copyCurrentState(&self) -> (r: S) where S: Clone
        requires
            self.state() is Some,
        ensures
            cloned(self.state().unwrap(), r),
    {
        match &self.current_state {
            Some(s) => s.clone(),
            None => vstd::pervasive::unreached(),
        }
    }
}

} // verus!
