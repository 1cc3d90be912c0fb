use evict::fsm::{Executor, NextState, StateMachine};

/// Stores the last positive input, forgets on a negative one, ends on zero.
struct Storer;

impl Executor<Option<i64>, i64> for Storer {
    fn execute(&self, state: Option<i64>, input: i64) -> NextState<Option<i64>, Storer> {
        if input == 0 {
            NextState::End(state)
        } else if input < 0 {
            NextState::Continue(None)
        } else {
            NextState::Continue(Some(input))
        }
    }
}

#[test]
fn simpleStorage() {
    let mut stateM: StateMachine<Option<i64>, Storer> = StateMachine::new(Storer, None);
    assert!(stateM.copyCurrentState() == None);
    stateM.process(2);
    assert!(stateM.copyCurrentState() == Some(2));
    stateM.process(0);
    assert!(stateM.isComplete());
}

#[test]
fn ended_machine_keeps_its_state() {
    let mut m: StateMachine<Option<i64>, Storer> = StateMachine::new(Storer, None);
    m.process(7);
    m.process(0);
    assert!(m.isComplete());
    m.process(5);
    assert!(m.isComplete());
    assert!(m.copyCurrentState() == Some(7));
    assert_eq!(m.consumeToState(), Some(7));
}
