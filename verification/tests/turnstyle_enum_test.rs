use fluent_state_machine::{StateMachine, StateMachineBuilder};

#[derive(Debug, Clone, Copy, PartialEq)]
enum States {
    Locked,
    UnLocked,
}

#[derive(PartialEq)]
enum Triggers {
    Coin,
    Push,
}

fn create_locked_turnstile() -> StateMachine<Triggers, States, ()> {
    StateMachineBuilder::new((), States::Locked)
        .state(States::Locked)
        .event(Triggers::Coin, States::UnLocked)
        .event(Triggers::Push, States::Locked)
        .state(States::UnLocked)
        .event(Triggers::Coin, States::UnLocked)
        .event(Triggers::Push, States::Locked)
        .build()
        .unwrap()
}

#[test]
fn turnstyle_enum_test_test_locked() {
    let mut sm = create_locked_turnstile();
    sm = sm.trigger(Triggers::Push);
    assert_eq!(sm.state, States::Locked);
}

#[test]
fn turnstyle_enum_test_test_unlocked() {
    let mut sm = create_locked_turnstile();
    sm = sm.trigger(Triggers::Coin);
    sm = sm.trigger(Triggers::Push);
    assert_eq!(sm.state, States::Locked);
}

#[test]
fn turnstyle_enum_test_test_locked_to_unlocked() {
    let mut sm = create_locked_turnstile();
    sm = sm.trigger(Triggers::Coin);
    assert_eq!(sm.state, States::UnLocked);
}

#[test]
fn turnstyle_enum_test_test_unlocked_to_locked() {
    let mut sm = create_locked_turnstile();
    sm = sm.trigger(Triggers::Coin);
    sm = sm.trigger(Triggers::Push);
    sm = sm.trigger(Triggers::Push);
    assert_eq!(sm.state, States::Locked);
}
