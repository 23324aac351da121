use dsh_pet::runner::{RunAction, RunEvent, Runner};

#[test]
fn runner_sets_up_in_order_then_polls() {
    let mut r = Runner::new();
    assert!(matches!(r.step(RunEvent::NotFound), RunAction::WaitThenDiscover));
    assert!(matches!(r.step(RunEvent::Found("http://h:1".to_string())), RunAction::UseAddress(u) if u == "http://h:1"));
    assert!(matches!(r.step(RunEvent::StepDone), RunAction::ClearPending));
    assert!(matches!(r.step(RunEvent::StepDone), RunAction::OpenStreams));
    assert!(matches!(r.step(RunEvent::StepDone), RunAction::Poll));
    assert!(matches!(r.step(RunEvent::Found("x".to_string())), RunAction::Ignore));
}

#[test]
fn runner_rediscovers_on_third_failure_in_a_row() {
    let mut r = Runner::new();
    r.step(RunEvent::Found("u".to_string()));
    r.step(RunEvent::StepDone);
    r.step(RunEvent::StepDone);
    r.step(RunEvent::StepDone);
    assert!(matches!(r.step(RunEvent::Polled(false)), RunAction::Poll));
    assert!(matches!(r.step(RunEvent::Polled(false)), RunAction::Poll));
    assert!(matches!(r.step(RunEvent::Polled(true)), RunAction::Poll));
    assert!(matches!(r.step(RunEvent::Polled(false)), RunAction::Poll));
    assert!(matches!(r.step(RunEvent::Polled(false)), RunAction::Poll));
    assert!(matches!(r.step(RunEvent::Polled(false)), RunAction::DropStreamsThenDiscover));
    assert!(matches!(r.step(RunEvent::StepDone), RunAction::Ignore));
    assert!(matches!(r.step(RunEvent::NotFound), RunAction::WaitThenDiscover));
}
