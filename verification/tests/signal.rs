use traffic_engine::signal::StopSignal;

#[test]
fn fresh_signal_is_active() {
    assert!(StopSignal::new().is_active());
}

#[test]
fn stop_request_clears_the_signal() {
    let mut signal = StopSignal::new();
    signal.activate();
    assert!(signal.is_active());
    signal.request_stop();
    assert!(!signal.is_active());
}

#[test]
fn stop_request_twice_is_stop_request_once() {
    let mut once = StopSignal::new();
    once.activate();
    once.request_stop();
    let mut twice = StopSignal::new();
    twice.activate();
    twice.request_stop();
    twice.request_stop();
    assert_eq!(once, twice);
    assert!(!twice.is_active());
}

#[test]
fn activation_sets_the_signal_again() {
    let mut signal = StopSignal::new();
    signal.request_stop();
    assert!(!signal.is_active());
    signal.activate();
    assert!(signal.is_active());
    signal.activate();
    assert!(signal.is_active());
}

#[test]
fn copies_do_not_share_state() {
    let mut signal = StopSignal::new();
    let copy = signal;
    signal.request_stop();
    assert!(copy.is_active());
    assert!(!signal.is_active());
}
