use script_pipeline::classifier::Severity;
use script_pipeline::coordinator::{
    ChannelEvent, CoordinatorState, ExecutionCoordinator, PollResponse, PROGRESS_SCALE,
    PROGRESS_STEP,
};
use script_pipeline::log::{LogBuffer, LogEntry};
use script_pipeline::report::ExecutionOutcome;

#[test]
fn one_cycle_delivers_exactly_one_outcome() {
    let mut coordinator = ExecutionCoordinator::new();
    assert_eq!(coordinator.state, CoordinatorState::Idle);
    coordinator.start();
    assert_eq!(coordinator.state, CoordinatorState::Running);

    let mut delivered = 0;
    // two empty checks, then the worker's one message
    for _ in 0..2 {
        match coordinator.poll(ChannelEvent::Empty) {
            PollResponse::Pending => {}
            other => panic!("expected pending, got {other:?}"),
        }
    }
    let message = Ok(ExecutionOutcome::Success("[Output]\nok".to_string()));
    match coordinator.poll(ChannelEvent::Received(message.clone())) {
        PollResponse::Ready(m) => {
            delivered += 1;
            assert_eq!(m, message);
        }
        other => panic!("expected ready, got {other:?}"),
    }
    assert_eq!(delivered, 1);
    assert_eq!(coordinator.state, CoordinatorState::Completed);
    // polling is no longer legal: the cycle is over and the outcome cannot be
    // observed again
    coordinator.acknowledge();
    assert_eq!(coordinator.state, CoordinatorState::Idle);
}

#[test]
fn lost_worker_surfaces_as_disconnect_then_idle() {
    // the worker is dropped before sending
    let mut coordinator = ExecutionCoordinator::new();
    coordinator.start();
    match coordinator.poll(ChannelEvent::Empty) {
        PollResponse::Pending => {}
        other => panic!("expected pending, got {other:?}"),
    }
    match coordinator.poll(ChannelEvent::Disconnected) {
        PollResponse::Lost => {}
        other => panic!("expected lost, got {other:?}"),
    }
    assert_eq!(coordinator.state, CoordinatorState::Disconnected);
    coordinator.acknowledge();
    assert_eq!(coordinator.state, CoordinatorState::Idle);
}

#[test]
fn cancel_returns_to_idle_without_delivery() {
    let mut coordinator = ExecutionCoordinator::new();
    coordinator.start();
    coordinator.cancel();
    assert_eq!(coordinator.state, CoordinatorState::Idle);
    assert_eq!(coordinator.progress, 0);
}

#[test]
fn progress_advances_and_wraps() {
    let mut coordinator = ExecutionCoordinator::new();
    coordinator.start();
    assert_eq!(coordinator.progress, 0);
    coordinator.poll(ChannelEvent::Empty);
    assert_eq!(coordinator.progress, PROGRESS_STEP);
    let polls = (PROGRESS_SCALE / PROGRESS_STEP) as usize - 1;
    for _ in 0..polls {
        coordinator.poll(ChannelEvent::Empty);
    }
    // a full turn of the indicator wraps back to zero
    assert_eq!(coordinator.progress, 0);
}

fn entry(text: &str) -> LogEntry {
    LogEntry {
        severity: Severity::Okay,
        text: text.to_string(),
        timestamp: "12:00:00.000".to_string(),
    }
}

#[test]
fn log_buffer_drops_oldest_at_capacity() {
    let mut log = LogBuffer::new(3);
    for text in ["first", "second", "third", "fourth"] {
        log.push(entry(text));
    }
    assert_eq!(log.len(), 3);
    assert_eq!(log.entries[0].text, "second");
    assert_eq!(log.entries[2].text, "fourth");
}

#[test]
fn log_buffer_keeps_order_below_capacity() {
    let mut log = LogBuffer::new(10);
    log.push(entry("a"));
    log.push(entry("b"));
    assert_eq!(log.len(), 2);
    assert_eq!(log.entries[0].text, "a");
    assert_eq!(log.entries[1].text, "b");
}
