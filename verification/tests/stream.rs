use alpamayo::storage::source::{
    handle_event, resolve, ConfigReconnect, Delivery, HttpRequest, HttpSourceConnectedError,
    HttpSourceConnectedResult, SourceAction, SourceEvent, StreamAction, StreamPhase, StreamState,
};

const SECOND: u128 = 1_000_000_000;

fn reconnect(attempts: u8) -> ConfigReconnect {
    ConfigReconnect {
        backoff_init: SECOND,
        backoff_max: 5 * SECOND,
        from_slot_max_attempts: attempts,
    }
}

#[test]
fn the_first_connection_is_live_without_slots() {
    let mut state = StreamState::new(Some(reconnect(2)));
    assert_eq!(state.begin(0), StreamAction::Connect { from_slot: None });
    state.connected();
    assert_eq!(state.phase, StreamPhase::Streaming { resumed: false, received: false });
}

#[test]
fn a_stream_resumes_behind_the_confirmed_slot() {
    let mut state = StreamState::new(Some(reconnect(2)));
    assert_eq!(state.begin(41), StreamAction::Connect { from_slot: Some(42) });
    state.connected();
    state.message_received();
    assert_eq!(state.phase, StreamPhase::Streaming { resumed: true, received: true });
    assert_eq!(state.broke_off(true), StreamAction::WaitAndRestart { nanos: SECOND });
    assert_eq!(state.from_slot_attempts, 0);
    assert_eq!(state.begin(50), StreamAction::Connect { from_slot: Some(51) });
}

#[test]
fn a_slot_is_given_up_after_failed_connections() {
    let mut state = StreamState::new(Some(reconnect(2)));
    assert_eq!(state.begin(41), StreamAction::Connect { from_slot: Some(42) });
    assert_eq!(
        state.connect_failed(),
        StreamAction::WaitAndConnect { nanos: 5 * SECOND, from_slot: Some(42) }
    );
    assert_eq!(state.connect_failed(), StreamAction::WaitAndRestart { nanos: 5 * SECOND });
    assert_eq!(state.begin(41), StreamAction::CatchUp);
    assert_eq!(state.caught_up(), StreamAction::Connect { from_slot: None });
    assert_eq!(state.from_slot_attempts, 0);
}

#[test]
fn a_slot_is_given_up_after_streams_without_messages() {
    let mut state = StreamState::new(Some(reconnect(2)));
    for _ in 0..2 {
        assert_eq!(state.begin(41), StreamAction::Connect { from_slot: Some(42) });
        state.connected();
        assert_eq!(state.broke_off(true), StreamAction::WaitAndRestart { nanos: SECOND });
    }
    assert_eq!(state.begin(41), StreamAction::CatchUp);
}

#[test]
fn a_slot_is_given_up_after_failures_of_both_kinds() {
    let mut state = StreamState::new(Some(reconnect(3)));
    assert_eq!(state.begin(41), StreamAction::Connect { from_slot: Some(42) });
    state.connected();
    state.broke_off(true);
    assert_eq!(state.begin(41), StreamAction::Connect { from_slot: Some(42) });
    assert_eq!(
        state.connect_failed(),
        StreamAction::WaitAndConnect { nanos: SECOND, from_slot: Some(42) }
    );
    assert_eq!(state.connect_failed(), StreamAction::WaitAndRestart { nanos: 2 * SECOND });
    assert_eq!(state.begin(41), StreamAction::CatchUp);
}

#[test]
fn a_stream_that_ends_without_an_error_counts_no_attempt() {
    let mut state = StreamState::new(Some(reconnect(1)));
    state.begin(41);
    state.connected();
    state.broke_off(false);
    assert_eq!(state.from_slot_attempts, 0);
    assert_eq!(state.begin(41), StreamAction::Connect { from_slot: Some(42) });
}

#[test]
fn no_attempts_mean_to_catch_up_at_once() {
    let mut state = StreamState::new(Some(reconnect(0)));
    assert_eq!(state.begin(41), StreamAction::CatchUp);
}

#[test]
fn the_wait_doubles_up_to_its_maximum() {
    let mut state = StreamState::new(Some(reconnect(200)));
    state.begin(41);
    state.connected();
    state.message_received();
    state.broke_off(true);
    state.begin(41);
    let mut waits = Vec::new();
    for _ in 0..5 {
        if let StreamAction::WaitAndConnect { nanos, .. } = state.connect_failed() {
            waits.push(nanos / SECOND);
        }
    }
    assert_eq!(waits, [1, 2, 4, 5, 5]);
}

#[test]
fn a_stream_that_is_not_connected_again_ends() {
    let mut state = StreamState::new(None);
    state.begin(0);
    state.connected();
    assert_eq!(state.broke_off(true), StreamAction::Finish);
    assert_eq!(state.phase, StreamPhase::Closed);

    let mut state = StreamState::new(None);
    state.begin(0);
    assert_eq!(state.connect_failed(), StreamAction::Fail);
    assert_eq!(state.phase, StreamPhase::Closed);
}

#[test]
fn requests_to_the_node_are_resolved() {
    let ok: HttpSourceConnectedResult<u64, &str> = resolve(Delivery::Answered(Ok(7)));
    assert!(matches!(ok, Ok(7)));
    let error: HttpSourceConnectedResult<u64, &str> = resolve(Delivery::Answered(Err("down")));
    match error {
        Err(HttpSourceConnectedError::Error(text)) => assert_eq!(text, "down"),
        other => panic!("{other:?}"),
    }
    let not_sent: HttpSourceConnectedResult<u64, &str> = resolve(Delivery::NotSent);
    assert_eq!(not_sent.unwrap_err().message(), Some("send channel is closed"));
    let lost: HttpSourceConnectedResult<u64, &str> = resolve(Delivery::Lost);
    assert_eq!(lost.unwrap_err().message(), Some("recv channel is closed"));
    assert_eq!(HttpSourceConnectedError::Error("down").message(), None);
}

#[test]
fn the_source_serves_until_it_is_stopped() {
    let request = HttpRequest::Block { slot: 3, httpget: true };
    assert!(matches!(
        handle_event::<u8>(SourceEvent::Http(Some(request))),
        SourceAction::Serve(HttpRequest::Block { slot: 3, httpget: true })
    ));
    assert!(matches!(handle_event::<u8>(SourceEvent::Http(None)), SourceAction::Stop));
    assert!(matches!(handle_event::<u8>(SourceEvent::Shutdown), SourceAction::Stop));
    assert!(matches!(handle_event(SourceEvent::StreamEnded(5u8)), SourceAction::Return(5)));
}

#[test]
fn the_first_wait_may_be_longer_than_the_maximum() {
    let mut state = StreamState::new(Some(ConfigReconnect {
        backoff_init: 9 * SECOND,
        backoff_max: 5 * SECOND,
        from_slot_max_attempts: 200,
    }));
    state.begin(41);
    state.connected();
    assert_eq!(state.broke_off(true), StreamAction::WaitAndRestart { nanos: 9 * SECOND });
    state.begin(41);
    let mut waits = Vec::new();
    for _ in 0..3 {
        if let StreamAction::WaitAndConnect { nanos, .. } = state.connect_failed() {
            waits.push(nanos / SECOND);
        }
    }
    assert_eq!(waits, [9, 5, 5]);
}
