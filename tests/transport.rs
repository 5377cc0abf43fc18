use input_agent::protocol::Action;
use input_agent::transport::{
    LinkState, Transport, TransportCommand, TransportEvent, RECONNECT_DELAY_SECS,
};

fn scene(id: &str) -> Action {
    Action::ActivateScene(id.to_string())
}

fn connected() -> Transport {
    let mut t = Transport::new();
    assert_eq!(t.step(TransportEvent::Resume), TransportCommand::Connect);
    assert_eq!(t.state, LinkState::Handshaking);
    assert_eq!(t.step(TransportEvent::Established), TransportCommand::Wait);
    assert_eq!(t.state, LinkState::Connected);
    t
}

#[test]
fn failed_connection_backs_off_and_resends_pending() {
    let mut t = connected();
    let line = "{\"ActivateScene\":\"a\"}".to_string();
    assert_eq!(t.step(TransportEvent::Dequeued(scene("a"))), TransportCommand::Send(line.clone()));
    assert_eq!(t.step(TransportEvent::Lost), TransportCommand::Backoff(RECONNECT_DELAY_SECS));
    assert_eq!(RECONNECT_DELAY_SECS, 5);
    assert_eq!(t.state, LinkState::Disconnected);
    assert_eq!(t.pending, Some(scene("a")));
    assert_eq!(t.step(TransportEvent::Resume), TransportCommand::Connect);
    assert_eq!(t.step(TransportEvent::Lost), TransportCommand::Backoff(RECONNECT_DELAY_SECS));
    assert_eq!(t.step(TransportEvent::Resume), TransportCommand::Connect);
    assert_eq!(t.step(TransportEvent::Established), TransportCommand::Send(line));
    assert_eq!(t.step(TransportEvent::Written), TransportCommand::Wait);
    assert_eq!(t.pending, None);
}

#[test]
fn actions_are_sent_in_dequeue_order() {
    let mut t = connected();
    assert_eq!(
        t.step(TransportEvent::Dequeued(scene("first"))),
        TransportCommand::Send("{\"ActivateScene\":\"first\"}".to_string())
    );
    assert_eq!(t.step(TransportEvent::Written), TransportCommand::Wait);
    assert_eq!(
        t.step(TransportEvent::Dequeued(scene("second"))),
        TransportCommand::Send("{\"ActivateScene\":\"second\"}".to_string())
    );
}

#[test]
fn second_action_while_one_is_in_flight_fails() {
    let mut t = connected();
    t.step(TransportEvent::Dequeued(scene("first")));
    assert_eq!(t.step(TransportEvent::Dequeued(scene("second"))), TransportCommand::Fail);
    assert_eq!(t.pending, Some(scene("first")));
}

#[test]
fn closed_queue_is_fatal() {
    let mut t = connected();
    assert_eq!(t.step(TransportEvent::QueueClosed), TransportCommand::Fail);
    let mut d = Transport::new();
    assert_eq!(d.step(TransportEvent::QueueClosed), TransportCommand::Fail);
}

#[test]
fn inbound_records_are_ignored() {
    let mut t = connected();
    assert_eq!(t.step(TransportEvent::Received), TransportCommand::Wait);
    assert_eq!(t.state, LinkState::Connected);
}

#[test]
fn unframeable_action_drops_connection() {
    let mut t = connected();
    assert_eq!(
        t.step(TransportEvent::Dequeued(Action::Update("{\n}".to_string()))),
        TransportCommand::Backoff(RECONNECT_DELAY_SECS)
    );
    assert_eq!(t.state, LinkState::Disconnected);
    assert_eq!(t.pending, None);
}

#[test]
fn handshake_failure_backs_off() {
    let mut t = Transport::new();
    t.step(TransportEvent::Resume);
    assert_eq!(t.step(TransportEvent::Lost), TransportCommand::Backoff(5));
    assert_eq!(t.state, LinkState::Disconnected);
}
