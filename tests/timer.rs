use pomegranate::{ConnectionLoop, DoublingTimer, LinkAction, LinkEvent, LinkState};

#[test]
fn doubling_timer_normal() {
    let mut timer = DoublingTimer::new(2, 1000);

    assert_eq!(timer.next(), 1000);
    assert_eq!(timer.next(), 1000);
    assert_eq!(timer.next(), 2000);
    assert_eq!(timer.next(), 2000);
    assert_eq!(timer.next(), 4000);
    assert_eq!(timer.next(), 4000);

    timer.reset();

    assert_eq!(timer.next(), 1000);
    assert_eq!(timer.next(), 1000);
    assert_eq!(timer.next(), 2000);
    assert_eq!(timer.next(), 2000);
    assert_eq!(timer.next(), 4000);
    assert_eq!(timer.next(), 4000);
}

#[test]
fn doubling_timer_nodouble() {
    let mut timer = DoublingTimer::new(0, 2500);

    assert_eq!(timer.next(), 2500);
    assert_eq!(timer.next(), 2500);
    assert_eq!(timer.next(), 2500);
    assert_eq!(timer.next(), 2500);
    assert_eq!(timer.next(), 2500);
    assert_eq!(timer.next(), 2500);

    timer.reset();

    assert_eq!(timer.next(), 2500);
}

#[test]
fn doubling_timer_flat_one_doubles_every_time() {
    let mut timer = DoublingTimer::new(1, 3);
    assert_eq!(timer.next(), 3);
    assert_eq!(timer.next(), 6);
    assert_eq!(timer.next(), 12);
}

#[test]
fn doubling_timer_holds_at_max() {
    let mut timer = DoublingTimer::with_max(1, 1000, 3000);
    assert_eq!(timer.next(), 1000);
    assert_eq!(timer.next(), 2000);
    assert_eq!(timer.next(), 3000);
    assert_eq!(timer.next(), 3000);
    timer.reset();
    assert_eq!(timer.next(), 1000);
    let mut low = DoublingTimer::with_max(2, 5000, 100);
    assert_eq!(low.next(), 100);
}

#[test]
fn doubling_timer_saturates_without_max() {
    let mut timer = DoublingTimer::new(1, u64::MAX / 2 + 1);
    assert_eq!(timer.next(), u64::MAX / 2 + 1);
    assert_eq!(timer.next(), u64::MAX);
    assert_eq!(timer.next(), u64::MAX);
}

#[test]
fn connection_loop_backs_off_and_resets() {
    let mut c = ConnectionLoop::with_default_backoff();
    assert_eq!(c.state(), LinkState::Disconnected);
    let mut delays = vec![];
    for _ in 0..7 {
        assert_eq!(c.step(LinkEvent::Retry), Some(LinkAction::Connect));
        match c.step(LinkEvent::TransportFailed) {
            Some(LinkAction::Sleep(ms)) => delays.push(ms),
            other => panic!("unexpected {:?}", other),
        }
    }
    assert_eq!(delays, vec![1000, 1000, 1000, 1000, 1000, 2000, 2000]);

    assert_eq!(c.step(LinkEvent::Retry), Some(LinkAction::Connect));
    assert_eq!(c.step(LinkEvent::TransportOpened), Some(LinkAction::Handshake));
    assert_eq!(c.state(), LinkState::Handshaking);
    assert_eq!(c.step(LinkEvent::HandshakeDone), Some(LinkAction::Receive));
    assert_eq!(c.state(), LinkState::Connected);
    assert_eq!(c.step(LinkEvent::MessageReceived), Some(LinkAction::Receive));
    assert_eq!(c.step(LinkEvent::ReceiveFailed), Some(LinkAction::Sleep(1000)));
    assert_eq!(c.state(), LinkState::Disconnected);
}

#[test]
fn connection_loop_handshake_failure_backs_off() {
    let mut c = ConnectionLoop::new(DoublingTimer::new(1, 10));
    assert_eq!(c.step(LinkEvent::Retry), Some(LinkAction::Connect));
    assert_eq!(c.step(LinkEvent::TransportOpened), Some(LinkAction::Handshake));
    assert_eq!(c.step(LinkEvent::HandshakeFailed), Some(LinkAction::Sleep(10)));
    assert_eq!(c.step(LinkEvent::Retry), Some(LinkAction::Connect));
    assert_eq!(c.step(LinkEvent::TransportFailed), Some(LinkAction::Sleep(20)));
}

#[test]
fn connection_loop_ignores_events_out_of_place() {
    let mut c = ConnectionLoop::with_default_backoff();
    assert_eq!(c.step(LinkEvent::MessageReceived), None);
    assert_eq!(c.step(LinkEvent::HandshakeDone), None);
    assert_eq!(c.state(), LinkState::Disconnected);
    assert_eq!(c.step(LinkEvent::Retry), Some(LinkAction::Connect));
    assert_eq!(c.step(LinkEvent::Retry), None);
    assert_eq!(c.state(), LinkState::Connecting);
}
