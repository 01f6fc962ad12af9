use api_usage_analyzer::hub::{BroadcastHub, Received, WsMessage};

fn alert(n: u128) -> WsMessage {
    WsMessage::AlertNotification {
        user_id: n,
        alert_type: "test".to_string(),
        message: format!("event {}", n),
    }
}

fn user_of(r: &Received) -> Option<u128> {
    match r {
        Received::Event(WsMessage::AlertNotification { user_id, .. }) => Some(*user_id),
        _ => None,
    }
}

#[test]
fn connected_subscribers_see_events_in_order_late_ones_do_not() {
    let mut hub = BroadcastHub::new(100);
    let early = hub.subscribe();
    hub.publish(alert(1));
    hub.publish(alert(2));
    let late = hub.subscribe();
    hub.publish(alert(3));

    assert_eq!(user_of(&hub.receive(early)), Some(1));
    assert_eq!(user_of(&hub.receive(early)), Some(2));
    assert_eq!(user_of(&hub.receive(early)), Some(3));
    assert!(matches!(hub.receive(early), Received::Empty));

    assert_eq!(user_of(&hub.receive(late)), Some(3));
    assert!(matches!(hub.receive(late), Received::Empty));
}

#[test]
fn slow_subscriber_does_not_hold_back_others() {
    let mut hub = BroadcastHub::new(2);
    let slow = hub.subscribe();
    let fast = hub.subscribe();
    for n in 1..=5u128 {
        hub.publish(alert(n));
        assert_eq!(user_of(&hub.receive(fast)), Some(n));
    }
    assert_eq!(hub.published_count(), 5);
    assert!(matches!(hub.receive(slow), Received::Lagged(3)));
    assert_eq!(user_of(&hub.receive(slow)), Some(4));
    assert_eq!(user_of(&hub.receive(slow)), Some(5));
    assert!(matches!(hub.receive(slow), Received::Empty));
}

#[test]
fn publishing_without_subscribers_is_lost_to_later_ones() {
    let mut hub = BroadcastHub::new(10);
    hub.publish(alert(7));
    let s = hub.subscribe();
    assert!(matches!(hub.receive(s), Received::Empty));
}

#[test]
fn disconnected_subscriber_is_closed_and_slot_reused() {
    let mut hub = BroadcastHub::new(10);
    let a = hub.subscribe();
    let b = hub.subscribe();
    hub.unsubscribe(a);
    assert!(matches!(hub.receive(a), Received::Closed));
    hub.publish(alert(1));
    assert_eq!(user_of(&hub.receive(b)), Some(1));
    let c = hub.subscribe();
    assert_eq!(c, a);
    assert!(matches!(hub.receive(c), Received::Empty));
    assert!(matches!(hub.receive(99), Received::Closed));
}

#[test]
fn publish_all_keeps_order() {
    let mut hub = BroadcastHub::new(10);
    let s = hub.subscribe();
    hub.publish_all(vec![alert(1), alert(2), alert(3)]);
    assert_eq!(user_of(&hub.receive(s)), Some(1));
    assert_eq!(user_of(&hub.receive(s)), Some(2));
    assert_eq!(user_of(&hub.receive(s)), Some(3));
}
