//! Subscription bookkeeping and bounded outboxes.

use weston_ivi_controller::json::JsonValue;
use weston_ivi_controller::protocol::{EventType, RpcNotification};
use weston_ivi_controller::subscriptions::SubscriptionManager;

fn sample_notification(surface_id: u64) -> RpcNotification {
    let params = JsonValue::Obj(vec![
        (
            "event_type".to_string(),
            JsonValue::Str("SurfaceCreated".to_string()),
        ),
        ("surface_id".to_string(), JsonValue::Num(surface_id.to_string())),
    ]);
    RpcNotification::new("notification".to_string(), params)
}

#[test]
fn test_subscribe() {
    let mut manager = SubscriptionManager::new();
    let client_id = 1;
    let events = vec![EventType::SurfaceCreated, EventType::SurfaceDestroyed];

    let result = manager.subscribe(client_id, events.clone());
    assert!(result.is_ok());
    assert_eq!(result.unwrap(), events);

    let subs = manager.get_subscriptions(client_id);
    assert_eq!(subs.len(), 2);
}

#[test]
fn test_unsubscribe() {
    let mut manager = SubscriptionManager::new();
    let client_id = 1;

    manager
        .subscribe(
            client_id,
            vec![EventType::SurfaceCreated, EventType::SourceGeometryChanged],
        )
        .unwrap();

    let result = manager.unsubscribe(client_id, vec![EventType::SurfaceCreated]);
    assert!(result.is_ok());

    let subs = manager.get_subscriptions(client_id);
    assert_eq!(subs.len(), 1);
    assert!(subs.contains(&EventType::SourceGeometryChanged));
}

#[test]
fn test_queue_and_drain_notifications() {
    let mut manager = SubscriptionManager::new();
    let client_id = 1;

    manager.subscribe(client_id, vec![EventType::SurfaceCreated]).unwrap();

    let notification = sample_notification(1000);
    let expected = notification.to_json();

    manager.queue_notification(EventType::SurfaceCreated, notification);

    let drained = manager.drain_notifications(client_id);
    assert_eq!(drained.len(), 1);
    assert_eq!(drained[0].to_json(), expected);

    let drained2 = manager.drain_notifications(client_id);
    assert_eq!(drained2.len(), 0);
}

#[test]
fn test_buffer_overflow() {
    let mut manager = SubscriptionManager::with_buffer_size(2);
    let client_id = 1;

    manager.subscribe(client_id, vec![EventType::SurfaceCreated]).unwrap();

    for i in 1..=3 {
        manager.queue_notification(EventType::SurfaceCreated, sample_notification(i));
    }

    let drained = manager.drain_notifications(client_id);
    assert_eq!(drained.len(), 2);
    // FIFO drop: the first notification went, the second and third stay.
    assert_eq!(drained[0].to_json(), sample_notification(2).to_json());
    assert_eq!(drained[1].to_json(), sample_notification(3).to_json());
}

#[test]
fn test_remove_client() {
    let mut manager = SubscriptionManager::new();
    let client_id = 1;

    manager.subscribe(client_id, vec![EventType::SurfaceCreated]).unwrap();

    assert_eq!(manager.subscriber_count(), 1);

    manager.remove_client(client_id);

    assert_eq!(manager.subscriber_count(), 0);
    assert_eq!(manager.get_subscriptions(client_id).len(), 0);
}

#[test]
fn test_only_subscribed_clients_receive_notifications() {
    let mut manager = SubscriptionManager::new();
    let client1 = 1;
    let client2 = 2;

    manager.subscribe(client1, vec![EventType::SurfaceCreated]).unwrap();
    manager.subscribe(client2, vec![EventType::SourceGeometryChanged]).unwrap();

    manager.queue_notification(EventType::SurfaceCreated, sample_notification(7));

    let drained1 = manager.drain_notifications(client1);
    assert_eq!(drained1.len(), 1);

    let drained2 = manager.drain_notifications(client2);
    assert_eq!(drained2.len(), 0);
}

#[test]
fn test_unsubscribe_unknown_client_is_refused() {
    let mut manager = SubscriptionManager::new();
    let result = manager.unsubscribe(9, vec![EventType::SurfaceCreated]);
    assert_eq!(result.unwrap_err(), "Client 9 has no subscriptions");
}

#[test]
fn test_subscribe_twice_keeps_one_entry() {
    let mut manager = SubscriptionManager::new();
    manager.subscribe(1, vec![EventType::FocusChanged]).unwrap();
    manager.subscribe(1, vec![EventType::FocusChanged]).unwrap();
    assert_eq!(manager.get_subscriptions(1), vec![EventType::FocusChanged]);
}
