//! State-core diffs, focus tracking, and the notification bridge.

use weston_ivi_controller::bridge::NotificationBridge;
use weston_ivi_controller::geometry::{Rectangle, SurfaceSize};
use weston_ivi_controller::notifications::{
    FocusChangeNotification, GeometryChangeNotification, Notification, NotificationData,
    NotificationType,
};
use weston_ivi_controller::orientation::Orientation;
use weston_ivi_controller::protocol::EventType;
use weston_ivi_controller::state::{StateManager, SurfaceSnapshot, SurfaceState};
use weston_ivi_controller::subscriptions::SubscriptionManager;

fn rect(x: i32, y: i32, width: i32, height: i32) -> Rectangle {
    Rectangle { x, y, width, height }
}

#[test]
fn emits_visibility_opacity_orientation_and_geometry_changes() {
    let sm = StateManager::new();
    let old = SurfaceState {
        id: 42,
        orig_size: SurfaceSize { width: 100, height: 100 },
        src_rect: rect(0, 0, 100, 100),
        dest_rect: rect(0, 0, 100, 100),
        visibility: false,
        opacity: 1000000,
        orientation: Orientation::Normal,
        z_order: 0,
    };
    let new_state = SurfaceState {
        src_rect: rect(10, 10, 100, 100),
        dest_rect: rect(0, 0, 200, 200),
        visibility: true,
        opacity: 500000,
        orientation: Orientation::Rotate90,
        ..old
    };

    let got = sm.emit_surface_property_changes(42, &old, &new_state);

    let types: Vec<NotificationType> = got.iter().map(|n| n.notification_type).collect();
    assert!(types.contains(&NotificationType::GeometryChanged));
    assert!(types.contains(&NotificationType::VisibilityChanged));
    assert!(types.contains(&NotificationType::OpacityChanged));
    assert!(types.contains(&NotificationType::OrientationChanged));
    // Both rectangles changed, so two geometry notifications and one
    // each of the other three.
    assert_eq!(got.len(), 5);
}

#[test]
fn emits_only_orientation_change_when_only_orientation_differs() {
    let sm = StateManager::new();
    let old = SurfaceState {
        id: 1,
        orig_size: SurfaceSize { width: 200, height: 150 },
        src_rect: rect(10, 10, 200, 150),
        dest_rect: rect(10, 10, 200, 150),
        visibility: true,
        opacity: 750000,
        orientation: Orientation::Normal,
        z_order: 0,
    };
    let new_state = SurfaceState { orientation: Orientation::Rotate180, ..old };

    let got = sm.emit_surface_property_changes(1, &old, &new_state);

    assert_eq!(got.len(), 1);
    assert_eq!(got[0].notification_type, NotificationType::OrientationChanged);
}

#[test]
fn mask_gates_which_diffs_are_emitted() {
    let sm = StateManager::new();
    let old = SurfaceState {
        id: 9,
        orig_size: SurfaceSize { width: 64, height: 64 },
        src_rect: rect(0, 0, 64, 64),
        dest_rect: rect(0, 0, 64, 64),
        visibility: false,
        opacity: 1000000,
        orientation: Orientation::Normal,
        z_order: 0,
    };
    let new_state = SurfaceState { visibility: true, opacity: 200000, ..old };

    // Only the visibility bit is set: the opacity change is not
    // reported.
    let got = sm.emit_surface_property_changes_filtered(9, &old, &new_state, 128);
    assert_eq!(got.len(), 1);
    assert_eq!(got[0].notification_type, NotificationType::VisibilityChanged);
}

#[test]
fn destroying_focused_surface_clears_focus_and_reports_it() {
    let mut sm = StateManager::new();
    let snapshot = SurfaceSnapshot {
        orig_size: SurfaceSize { width: 10, height: 10 },
        src_rect: Some(rect(0, 0, 10, 10)),
        dest_rect: Some(rect(0, 0, 10, 10)),
        visibility: true,
        opacity: 1000000,
        orientation: Orientation::Normal,
        event_mask: 0,
    };
    sm.handle_surface_created(5, snapshot).unwrap();
    sm.set_focused_surface(Some(5));
    assert_eq!(sm.get_focused_surface(), Some(5));

    let notes = sm.handle_surface_destroyed(5);
    assert_eq!(sm.get_focused_surface(), None);
    assert_eq!(notes.len(), 2);
    assert_eq!(notes[0].notification_type, NotificationType::SurfaceDestroyed);
    assert_eq!(notes[1].notification_type, NotificationType::FocusChanged);
    match &notes[1].data {
        NotificationData::FocusChange(f) => {
            assert_eq!(f.old_focused_surface, Some(5));
            assert_eq!(f.new_focused_surface, None);
        },
        _ => panic!("expected a focus change"),
    }
}

#[test]
fn layer_mask_zero_diffs_everything() {
    let mut sm = StateManager::new();
    let seeded = weston_ivi_controller::state::LayerSnapshot {
        visibility: false,
        opacity: 1000000,
        event_mask: 0,
    };
    sm.handle_layer_created(3000, seeded);

    // An unknown mask diffs every attribute.
    let changed = weston_ivi_controller::state::LayerSnapshot {
        visibility: true,
        opacity: 500000,
        event_mask: 0,
    };
    let notes = sm.handle_layer_configured(3000, changed);
    let types: Vec<NotificationType> = notes.iter().map(|n| n.notification_type).collect();
    assert_eq!(
        types,
        vec![
            NotificationType::LayerVisibilityChanged,
            NotificationType::LayerOpacityChanged,
        ]
    );

    // A mask flagging only visibility gates the opacity diff out.
    let changed_again = weston_ivi_controller::state::LayerSnapshot {
        visibility: false,
        opacity: 250000,
        event_mask: 128,
    };
    let notes = sm.handle_layer_configured(3000, changed_again);
    assert_eq!(notes.len(), 1);
    assert_eq!(notes[0].notification_type, NotificationType::LayerVisibilityChanged);
}

fn parse_notification(rn: &weston_ivi_controller::protocol::RpcNotification) -> serde_json::Value {
    serde_json::from_str(&rn.to_json()).unwrap()
}

#[test]
fn test_convert_surface_created() {
    let bridge = NotificationBridge::new();
    let notification = Notification {
        notification_type: NotificationType::SurfaceCreated,
        data: NotificationData::SurfaceCreated { surface_id: 1000 },
    };

    let (event_type, rpc_notification) = bridge.convert_notification(&notification);

    assert_eq!(event_type, EventType::SurfaceCreated);
    let v = parse_notification(&rpc_notification);
    assert_eq!(v["method"].as_str().unwrap(), "notification");
    assert_eq!(v["params"]["event_type"].as_str().unwrap(), "SurfaceCreated");
    assert_eq!(v["params"]["surface_id"].as_u64().unwrap(), 1000);
}

#[test]
fn test_convert_geometry_change() {
    let bridge = NotificationBridge::new();
    let notification = Notification {
        notification_type: NotificationType::GeometryChanged,
        data: NotificationData::SourceGeometryChange(GeometryChangeNotification {
            surface_id: 1000,
            old_rect: rect(0, 0, 1920, 1080),
            new_rect: rect(100, 100, 1280, 720),
        }),
    };

    let (event_type, rpc_notification) = bridge.convert_notification(&notification);

    assert_eq!(event_type, EventType::SourceGeometryChanged);
    let v = parse_notification(&rpc_notification);
    assert_eq!(v["params"]["event_type"].as_str().unwrap(), "SourceGeometryChanged");
    assert_eq!(v["params"]["surface_id"].as_u64().unwrap(), 1000);
    assert_eq!(v["params"]["old_rect"]["width"].as_u64().unwrap(), 1920);
    assert_eq!(v["params"]["new_rect"]["x"].as_u64().unwrap(), 100);
}

#[test]
fn test_convert_focus_change() {
    let bridge = NotificationBridge::new();
    let notification = Notification {
        notification_type: NotificationType::FocusChanged,
        data: NotificationData::FocusChange(FocusChangeNotification {
            old_focused_surface: Some(1000),
            new_focused_surface: Some(2000),
        }),
    };

    let (event_type, rpc_notification) = bridge.convert_notification(&notification);

    assert_eq!(event_type, EventType::FocusChanged);
    let v = parse_notification(&rpc_notification);
    assert_eq!(v["params"]["old_focused_surface"].as_u64().unwrap(), 1000);
    assert_eq!(v["params"]["new_focused_surface"].as_u64().unwrap(), 2000);
}

#[test]
fn test_convert_layer_created() {
    let bridge = NotificationBridge::new();
    let notification = Notification {
        notification_type: NotificationType::LayerCreated,
        data: NotificationData::LayerCreated { layer_id: 5000 },
    };

    let (event_type, rpc_notification) = bridge.convert_notification(&notification);

    assert_eq!(event_type, EventType::LayerCreated);
    let v = parse_notification(&rpc_notification);
    assert_eq!(v["params"]["event_type"].as_str().unwrap(), "LayerCreated");
    assert_eq!(v["params"]["layer_id"].as_u64().unwrap(), 5000);
}

#[test]
fn test_handle_notification_queues_to_manager() {
    let bridge = NotificationBridge::new();
    let mut manager = SubscriptionManager::new();

    manager.subscribe(1, vec![EventType::SurfaceCreated]).unwrap();

    let notification = Notification {
        notification_type: NotificationType::SurfaceCreated,
        data: NotificationData::SurfaceCreated { surface_id: 1000 },
    };

    bridge.handle_notification(&mut manager, &notification);

    let notifications = manager.drain_notifications(1);
    assert_eq!(notifications.len(), 1);
    let v = parse_notification(&notifications[0]);
    assert_eq!(v["method"].as_str().unwrap(), "notification");
}
