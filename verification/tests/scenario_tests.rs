//! End-to-end request handling against a mock layout capability.

use std::collections::HashMap;
use weston_ivi_controller::bridge::NotificationBridge;
use weston_ivi_controller::geometry::{Rectangle, SurfaceSize};
use weston_ivi_controller::handler::{LayoutCapability, RpcHandler};
use weston_ivi_controller::json::JsonValue;
use weston_ivi_controller::orientation::Orientation;
use weston_ivi_controller::protocol::RpcRequest;
use weston_ivi_controller::state::{LayerSnapshot, SurfaceSnapshot};

struct MockCapability {
    committed: HashMap<u32, SurfaceSnapshot>,
    staged: HashMap<u32, SurfaceSnapshot>,
    layers: HashMap<u32, LayerSnapshot>,
    calls: Vec<String>,
}

impl MockCapability {
    fn new() -> Self {
        MockCapability {
            committed: HashMap::new(),
            staged: HashMap::new(),
            layers: HashMap::new(),
            calls: Vec::new(),
        }
    }

    fn seed_surface(&mut self, id: u32, snapshot: SurfaceSnapshot) {
        self.committed.insert(id, snapshot);
        self.staged.insert(id, snapshot);
    }
}

impl LayoutCapability for MockCapability {
    fn get_surface_snapshot(&mut self, id: u32) -> Option<SurfaceSnapshot> {
        self.calls.push(format!("get_surface {}", id));
        self.committed.get(&id).copied()
    }

    fn get_surfaces(&mut self) -> Vec<(u32, SurfaceSnapshot)> {
        self.calls.push("get_surfaces".to_string());
        self.committed.iter().map(|(k, v)| (*k, *v)).collect()
    }

    fn get_layer_snapshot(&mut self, id: u32) -> Option<LayerSnapshot> {
        self.calls.push(format!("get_layer {}", id));
        self.layers.get(&id).copied()
    }

    fn get_layers(&mut self) -> Vec<(u32, LayerSnapshot)> {
        self.calls.push("get_layers".to_string());
        self.layers.iter().map(|(k, v)| (*k, *v)).collect()
    }

    fn set_surface_destination_rectangle(
        &mut self,
        id: u32,
        x: i32,
        y: i32,
        width: i32,
        height: i32,
    ) -> Result<(), String> {
        self.calls.push(format!("set_dest {}", id));
        let entry = self.staged.get_mut(&id).ok_or("no such surface".to_string())?;
        entry.dest_rect = Some(Rectangle { x, y, width, height });
        Ok(())
    }

    fn set_surface_visibility(&mut self, id: u32, visible: bool) -> Result<(), String> {
        self.calls.push(format!("set_visibility {}", id));
        let entry = self.staged.get_mut(&id).ok_or("no such surface".to_string())?;
        entry.visibility = visible;
        Ok(())
    }

    fn set_surface_opacity(&mut self, id: u32, opacity_micro: i64) -> Result<(), String> {
        self.calls.push(format!("set_opacity {}", id));
        let entry = self.staged.get_mut(&id).ok_or("no such surface".to_string())?;
        entry.opacity = opacity_micro;
        Ok(())
    }

    fn activate_surface(&mut self, id: u32) -> Result<(), String> {
        self.calls.push(format!("activate {}", id));
        Ok(())
    }

    fn set_layer_visibility(&mut self, id: u32, visible: bool) -> Result<(), String> {
        self.calls.push(format!("set_layer_visibility {}", id));
        let entry = self.layers.get_mut(&id).ok_or("no such layer".to_string())?;
        entry.visibility = visible;
        Ok(())
    }

    fn set_layer_opacity(&mut self, id: u32, opacity_micro: i64) -> Result<(), String> {
        self.calls.push(format!("set_layer_opacity {}", id));
        let entry = self.layers.get_mut(&id).ok_or("no such layer".to_string())?;
        entry.opacity = opacity_micro;
        Ok(())
    }

    fn commit_changes(&mut self) -> Result<(), String> {
        self.calls.push("commit".to_string());
        self.committed = self.staged.clone();
        Ok(())
    }
}

fn snapshot(
    w: i32,
    h: i32,
    x: i32,
    y: i32,
    visible: bool,
    opacity_micro: i64,
    orientation: Orientation,
) -> SurfaceSnapshot {
    SurfaceSnapshot {
        orig_size: SurfaceSize { width: w, height: h },
        src_rect: Some(Rectangle { x: 0, y: 0, width: w, height: h }),
        dest_rect: Some(Rectangle { x, y, width: w, height: h }),
        visibility: visible,
        opacity: opacity_micro,
        orientation,
        event_mask: 0,
    }
}

fn obj(pairs: Vec<(&str, JsonValue)>) -> JsonValue {
    JsonValue::Obj(pairs.into_iter().map(|(k, v)| (k.to_string(), v)).collect())
}

fn num(literal: &str) -> JsonValue {
    JsonValue::Num(literal.to_string())
}

fn request(id: u64, method: &str, params: JsonValue) -> RpcRequest {
    RpcRequest::new(id, method.to_string(), params)
}

fn response_json(
    handler: &mut RpcHandler,
    cap: &mut MockCapability,
    req: &RpcRequest,
) -> serde_json::Value {
    let response = handler.handle_request(cap, 1, req);
    serde_json::from_str(&response.to_json()).unwrap()
}

fn seeded() -> (RpcHandler, MockCapability) {
    let mut handler = RpcHandler::new();
    let mut cap = MockCapability::new();
    let snap = snapshot(100, 100, 0, 0, true, 1000000, Orientation::Normal);
    cap.seed_surface(1000, snap);
    handler.state.handle_surface_created(1000, snap);
    (handler, cap)
}

fn drain_parsed(handler: &mut RpcHandler, client: u64) -> Vec<serde_json::Value> {
    handler
        .subscriptions
        .drain_notifications(client)
        .iter()
        .map(|n| serde_json::from_str(&n.to_json()).unwrap())
        .collect()
}

#[test]
fn list_then_get_returns_exact_snapshots() {
    let (mut handler, mut cap) = seeded();
    let snap2 = SurfaceSnapshot {
        orig_size: SurfaceSize { width: 200, height: 200 },
        src_rect: Some(Rectangle { x: 0, y: 0, width: 200, height: 200 }),
        dest_rect: Some(Rectangle { x: 100, y: 100, width: 200, height: 200 }),
        visibility: false,
        opacity: 500000,
        orientation: Orientation::Rotate90,
        event_mask: 0,
    };
    cap.seed_surface(1001, snap2);
    handler.state.handle_surface_created(1001, snap2);

    let v = response_json(&mut handler, &mut cap, &request(1, "list_surfaces", obj(vec![])));
    let ids: Vec<u64> = v["result"]["surfaces"]
        .as_array()
        .unwrap()
        .iter()
        .map(|s| s["id"].as_u64().unwrap())
        .collect();
    assert!(ids.contains(&1000));
    assert!(ids.contains(&1001));

    let v = response_json(
        &mut handler,
        &mut cap,
        &request(2, "get_surface", obj(vec![("id", num("1000"))])),
    );
    let s = &v["result"];
    assert_eq!(s["id"].as_u64().unwrap(), 1000);
    assert_eq!(s["orig_size"]["width"].as_u64().unwrap(), 100);
    assert_eq!(s["orig_size"]["height"].as_u64().unwrap(), 100);
    assert_eq!(s["dest_rect"]["x"].as_u64().unwrap(), 0);
    assert_eq!(s["dest_rect"]["y"].as_u64().unwrap(), 0);
    assert_eq!(s["visibility"].as_bool().unwrap(), true);
    assert_eq!(s["opacity"].as_f64().unwrap(), 1.0);
    assert_eq!(s["orientation"].as_str().unwrap(), "Normal");
    assert_eq!(s["z_order"].as_i64().unwrap(), 0);
}

#[test]
fn mutate_with_auto_commit_updates_mirror_and_queues_notification() {
    let (mut handler, mut cap) = seeded();
    handler
        .subscriptions
        .subscribe(1, vec![weston_ivi_controller::protocol::EventType::OpacityChanged])
        .unwrap();

    let v = response_json(
        &mut handler,
        &mut cap,
        &request(
            1,
            "set_opacity",
            obj(vec![
                ("id", num("1000")),
                ("opacity", num("0.8")),
                ("auto_commit", JsonValue::Bool(true)),
            ]),
        ),
    );
    assert_eq!(v["result"]["success"].as_bool().unwrap(), true);
    assert_eq!(v["result"]["committed"].as_bool().unwrap(), true);

    assert_eq!(handler.state.get_surface(1000).unwrap().opacity, 800000);

    let drained = drain_parsed(&mut handler, 1);
    assert_eq!(drained.len(), 1);
    assert_eq!(drained[0]["params"]["event_type"].as_str().unwrap(), "OpacityChanged");
    assert_eq!(drained[0]["params"]["old_opacity"].as_f64().unwrap(), 1.0);
    assert_eq!(drained[0]["params"]["new_opacity"].as_f64().unwrap(), 0.8);
}

#[test]
fn batched_commit_emits_one_geometry_notification_after_commit() {
    let (mut handler, mut cap) = seeded();
    handler
        .subscriptions
        .subscribe(
            1,
            vec![weston_ivi_controller::protocol::EventType::DestinationGeometryChanged],
        )
        .unwrap();

    let v = response_json(
        &mut handler,
        &mut cap,
        &request(
            1,
            "set_position",
            obj(vec![("id", num("1000")), ("x", num("50")), ("y", num("60"))]),
        ),
    );
    assert_eq!(v["result"]["committed"].as_bool().unwrap(), false);

    let v = response_json(
        &mut handler,
        &mut cap,
        &request(
            2,
            "set_size",
            obj(vec![("id", num("1000")), ("width", num("300")), ("height", num("200"))]),
        ),
    );
    assert_eq!(v["result"]["committed"].as_bool().unwrap(), false);

    // Nothing is observable before the commit.
    assert_eq!(drain_parsed(&mut handler, 1).len(), 0);

    // The commit flushes both writes and re-reads the touched surface:
    // the two batched writes collapse into exactly one observable
    // destination-geometry notification.
    let v = response_json(&mut handler, &mut cap, &request(3, "commit", obj(vec![])));
    assert_eq!(v["result"]["success"].as_bool().unwrap(), true);

    let drained = drain_parsed(&mut handler, 1);
    assert_eq!(drained.len(), 1);
    assert_eq!(
        drained[0]["params"]["event_type"].as_str().unwrap(),
        "DestinationGeometryChanged"
    );
    assert_eq!(drained[0]["params"]["new_rect"]["width"].as_u64().unwrap(), 300);

    // A second commit with nothing pending queues nothing more.
    let v = response_json(&mut handler, &mut cap, &request(4, "commit", obj(vec![])));
    assert_eq!(v["result"]["success"].as_bool().unwrap(), true);
    assert_eq!(drain_parsed(&mut handler, 1).len(), 0);
}

#[test]
fn missing_layer_is_answered_not_found() {
    let (mut handler, mut cap) = seeded();
    let v = response_json(
        &mut handler,
        &mut cap,
        &request(5, "get_layer", obj(vec![("id", num("77"))])),
    );
    assert_eq!(v["error"]["code"].as_i64().unwrap(), -32000);
    assert_eq!(v["error"]["message"].as_str().unwrap(), "Layer not found: 77");

    let v = response_json(
        &mut handler,
        &mut cap,
        &request(
            6,
            "set_layer_visibility",
            obj(vec![("id", num("77")), ("visible", JsonValue::Bool(true))]),
        ),
    );
    assert_eq!(v["error"]["code"].as_i64().unwrap(), -32000);
    assert_eq!(v["error"]["message"].as_str().unwrap(), "Layer not found: 77");
}

#[test]
fn validation_rejection_never_reaches_the_capability() {
    let (mut handler, mut cap) = seeded();

    let v = response_json(
        &mut handler,
        &mut cap,
        &request(1, "set_opacity", obj(vec![("id", num("1000")), ("opacity", num("1.5"))])),
    );
    assert_eq!(v["error"]["code"].as_i64().unwrap(), -32602);
    assert!(cap.calls.is_empty());
    assert_eq!(handler.state.get_surface(1000).unwrap().opacity, 1000000);
}

#[test]
fn unsupported_orientation_write_is_an_internal_error() {
    let (mut handler, mut cap) = seeded();

    let v = response_json(
        &mut handler,
        &mut cap,
        &request(
            1,
            "set_orientation",
            obj(vec![("id", num("1000")), ("orientation", JsonValue::Str("Rotate90".to_string()))]),
        ),
    );
    assert_eq!(v["error"]["code"].as_i64().unwrap(), -32603);
    assert!(v["error"]["message"].as_str().unwrap().contains("not supported"));
}

#[test]
fn subscribe_then_create_notifies_the_client() {
    let (mut handler, mut cap) = seeded();

    let v = response_json(
        &mut handler,
        &mut cap,
        &request(
            1,
            "subscribe",
            obj(vec![(
                "event_types",
                JsonValue::Arr(vec![
                    JsonValue::Str("SurfaceCreated".to_string()),
                    JsonValue::Str("SurfaceDestroyed".to_string()),
                ]),
            )]),
        ),
    );
    assert_eq!(v["result"]["success"].as_bool().unwrap(), true);

    let snap = snapshot(50, 50, 0, 0, true, 1000000, Orientation::Normal);
    cap.seed_surface(2000, snap);
    let note = handler.state.handle_surface_created(2000, snap).unwrap();
    let bridge = NotificationBridge::new();
    bridge.handle_notification(&mut handler.subscriptions, &note);

    let drained = drain_parsed(&mut handler, 1);
    assert_eq!(drained.len(), 1);
    assert_eq!(drained[0]["params"]["event_type"].as_str().unwrap(), "SurfaceCreated");
    assert_eq!(drained[0]["params"]["surface_id"].as_u64().unwrap(), 2000);
}

#[test]
fn handle_message_round_trips_bytes() {
    let (mut handler, mut cap) = seeded();
    let payload =
        br#"{"id": 7, "method": "get_surface", "params": {"id": 1000}}"#.to_vec();
    let reply = handler.handle_message(&mut cap, 1, &payload).unwrap();
    let v: serde_json::Value = serde_json::from_str(&reply).unwrap();
    assert_eq!(v["id"].as_u64().unwrap(), 7);
    assert_eq!(v["result"]["id"].as_u64().unwrap(), 1000);

    // An unknown method is answered with its code.
    let payload = br#"{"id": 8, "method": "no_such_method", "params": {}}"#.to_vec();
    let reply = handler.handle_message(&mut cap, 1, &payload).unwrap();
    let v: serde_json::Value = serde_json::from_str(&reply).unwrap();
    assert_eq!(v["error"]["code"].as_i64().unwrap(), -32601);
    assert_eq!(v["error"]["message"].as_str().unwrap(), "Method not found: no_such_method");

    // Bytes that are no request at all get no answer.
    assert!(handler.handle_message(&mut cap, 1, b"not json").is_none());

    // Valid JSON without a numeric id cannot be correlated either.
    assert!(handler.handle_message(&mut cap, 1, b"[1, 2, 3]").is_none());

    // A document with an id but an ill-typed method is answered with an
    // invalid-params error correlated by that id.
    let reply = handler
        .handle_message(&mut cap, 1, br#"{"id": 9, "method": 42, "params": {}}"#)
        .unwrap();
    let v: serde_json::Value = serde_json::from_str(&reply).unwrap();
    assert_eq!(v["id"].as_u64().unwrap(), 9);
    assert_eq!(v["error"]["code"].as_i64().unwrap(), -32602);
    assert_eq!(
        v["error"]["message"].as_str().unwrap(),
        "Missing or invalid 'method' parameter"
    );
}

#[test]
fn missing_surface_is_answered_not_found() {
    let (mut handler, mut cap) = seeded();
    let v = response_json(
        &mut handler,
        &mut cap,
        &request(4, "get_surface", obj(vec![("id", num("4242"))])),
    );
    assert_eq!(v["error"]["code"].as_i64().unwrap(), -32000);
    assert_eq!(v["error"]["message"].as_str().unwrap(), "Surface not found: 4242");
}

#[test]
fn disconnect_cleans_subscription_state() {
    let (mut handler, _cap) = seeded();
    handler
        .subscriptions
        .subscribe(3, vec![weston_ivi_controller::protocol::EventType::SurfaceCreated])
        .unwrap();
    handler.handle_disconnect(3);
    assert!(handler.subscriptions.get_subscriptions(3).is_empty());
    assert!(handler.subscriptions.drain_notifications(3).is_empty());
}
