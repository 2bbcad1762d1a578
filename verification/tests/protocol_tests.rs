//! Wire protocol edges: the error taxonomy, parameter decoding, and
//! number literals.

use weston_ivi_controller::json::JsonValue;
use weston_ivi_controller::protocol::{RpcError, RpcMethod, RpcRequest, RpcResponse};

fn obj(pairs: Vec<(&str, JsonValue)>) -> JsonValue {
    JsonValue::Obj(pairs.into_iter().map(|(k, v)| (k.to_string(), v)).collect())
}

fn num(literal: &str) -> JsonValue {
    JsonValue::Num(literal.to_string())
}

#[test]
fn test_parse_error_code() {
    let (id, err) = RpcRequest::from_json(b"{not json").unwrap_err();
    assert!(id.is_none());
    assert_eq!(err.code, -32700);

    // Valid JSON without a numeric id cannot be correlated: a parse
    // error with no id.
    let (id, err) = RpcRequest::from_json(b"{\"method\": \"commit\"}").unwrap_err();
    assert!(id.is_none());
    assert_eq!(err.code, -32700);

    // An id with a missing or ill-typed method or params field keeps
    // the id, so a response is owed.
    let (id, err) = RpcRequest::from_json(b"{\"id\": 5}").unwrap_err();
    assert_eq!(id, Some(5));
    assert_eq!(err.code, -32602);
    assert_eq!(err.message, "Missing or invalid 'method' parameter");

    let (id, err) = RpcRequest::from_json(b"{\"id\": 5, \"method\": \"commit\"}").unwrap_err();
    assert_eq!(id, Some(5));
    assert_eq!(err.code, -32602);
    assert_eq!(err.message, "Missing or invalid 'params' parameter");
}

#[test]
fn test_request_from_json_keeps_fields() {
    let req =
        RpcRequest::from_json(b"{\"id\": 12, \"method\": \"commit\", \"params\": {}}").unwrap();
    assert_eq!(req.id, 12);
    assert_eq!(req.method, "commit");
    assert_eq!(RpcMethod::from_request(&req).unwrap(), RpcMethod::Commit);
}

#[test]
fn test_missing_parameters_are_named() {
    let req = RpcRequest::new(1, "set_position".to_string(), obj(vec![("id", num("7"))]));
    let err = RpcMethod::from_request(&req).unwrap_err();
    assert_eq!(err.code, -32602);
    assert_eq!(err.message, "Missing or invalid 'x' parameter");

    let req = RpcRequest::new(2, "set_size".to_string(), obj(vec![]));
    let err = RpcMethod::from_request(&req).unwrap_err();
    assert_eq!(err.message, "Missing or invalid 'id' parameter");

    let req = RpcRequest::new(3, "set_orientation".to_string(), obj(vec![("id", num("7"))]));
    let err = RpcMethod::from_request(&req).unwrap_err();
    assert_eq!(err.message, "Missing 'orientation' parameter");

    let req = RpcRequest::new(
        4,
        "set_orientation".to_string(),
        obj(vec![("id", num("7")), ("orientation", JsonValue::Str("Diagonal".to_string()))]),
    );
    let err = RpcMethod::from_request(&req).unwrap_err();
    assert_eq!(err.message, "Invalid 'orientation' parameter");

    let req = RpcRequest::new(5, "subscribe".to_string(), obj(vec![]));
    let err = RpcMethod::from_request(&req).unwrap_err();
    assert_eq!(err.message, "Missing 'event_types' parameter");

    let req = RpcRequest::new(
        6,
        "subscribe".to_string(),
        obj(vec![("event_types", JsonValue::Arr(vec![JsonValue::Str("NoSuchEvent".to_string())]))]),
    );
    let err = RpcMethod::from_request(&req).unwrap_err();
    assert_eq!(err.message, "Invalid 'event_types' parameter");
}

#[test]
fn test_method_not_found_names_the_method() {
    let req = RpcRequest::new(1, "warp_surface".to_string(), obj(vec![]));
    let err = RpcMethod::from_request(&req).unwrap_err();
    assert_eq!(err.code, -32601);
    assert_eq!(err.message, "Method not found: warp_surface");
}

#[test]
fn test_opacity_literal_edges() {
    // A plain integer is scaled, extra fractional digits are dropped,
    // and an exponent form is refused.
    let req = RpcRequest::new(
        1,
        "set_opacity".to_string(),
        obj(vec![("id", num("7")), ("opacity", num("1"))]),
    );
    assert_eq!(
        RpcMethod::from_request(&req).unwrap(),
        RpcMethod::SetOpacity { id: 7, opacity_micro: 1000000 }
    );

    let req = RpcRequest::new(
        2,
        "set_opacity".to_string(),
        obj(vec![("id", num("7")), ("opacity", num("0.123456789"))]),
    );
    assert_eq!(
        RpcMethod::from_request(&req).unwrap(),
        RpcMethod::SetOpacity { id: 7, opacity_micro: 123456 }
    );

    let req = RpcRequest::new(
        3,
        "set_opacity".to_string(),
        obj(vec![("id", num("7")), ("opacity", num("8e-1"))]),
    );
    let err = RpcMethod::from_request(&req).unwrap_err();
    assert_eq!(err.code, -32602);
    assert_eq!(err.message, "Missing or invalid 'opacity' parameter");

    // A negative literal decodes and is left for the validator.
    let req = RpcRequest::new(
        4,
        "set_opacity".to_string(),
        obj(vec![("id", num("7")), ("opacity", num("-0.5"))]),
    );
    assert_eq!(
        RpcMethod::from_request(&req).unwrap(),
        RpcMethod::SetOpacity { id: 7, opacity_micro: -500000 }
    );
}

#[test]
fn test_error_response_wire_shape() {
    let response = RpcResponse::error(9, RpcError::new(-32000, "Surface not found: 9".to_string()));
    let v: serde_json::Value = serde_json::from_str(&response.to_json()).unwrap();
    assert_eq!(v["id"].as_u64().unwrap(), 9);
    assert!(v.get("result").is_none());
    assert_eq!(v["error"]["code"].as_i64().unwrap(), -32000);
    assert_eq!(v["error"]["message"].as_str().unwrap(), "Surface not found: 9");
}

#[test]
fn test_success_response_wire_shape() {
    let response = RpcResponse::success(3, JsonValue::Bool(true));
    let v: serde_json::Value = serde_json::from_str(&response.to_json()).unwrap();
    assert_eq!(v["id"].as_u64().unwrap(), 3);
    assert_eq!(v["result"].as_bool().unwrap(), true);
    assert!(v.get("error").is_none());
}

#[test]
fn test_json_string_escaping_round_trips() {
    let tricky = "a\"b\\c\nd\te\r\u{1}f";
    let v = JsonValue::Str(tricky.to_string());
    let text = v.to_text();
    let back: serde_json::Value = serde_json::from_str(&text).unwrap();
    assert_eq!(back.as_str().unwrap(), tricky);
}
