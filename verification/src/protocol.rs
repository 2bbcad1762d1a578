//! The JSON-RPC objects of the wire protocol: requests, responses,
//! notifications, error codes and the subscription event types.

use crate::decimal::{dec_str, push_dec_u64, string_eq_lit, u64_to_string};
use crate::json::{json_get, json_text, JsonValue};
use vstd::prelude::*;

verus! {

/// Wire code of a parse error.
pub const CODE_PARSE_ERROR: i32 = -32700;

/// Wire code of an unknown method.
pub const CODE_METHOD_NOT_FOUND: i32 = -32601;

/// Wire code of missing, ill-typed or rejected parameters.
pub const CODE_INVALID_PARAMS: i32 = -32602;

/// Wire code of an internal failure, including unsupported operations.
pub const CODE_INTERNAL_ERROR: i32 = -32603;

/// Wire code of a surface or layer that is not tracked.
pub const CODE_NOT_FOUND: i32 = -32000;

/// An event a client can subscribe to.
#[derive(Debug, Clone, Copy, PartialEq, Eq, Hash, Structural)]
pub enum EventType {
    /// A surface appeared.
    SurfaceCreated,
    /// A surface went away.
    SurfaceDestroyed,
    /// A surface's source rectangle changed.
    SourceGeometryChanged,
    /// A surface's destination rectangle changed.
    DestinationGeometryChanged,
    /// A surface's visibility changed.
    VisibilityChanged,
    /// A surface's opacity changed.
    OpacityChanged,
    /// A surface's orientation changed.
    OrientationChanged,
    /// A surface's z-order changed.
    ZOrderChanged,
    /// The focused surface changed.
    FocusChanged,
    /// A layer appeared.
    LayerCreated,
    /// A layer went away.
    LayerDestroyed,
    /// A layer's visibility changed.
    LayerVisibilityChanged,
    /// A layer's opacity changed.
    LayerOpacityChanged,
}

/// The exact wire label of an event type.
pub open spec fn event_label(e: EventType) -> Seq<char> {
    match e {
        EventType::SurfaceCreated => "SurfaceCreated"@,
        EventType::SurfaceDestroyed => "SurfaceDestroyed"@,
        EventType::SourceGeometryChanged => "SourceGeometryChanged"@,
        EventType::DestinationGeometryChanged => "DestinationGeometryChanged"@,
        EventType::VisibilityChanged => "VisibilityChanged"@,
        EventType::OpacityChanged => "OpacityChanged"@,
        EventType::OrientationChanged => "OrientationChanged"@,
        EventType::ZOrderChanged => "ZOrderChanged"@,
        EventType::FocusChanged => "FocusChanged"@,
        EventType::LayerCreated => "LayerCreated"@,
        EventType::LayerDestroyed => "LayerDestroyed"@,
        EventType::LayerVisibilityChanged => "LayerVisibilityChanged"@,
        EventType::LayerOpacityChanged => "LayerOpacityChanged"@,
    }
}

/// The event type a wire label names, if any.
pub open spec fn event_of_label(s: Seq<char>) -> Option<EventType> {
    if s == "SurfaceCreated"@ { Some(EventType::SurfaceCreated) }
    else if s == "SurfaceDestroyed"@ { Some(EventType::SurfaceDestroyed) }
    else if s == "SourceGeometryChanged"@ { Some(EventType::SourceGeometryChanged) }
    else if s == "DestinationGeometryChanged"@ { Some(EventType::DestinationGeometryChanged) }
    else if s == "VisibilityChanged"@ { Some(EventType::VisibilityChanged) }
    else if s == "OpacityChanged"@ { Some(EventType::OpacityChanged) }
    else if s == "OrientationChanged"@ { Some(EventType::OrientationChanged) }
    else if s == "ZOrderChanged"@ { Some(EventType::ZOrderChanged) }
    else if s == "FocusChanged"@ { Some(EventType::FocusChanged) }
    else if s == "LayerCreated"@ { Some(EventType::LayerCreated) }
    else if s == "LayerDestroyed"@ { Some(EventType::LayerDestroyed) }
    else if s == "LayerVisibilityChanged"@ { Some(EventType::LayerVisibilityChanged) }
    else if s == "LayerOpacityChanged"@ { Some(EventType::LayerOpacityChanged) }
    else { None }
}

impl EventType {
    /// The wire label of this event type.
    pub fn as_str(&self) -> (r: &'static str)
        ensures
            r@ == event_label(*self),
    {
        match self {
            EventType::SurfaceCreated => "SurfaceCreated",
            EventType::SurfaceDestroyed => "SurfaceDestroyed",
            EventType::SourceGeometryChanged => "SourceGeometryChanged",
            EventType::DestinationGeometryChanged => "DestinationGeometryChanged",
            EventType::VisibilityChanged => "VisibilityChanged",
            EventType::OpacityChanged => "OpacityChanged",
            EventType::OrientationChanged => "OrientationChanged",
            EventType::ZOrderChanged => "ZOrderChanged",
            EventType::FocusChanged => "FocusChanged",
            EventType::LayerCreated => "LayerCreated",
            EventType::LayerDestroyed => "LayerDestroyed",
            EventType::LayerVisibilityChanged => "LayerVisibilityChanged",
            EventType::LayerOpacityChanged => "LayerOpacityChanged",
        }
    }

    /// Read an event type from its wire label; any other text is refused.
    pub fn from_label(label: &String) -> (r: Option<Self>)
        ensures
            r == event_of_label(label@),
    {
        if string_eq_lit(label, "SurfaceCreated") { Some(EventType::SurfaceCreated) }
        else if string_eq_lit(label, "SurfaceDestroyed") { Some(EventType::SurfaceDestroyed) }
        else if string_eq_lit(label, "SourceGeometryChanged") {
            Some(EventType::SourceGeometryChanged)
        }
        else if string_eq_lit(label, "DestinationGeometryChanged") {
            Some(EventType::DestinationGeometryChanged)
        }
        else if string_eq_lit(label, "VisibilityChanged") { Some(EventType::VisibilityChanged) }
        else if string_eq_lit(label, "OpacityChanged") { Some(EventType::OpacityChanged) }
        else if string_eq_lit(label, "OrientationChanged") { Some(EventType::OrientationChanged) }
        else if string_eq_lit(label, "ZOrderChanged") { Some(EventType::ZOrderChanged) }
        else if string_eq_lit(label, "FocusChanged") { Some(EventType::FocusChanged) }
        else if string_eq_lit(label, "LayerCreated") { Some(EventType::LayerCreated) }
        else if string_eq_lit(label, "LayerDestroyed") { Some(EventType::LayerDestroyed) }
        else if string_eq_lit(label, "LayerVisibilityChanged") {
            Some(EventType::LayerVisibilityChanged)
        }
        else if string_eq_lit(label, "LayerOpacityChanged") { Some(EventType::LayerOpacityChanged) }
        else { None }
    }
}

/// An error answered to a client, with its wire code.
#[derive(Debug, Clone)]
pub struct RpcError {
    /// The wire code.
    pub code: i32,
    /// The human-readable reason.
    pub message: String,
}

impl RpcError {
    /// An error with the given code and message.
    pub fn new(code: i32, message: String) -> (r: Self)
        ensures
            r.code == code,
            r.message == message,
    {
        RpcError { code, message }
    }

    /// A missing, ill-typed or rejected parameter.
    pub fn invalid_params(message: String) -> (r: Self)
        ensures
            r.code == CODE_INVALID_PARAMS,
            r.message == message,
    {
        RpcError { code: CODE_INVALID_PARAMS, message }
    }

    /// An unknown method, named in the message.
    pub fn method_not_found(method: String) -> (r: Self)
        ensures
            r.code == CODE_METHOD_NOT_FOUND,
            r.message@ == "Method not found: "@ + method@,
    {
        let mut message: String = String::new();
        message.append("Method not found: ");
        message.append(method.as_str());
        RpcError { code: CODE_METHOD_NOT_FOUND, message }
    }

    /// An internal failure.
    pub fn internal_error(message: String) -> (r: Self)
        ensures
            r.code == CODE_INTERNAL_ERROR,
            r.message == message,
    {
        RpcError { code: CODE_INTERNAL_ERROR, message }
    }

    /// A surface id that is not tracked.
    pub fn surface_not_found(id: u32) -> (r: Self)
        ensures
            r.code == CODE_NOT_FOUND,
            r.message@ == "Surface not found: "@ + dec_str(id as nat),
    {
        let mut message: String = String::new();
        message.append("Surface not found: ");
        push_dec_u64(id as u64, &mut message);
        RpcError { code: CODE_NOT_FOUND, message }
    }

    /// A layer id that is not tracked.
    pub fn layer_not_found(id: u32) -> (r: Self)
        ensures
            r.code == CODE_NOT_FOUND,
            r.message@ == "Layer not found: "@ + dec_str(id as nat),
    {
        let mut message: String = String::new();
        message.append("Layer not found: ");
        push_dec_u64(id as u64, &mut message);
        RpcError { code: CODE_NOT_FOUND, message }
    }

    /// The JSON shape of this error on the wire.
    pub fn to_json_value(&self) -> (r: JsonValue)
        ensures
            is_error_body(r, *self),
    {
        let mut fields: Vec<(String, JsonValue)> = Vec::new();
        let mut code_lit = String::new();
        crate::decimal::push_dec_i64(self.code as i64, &mut code_lit);
        fields.push(("code".to_owned(), JsonValue::Num(code_lit)));
        fields.push(("message".to_owned(), JsonValue::Str(self.message.clone())));
        JsonValue::Obj(fields)
    }
}

/// Whether a JSON value is exactly the wire shape of an error object:
/// a `code` field holding the decimal code, then a `message` field.
pub open spec fn is_error_body(v: JsonValue, e: RpcError) -> bool {
    &&& v matches JsonValue::Obj(o)
    &&& o@.len() == 2
    &&& o@[0].0@ == "code"@
    &&& o@[0].1 matches JsonValue::Num(c) && c@ == crate::decimal::dec_str_int(e.code as int)
    &&& o@[1].0@ == "message"@
    &&& o@[1].1 matches JsonValue::Str(m) && m@ == e.message@
}

/// A request from a client: a correlation id, a method name and its
/// parameter object.
#[derive(Debug)]
pub struct RpcRequest {
    /// The id echoed in the response.
    pub id: u64,
    /// The method name.
    pub method: String,
    /// The parameters, usually an object.
    pub params: JsonValue,
}

/// The id field of a request document, a `u64` number.
pub open spec fn req_id_of(v: JsonValue) -> Option<u64> {
    match json_get(v, "id"@) {
        Some(JsonValue::Num(s)) => crate::json::u64_of_digits(s@),
        _ => None,
    }
}

/// Whether a JSON document has the shape of a request: a numeric `id`,
/// a string `method`, and `params`.
pub open spec fn request_parses(v: JsonValue) -> bool {
    &&& req_id_of(v) is Some
    &&& json_get(v, "method"@) matches Some(JsonValue::Str(_))
    &&& json_get(v, "params"@) is Some
}

/// The method name of a request document.
pub open spec fn req_method_of(v: JsonValue) -> Seq<char> {
    match json_get(v, "method"@) {
        Some(JsonValue::Str(m)) => m@,
        _ => seq![],
    }
}

/// The parameters of a request document.
pub open spec fn req_params_of(v: JsonValue) -> JsonValue {
    match json_get(v, "params"@) {
        Some(p) => p,
        _ => JsonValue::Null,
    }
}

impl RpcRequest {
    /// A request from its parts.
    pub fn new(id: u64, method: String, params: JsonValue) -> (r: Self)
        ensures
            r.id == id,
            r.method == method,
            r.params == params,
    {
        RpcRequest { id, method, params }
    }

    /// Read a request from the bytes of one frame. Bytes that are no
    /// JSON document, or a document without a numeric `id`, cannot be
    /// correlated and carry no id with their parse error; a document
    /// with an id but a missing or ill-typed `method` or `params` field
    /// carries that id with an invalid-params error, so a response is
    /// still owed.
    pub fn from_json(data: &[u8]) -> (r: Result<RpcRequest, (Option<u64>, RpcError)>)
        ensures
            crate::json::json_of(data@) is None ==> (r matches Err((id, e)) && id is None
                && e.code == CODE_PARSE_ERROR),
            crate::json::json_of(data@) matches Some(v) ==> (req_id_of(v) is None ==> (r matches
                Err((id, e)) && id is None && e.code == CODE_PARSE_ERROR)),
            crate::json::json_of(data@) matches Some(v) ==> (req_id_of(v) matches Some(rid)
                ==> if !(json_get(v, "method"@) matches Some(JsonValue::Str(_))) {
                    r matches Err((id, e)) && id == Some(rid) && e.code == CODE_INVALID_PARAMS
                        && e.message@ == "Missing or invalid 'method' parameter"@
                } else if json_get(v, "params"@) is None {
                    r matches Err((id, e)) && id == Some(rid) && e.code == CODE_INVALID_PARAMS
                        && e.message@ == "Missing or invalid 'params' parameter"@
                } else {
                    r matches Ok(req) && req.id == rid && req.method@ == req_method_of(v)
                        && crate::json::same_json(req.params, req_params_of(v))
                }),
    {
        let parsed = crate::json::parse_json(data);
        let v = match parsed {
            None => {
                return Err(
                    (
                        None,
                        RpcError::new(
                            CODE_PARSE_ERROR,
                            "Failed to parse request: invalid JSON".to_owned(),
                        ),
                    ),
                );
            },
            Some(v) => v,
        };
        let id = match v.get("id") {
            Some(idv) => match idv.as_u64() {
                Some(id) => id,
                None => {
                    return Err(
                        (
                            None,
                            RpcError::new(
                                CODE_PARSE_ERROR,
                                "Failed to parse request: invalid request object".to_owned(),
                            ),
                        ),
                    );
                },
            },
            None => {
                return Err(
                    (
                        None,
                        RpcError::new(
                            CODE_PARSE_ERROR,
                            "Failed to parse request: invalid request object".to_owned(),
                        ),
                    ),
                );
            },
        };
        let method = match v.get("method") {
            Some(mv) => match mv.as_string() {
                Some(m) => m.clone(),
                None => {
                    return Err(
                        (
                            Some(id),
                            RpcError::invalid_params(
                                "Missing or invalid 'method' parameter".to_owned(),
                            ),
                        ),
                    );
                },
            },
            None => {
                return Err(
                    (
                        Some(id),
                        RpcError::invalid_params(
                            "Missing or invalid 'method' parameter".to_owned(),
                        ),
                    ),
                );
            },
        };
        let params = match v.get("params") {
            Some(p) => p.duplicate(),
            None => {
                return Err(
                    (
                        Some(id),
                        RpcError::invalid_params(
                            "Missing or invalid 'params' parameter".to_owned(),
                        ),
                    ),
                );
            },
        };
        Ok(RpcRequest { id, method, params })
    }
}

/// An answer to one request: the echoed id, and a result or an error.
#[derive(Debug)]
pub struct RpcResponse {
    /// The id of the request answered.
    pub id: u64,
    /// The payload on success.
    pub result: Option<JsonValue>,
    /// The error on failure.
    pub error: Option<RpcError>,
}

/// Whether a JSON value is exactly the wire shape of a response: the id,
/// then the result or the error, nothing else.
pub open spec fn is_response_body(v: JsonValue, resp: RpcResponse) -> bool {
    &&& v matches JsonValue::Obj(o)
    &&& o@.len() >= 1
    &&& o@[0].0@ == "id"@
    &&& o@[0].1 matches JsonValue::Num(s) && s@ == dec_str(resp.id as nat)
    &&& match (resp.result, resp.error) {
        (Some(rv), None) => o@.len() == 2 && o@[1].0@ == "result"@ && o@[1].1 == rv,
        (None, Some(e)) => o@.len() == 2 && o@[1].0@ == "error"@ && is_error_body(o@[1].1, e),
        (None, None) => o@.len() == 1,
        (Some(rv), Some(e)) => o@.len() == 3 && o@[1].0@ == "result"@ && o@[1].1 == rv && o@[2].0@
            == "error"@ && is_error_body(o@[2].1, e),
    }
}

impl RpcResponse {
    /// A successful response.
    pub fn success(id: u64, result: JsonValue) -> (r: Self)
        ensures
            r.id == id,
            r.result == Some(result),
            r.error is None,
    {
        RpcResponse { id, result: Some(result), error: None }
    }

    /// An error response.
    pub fn error(id: u64, error: RpcError) -> (r: Self)
        ensures
            r.id == id,
            r.result is None,
            r.error == Some(error),
    {
        RpcResponse { id, result: None, error: Some(error) }
    }

    /// The JSON shape of this response on the wire.
    pub fn to_json_value(self) -> (r: JsonValue)
        ensures
            is_response_body(r, self),
    {
        let mut fields: Vec<(String, JsonValue)> = Vec::new();
        fields.push(("id".to_owned(), JsonValue::Num(u64_to_string(self.id))));
        match self.result {
            Some(rv) => {
                fields.push(("result".to_owned(), rv));
            },
            None => {},
        }
        match &self.error {
            Some(e) => {
                fields.push(("error".to_owned(), e.to_json_value()));
            },
            None => {},
        }
        JsonValue::Obj(fields)
    }

    /// Serialize this response to its wire text.
    pub fn to_json(self) -> (r: String)
        ensures
            exists|v: JsonValue| is_response_body(v, self) && r@ == json_text(v),
    {
        let ghost me = self;
        let v = self.to_json_value();
        let r = v.to_text();
        proof {
            assert(is_response_body(v, me) && r@ == json_text(v));
        }
        r
    }
}

/// A server-initiated message without an id.
#[derive(Debug)]
pub struct RpcNotification {
    /// Always the text `notification`.
    pub method: String,
    /// The event payload.
    pub params: JsonValue,
}

/// Whether a JSON value is exactly the wire shape of a notification:
/// its method name, then its params.
pub open spec fn is_notification_body(v: JsonValue, n: RpcNotification) -> bool {
    &&& v matches JsonValue::Obj(o)
    &&& o@.len() == 2
    &&& o@[0].0@ == "method"@
    &&& o@[0].1 matches JsonValue::Str(m) && m@ == n.method@
    &&& o@[1].0@ == "params"@
    &&& crate::json::same_json(o@[1].1, n.params)
}

impl RpcNotification {
    /// A notification from its parts.
    pub fn new(method: String, params: JsonValue) -> (r: Self)
        ensures
            r.method == method,
            r.params == params,
    {
        RpcNotification { method, params }
    }

    /// A copy of this notification holding the same document.
    pub fn duplicate(&self) -> (r: Self)
        ensures
            r.method@ == self.method@,
            crate::json::same_json(r.params, self.params),
    {
        RpcNotification { method: self.method.clone(), params: self.params.duplicate() }
    }

    /// The JSON shape of this notification on the wire.
    pub fn to_json_value(&self) -> (r: JsonValue)
        ensures
            is_notification_body(r, *self),
    {
        let mut fields: Vec<(String, JsonValue)> = Vec::new();
        fields.push(("method".to_owned(), JsonValue::Str(self.method.clone())));
        fields.push(("params".to_owned(), self.params.duplicate()));
        JsonValue::Obj(fields)
    }

    /// Serialize this notification to its wire text.
    pub fn to_json(&self) -> (r: String)
        ensures
            exists|v: JsonValue| is_notification_body(v, *self) && r@ == json_text(v),
    {
        let v = self.to_json_value();
        let r = v.to_text();
        proof {
            assert(is_notification_body(v, *self) && r@ == json_text(v));
        }
        r
    }
}

/// The `u64` a parameter field holds, if it is an integer number.
pub open spec fn field_u64(p: JsonValue, key: Seq<char>) -> Option<u64> {
    match json_get(p, key) {
        Some(JsonValue::Num(s)) => crate::json::u64_of_digits(s@),
        _ => None,
    }
}

/// The `i64` a parameter field holds, if it is an integer number.
pub open spec fn field_i64(p: JsonValue, key: Seq<char>) -> Option<i64> {
    match json_get(p, key) {
        Some(JsonValue::Num(s)) => crate::json::i64_of_literal(s@),
        _ => None,
    }
}

/// The opacity in micro-units a parameter field holds, if it is a
/// decimal number.
pub open spec fn field_micro(p: JsonValue, key: Seq<char>) -> Option<i64> {
    match json_get(p, key) {
        Some(JsonValue::Num(s)) => crate::json::micro_of_literal(s@),
        _ => None,
    }
}

/// The truth value a parameter field holds, if it is a boolean.
pub open spec fn field_bool(p: JsonValue, key: Seq<char>) -> Option<bool> {
    match json_get(p, key) {
        Some(JsonValue::Bool(b)) => Some(b),
        _ => None,
    }
}

/// The text a parameter field holds, if it is a string.
pub open spec fn field_str(p: JsonValue, key: Seq<char>) -> Option<Seq<char>> {
    match json_get(p, key) {
        Some(JsonValue::Str(s)) => Some(s@),
        _ => None,
    }
}

fn get_field_u64(p: &JsonValue, key: &str) -> (r: Option<u64>)
    ensures
        r == field_u64(*p, key@),
{
    match p.get(key) {
        Some(x) => x.as_u64(),
        None => None,
    }
}

fn get_field_i64(p: &JsonValue, key: &str) -> (r: Option<i64>)
    ensures
        r == field_i64(*p, key@),
{
    match p.get(key) {
        Some(x) => x.as_i64(),
        None => None,
    }
}

fn get_field_micro(p: &JsonValue, key: &str) -> (r: Option<i64>)
    ensures
        r == field_micro(*p, key@),
{
    match p.get(key) {
        Some(x) => x.as_opacity_micro(),
        None => None,
    }
}

fn get_field_bool(p: &JsonValue, key: &str) -> (r: Option<bool>)
    ensures
        r == field_bool(*p, key@),
{
    match p.get(key) {
        Some(x) => x.as_bool(),
        None => None,
    }
}

/// Read the optional `auto_commit` flag of a mutator; absent or
/// ill-typed means no commit.
pub fn auto_commit_of(params: &JsonValue) -> (r: bool)
    ensures
        r == (field_bool(*params, "auto_commit"@) == Some(true)),
{
    match get_field_bool(params, "auto_commit") {
        Some(b) => b,
        None => false,
    }
}

/// A request decoded to the operation it asks for.
#[derive(Debug, PartialEq)]
pub enum RpcMethod {
    /// Return all surface snapshots.
    ListSurfaces,
    /// Return one surface snapshot.
    GetSurface { id: u32 },
    /// Write the destination origin of a surface.
    SetPosition { id: u32, x: i32, y: i32 },
    /// Write the destination dimensions of a surface.
    SetSize { id: u32, width: i32, height: i32 },
    /// Write the visibility of a surface.
    SetVisibility { id: u32, visible: bool },
    /// Write the opacity of a surface, in micro-units.
    SetOpacity { id: u32, opacity_micro: i64 },
    /// Ask for an orientation write, which the capability refuses.
    SetOrientation { id: u32, orientation: crate::orientation::Orientation },
    /// Update the core-kept z-order of a surface.
    SetZOrder { id: u32, z_order: i32 },
    /// Focus a surface.
    SetFocus { id: u32 },
    /// Flush all pending property writes.
    Commit,
    /// Subscribe the client to event types.
    Subscribe { event_types: Vec<EventType> },
    /// Unsubscribe the client from event types.
    Unsubscribe { event_types: Vec<EventType> },
    /// Return the client's subscriptions.
    ListSubscriptions,
    /// Return all layer snapshots.
    ListLayers,
    /// Return one layer snapshot.
    GetLayer { id: u32 },
    /// Write the visibility of a layer.
    SetLayerVisibility { id: u32, visible: bool },
    /// Write the opacity of a layer, in micro-units.
    SetLayerOpacity { id: u32, opacity_micro: i64 },
}

/// The event types a JSON list of labels names, when every item is a
/// known label.
pub open spec fn events_of_list(items: Seq<JsonValue>) -> Option<Seq<EventType>>
    decreases items,
{
    if items.len() == 0 {
        Some(Seq::<EventType>::empty())
    } else {
        match items[0] {
            JsonValue::Str(s) => match event_of_label(s@) {
                Some(e) => match events_of_list(items.drop_first()) {
                    Some(rest) => Some(seq![e] + rest),
                    None => None,
                },
                None => None,
            },
            _ => None,
        }
    }
}

/// The event-type list a parameter field holds, if it is an array of
/// known labels.
pub open spec fn field_events(p: JsonValue, key: Seq<char>) -> Option<Seq<EventType>> {
    match json_get(p, key) {
        Some(JsonValue::Arr(items)) => events_of_list(items@),
        _ => None,
    }
}

#[verifier::loop_isolation(false)]
fn get_field_events(p: &JsonValue, key: &str) -> (r: Option<Vec<EventType>>)
    ensures
        match r {
            Some(es) => field_events(*p, key@) == Some(es@),
            None => field_events(*p, key@) is None,
        },
{
    let items = match p.get(key) {
        Some(x) => match x.as_array() {
            Some(a) => a,
            None => {
                return None;
            },
        },
        None => {
            return None;
        },
    };
    let mut out: Vec<EventType> = Vec::new();
    let mut i: usize = 0;
    proof {
        assert(items@.skip(0) =~= items@);
        match events_of_list(items@) {
            Some(rest) => {
                assert(Seq::<EventType>::empty() + rest =~= rest);
            },
            None => {},
        }
    }
    while i < items.len()
        invariant
            i <= items@.len(),
            out@.len() == i,
            match events_of_list(items@.skip(i as int)) {
                Some(rest) => events_of_list(items@) == Some(out@ + rest),
                None => events_of_list(items@) is None,
            },
        decreases items@.len() - i,
    {
        proof {
            assert(items@.skip(i as int)[0] == items@[i as int]);
            assert(items@.skip(i as int).drop_first() =~= items@.skip(i + 1));
        }
        let label = match items[i].as_string() {
            Some(s) => s,
            None => {
                return None;
            },
        };
        let e = match EventType::from_label(label) {
            Some(e) => e,
            None => {
                return None;
            },
        };
        let ghost out_pre = out@;
        out.push(e);
        proof {
            match events_of_list(items@.skip(i + 1)) {
                Some(rest) => {
                    assert(out_pre + (seq![e] + rest) =~= out@ + rest);
                },
                None => {},
            }
        }
        i += 1;
    }
    proof {
        assert(items@.skip(items@.len() as int) =~= Seq::<JsonValue>::empty());
        assert(out@ + Seq::<EventType>::empty() =~= out@);
    }
    Some(out)
}

fn invalid_param(text: &str) -> (r: RpcError)
    ensures
        r.code == CODE_INVALID_PARAMS,
        r.message@ == text@,
{
    RpcError::invalid_params(text.to_owned())
}

/// Whether a method name is one the server dispatches.
pub open spec fn known_method(m: Seq<char>) -> bool {
    ||| m == "list_surfaces"@
    ||| m == "get_surface"@
    ||| m == "set_position"@
    ||| m == "set_size"@
    ||| m == "set_visibility"@
    ||| m == "set_opacity"@
    ||| m == "set_orientation"@
    ||| m == "set_z_order"@
    ||| m == "set_focus"@
    ||| m == "commit"@
    ||| m == "subscribe"@
    ||| m == "unsubscribe"@
    ||| m == "list_subscriptions"@
    ||| m == "list_layers"@
    ||| m == "get_layer"@
    ||| m == "set_layer_visibility"@
    ||| m == "set_layer_opacity"@
}

/// What decoding a request must yield, for each method name in
/// dispatch order.
pub open spec fn parse_expectation(m: Seq<char>, p: JsonValue, r: Result<RpcMethod, RpcError>) -> bool {
    if m == "list_surfaces"@ {
        r == Result::<RpcMethod, RpcError>::Ok(
                RpcMethod::ListSurfaces,
            )
    } else if m == "get_surface"@ {
        match field_u64(p, "id"@) {
                Some(id) => r == Result::<RpcMethod, RpcError>::Ok(
                    RpcMethod::GetSurface { id: id as u32 },
                ),
                None => r matches Err(e) && e.code == CODE_INVALID_PARAMS && e.message@
                    == "Missing or invalid 'id' parameter"@,
            }
    } else if m == "set_position"@ {
        match field_u64(p, "id"@) {
                None => r matches Err(e) && e.code == CODE_INVALID_PARAMS && e.message@
                    == "Missing or invalid 'id' parameter"@,
                Some(id) => match field_i64(p, "x"@) {
                    None => r matches Err(e) && e.code == CODE_INVALID_PARAMS && e.message@
                        == "Missing or invalid 'x' parameter"@,
                    Some(x) => match field_i64(p, "y"@) {
                        None => r matches Err(e) && e.code == CODE_INVALID_PARAMS && e.message@
                            == "Missing or invalid 'y' parameter"@,
                        Some(y) => r == Result::<RpcMethod, RpcError>::Ok(
                            RpcMethod::SetPosition { id: id as u32, x: x as i32, y: y as i32 },
                        ),
                    },
                },
            }
    } else if m == "set_size"@ {
        match field_u64(p, "id"@) {
                None => r matches Err(e) && e.code == CODE_INVALID_PARAMS && e.message@
                    == "Missing or invalid 'id' parameter"@,
                Some(id) => match field_i64(p, "width"@) {
                    None => r matches Err(e) && e.code == CODE_INVALID_PARAMS && e.message@
                        == "Missing or invalid 'width' parameter"@,
                    Some(w) => match field_i64(p, "height"@) {
                        None => r matches Err(e) && e.code == CODE_INVALID_PARAMS && e.message@
                            == "Missing or invalid 'height' parameter"@,
                        Some(h) => r == Result::<RpcMethod, RpcError>::Ok(
                            RpcMethod::SetSize {
                                id: id as u32,
                                width: w as i32,
                                height: h as i32,
                            },
                        ),
                    },
                },
            }
    } else if m == "set_visibility"@ {
        match field_u64(p, "id"@) {
                None => r matches Err(e) && e.code == CODE_INVALID_PARAMS && e.message@
                    == "Missing or invalid 'id' parameter"@,
                Some(id) => match field_bool(p, "visible"@) {
                    None => r matches Err(e) && e.code == CODE_INVALID_PARAMS && e.message@
                        == "Missing or invalid 'visible' parameter"@,
                    Some(visible) => r == Result::<RpcMethod, RpcError>::Ok(
                        RpcMethod::SetVisibility { id: id as u32, visible },
                    ),
                },
            }
    } else if m == "set_opacity"@ {
        match field_u64(p, "id"@) {
                None => r matches Err(e) && e.code == CODE_INVALID_PARAMS && e.message@
                    == "Missing or invalid 'id' parameter"@,
                Some(id) => match field_micro(p, "opacity"@) {
                    None => r matches Err(e) && e.code == CODE_INVALID_PARAMS && e.message@
                        == "Missing or invalid 'opacity' parameter"@,
                    Some(micro) => r == Result::<RpcMethod, RpcError>::Ok(
                        RpcMethod::SetOpacity { id: id as u32, opacity_micro: micro },
                    ),
                },
            }
    } else if m == "set_orientation"@ {
        match field_u64(p, "id"@) {
                None => r matches Err(e) && e.code == CODE_INVALID_PARAMS && e.message@
                    == "Missing or invalid 'id' parameter"@,
                Some(id) => match json_get(p, "orientation"@) {
                    None => r matches Err(e) && e.code == CODE_INVALID_PARAMS && e.message@
                        == "Missing 'orientation' parameter"@,
                    Some(ov) => match ov {
                        JsonValue::Str(s) => match crate::orientation::orientation_of_label(s@) {
                            Some(orientation) => r == Result::<RpcMethod, RpcError>::Ok(
                                RpcMethod::SetOrientation { id: id as u32, orientation },
                            ),
                            None => r matches Err(e) && e.code == CODE_INVALID_PARAMS
                                && e.message@ == "Invalid 'orientation' parameter"@,
                        },
                        _ => r matches Err(e) && e.code == CODE_INVALID_PARAMS && e.message@
                            == "Invalid 'orientation' parameter"@,
                    },
                },
            }
    } else if m == "set_z_order"@ {
        match field_u64(p, "id"@) {
                None => r matches Err(e) && e.code == CODE_INVALID_PARAMS && e.message@
                    == "Missing or invalid 'id' parameter"@,
                Some(id) => match field_i64(p, "z_order"@) {
                    None => r matches Err(e) && e.code == CODE_INVALID_PARAMS && e.message@
                        == "Missing or invalid 'z_order' parameter"@,
                    Some(z) => r == Result::<RpcMethod, RpcError>::Ok(
                        RpcMethod::SetZOrder { id: id as u32, z_order: z as i32 },
                    ),
                },
            }
    } else if m == "set_focus"@ {
        match field_u64(p, "id"@) {
                None => r matches Err(e) && e.code == CODE_INVALID_PARAMS && e.message@
                    == "Missing or invalid 'id' parameter"@,
                Some(id) => r == Result::<RpcMethod, RpcError>::Ok(
                    RpcMethod::SetFocus { id: id as u32 },
                ),
            }
    } else if m == "commit"@ {
        r == Result::<RpcMethod, RpcError>::Ok(
                RpcMethod::Commit,
            )
    } else if m == "subscribe"@ {
        match json_get(p, "event_types"@) {
                None => r matches Err(e) && e.code == CODE_INVALID_PARAMS && e.message@
                    == "Missing 'event_types' parameter"@,
                Some(_) => match field_events(p, "event_types"@) {
                    Some(es) => r matches Ok(m) && m matches RpcMethod::Subscribe { event_types }
                        && event_types@ == es,
                    None => r matches Err(e) && e.code == CODE_INVALID_PARAMS && e.message@
                        == "Invalid 'event_types' parameter"@,
                },
            }
    } else if m == "unsubscribe"@ {
        match json_get(p, "event_types"@) {
                None => r matches Err(e) && e.code == CODE_INVALID_PARAMS && e.message@
                    == "Missing 'event_types' parameter"@,
                Some(_) => match field_events(p, "event_types"@) {
                    Some(es) => r matches Ok(m) && m matches RpcMethod::Unsubscribe {
                        event_types,
                    } && event_types@ == es,
                    None => r matches Err(e) && e.code == CODE_INVALID_PARAMS && e.message@
                        == "Invalid 'event_types' parameter"@,
                },
            }
    } else if m == "list_subscriptions"@ {
        r == Result::<RpcMethod, RpcError>::Ok(
                RpcMethod::ListSubscriptions,
            )
    } else if m == "list_layers"@ {
        r == Result::<RpcMethod, RpcError>::Ok(
                RpcMethod::ListLayers,
            )
    } else if m == "get_layer"@ {
        match field_u64(p, "id"@) {
                Some(id) => r == Result::<RpcMethod, RpcError>::Ok(
                    RpcMethod::GetLayer { id: id as u32 },
                ),
                None => r matches Err(e) && e.code == CODE_INVALID_PARAMS && e.message@
                    == "Missing or invalid 'id' parameter"@,
            }
    } else if m == "set_layer_visibility"@ {
        match field_u64(
                p,
                "id"@,
            ) {
                None => r matches Err(e) && e.code == CODE_INVALID_PARAMS && e.message@
                    == "Missing or invalid 'id' parameter"@,
                Some(id) => match field_bool(p, "visible"@) {
                    None => r matches Err(e) && e.code == CODE_INVALID_PARAMS && e.message@
                        == "Missing or invalid 'visible' parameter"@,
                    Some(visible) => r == Result::<RpcMethod, RpcError>::Ok(
                        RpcMethod::SetLayerVisibility { id: id as u32, visible },
                    ),
                },
            }
    } else if m == "set_layer_opacity"@ {
        match field_u64(p, "id"@) {
                None => r matches Err(e) && e.code == CODE_INVALID_PARAMS && e.message@
                    == "Missing or invalid 'id' parameter"@,
                Some(id) => match field_micro(p, "opacity"@) {
                    None => r matches Err(e) && e.code == CODE_INVALID_PARAMS && e.message@
                        == "Missing or invalid 'opacity' parameter"@,
                    Some(micro) => r == Result::<RpcMethod, RpcError>::Ok(
                        RpcMethod::SetLayerOpacity { id: id as u32, opacity_micro: micro },
                    ),
                },
            }
    } else {
        r matches Err(e) && e.code
                == CODE_METHOD_NOT_FOUND && e.message@ == "Method not found: "@
                + m
    }
}

impl RpcMethod {
    /// Decode a request into the operation it asks for, or the error the
    /// client is answered: an unknown method name, or a missing or
    /// ill-typed parameter, each named in the message.
    #[verifier::rlimit(100)]
    pub fn from_request(request: &RpcRequest) -> (r: Result<RpcMethod, RpcError>)
        ensures
            parse_expectation(request.method@, request.params, r),
    {
        proof {
            reveal_strlit("list_surfaces");
            reveal_strlit("get_surface");
            reveal_strlit("set_position");
            reveal_strlit("set_size");
            reveal_strlit("set_visibility");
            reveal_strlit("set_opacity");
            reveal_strlit("set_orientation");
            reveal_strlit("set_z_order");
            reveal_strlit("set_focus");
            reveal_strlit("commit");
            reveal_strlit("subscribe");
            reveal_strlit("unsubscribe");
            reveal_strlit("list_subscriptions");
            reveal_strlit("list_layers");
            reveal_strlit("get_layer");
            reveal_strlit("set_layer_visibility");
            reveal_strlit("set_layer_opacity");
        }
        let p = &request.params;
        if string_eq_lit(&request.method, "list_surfaces") {
            Ok(RpcMethod::ListSurfaces)
        } else if string_eq_lit(&request.method, "get_surface") {
            match get_field_u64(p, "id") {
                Some(id) => Ok(RpcMethod::GetSurface { id: #[verifier::truncate] (id as u32) }),
                None => Err(invalid_param("Missing or invalid 'id' parameter")),
            }
        } else if string_eq_lit(&request.method, "set_position") {
            let id = match get_field_u64(p, "id") {
                Some(id) => id,
                None => {
                    return Err(invalid_param("Missing or invalid 'id' parameter"));
                },
            };
            let x = match get_field_i64(p, "x") {
                Some(x) => x,
                None => {
                    return Err(invalid_param("Missing or invalid 'x' parameter"));
                },
            };
            let y = match get_field_i64(p, "y") {
                Some(y) => y,
                None => {
                    return Err(invalid_param("Missing or invalid 'y' parameter"));
                },
            };
            Ok(RpcMethod::SetPosition { id: #[verifier::truncate] (id as u32), x: #[verifier::truncate] (x as i32), y: #[verifier::truncate] (y as i32) })
        } else if string_eq_lit(&request.method, "set_size") {
            let id = match get_field_u64(p, "id") {
                Some(id) => id,
                None => {
                    return Err(invalid_param("Missing or invalid 'id' parameter"));
                },
            };
            let width = match get_field_i64(p, "width") {
                Some(w) => w,
                None => {
                    return Err(invalid_param("Missing or invalid 'width' parameter"));
                },
            };
            let height = match get_field_i64(p, "height") {
                Some(h) => h,
                None => {
                    return Err(invalid_param("Missing or invalid 'height' parameter"));
                },
            };
            Ok(RpcMethod::SetSize { id: #[verifier::truncate] (id as u32), width: #[verifier::truncate] (width as i32), height: #[verifier::truncate] (height as i32) })
        } else if string_eq_lit(&request.method, "set_visibility") {
            let id = match get_field_u64(p, "id") {
                Some(id) => id,
                None => {
                    return Err(invalid_param("Missing or invalid 'id' parameter"));
                },
            };
            let visible = match get_field_bool(p, "visible") {
                Some(v) => v,
                None => {
                    return Err(invalid_param("Missing or invalid 'visible' parameter"));
                },
            };
            Ok(RpcMethod::SetVisibility { id: #[verifier::truncate] (id as u32), visible })
        } else if string_eq_lit(&request.method, "set_opacity") {
            let id = match get_field_u64(p, "id") {
                Some(id) => id,
                None => {
                    return Err(invalid_param("Missing or invalid 'id' parameter"));
                },
            };
            let micro = match get_field_micro(p, "opacity") {
                Some(o) => o,
                None => {
                    return Err(invalid_param("Missing or invalid 'opacity' parameter"));
                },
            };
            Ok(RpcMethod::SetOpacity { id: #[verifier::truncate] (id as u32), opacity_micro: micro })
        } else if string_eq_lit(&request.method, "set_orientation") {
            let id = match get_field_u64(p, "id") {
                Some(id) => id,
                None => {
                    return Err(invalid_param("Missing or invalid 'id' parameter"));
                },
            };
            let ov = match p.get("orientation") {
                Some(ov) => ov,
                None => {
                    return Err(invalid_param("Missing 'orientation' parameter"));
                },
            };
            let label = match ov.as_string() {
                Some(s) => s,
                None => {
                    return Err(invalid_param("Invalid 'orientation' parameter"));
                },
            };
            match crate::orientation::Orientation::from_label(label) {
                Some(orientation) => Ok(RpcMethod::SetOrientation { id: #[verifier::truncate] (id as u32), orientation }),
                None => Err(invalid_param("Invalid 'orientation' parameter")),
            }
        } else if string_eq_lit(&request.method, "set_z_order") {
            let id = match get_field_u64(p, "id") {
                Some(id) => id,
                None => {
                    return Err(invalid_param("Missing or invalid 'id' parameter"));
                },
            };
            let z = match get_field_i64(p, "z_order") {
                Some(z) => z,
                None => {
                    return Err(invalid_param("Missing or invalid 'z_order' parameter"));
                },
            };
            Ok(RpcMethod::SetZOrder { id: #[verifier::truncate] (id as u32), z_order: #[verifier::truncate] (z as i32) })
        } else if string_eq_lit(&request.method, "set_focus") {
            match get_field_u64(p, "id") {
                Some(id) => Ok(RpcMethod::SetFocus { id: #[verifier::truncate] (id as u32) }),
                None => Err(invalid_param("Missing or invalid 'id' parameter")),
            }
        } else if string_eq_lit(&request.method, "commit") {
            Ok(RpcMethod::Commit)
        } else if string_eq_lit(&request.method, "subscribe") {
            if p.get("event_types").is_none() {
                return Err(invalid_param("Missing 'event_types' parameter"));
            }
            match get_field_events(p, "event_types") {
                Some(event_types) => Ok(RpcMethod::Subscribe { event_types }),
                None => Err(invalid_param("Invalid 'event_types' parameter")),
            }
        } else if string_eq_lit(&request.method, "unsubscribe") {
            if p.get("event_types").is_none() {
                return Err(invalid_param("Missing 'event_types' parameter"));
            }
            match get_field_events(p, "event_types") {
                Some(event_types) => Ok(RpcMethod::Unsubscribe { event_types }),
                None => Err(invalid_param("Invalid 'event_types' parameter")),
            }
        } else if string_eq_lit(&request.method, "list_subscriptions") {
            Ok(RpcMethod::ListSubscriptions)
        } else if string_eq_lit(&request.method, "list_layers") {
            Ok(RpcMethod::ListLayers)
        } else if string_eq_lit(&request.method, "get_layer") {
            match get_field_u64(p, "id") {
                Some(id) => Ok(RpcMethod::GetLayer { id: #[verifier::truncate] (id as u32) }),
                None => Err(invalid_param("Missing or invalid 'id' parameter")),
            }
        } else if string_eq_lit(&request.method, "set_layer_visibility") {
            let id = match get_field_u64(p, "id") {
                Some(id) => id,
                None => {
                    return Err(invalid_param("Missing or invalid 'id' parameter"));
                },
            };
            let visible = match get_field_bool(p, "visible") {
                Some(v) => v,
                None => {
                    return Err(invalid_param("Missing or invalid 'visible' parameter"));
                },
            };
            Ok(RpcMethod::SetLayerVisibility { id: #[verifier::truncate] (id as u32), visible })
        } else if string_eq_lit(&request.method, "set_layer_opacity") {
            let id = match get_field_u64(p, "id") {
                Some(id) => id,
                None => {
                    return Err(invalid_param("Missing or invalid 'id' parameter"));
                },
            };
            let micro = match get_field_micro(p, "opacity") {
                Some(o) => o,
                None => {
                    return Err(invalid_param("Missing or invalid 'opacity' parameter"));
                },
            };
            Ok(RpcMethod::SetLayerOpacity { id: #[verifier::truncate] (id as u32), opacity_micro: micro })
        } else {
            Err(RpcError::method_not_found(request.method.clone()))
        }
    }
}


} // verus!
