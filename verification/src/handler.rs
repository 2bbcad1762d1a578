//! The RPC handler: requests are decoded, validated, routed to the
//! state core and the layout capability, and answered; state changes
//! fan out as notifications to subscribed clients.

use crate::bridge::NotificationBridge;
use crate::decimal::{dec_str, push_dec_u64, u64_to_string, i64_to_string, opacity_to_string};
use crate::json::JsonValue;
use crate::notifications::Notification;
use crate::protocol::{
    auto_commit_of, event_label, EventType, RpcError, RpcMethod, RpcRequest, RpcResponse,
};
use crate::bridge::{converted_note, queues_to, topic_of_note};
use crate::state::{
    focus_note, layer_configure_notes, surface_configure_mirror, surface_configure_notes,
    z_order_note, LayerSnapshot, LayerState, StateManager, SurfaceSnapshot, SurfaceState,
};
use crate::subscriptions::SubscriptionManager;
use crate::transport::ClientId;
use crate::validation::{validate_opacity, validate_position, validate_size, validate_z_order};
use vstd::prelude::*;

verus! {

/// The layout capability: the host-provided interface through which
/// surface and layer properties are read and written. The host's build
/// decides what each call does; a test provides a mock. Property writes
/// take effect only at the next commit.
pub trait LayoutCapability {
    /// Read one surface's current properties, or nothing when the host
    /// does not know the id.
    fn get_surface_snapshot(&mut self, id: u32) -> Option<SurfaceSnapshot>;

    /// Read every surface the host knows, with its id.
    fn get_surfaces(&mut self) -> Vec<(u32, SurfaceSnapshot)>;

    /// Read one layer's current properties.
    fn get_layer_snapshot(&mut self, id: u32) -> Option<LayerSnapshot>;

    /// Read every layer the host knows, with its id.
    fn get_layers(&mut self) -> Vec<(u32, LayerSnapshot)>;

    /// Write a surface's destination rectangle.
    fn set_surface_destination_rectangle(
        &mut self,
        id: u32,
        x: i32,
        y: i32,
        width: i32,
        height: i32,
    ) -> Result<(), String>;

    /// Write a surface's visibility.
    fn set_surface_visibility(&mut self, id: u32, visible: bool) -> Result<(), String>;

    /// Write a surface's opacity, in micro-units.
    fn set_surface_opacity(&mut self, id: u32, opacity_micro: i64) -> Result<(), String>;

    /// Give a surface the input focus.
    fn activate_surface(&mut self, id: u32) -> Result<(), String>;

    /// Write a layer's visibility.
    fn set_layer_visibility(&mut self, id: u32, visible: bool) -> Result<(), String>;

    /// Write a layer's opacity, in micro-units.
    fn set_layer_opacity(&mut self, id: u32, opacity_micro: i64) -> Result<(), String>;

    /// Atomically apply every property write since the last commit.
    fn commit_changes(&mut self) -> Result<(), String>;
}

/// Whether a JSON value is the mutator success shape:
/// `{success: true, committed: <flag>}`.
pub open spec fn is_success_body(v: JsonValue, committed: bool) -> bool {
    &&& v matches JsonValue::Obj(o)
    &&& o@.len() == 2
    &&& o@[0].0@ == "success"@ && o@[0].1 == JsonValue::Bool(true)
    &&& o@[1].0@ == "committed"@ && o@[1].1 == JsonValue::Bool(committed)
}

/// Whether a JSON value is the exact wire shape of one surface
/// snapshot.
pub open spec fn is_surface_body(v: JsonValue, s: SurfaceState) -> bool {
    &&& v matches JsonValue::Obj(o)
    &&& o@.len() == 8
    &&& o@[0].0@ == "id"@ && (o@[0].1 matches JsonValue::Num(t) && t@ == dec_str(s.id as nat))
    &&& o@[1].0@ == "orig_size"@ && is_size_body(o@[1].1, s.orig_size)
    &&& o@[2].0@ == "src_rect"@ && crate::bridge::is_rect_body(o@[2].1, s.src_rect)
    &&& o@[3].0@ == "dest_rect"@ && crate::bridge::is_rect_body(o@[3].1, s.dest_rect)
    &&& o@[4].0@ == "visibility"@ && o@[4].1 == JsonValue::Bool(s.visibility)
    &&& o@[5].0@ == "opacity"@ && (o@[5].1 matches JsonValue::Num(t) && t@
        == crate::decimal::opacity_lit(s.opacity as int))
    &&& o@[6].0@ == "orientation"@ && (o@[6].1 matches JsonValue::Str(t) && t@
        == crate::orientation::orientation_label(s.orientation))
    &&& o@[7].0@ == "z_order"@ && (o@[7].1 matches JsonValue::Num(t) && t@
        == crate::decimal::dec_str_int(s.z_order as int))
}

/// Whether a JSON value spells out a width and height.
pub open spec fn is_size_body(v: JsonValue, s: crate::geometry::SurfaceSize) -> bool {
    &&& v matches JsonValue::Obj(o)
    &&& o@.len() == 2
    &&& o@[0].0@ == "width"@ && (o@[0].1 matches JsonValue::Num(t) && t@
        == crate::decimal::dec_str_int(s.width as int))
    &&& o@[1].0@ == "height"@ && (o@[1].1 matches JsonValue::Num(t) && t@
        == crate::decimal::dec_str_int(s.height as int))
}

/// Whether a JSON value is the exact wire shape of one layer snapshot.
pub open spec fn is_layer_body(v: JsonValue, s: LayerState) -> bool {
    &&& v matches JsonValue::Obj(o)
    &&& o@.len() == 3
    &&& o@[0].0@ == "id"@ && (o@[0].1 matches JsonValue::Num(t) && t@ == dec_str(s.id as nat))
    &&& o@[1].0@ == "visibility"@ && o@[1].1 == JsonValue::Bool(s.visibility)
    &&& o@[2].0@ == "opacity"@ && (o@[2].1 matches JsonValue::Num(t) && t@
        == crate::decimal::opacity_lit(s.opacity as int))
}

/// Whether a JSON value is an array of exactly these event labels.
pub open spec fn is_event_list_body(v: JsonValue, es: Seq<EventType>) -> bool {
    &&& v matches JsonValue::Arr(items)
    &&& items@.len() == es.len()
    &&& forall|i: int|
        0 <= i < es.len() ==> ((#[trigger] items@[i]) matches JsonValue::Str(t) && t@
            == event_label(es[i]))
}

/// Build the wire shape of one surface snapshot.
pub fn surface_state_to_json(s: &SurfaceState) -> (v: JsonValue)
    ensures
        is_surface_body(v, *s),
{
    let mut size_fields: Vec<(String, JsonValue)> = Vec::new();
    size_fields.push(("width".to_owned(), JsonValue::Num(i64_to_string(s.orig_size.width as i64))));
    size_fields.push((
        "height".to_owned(),
        JsonValue::Num(i64_to_string(s.orig_size.height as i64)),
    ));
    let mut fields: Vec<(String, JsonValue)> = Vec::new();
    fields.push(("id".to_owned(), JsonValue::Num(u64_to_string(s.id as u64))));
    fields.push(("orig_size".to_owned(), JsonValue::Obj(size_fields)));
    fields.push(("src_rect".to_owned(), rect_body(&s.src_rect)));
    fields.push(("dest_rect".to_owned(), rect_body(&s.dest_rect)));
    fields.push(("visibility".to_owned(), JsonValue::Bool(s.visibility)));
    fields.push(("opacity".to_owned(), JsonValue::Num(opacity_to_string(s.opacity))));
    fields.push(("orientation".to_owned(), JsonValue::Str(s.orientation.as_str().to_owned())));
    fields.push(("z_order".to_owned(), JsonValue::Num(i64_to_string(s.z_order as i64))));
    JsonValue::Obj(fields)
}

fn rect_body(r: &crate::geometry::Rectangle) -> (v: JsonValue)
    ensures
        crate::bridge::is_rect_body(v, *r),
{
    let mut fields: Vec<(String, JsonValue)> = Vec::new();
    fields.push(("x".to_owned(), JsonValue::Num(i64_to_string(r.x as i64))));
    fields.push(("y".to_owned(), JsonValue::Num(i64_to_string(r.y as i64))));
    fields.push(("width".to_owned(), JsonValue::Num(i64_to_string(r.width as i64))));
    fields.push(("height".to_owned(), JsonValue::Num(i64_to_string(r.height as i64))));
    JsonValue::Obj(fields)
}

/// Build the wire shape of one layer snapshot.
pub fn layer_state_to_json(s: &LayerState) -> (v: JsonValue)
    ensures
        is_layer_body(v, *s),
{
    let mut fields: Vec<(String, JsonValue)> = Vec::new();
    fields.push(("id".to_owned(), JsonValue::Num(u64_to_string(s.id as u64))));
    fields.push(("visibility".to_owned(), JsonValue::Bool(s.visibility)));
    fields.push(("opacity".to_owned(), JsonValue::Num(opacity_to_string(s.opacity))));
    JsonValue::Obj(fields)
}

fn event_list_json(es: &Vec<EventType>) -> (v: JsonValue)
    ensures
        is_event_list_body(v, es@),
{
    let mut items: Vec<JsonValue> = Vec::new();
    let mut i: usize = 0;
    while i < es.len()
        invariant
            i <= es@.len(),
            items@.len() == i,
            forall|j: int|
                0 <= j < i ==> ((#[trigger] items@[j]) matches JsonValue::Str(t) && t@
                    == event_label(es@[j])),
        decreases es@.len() - i,
    {
        items.push(JsonValue::Str(es[i].as_str().to_owned()));
        i += 1;
    }
    JsonValue::Arr(items)
}

fn success_json(committed: bool) -> (v: JsonValue)
    ensures
        is_success_body(v, committed),
{
    let mut fields: Vec<(String, JsonValue)> = Vec::new();
    fields.push(("success".to_owned(), JsonValue::Bool(true)));
    fields.push(("committed".to_owned(), JsonValue::Bool(committed)));
    JsonValue::Obj(fields)
}

fn surface_fetch_error(id: u32) -> (r: RpcError)
    ensures
        r.code == crate::protocol::CODE_INTERNAL_ERROR,
        r.message@ == "Failed to get IVI surface "@ + dec_str(id as nat),
{
    let mut m = String::new();
    m.append("Failed to get IVI surface ");
    push_dec_u64(id as u64, &mut m);
    RpcError::internal_error(m)
}

fn layer_fetch_error(id: u32) -> (r: RpcError)
    ensures
        r.code == crate::protocol::CODE_INTERNAL_ERROR,
        r.message@ == "Failed to get IVI layer "@ + dec_str(id as nat),
{
    let mut m = String::new();
    m.append("Failed to get IVI layer ");
    push_dec_u64(id as u64, &mut m);
    RpcError::internal_error(m)
}

/// The answer a surface id with no mirror entry gets, the handler left
/// untouched.
pub open spec fn surface_missing_outcome(pre: RpcHandler, post: RpcHandler, id: u32, r: RpcResponse) -> bool {
    &&& r.result is None
    &&& r.error matches Some(e) && e.code == crate::protocol::CODE_NOT_FOUND && e.message@
        == "Surface not found: "@ + dec_str(id as nat)
    &&& post == pre
}

/// The answer a layer id with no mirror entry gets.
pub open spec fn layer_missing_outcome(pre: RpcHandler, post: RpcHandler, id: u32, r: RpcResponse) -> bool {
    &&& r.result is None
    &&& r.error matches Some(e) && e.code == crate::protocol::CODE_NOT_FOUND && e.message@
        == "Layer not found: "@ + dec_str(id as nat)
    &&& post == pre
}

/// What a surface property mutator answers once validation and presence
/// hold: any failure is internal, success is the success shape, the
/// handler is untouched without auto-commit, and an auto-committed
/// success is one recorded write plus a flush.
pub open spec fn surface_mutator_outcome(
    pre: RpcHandler,
    post: RpcHandler,
    id: u32,
    auto_commit: bool,
    r: RpcResponse,
) -> bool {
    &&& (r.error matches Some(e) ==> e.code == crate::protocol::CODE_INTERNAL_ERROR)
    &&& (r.result matches Some(v) ==> is_success_body(v, auto_commit))
    &&& (!auto_commit ==> post.state == pre.state && post.subscriptions == pre.subscriptions)
    &&& (r.result is Some && auto_commit ==> mutator_flush(pre, post, id))
}

/// What a layer property mutator answers once validation and presence
/// hold.
pub open spec fn layer_mutator_outcome(
    pre: RpcHandler,
    post: RpcHandler,
    id: u32,
    auto_commit: bool,
    r: RpcResponse,
) -> bool {
    &&& (r.error matches Some(e) ==> e.code == crate::protocol::CODE_INTERNAL_ERROR)
    &&& (r.result matches Some(v) ==> is_success_body(v, auto_commit))
    &&& (!auto_commit ==> post.state == pre.state && post.subscriptions == pre.subscriptions)
    &&& (r.result is Some && auto_commit ==> layer_mutator_flush(pre, post, id))
}

/// What dispatching one decoded method answers, over the handler before
/// and after: each case restates the named handler's contract at the
/// response level, so a decoded request is owed exactly this.
pub open spec fn dispatch_expectation(
    m: RpcMethod,
    pre: RpcHandler,
    post: RpcHandler,
    auto_commit: bool,
    client: ClientId,
    r: RpcResponse,
) -> bool {
    match m {
        RpcMethod::ListSurfaces => {
            &&& post == pre
            &&& r.error is None
            &&& r.result matches Some(v) && v matches JsonValue::Obj(o) && o@.len() == 1
                && o@[0].0@ == "surfaces"@ && (o@[0].1 matches JsonValue::Arr(items)
                && items@.len() == pre.state.surfaces_seq().len() && (forall|i: int|
                0 <= i < items@.len() ==> is_surface_body(
                    #[trigger] items@[i],
                    pre.state.surfaces_seq()[i].1,
                )))
        },
        RpcMethod::GetSurface { id } => match pre.state.surface_at(id) {
            Some(s) => post == pre && r.error is None && (r.result matches Some(v)
                && is_surface_body(v, s)),
            None => surface_missing_outcome(pre, post, id, r),
        },
        RpcMethod::SetPosition { id, x, y } => {
            if !(crate::validation::coord_ok(x as int) && crate::validation::coord_ok(y as int)) {
                r.result is None && (r.error matches Some(e) && e.code
                    == crate::protocol::CODE_INVALID_PARAMS) && post == pre
            } else if pre.state.surface_at(id) is None {
                surface_missing_outcome(pre, post, id, r)
            } else {
                surface_mutator_outcome(pre, post, id, auto_commit, r)
            }
        },
        RpcMethod::SetSize { id, width, height } => {
            if !(width > 0 && height > 0) {
                r.result is None && (r.error matches Some(e) && e.code
                    == crate::protocol::CODE_INVALID_PARAMS) && post == pre
            } else if pre.state.surface_at(id) is None {
                surface_missing_outcome(pre, post, id, r)
            } else {
                surface_mutator_outcome(pre, post, id, auto_commit, r)
            }
        },
        RpcMethod::SetVisibility { id, visible } => {
            if pre.state.surface_at(id) is None {
                surface_missing_outcome(pre, post, id, r)
            } else {
                surface_mutator_outcome(pre, post, id, auto_commit, r)
            }
        },
        RpcMethod::SetOpacity { id, opacity_micro } => {
            if !(0 <= opacity_micro <= crate::validation::OPACITY_MAX_MICRO) {
                r.result is None && (r.error matches Some(e) && e.code
                    == crate::protocol::CODE_INVALID_PARAMS && e.message@
                    == crate::validation::validation_message(
                    crate::validation::ValidationError::InvalidOpacity { micro: opacity_micro },
                )) && post == pre
            } else if pre.state.surface_at(id) is None {
                surface_missing_outcome(pre, post, id, r)
            } else {
                surface_mutator_outcome(pre, post, id, auto_commit, r)
            }
        },
        RpcMethod::SetOrientation { id, orientation: _ } => {
            &&& post == pre
            &&& match pre.state.surface_at(id) {
                Some(_) => r.result is None && (r.error matches Some(e) && e.code
                    == crate::protocol::CODE_INTERNAL_ERROR && e.message@
                    == "Orientation control not supported by current IVI API"@),
                None => surface_missing_outcome(pre, post, id, r),
            }
        },
        RpcMethod::SetZOrder { id, z_order } => {
            if !(0 <= z_order <= 1000) {
                r.result is None && (r.error matches Some(e) && e.code
                    == crate::protocol::CODE_INVALID_PARAMS && e.message@
                    == crate::validation::validation_message(
                    crate::validation::ValidationError::InvalidZOrder {
                        value: z_order,
                        min: 0,
                        max: 1000,
                    },
                )) && post == pre
            } else if pre.state.surface_at(id) is None {
                surface_missing_outcome(pre, post, id, r)
            } else {
                &&& (r.error matches Some(e) ==> e.code == crate::protocol::CODE_INTERNAL_ERROR)
                &&& (r.result matches Some(v) ==> is_success_body(v, auto_commit))
                &&& (!auto_commit ==> post.state == pre.state && post.subscriptions
                    == pre.subscriptions)
                &&& (r.result is Some && auto_commit ==> match pre.state.surface_at(id) {
                    Some(s) => post.state.surface_at(id) == Some(SurfaceState { z_order, ..s }),
                    None => true,
                })
            }
        },
        RpcMethod::SetFocus { id } => {
            if pre.state.surface_at(id) is None {
                surface_missing_outcome(pre, post, id, r)
            } else {
                &&& post.state.focus() == Some(id)
                &&& post.state.focus_ok()
                &&& (r.error matches Some(e) ==> e.code == crate::protocol::CODE_INTERNAL_ERROR)
                &&& (r.result matches Some(v) ==> is_success_body(v, auto_commit))
            }
        },
        RpcMethod::Commit => {
            &&& (r.result matches Some(v) ==> (v matches JsonValue::Obj(o) && o@.len() == 1
                && o@[0].0@ == "success"@ && o@[0].1 == JsonValue::Bool(true) && flush_effect(
                pre,
                post,
            )))
            &&& (r.error matches Some(e) ==> e.code == crate::protocol::CODE_INTERNAL_ERROR
                && post == pre)
        },
        RpcMethod::Subscribe { event_types } => {
            &&& r.error is None
            &&& r.result matches Some(v) && v matches JsonValue::Obj(o) && o@.len() == 2
                && o@[0].0@ == "success"@ && o@[0].1 == JsonValue::Bool(true) && o@[1].0@
                == "subscribed"@ && is_event_list_body(o@[1].1, event_types@)
            &&& post.state == pre.state
            &&& post.subscriptions.has_client(client)
            &&& post.subscriptions.topics_of(client) == pre.subscriptions.topics_of(client)
                + event_types@.to_set()
            &&& post.subscriptions.topics_seq_of(client) == crate::subscriptions::merged_topics(
                pre.subscriptions.topics_seq_of(client),
                event_types@,
            )
        },
        RpcMethod::Unsubscribe { event_types } => {
            if !pre.subscriptions.has_client(client) {
                r.result is None && (r.error matches Some(e) && e.code
                    == crate::protocol::CODE_INTERNAL_ERROR) && post == pre
            } else {
                &&& r.error is None
                &&& r.result matches Some(v) && v matches JsonValue::Obj(o) && o@.len() == 2
                    && o@[0].0@ == "success"@ && o@[0].1 == JsonValue::Bool(true) && o@[1].0@
                    == "unsubscribed"@ && is_event_list_body(o@[1].1, event_types@)
                &&& post.state == pre.state
                &&& post.subscriptions.topics_of(client) == pre.subscriptions.topics_of(
                    client,
                ).difference(event_types@.to_set())
                &&& post.subscriptions.topics_seq_of(client)
                    == crate::subscriptions::retained_topics(
                    pre.subscriptions.topics_seq_of(client),
                    event_types@,
                )
            }
        },
        RpcMethod::ListSubscriptions => {
            &&& post == pre
            &&& r.error is None
            &&& r.result matches Some(v) && v matches JsonValue::Obj(o) && o@.len() == 1
                && o@[0].0@ == "subscriptions"@ && is_event_list_body(
                o@[0].1,
                pre.subscriptions.topics_seq_of(client),
            )
        },
        RpcMethod::ListLayers => {
            &&& post == pre
            &&& r.error is None
            &&& r.result matches Some(v) && v matches JsonValue::Obj(o) && o@.len() == 1
                && o@[0].0@ == "layers"@ && (o@[0].1 matches JsonValue::Arr(items)
                && items@.len() == pre.state.layers_seq().len() && (forall|i: int|
                0 <= i < items@.len() ==> is_layer_body(
                    #[trigger] items@[i],
                    pre.state.layers_seq()[i].1,
                )))
        },
        RpcMethod::GetLayer { id } => match pre.state.layer_at(id) {
            Some(s) => post == pre && r.error is None && (r.result matches Some(v)
                && is_layer_body(v, s)),
            None => layer_missing_outcome(pre, post, id, r),
        },
        RpcMethod::SetLayerVisibility { id, visible } => {
            if pre.state.layer_at(id) is None {
                layer_missing_outcome(pre, post, id, r)
            } else {
                layer_mutator_outcome(pre, post, id, auto_commit, r)
            }
        },
        RpcMethod::SetLayerOpacity { id, opacity_micro } => {
            if !(0 <= opacity_micro <= crate::validation::OPACITY_MAX_MICRO) {
                r.result is None && (r.error matches Some(e) && e.code
                    == crate::protocol::CODE_INVALID_PARAMS) && post == pre
            } else if pre.state.layer_at(id) is None {
                layer_missing_outcome(pre, post, id, r)
            } else {
                layer_mutator_outcome(pre, post, id, auto_commit, r)
            }
        },
    }
}

/// Handles decoded requests against the state core, the subscription
/// manager and the layout capability.
pub struct RpcHandler {
    /// The mirror of surfaces, layers and focus.
    pub state: StateManager,
    /// Every client's subscriptions and outbox.
    pub subscriptions: SubscriptionManager,
    /// Surfaces written through the capability since the last flush;
    /// a flush re-reads each and folds its diff into the mirror.
    pub pending_surfaces: Vec<u32>,
    /// Layers written through the capability since the last flush.
    pub pending_layers: Vec<u32>,
}

/// The parts of the handler every request leaves well-formed and, for
/// clients it does not touch, unchanged in membership and topics.
pub open spec fn handler_wf(h: &RpcHandler) -> bool {
    h.state.wf() && h.subscriptions.wf()
}

/// Whether two handlers hold the same mirror and subscription state;
/// the pending-write bookkeeping is left aside.
pub open spec fn same_core(a: RpcHandler, b: RpcHandler) -> bool {
    a.state == b.state && a.subscriptions == b.subscriptions
}

/// What re-reading one surface after a flush does, given what the
/// capability answered: nothing when it knows no such surface; else the
/// configure update of the mirror, with the diff notifications queued
/// for their subscribers.
pub open spec fn surface_refresh_effect(
    pre: RpcHandler,
    post: RpcHandler,
    id: u32,
    snap: Option<SurfaceSnapshot>,
) -> bool {
    &&& post.state.layers_seq() == pre.state.layers_seq()
    &&& post.state.focus() == pre.state.focus()
    &&& post.subscriptions.bound() == pre.subscriptions.bound()
    &&& forall|c: ClientId|
        post.subscriptions.has_client(c) == pre.subscriptions.has_client(c)
    &&& forall|c: ClientId| #[trigger]
        post.subscriptions.topics_of(c) == pre.subscriptions.topics_of(c)
    &&& match snap {
        None => same_core(post, pre),
        Some(s) => {
            &&& post.state.surfaces_seq() == surface_configure_mirror(
                pre.state.surfaces_seq(),
                id,
                s,
            )
            &&& forall|c: ClientId|
                pre.subscriptions.has_client(c) ==> queues_to(
                    pre.subscriptions.queued_of(c),
                    surface_configure_notes(pre.state.surface_at(id), id, s),
                    pre.subscriptions.topics_of(c),
                    pre.subscriptions.bound(),
                    #[trigger] post.subscriptions.queued_of(c),
                )
        },
    }
}

/// What re-reading one layer after a flush does.
pub open spec fn layer_refresh_effect(
    pre: RpcHandler,
    post: RpcHandler,
    id: u32,
    snap: Option<LayerSnapshot>,
) -> bool {
    &&& post.state.surfaces_seq() == pre.state.surfaces_seq()
    &&& post.state.focus() == pre.state.focus()
    &&& post.subscriptions.bound() == pre.subscriptions.bound()
    &&& forall|c: ClientId|
        post.subscriptions.has_client(c) == pre.subscriptions.has_client(c)
    &&& forall|c: ClientId| #[trigger]
        post.subscriptions.topics_of(c) == pre.subscriptions.topics_of(c)
    &&& match snap {
        None => same_core(post, pre),
        Some(s) => {
            &&& post.state.layers_seq() == crate::assoc::assoc_set(
                pre.state.layers_seq(),
                id,
                LayerState { id, visibility: s.visibility, opacity: s.opacity },
            )
            &&& forall|c: ClientId|
                pre.subscriptions.has_client(c) ==> queues_to(
                    pre.subscriptions.queued_of(c),
                    layer_configure_notes(pre.state.layer_at(id), id, s),
                    pre.subscriptions.topics_of(c),
                    pre.subscriptions.bound(),
                    #[trigger] post.subscriptions.queued_of(c),
                )
        },
    }
}

/// Whether a handler evolves into another by re-reading the listed
/// surfaces in order, each against whatever snapshot the capability
/// answered.
pub open spec fn surfaces_refreshed(pre: RpcHandler, ids: Seq<u32>, post: RpcHandler) -> bool
    decreases ids,
{
    if ids.len() == 0 {
        same_core(post, pre)
    } else {
        exists|mid: RpcHandler, snap: Option<SurfaceSnapshot>|
            #[trigger] surface_refresh_effect(pre, mid, ids[0], snap) && surfaces_refreshed(
                mid,
                ids.drop_first(),
                post,
            )
    }
}

/// Whether a handler evolves into another by re-reading the listed
/// layers in order.
pub open spec fn layers_refreshed(pre: RpcHandler, ids: Seq<u32>, post: RpcHandler) -> bool
    decreases ids,
{
    if ids.len() == 0 {
        same_core(post, pre)
    } else {
        exists|mid: RpcHandler, snap: Option<LayerSnapshot>|
            #[trigger] layer_refresh_effect(pre, mid, ids[0], snap) && layers_refreshed(
                mid,
                ids.drop_first(),
                post,
            )
    }
}

proof fn lemma_surfaces_refreshed_step(
    pre: RpcHandler,
    ids: Seq<u32>,
    x: u32,
    mid: RpcHandler,
    post: RpcHandler,
    snap: Option<SurfaceSnapshot>,
)
    requires
        surfaces_refreshed(pre, ids, mid),
        surface_refresh_effect(mid, post, x, snap),
    ensures
        surfaces_refreshed(pre, ids.push(x), post),
    decreases ids,
{
    let p = ids.push(x);
    if ids.len() == 0 {
        assert(p[0] == x);
        assert(p.drop_first() =~= Seq::<u32>::empty());
        assert(surface_refresh_effect(pre, post, x, snap)) by {
            lemma_refresh_effect_shift_pre(mid, pre, post, x, snap);
        };
        assert(surfaces_refreshed(post, p.drop_first(), post));
    } else {
        assert(p[0] == ids[0]);
        assert(p.drop_first() =~= ids.drop_first().push(x));
        let (m0, s0) = choose|m0: RpcHandler, s0: Option<SurfaceSnapshot>|
            #[trigger] surface_refresh_effect(pre, m0, ids[0], s0) && surfaces_refreshed(
                m0,
                ids.drop_first(),
                mid,
            );
        lemma_surfaces_refreshed_step(m0, ids.drop_first(), x, mid, post, snap);
    }
}

proof fn lemma_refresh_effect_shift_pre(
    mid: RpcHandler,
    pre: RpcHandler,
    post: RpcHandler,
    x: u32,
    snap: Option<SurfaceSnapshot>,
)
    requires
        same_core(mid, pre),
        surface_refresh_effect(mid, post, x, snap),
    ensures
        surface_refresh_effect(pre, post, x, snap),
{
}

proof fn lemma_layers_refreshed_step(
    pre: RpcHandler,
    ids: Seq<u32>,
    x: u32,
    mid: RpcHandler,
    post: RpcHandler,
    snap: Option<LayerSnapshot>,
)
    requires
        layers_refreshed(pre, ids, mid),
        layer_refresh_effect(mid, post, x, snap),
    ensures
        layers_refreshed(pre, ids.push(x), post),
    decreases ids,
{
    let p = ids.push(x);
    if ids.len() == 0 {
        assert(p[0] == x);
        assert(p.drop_first() =~= Seq::<u32>::empty());
        assert(layer_refresh_effect(pre, post, x, snap)) by {
            lemma_layer_effect_shift_pre(mid, pre, post, x, snap);
        };
        assert(layers_refreshed(post, p.drop_first(), post));
    } else {
        assert(p[0] == ids[0]);
        assert(p.drop_first() =~= ids.drop_first().push(x));
        let (m0, s0) = choose|m0: RpcHandler, s0: Option<LayerSnapshot>|
            #[trigger] layer_refresh_effect(pre, m0, ids[0], s0) && layers_refreshed(
                m0,
                ids.drop_first(),
                mid,
            );
        lemma_layers_refreshed_step(m0, ids.drop_first(), x, mid, post, snap);
    }
}

proof fn lemma_layer_effect_shift_pre(
    mid: RpcHandler,
    pre: RpcHandler,
    post: RpcHandler,
    x: u32,
    snap: Option<LayerSnapshot>,
)
    requires
        same_core(mid, pre),
        layer_refresh_effect(mid, post, x, snap),
    ensures
        layer_refresh_effect(pre, post, x, snap),
{
}

/// Whether a handler evolves into another by one successful flush: the
/// pending surfaces re-read in order, then the pending layers.
pub open spec fn flush_effect(pre: RpcHandler, post: RpcHandler) -> bool {
    &&& post.pending_surfaces@ == Seq::<u32>::empty()
    &&& post.pending_layers@ == Seq::<u32>::empty()
    &&& exists|mid: RpcHandler|
        #[trigger] surfaces_refreshed(pre, pre.pending_surfaces@, mid) && layers_refreshed(
            mid,
            pre.pending_layers@,
            post,
        )
}

/// What a surface mutator's auto-commit does: the touched surface joins
/// the pending writes, and one successful flush runs.
pub open spec fn mutator_flush(pre: RpcHandler, post: RpcHandler, id: u32) -> bool {
    exists|staged: RpcHandler|
        {
            &&& #[trigger] same_core(staged, pre)
            &&& (staged.pending_surfaces@ == pre.pending_surfaces@ || staged.pending_surfaces@
                == pre.pending_surfaces@.push(id))
            &&& staged.pending_layers@ == pre.pending_layers@
            &&& flush_effect(staged, post)
        }
}

/// What a layer mutator's auto-commit does.
pub open spec fn layer_mutator_flush(pre: RpcHandler, post: RpcHandler, id: u32) -> bool {
    exists|staged: RpcHandler|
        {
            &&& #[trigger] same_core(staged, pre)
            &&& (staged.pending_layers@ == pre.pending_layers@ || staged.pending_layers@
                == pre.pending_layers@.push(id))
            &&& staged.pending_surfaces@ == pre.pending_surfaces@
            &&& flush_effect(staged, post)
        }
}

impl RpcHandler {
    /// A handler over an empty mirror with no subscribers.
    pub fn new() -> (r: Self)
        ensures
            handler_wf(&r),
            r.state.surfaces_seq() == Seq::<(u32, SurfaceState)>::empty(),
            r.state.layers_seq() == Seq::<(u32, LayerState)>::empty(),
            r.subscriptions.client_count() == 0,
            r.pending_surfaces@ == Seq::<u32>::empty(),
            r.pending_layers@ == Seq::<u32>::empty(),
    {
        RpcHandler {
            state: StateManager::new(),
            subscriptions: SubscriptionManager::new(),
            pending_surfaces: Vec::new(),
            pending_layers: Vec::new(),
        }
    }

    /// A handler around an existing mirror and subscription manager.
    pub fn with_parts(state: StateManager, subscriptions: SubscriptionManager) -> (r: Self)
        ensures
            r.state == state,
            r.subscriptions == subscriptions,
            r.pending_surfaces@ == Seq::<u32>::empty(),
            r.pending_layers@ == Seq::<u32>::empty(),
    {
        RpcHandler {
            state,
            subscriptions,
            pending_surfaces: Vec::new(),
            pending_layers: Vec::new(),
        }
    }

    /// Queue every notification for its subscribers, in order: each
    /// client's outbox runs through the listed notifications under its
    /// topic set.
    fn publish(&mut self, notes: &Vec<Notification>)
        requires
            old(self).subscriptions.wf(),
        ensures
            final(self).subscriptions.wf(),
            final(self).state == old(self).state,
            final(self).pending_surfaces == old(self).pending_surfaces,
            final(self).pending_layers == old(self).pending_layers,
            final(self).subscriptions.bound() == old(self).subscriptions.bound(),
            forall|c: ClientId|
                final(self).subscriptions.has_client(c) == old(self).subscriptions.has_client(c),
            forall|c: ClientId| #[trigger]
                final(self).subscriptions.topics_of(c) == old(self).subscriptions.topics_of(c),
            forall|c: ClientId|
                old(self).subscriptions.has_client(c) ==> queues_to(
                    old(self).subscriptions.queued_of(c),
                    notes@,
                    old(self).subscriptions.topics_of(c),
                    old(self).subscriptions.bound(),
                    #[trigger] final(self).subscriptions.queued_of(c),
                ),
    {
        proof {
            assert(notes@.take(0) =~= Seq::<Notification>::empty());
        }
        let mut i: usize = 0;
        while i < notes.len()
            invariant
                self.subscriptions.wf(),
                i <= notes@.len(),
                self.state == old(self).state,
                self.pending_surfaces == old(self).pending_surfaces,
                self.pending_layers == old(self).pending_layers,
                self.subscriptions.bound() == old(self).subscriptions.bound(),
                forall|c: ClientId|
                    self.subscriptions.has_client(c) == old(self).subscriptions.has_client(c),
                forall|c: ClientId| #[trigger]
                    self.subscriptions.topics_of(c) == old(self).subscriptions.topics_of(c),
                forall|c: ClientId|
                    old(self).subscriptions.has_client(c) ==> queues_to(
                        old(self).subscriptions.queued_of(c),
                        notes@.take(i as int),
                        old(self).subscriptions.topics_of(c),
                        old(self).subscriptions.bound(),
                        #[trigger] self.subscriptions.queued_of(c),
                    ),
            decreases notes@.len() - i,
        {
            let ghost before = self.subscriptions;
            let bridge = NotificationBridge::new();
            bridge.handle_notification(&mut self.subscriptions, &notes[i]);
            proof {
                assert forall|c: ClientId| old(self).subscriptions.has_client(c) implies queues_to(
                    old(self).subscriptions.queued_of(c),
                    notes@.take(i + 1),
                    old(self).subscriptions.topics_of(c),
                    old(self).subscriptions.bound(),
                    #[trigger] self.subscriptions.queued_of(c),
                ) by {
                    assert(notes@.take(i + 1) =~= notes@.take(i as int).push(notes@[i as int]));
                    crate::bridge::lemma_queues_to_step(
                        old(self).subscriptions.queued_of(c),
                        notes@.take(i as int),
                        notes@[i as int],
                        old(self).subscriptions.topics_of(c),
                        old(self).subscriptions.bound(),
                        before.queued_of(c),
                        self.subscriptions.queued_of(c),
                    );
                };
            }
            i += 1;
        }
        proof {
            assert(notes@.take(notes@.len() as int) =~= notes@);
        }
    }

    /// Answer `list_surfaces`: every mirrored snapshot, in order.
    pub fn handle_list_surfaces(&self) -> (r: Result<JsonValue, RpcError>)
        ensures
            r matches Ok(v) && v matches JsonValue::Obj(o) && o@.len() == 1 && o@[0].0@
                == "surfaces"@ && (o@[0].1 matches JsonValue::Arr(items) && items@.len()
                == self.state.surfaces_seq().len() && (forall|i: int|
                0 <= i < items@.len() ==> is_surface_body(
                    #[trigger] items@[i],
                    self.state.surfaces_seq()[i].1,
                ))),
    {
        let surfaces = self.state.get_all_surfaces();
        let mut items: Vec<JsonValue> = Vec::new();
        let mut i: usize = 0;
        while i < surfaces.len()
            invariant
                i <= surfaces@.len(),
                items@.len() == i,
                surfaces@.len() == self.state.surfaces_seq().len(),
                forall|j: int|
                    0 <= j < surfaces@.len() ==> #[trigger] surfaces@[j]
                        == self.state.surfaces_seq()[j].1,
                forall|j: int|
                    0 <= j < i ==> is_surface_body(
                        #[trigger] items@[j],
                        self.state.surfaces_seq()[j].1,
                    ),
            decreases surfaces@.len() - i,
        {
            items.push(surface_state_to_json(&surfaces[i]));
            i += 1;
        }
        let mut fields: Vec<(String, JsonValue)> = Vec::new();
        fields.push(("surfaces".to_owned(), JsonValue::Arr(items)));
        Ok(JsonValue::Obj(fields))
    }

    /// Answer `get_surface`: the snapshot when the id is mirrored, the
    /// not-found error otherwise — if and only if.
    pub fn handle_get_surface(&self, id: u32) -> (r: Result<JsonValue, RpcError>)
        ensures
            match self.state.surface_at(id) {
                Some(s) => r matches Ok(v) && is_surface_body(v, s),
                None => r matches Err(e) && e.code == crate::protocol::CODE_NOT_FOUND
                    && e.message@ == "Surface not found: "@ + dec_str(id as nat),
            },
    {
        match self.state.get_surface(id) {
            Some(s) => Ok(surface_state_to_json(&s)),
            None => Err(RpcError::surface_not_found(id)),
        }
    }

    /// Answer `list_layers`.
    pub fn handle_list_layers(&self) -> (r: Result<JsonValue, RpcError>)
        ensures
            r matches Ok(v) && v matches JsonValue::Obj(o) && o@.len() == 1 && o@[0].0@
                == "layers"@ && (o@[0].1 matches JsonValue::Arr(items) && items@.len()
                == self.state.layers_seq().len() && (forall|i: int|
                0 <= i < items@.len() ==> is_layer_body(
                    #[trigger] items@[i],
                    self.state.layers_seq()[i].1,
                ))),
    {
        let layers = self.state.get_all_layers();
        let mut items: Vec<JsonValue> = Vec::new();
        let mut i: usize = 0;
        while i < layers.len()
            invariant
                i <= layers@.len(),
                items@.len() == i,
                layers@.len() == self.state.layers_seq().len(),
                forall|j: int|
                    0 <= j < layers@.len() ==> #[trigger] layers@[j]
                        == self.state.layers_seq()[j].1,
                forall|j: int|
                    0 <= j < i ==> is_layer_body(
                        #[trigger] items@[j],
                        self.state.layers_seq()[j].1,
                    ),
            decreases layers@.len() - i,
        {
            items.push(layer_state_to_json(&layers[i]));
            i += 1;
        }
        let mut fields: Vec<(String, JsonValue)> = Vec::new();
        fields.push(("layers".to_owned(), JsonValue::Arr(items)));
        Ok(JsonValue::Obj(fields))
    }

    /// Answer `get_layer`: the snapshot when the id is mirrored, the
    /// entity-not-found error otherwise — if and only if.
    pub fn handle_get_layer(&self, id: u32) -> (r: Result<JsonValue, RpcError>)
        ensures
            match self.state.layer_at(id) {
                Some(s) => r matches Ok(v) && is_layer_body(v, s),
                None => r matches Err(e) && e.code == crate::protocol::CODE_NOT_FOUND
                    && e.message@ == "Layer not found: "@ + dec_str(id as nat),
            },
    {
        match self.state.get_layer(id) {
            Some(s) => Ok(layer_state_to_json(&s)),
            None => Err(RpcError::layer_not_found(id)),
        }
    }

    /// After a flush, re-read one surface and fold the configure diff
    /// into the mirror, queueing its notifications for subscribers.
    fn refresh_surface<C: LayoutCapability>(&mut self, cap: &mut C, id: u32)
        requires
            handler_wf(old(self)),
        ensures
            handler_wf(final(self)),
            final(self).pending_surfaces == old(self).pending_surfaces,
            final(self).pending_layers == old(self).pending_layers,
            exists|snap: Option<SurfaceSnapshot>|
                #[trigger] surface_refresh_effect(*old(self), *final(self), id, snap),
    {
        match cap.get_surface_snapshot(id) {
            Some(snapshot) => {
                let notes = self.state.handle_surface_configured(id, snapshot);
                self.publish(&notes);
                proof {
                    assert(surface_refresh_effect(
                        *old(self),
                        *self,
                        id,
                        Some(snapshot),
                    ));
                }
            },
            None => {
                proof {
                    assert(surface_refresh_effect(
                        *old(self),
                        *self,
                        id,
                        None::<SurfaceSnapshot>,
                    ));
                }
            },
        }
    }

    /// After a flush, re-read one layer and fold the configure diff
    /// into the mirror, queueing its notifications for subscribers.
    fn refresh_layer<C: LayoutCapability>(&mut self, cap: &mut C, id: u32)
        requires
            handler_wf(old(self)),
        ensures
            handler_wf(final(self)),
            final(self).pending_surfaces == old(self).pending_surfaces,
            final(self).pending_layers == old(self).pending_layers,
            exists|snap: Option<LayerSnapshot>|
                #[trigger] layer_refresh_effect(*old(self), *final(self), id, snap),
    {
        match cap.get_layer_snapshot(id) {
            Some(snapshot) => {
                let notes = self.state.handle_layer_configured(id, snapshot);
                self.publish(&notes);
                proof {
                    assert(layer_refresh_effect(*old(self), *self, id, Some(snapshot)));
                }
            },
            None => {
                proof {
                    assert(layer_refresh_effect(*old(self), *self, id, None::<LayerSnapshot>));
                }
            },
        }
    }

    /// Record a surface as written since the last flush.
    fn note_pending_surface(&mut self, id: u32)
        ensures
            final(self).state == old(self).state,
            final(self).subscriptions == old(self).subscriptions,
            final(self).pending_layers == old(self).pending_layers,
            final(self).pending_surfaces@ == old(self).pending_surfaces@ || final(self).pending_surfaces@ == old(self).pending_surfaces@.push(id),
    {
        let mut present = false;
        let mut i: usize = 0;
        while i < self.pending_surfaces.len()
            invariant
                *self == *old(self),
            decreases self.pending_surfaces@.len() - i,
        {
            if self.pending_surfaces[i] == id {
                present = true;
            }
            i += 1;
        }
        if !present {
            self.pending_surfaces.push(id);
        }
    }

    /// Record a layer as written since the last flush.
    fn note_pending_layer(&mut self, id: u32)
        ensures
            final(self).state == old(self).state,
            final(self).subscriptions == old(self).subscriptions,
            final(self).pending_surfaces == old(self).pending_surfaces,
            final(self).pending_layers@ == old(self).pending_layers@ || final(self).pending_layers@ == old(self).pending_layers@.push(id),
    {
        let mut present = false;
        let mut i: usize = 0;
        while i < self.pending_layers.len()
            invariant
                *self == *old(self),
            decreases self.pending_layers@.len() - i,
        {
            if self.pending_layers[i] == id {
                present = true;
            }
            i += 1;
        }
        if !present {
            self.pending_layers.push(id);
        }
    }

    /// Flush: commit every pending capability write, then re-read each
    /// written entity and fold its diff into the mirror, queueing the
    /// notifications. A failed commit leaves everything as it was.
    fn flush<C: LayoutCapability>(&mut self, cap: &mut C) -> (r: Result<(), String>)
        requires
            handler_wf(old(self)),
        ensures
            handler_wf(final(self)),
            r is Err ==> *final(self) == *old(self),
            r is Ok ==> flush_effect(*old(self), *final(self)),
    {
        match cap.commit_changes() {
            Err(e) => {
                return Err(e);
            },
            Ok(()) => {},
        }
        let ghost start = *self;
        let mut surf_ids: Vec<u32> = Vec::new();
        let mut k: usize = 0;
        while k < self.pending_surfaces.len()
            invariant
                *self == start,
                k <= self.pending_surfaces@.len(),
                surf_ids@ == self.pending_surfaces@.take(k as int),
            decreases self.pending_surfaces@.len() - k,
        {
            surf_ids.push(self.pending_surfaces[k]);
            proof {
                assert(surf_ids@ =~= self.pending_surfaces@.take(k + 1));
            }
            k += 1;
        }
        let mut layer_ids: Vec<u32> = Vec::new();
        let mut k2: usize = 0;
        while k2 < self.pending_layers.len()
            invariant
                *self == start,
                k2 <= self.pending_layers@.len(),
                layer_ids@ == self.pending_layers@.take(k2 as int),
            decreases self.pending_layers@.len() - k2,
        {
            layer_ids.push(self.pending_layers[k2]);
            proof {
                assert(layer_ids@ =~= self.pending_layers@.take(k2 + 1));
            }
            k2 += 1;
        }
        proof {
            assert(surf_ids@ =~= start.pending_surfaces@);
            assert(layer_ids@ =~= start.pending_layers@);
        }
        self.pending_surfaces.clear();
        self.pending_layers.clear();
        let mut i: usize = 0;
        proof {
            assert(surf_ids@.take(0) =~= Seq::<u32>::empty());
            assert(self.pending_surfaces@ =~= Seq::<u32>::empty());
            assert(self.pending_layers@ =~= Seq::<u32>::empty());
        }
        while i < surf_ids.len()
            invariant
                handler_wf(self),
                i <= surf_ids@.len(),
                self.pending_surfaces@ == Seq::<u32>::empty(),
                self.pending_layers@ == Seq::<u32>::empty(),
                surfaces_refreshed(start, surf_ids@.take(i as int), *self),
            decreases surf_ids@.len() - i,
        {
            let ghost mid = *self;
            let id = surf_ids[i];
            self.refresh_surface(cap, id);
            proof {
                let snap = choose|snap: Option<SurfaceSnapshot>|
                    #[trigger] surface_refresh_effect(mid, *self, id, snap);
                lemma_surfaces_refreshed_step(
                    start,
                    surf_ids@.take(i as int),
                    id,
                    mid,
                    *self,
                    snap,
                );
                assert(surf_ids@.take(i as int).push(id) =~= surf_ids@.take(i + 1));
            }
            i += 1;
        }
        proof {
            assert(surf_ids@.take(surf_ids@.len() as int) =~= surf_ids@);
        }
        let ghost middle = *self;
        let mut j: usize = 0;
        proof {
            assert(layer_ids@.take(0) =~= Seq::<u32>::empty());
        }
        while j < layer_ids.len()
            invariant
                handler_wf(self),
                j <= layer_ids@.len(),
                self.pending_surfaces@ == Seq::<u32>::empty(),
                self.pending_layers@ == Seq::<u32>::empty(),
                layers_refreshed(middle, layer_ids@.take(j as int), *self),
            decreases layer_ids@.len() - j,
        {
            let ghost mid = *self;
            let id = layer_ids[j];
            self.refresh_layer(cap, id);
            proof {
                let snap = choose|snap: Option<LayerSnapshot>|
                    #[trigger] layer_refresh_effect(mid, *self, id, snap);
                lemma_layers_refreshed_step(
                    middle,
                    layer_ids@.take(j as int),
                    id,
                    mid,
                    *self,
                    snap,
                );
                assert(layer_ids@.take(j as int).push(id) =~= layer_ids@.take(j + 1));
            }
            j += 1;
        }
        proof {
            assert(layer_ids@.take(layer_ids@.len() as int) =~= layer_ids@);
            assert(flush_effect(*old(self), *self)) by {
                assert(surfaces_refreshed(start, start.pending_surfaces@, middle)
                    && layers_refreshed(middle, start.pending_layers@, *self));
            };
        }
        Ok(())
    }

    /// Answer `set_position`: validate, demand a mirrored surface,
    /// write the destination origin keeping the current size, and on
    /// auto-commit flush and fold the re-read diff into the mirror.
    pub fn handle_set_position<C: LayoutCapability>(
        &mut self,
        cap: &mut C,
        id: u32,
        x: i32,
        y: i32,
        auto_commit: bool,
    ) -> (r: Result<JsonValue, RpcError>)
        requires
            handler_wf(old(self)),
        ensures
            handler_wf(final(self)),
            !(crate::validation::coord_ok(x as int) && crate::validation::coord_ok(y as int))
                ==> (r matches Err(e) && e.code == crate::protocol::CODE_INVALID_PARAMS && *final(self) == *old(self)),
            crate::validation::coord_ok(x as int) && crate::validation::coord_ok(y as int) && old(self).state.surface_at(id) is None ==> (r matches Err(e) && e.code
                == crate::protocol::CODE_NOT_FOUND && e.message@ == "Surface not found: "@
                + dec_str(id as nat) && *final(self) == *old(self)),
            r matches Ok(v) ==> is_success_body(v, auto_commit),
            crate::validation::coord_ok(x as int) && crate::validation::coord_ok(y as int) && old(
                self,
            ).state.surface_at(id) is Some ==> (r matches Err(e) ==> e.code
                == crate::protocol::CODE_INTERNAL_ERROR),
            !auto_commit ==> final(self).state == old(self).state && final(self).subscriptions
                == old(self).subscriptions,
            r is Ok && auto_commit ==> mutator_flush(*old(self), *final(self), id),
    {
        match validate_position(x, y) {
            Err(e) => {
                return Err(RpcError::invalid_params(e.message()));
            },
            Ok(()) => {},
        }
        if !self.state.has_surface(id) {
            return Err(RpcError::surface_not_found(id));
        }
        let snapshot = match cap.get_surface_snapshot(id) {
            Some(s) => s,
            None => {
                return Err(surface_fetch_error(id));
            },
        };
        let (w, h) = match snapshot.dest_rect {
            Some(d) => (d.width, d.height),
            None => (0, 0),
        };
        match cap.set_surface_destination_rectangle(id, x, y, w, h) {
            Err(e) => {
                return Err(RpcError::internal_error(e));
            },
            Ok(()) => {},
        }
        self.note_pending_surface(id);
        if auto_commit {
            let ghost staged = *self;
            match self.flush(cap) {
                Err(e) => {
                    return Err(RpcError::internal_error(e));
                },
                Ok(()) => {},
            }
            proof {
                assert(mutator_flush(*old(self), *self, id)) by {
                    assert(same_core(staged, *old(self)) && flush_effect(staged, *self));
                };
            }
        }
        Ok(success_json(auto_commit))
    }

    /// Answer `set_size`: validate, demand a mirrored surface, write
    /// the destination dimensions keeping the current origin, and on
    /// auto-commit flush and fold the re-read diff into the mirror.
    pub fn handle_set_size<C: LayoutCapability>(
        &mut self,
        cap: &mut C,
        id: u32,
        width: i32,
        height: i32,
        auto_commit: bool,
    ) -> (r: Result<JsonValue, RpcError>)
        requires
            handler_wf(old(self)),
        ensures
            handler_wf(final(self)),
            !(width > 0 && height > 0) ==> (r matches Err(e) && e.code
                == crate::protocol::CODE_INVALID_PARAMS && *final(self) == *old(self)),
            width > 0 && height > 0 && old(self).state.surface_at(id) is None ==> (r matches Err(
                e,
            ) && e.code == crate::protocol::CODE_NOT_FOUND && e.message@
                == "Surface not found: "@ + dec_str(id as nat) && *final(self) == *old(self)),
            r matches Ok(v) ==> is_success_body(v, auto_commit),
            width > 0 && height > 0 && old(self).state.surface_at(id) is Some ==> (r matches Err(
                e,
            ) ==> e.code == crate::protocol::CODE_INTERNAL_ERROR),
            !auto_commit ==> final(self).state == old(self).state && final(self).subscriptions
                == old(self).subscriptions,
            r is Ok && auto_commit ==> mutator_flush(*old(self), *final(self), id),
    {
        match validate_size(width, height) {
            Err(e) => {
                return Err(RpcError::invalid_params(e.message()));
            },
            Ok(()) => {},
        }
        if !self.state.has_surface(id) {
            return Err(RpcError::surface_not_found(id));
        }
        let snapshot = match cap.get_surface_snapshot(id) {
            Some(s) => s,
            None => {
                return Err(surface_fetch_error(id));
            },
        };
        let (x, y) = match snapshot.dest_rect {
            Some(d) => (d.x, d.y),
            None => (0, 0),
        };
        match cap.set_surface_destination_rectangle(id, x, y, width, height) {
            Err(e) => {
                return Err(RpcError::internal_error(e));
            },
            Ok(()) => {},
        }
        self.note_pending_surface(id);
        if auto_commit {
            let ghost staged = *self;
            match self.flush(cap) {
                Err(e) => {
                    return Err(RpcError::internal_error(e));
                },
                Ok(()) => {},
            }
            proof {
                assert(mutator_flush(*old(self), *self, id)) by {
                    assert(same_core(staged, *old(self)) && flush_effect(staged, *self));
                };
            }
        }
        Ok(success_json(auto_commit))
    }

    /// Answer `set_visibility`: demand a mirrored surface, write the
    /// flag, and on auto-commit flush and fold the diff in.
    pub fn handle_set_visibility<C: LayoutCapability>(
        &mut self,
        cap: &mut C,
        id: u32,
        visible: bool,
        auto_commit: bool,
    ) -> (r: Result<JsonValue, RpcError>)
        requires
            handler_wf(old(self)),
        ensures
            handler_wf(final(self)),
            old(self).state.surface_at(id) is None ==> (r matches Err(e) && e.code
                == crate::protocol::CODE_NOT_FOUND && e.message@ == "Surface not found: "@
                + dec_str(id as nat) && *final(self) == *old(self)),
            r matches Ok(v) ==> is_success_body(v, auto_commit),
            old(self).state.surface_at(id) is Some ==> (r matches Err(e) ==> e.code
                == crate::protocol::CODE_INTERNAL_ERROR),
            !auto_commit ==> final(self).state == old(self).state && final(self).subscriptions
                == old(self).subscriptions,
            r is Ok && auto_commit ==> mutator_flush(*old(self), *final(self), id),
    {
        if !self.state.has_surface(id) {
            return Err(RpcError::surface_not_found(id));
        }
        match cap.set_surface_visibility(id, visible) {
            Err(e) => {
                return Err(RpcError::internal_error(e));
            },
            Ok(()) => {},
        }
        self.note_pending_surface(id);
        if auto_commit {
            let ghost staged = *self;
            match self.flush(cap) {
                Err(e) => {
                    return Err(RpcError::internal_error(e));
                },
                Ok(()) => {},
            }
            proof {
                assert(mutator_flush(*old(self), *self, id)) by {
                    assert(same_core(staged, *old(self)) && flush_effect(staged, *self));
                };
            }
        }
        Ok(success_json(auto_commit))
    }

    /// Answer `set_opacity`: validate the micro-unit range, demand a
    /// mirrored surface, write the opacity, and on auto-commit flush
    /// and fold the diff in. Validation failures never reach the
    /// capability.
    pub fn handle_set_opacity<C: LayoutCapability>(
        &mut self,
        cap: &mut C,
        id: u32,
        opacity_micro: i64,
        auto_commit: bool,
    ) -> (r: Result<JsonValue, RpcError>)
        requires
            handler_wf(old(self)),
        ensures
            handler_wf(final(self)),
            !(0 <= opacity_micro <= crate::validation::OPACITY_MAX_MICRO) ==> (r matches Err(e)
                && e.code == crate::protocol::CODE_INVALID_PARAMS && e.message@
                == crate::validation::validation_message(
                crate::validation::ValidationError::InvalidOpacity { micro: opacity_micro },
            ) && *final(self) == *old(self)),
            0 <= opacity_micro <= crate::validation::OPACITY_MAX_MICRO && old(self).state.surface_at(id) is None ==> (r matches Err(e) && e.code
                == crate::protocol::CODE_NOT_FOUND && e.message@ == "Surface not found: "@
                + dec_str(id as nat) && *final(self) == *old(self)),
            r matches Ok(v) ==> is_success_body(v, auto_commit),
            0 <= opacity_micro <= crate::validation::OPACITY_MAX_MICRO && old(
                self,
            ).state.surface_at(id) is Some ==> (r matches Err(e) ==> e.code
                == crate::protocol::CODE_INTERNAL_ERROR),
            !auto_commit ==> final(self).state == old(self).state && final(self).subscriptions
                == old(self).subscriptions,
            r is Ok && auto_commit ==> mutator_flush(*old(self), *final(self), id),
    {
        match validate_opacity(opacity_micro) {
            Err(e) => {
                return Err(RpcError::invalid_params(e.message()));
            },
            Ok(()) => {},
        }
        if !self.state.has_surface(id) {
            return Err(RpcError::surface_not_found(id));
        }
        match cap.set_surface_opacity(id, opacity_micro) {
            Err(e) => {
                return Err(RpcError::internal_error(e));
            },
            Ok(()) => {},
        }
        self.note_pending_surface(id);
        if auto_commit {
            let ghost staged = *self;
            match self.flush(cap) {
                Err(e) => {
                    return Err(RpcError::internal_error(e));
                },
                Ok(()) => {},
            }
            proof {
                assert(mutator_flush(*old(self), *self, id)) by {
                    assert(same_core(staged, *old(self)) && flush_effect(staged, *self));
                };
            }
        }
        Ok(success_json(auto_commit))
    }

    /// Answer `set_orientation`: the capability cannot write an
    /// orientation, so a mirrored surface is answered with the
    /// unsupported-operation error, and an unknown one with not-found —
    /// if and only if.
    pub fn handle_set_orientation(&mut self, id: u32) -> (r: Result<JsonValue, RpcError>)
        ensures
            *final(self) == *old(self),
            old(self).state.surface_at(id) is None ==> (r matches Err(e) && e.code
                == crate::protocol::CODE_NOT_FOUND && e.message@ == "Surface not found: "@
                + dec_str(id as nat)),
            old(self).state.surface_at(id) is Some ==> (r matches Err(e) && e.code
                == crate::protocol::CODE_INTERNAL_ERROR && e.message@
                == "Orientation control not supported by current IVI API"@),
    {
        if !self.state.has_surface(id) {
            return Err(RpcError::surface_not_found(id));
        }
        Err(
            RpcError::internal_error(
                "Orientation control not supported by current IVI API".to_owned(),
            ),
        )
    }

    /// Answer `set_z_order`: validate the range, demand a mirrored
    /// surface. The z-order lives in the mirror alone — no capability
    /// property is written — so on auto-commit the host commit is
    /// issued, the entry is updated, and a z-order notification is
    /// queued directly; entities written earlier fold their diffs in at
    /// the next flush.
    pub fn handle_set_z_order<C: LayoutCapability>(
        &mut self,
        cap: &mut C,
        id: u32,
        z_order: i32,
        auto_commit: bool,
    ) -> (r: Result<JsonValue, RpcError>)
        requires
            handler_wf(old(self)),
        ensures
            handler_wf(final(self)),
            !(0 <= z_order <= 1000) ==> (r matches Err(e) && e.code
                == crate::protocol::CODE_INVALID_PARAMS && e.message@
                == crate::validation::validation_message(
                crate::validation::ValidationError::InvalidZOrder {
                    value: z_order,
                    min: 0,
                    max: 1000,
                },
            ) && *final(self) == *old(self)),
            0 <= z_order <= 1000 && old(self).state.surface_at(id) is None ==> (r matches Err(e)
                && e.code == crate::protocol::CODE_NOT_FOUND && e.message@
                == "Surface not found: "@ + dec_str(id as nat) && *final(self) == *old(self)),
            r matches Ok(v) ==> is_success_body(v, auto_commit),
            0 <= z_order <= 1000 && old(self).state.surface_at(id) is Some ==> (r matches Err(e)
                ==> e.code == crate::protocol::CODE_INTERNAL_ERROR),
            !auto_commit ==> final(self).state == old(self).state && final(self).subscriptions
                == old(self).subscriptions,
            r matches Ok(_) && auto_commit ==> match old(self).state.surface_at(id) {
                Some(s) => {
                    &&& final(self).state.surface_at(id) == Some(SurfaceState { z_order, ..s })
                    &&& forall|c: ClientId|
                        final(self).subscriptions.has_client(c) == old(
                            self,
                        ).subscriptions.has_client(c)
                    &&& forall|c: ClientId| #[trigger]
                        final(self).subscriptions.topics_of(c) == old(
                            self,
                        ).subscriptions.topics_of(c)
                    &&& forall|c: ClientId|
                        old(self).subscriptions.has_client(c) && !old(
                            self,
                        ).subscriptions.topics_of(c).contains(EventType::ZOrderChanged)
                            ==> #[trigger] final(self).subscriptions.queued_of(c) == old(
                            self,
                        ).subscriptions.queued_of(c)
                    &&& forall|c: ClientId|
                        old(self).subscriptions.has_client(c) && old(
                            self,
                        ).subscriptions.topics_of(c).contains(EventType::ZOrderChanged) ==> {
                            let base = crate::subscriptions::queued_after(
                                old(self).subscriptions.queued_of(c),
                                old(self).subscriptions.bound(),
                            );
                            &&& (#[trigger] final(self).subscriptions.queued_of(c)).len()
                                == base.len() + 1
                            &&& final(self).subscriptions.queued_of(c).take(base.len() as int)
                                == base
                            &&& converted_note(
                                z_order_note(id, s.z_order, z_order),
                                final(self).subscriptions.queued_of(c).last(),
                            )
                        }
                },
                None => true,
            },
    {
        match validate_z_order(z_order, 0, 1000) {
            Err(e) => {
                return Err(RpcError::invalid_params(e.message()));
            },
            Ok(()) => {},
        }
        let old_state = match self.state.get_surface(id) {
            Some(s) => s,
            None => {
                return Err(RpcError::surface_not_found(id));
            },
        };
        match cap.get_surface_snapshot(id) {
            Some(_) => {},
            None => {
                return Err(surface_fetch_error(id));
            },
        }
        if auto_commit {
            match cap.commit_changes() {
                Err(e) => {
                    return Err(RpcError::internal_error(e));
                },
                Ok(()) => {},
            }
            let mut new_state = old_state;
            new_state.z_order = z_order;
            self.state.update_surface(id, new_state);
            let note = Notification {
                notification_type: crate::notifications::NotificationType::ZOrderChanged,
                data: crate::notifications::NotificationData::ZOrderChange(
                    crate::notifications::ZOrderChangeNotification {
                        surface_id: id,
                        old_z_order: old_state.z_order,
                        new_z_order: z_order,
                    },
                ),
            };
            let bridge = NotificationBridge::new();
            bridge.handle_notification(&mut self.subscriptions, &note);
            proof {
                assert(note == z_order_note(id, old_state.z_order, z_order));
                assert(topic_of_note(note) == EventType::ZOrderChanged);
            }
        }
        Ok(success_json(auto_commit))
    }

    /// Answer `set_focus`: demand a mirrored surface, move the focus in
    /// the mirror — queueing the focus change — and activate the
    /// surface; on auto-commit the writes are flushed.
    pub fn handle_set_focus<C: LayoutCapability>(
        &mut self,
        cap: &mut C,
        id: u32,
        auto_commit: bool,
    ) -> (r: Result<JsonValue, RpcError>)
        requires
            handler_wf(old(self)),
        ensures
            handler_wf(final(self)),
            old(self).state.surface_at(id) is None ==> (r matches Err(e) && e.code
                == crate::protocol::CODE_NOT_FOUND && e.message@ == "Surface not found: "@
                + dec_str(id as nat) && *final(self) == *old(self)),
            old(self).state.surface_at(id) is Some ==> final(self).state.focus() == Some(id),
            old(self).state.surface_at(id) is Some ==> final(self).state.focus_ok(),
            old(self).state.surface_at(id) is Some ==> (r matches Err(e) ==> e.code
                == crate::protocol::CODE_INTERNAL_ERROR),
            r matches Ok(v) ==> is_success_body(v, auto_commit),
            old(self).state.surface_at(id) is Some && old(self).state.focus() == Some(id)
                ==> final(self).subscriptions == old(self).subscriptions,
            old(self).state.surface_at(id) is Some && old(self).state.focus() != Some(id) ==> {
                &&& forall|c: ClientId|
                    final(self).subscriptions.has_client(c) == old(self).subscriptions.has_client(
                        c,
                    )
                &&& forall|c: ClientId| #[trigger]
                    final(self).subscriptions.topics_of(c) == old(self).subscriptions.topics_of(c)
                &&& forall|c: ClientId|
                    old(self).subscriptions.has_client(c) && !old(
                        self,
                    ).subscriptions.topics_of(c).contains(EventType::FocusChanged)
                        ==> #[trigger] final(self).subscriptions.queued_of(c) == old(
                        self,
                    ).subscriptions.queued_of(c)
                &&& forall|c: ClientId|
                    old(self).subscriptions.has_client(c) && old(
                        self,
                    ).subscriptions.topics_of(c).contains(EventType::FocusChanged) ==> {
                        let base = crate::subscriptions::queued_after(
                            old(self).subscriptions.queued_of(c),
                            old(self).subscriptions.bound(),
                        );
                        &&& (#[trigger] final(self).subscriptions.queued_of(c)).len() == base.len()
                            + 1
                        &&& final(self).subscriptions.queued_of(c).take(base.len() as int) == base
                        &&& converted_note(
                            focus_note(old(self).state.focus(), Some(id)),
                            final(self).subscriptions.queued_of(c).last(),
                        )
                    }
            },
    {
        if !self.state.has_surface(id) {
            return Err(RpcError::surface_not_found(id));
        }
        let ghost old_focus = self.state.focus();
        let note = self.state.set_focused_surface(Some(id));
        match note {
            Some(n) => {
                let bridge = NotificationBridge::new();
                bridge.handle_notification(&mut self.subscriptions, &n);
                proof {
                    assert(n == focus_note(old_focus, Some(id)));
                    assert(topic_of_note(n) == EventType::FocusChanged);
                }
            },
            None => {},
        }
        match cap.activate_surface(id) {
            Err(e) => {
                return Err(RpcError::internal_error(e));
            },
            Ok(()) => {},
        }
        if auto_commit {
            match cap.commit_changes() {
                Err(e) => {
                    return Err(RpcError::internal_error(e));
                },
                Ok(()) => {},
            }
        }
        Ok(success_json(auto_commit))
    }

    /// Answer `commit`: flush every pending property write, then
    /// re-read each entity written since the last flush and queue the
    /// diff notifications for its subscribers.
    pub fn handle_commit<C: LayoutCapability>(&mut self, cap: &mut C) -> (r: Result<
        JsonValue,
        RpcError,
    >)
        requires
            handler_wf(old(self)),
        ensures
            handler_wf(final(self)),
            r matches Ok(v) ==> (v matches JsonValue::Obj(o) && o@.len() == 1 && o@[0].0@
                == "success"@ && o@[0].1 == JsonValue::Bool(true)),
            r matches Err(e) ==> e.code == crate::protocol::CODE_INTERNAL_ERROR && *final(self)
                == *old(self),
            r is Ok ==> flush_effect(*old(self), *final(self)),
    {
        match self.flush(cap) {
            Err(e) => Err(RpcError::internal_error(e)),
            Ok(()) => {
                let mut fields: Vec<(String, JsonValue)> = Vec::new();
                fields.push(("success".to_owned(), JsonValue::Bool(true)));
                Ok(JsonValue::Obj(fields))
            },
        }
    }

    /// Answer `subscribe`: extend the client's topics and echo the list.
    pub fn handle_subscribe(&mut self, client_id: ClientId, event_types: Vec<EventType>) -> (r:
        Result<JsonValue, RpcError>)
        requires
            handler_wf(old(self)),
        ensures
            handler_wf(final(self)),
            final(self).state == old(self).state,
            final(self).subscriptions.has_client(client_id),
            final(self).subscriptions.topics_of(client_id) == old(self).subscriptions.topics_of(
                client_id,
            ) + event_types@.to_set(),
            final(self).subscriptions.topics_seq_of(client_id)
                == crate::subscriptions::merged_topics(
                old(self).subscriptions.topics_seq_of(client_id),
                event_types@,
            ),
            forall|c: ClientId|
                c != client_id ==> #[trigger] final(self).subscriptions.entry_of(c) == old(self).subscriptions.entry_of(c),
            r matches Ok(v) && v matches JsonValue::Obj(o) && o@.len() == 2 && o@[0].0@
                == "success"@ && o@[0].1 == JsonValue::Bool(true) && o@[1].0@ == "subscribed"@
                && is_event_list_body(o@[1].1, event_types@),
    {
        let echoed = match self.subscriptions.subscribe(client_id, event_types) {
            Ok(v) => v,
            Err(_) => {
                proof {
                    assert(false);
                }
                Vec::new()
            },
        };
        let mut fields: Vec<(String, JsonValue)> = Vec::new();
        fields.push(("success".to_owned(), JsonValue::Bool(true)));
        fields.push(("subscribed".to_owned(), event_list_json(&echoed)));
        Ok(JsonValue::Obj(fields))
    }

    /// Answer `unsubscribe`: shrink the client's topics and echo the
    /// list; a client without state is an internal error naming it.
    pub fn handle_unsubscribe(&mut self, client_id: ClientId, event_types: Vec<EventType>) -> (r:
        Result<JsonValue, RpcError>)
        requires
            handler_wf(old(self)),
        ensures
            handler_wf(final(self)),
            final(self).state == old(self).state,
            !old(self).subscriptions.has_client(client_id) ==> (r matches Err(e) && e.code
                == crate::protocol::CODE_INTERNAL_ERROR && *final(self) == *old(self)),
            old(self).subscriptions.has_client(client_id) ==> {
                &&& final(self).subscriptions.topics_of(client_id) == old(self).subscriptions.topics_of(client_id).difference(event_types@.to_set())
                &&& final(self).subscriptions.topics_seq_of(client_id)
                    == crate::subscriptions::retained_topics(
                    old(self).subscriptions.topics_seq_of(client_id),
                    event_types@,
                )
                &&& (r matches Ok(v) && v matches JsonValue::Obj(o) && o@.len() == 2 && o@[0].0@
                    == "success"@ && o@[0].1 == JsonValue::Bool(true) && o@[1].0@
                    == "unsubscribed"@ && is_event_list_body(o@[1].1, event_types@))
                &&& forall|c: ClientId|
                    c != client_id ==> #[trigger] final(self).subscriptions.entry_of(c) == old(self).subscriptions.entry_of(c)
            },
    {
        let echoed = match self.subscriptions.unsubscribe(client_id, event_types) {
            Ok(v) => v,
            Err(m) => {
                return Err(RpcError::internal_error(m));
            },
        };
        let mut fields: Vec<(String, JsonValue)> = Vec::new();
        fields.push(("success".to_owned(), JsonValue::Bool(true)));
        fields.push(("unsubscribed".to_owned(), event_list_json(&echoed)));
        Ok(JsonValue::Obj(fields))
    }

    /// Answer `list_subscriptions`: the client's topics in first-
    /// subscription order.
    pub fn handle_list_subscriptions(&self, client_id: ClientId) -> (r: Result<
        JsonValue,
        RpcError,
    >)
        ensures
            r matches Ok(v) && v matches JsonValue::Obj(o) && o@.len() == 1 && o@[0].0@
                == "subscriptions"@ && is_event_list_body(
                o@[0].1,
                self.subscriptions.topics_seq_of(client_id),
            ),
    {
        let topics = self.subscriptions.get_subscriptions(client_id);
        let mut fields: Vec<(String, JsonValue)> = Vec::new();
        fields.push(("subscriptions".to_owned(), event_list_json(&topics)));
        Ok(JsonValue::Obj(fields))
    }

    /// Answer `set_layer_visibility`.
    pub fn handle_set_layer_visibility<C: LayoutCapability>(
        &mut self,
        cap: &mut C,
        id: u32,
        visible: bool,
        auto_commit: bool,
    ) -> (r: Result<JsonValue, RpcError>)
        requires
            handler_wf(old(self)),
        ensures
            handler_wf(final(self)),
            old(self).state.layer_at(id) is None ==> (r matches Err(e) && e.code
                == crate::protocol::CODE_NOT_FOUND && e.message@ == "Layer not found: "@
                + dec_str(id as nat) && *final(self) == *old(self)),
            r matches Ok(v) ==> is_success_body(v, auto_commit),
            old(self).state.layer_at(id) is Some ==> (r matches Err(e) ==> e.code
                == crate::protocol::CODE_INTERNAL_ERROR),
            !auto_commit ==> final(self).state == old(self).state && final(self).subscriptions
                == old(self).subscriptions,
            r is Ok && auto_commit ==> layer_mutator_flush(*old(self), *final(self), id),
    {
        if !self.state.has_layer(id) {
            return Err(RpcError::layer_not_found(id));
        }
        match cap.set_layer_visibility(id, visible) {
            Err(e) => {
                return Err(RpcError::internal_error(e));
            },
            Ok(()) => {},
        }
        self.note_pending_layer(id);
        if auto_commit {
            let ghost staged = *self;
            match self.flush(cap) {
                Err(e) => {
                    return Err(RpcError::internal_error(e));
                },
                Ok(()) => {},
            }
            proof {
                assert(layer_mutator_flush(*old(self), *self, id)) by {
                    assert(same_core(staged, *old(self)) && flush_effect(staged, *self));
                };
            }
        }
        Ok(success_json(auto_commit))
    }

    /// Answer `set_layer_opacity`: validation failures never reach the
    /// capability.
    pub fn handle_set_layer_opacity<C: LayoutCapability>(
        &mut self,
        cap: &mut C,
        id: u32,
        opacity_micro: i64,
        auto_commit: bool,
    ) -> (r: Result<JsonValue, RpcError>)
        requires
            handler_wf(old(self)),
        ensures
            handler_wf(final(self)),
            !(0 <= opacity_micro <= crate::validation::OPACITY_MAX_MICRO) ==> (r matches Err(e)
                && e.code == crate::protocol::CODE_INVALID_PARAMS && *final(self) == *old(self)),
            0 <= opacity_micro <= crate::validation::OPACITY_MAX_MICRO && old(self).state.layer_at(
                id,
            ) is None ==> (r matches Err(e) && e.code == crate::protocol::CODE_NOT_FOUND
                && e.message@ == "Layer not found: "@ + dec_str(id as nat) && *final(self)
                == *old(self)),
            r matches Ok(v) ==> is_success_body(v, auto_commit),
            0 <= opacity_micro <= crate::validation::OPACITY_MAX_MICRO && old(self).state.layer_at(
                id,
            ) is Some ==> (r matches Err(e) ==> e.code == crate::protocol::CODE_INTERNAL_ERROR),
            !auto_commit ==> final(self).state == old(self).state && final(self).subscriptions
                == old(self).subscriptions,
            r is Ok && auto_commit ==> layer_mutator_flush(*old(self), *final(self), id),
    {
        match validate_opacity(opacity_micro) {
            Err(e) => {
                return Err(RpcError::invalid_params(e.message()));
            },
            Ok(()) => {},
        }
        if !self.state.has_layer(id) {
            return Err(RpcError::layer_not_found(id));
        }
        match cap.set_layer_opacity(id, opacity_micro) {
            Err(e) => {
                return Err(RpcError::internal_error(e));
            },
            Ok(()) => {},
        }
        self.note_pending_layer(id);
        if auto_commit {
            let ghost staged = *self;
            match self.flush(cap) {
                Err(e) => {
                    return Err(RpcError::internal_error(e));
                },
                Ok(()) => {},
            }
            proof {
                assert(layer_mutator_flush(*old(self), *self, id)) by {
                    assert(same_core(staged, *old(self)) && flush_effect(staged, *self));
                };
            }
        }
        Ok(success_json(auto_commit))
    }

    /// Decode and dispatch one request, answering with its id: a result
    /// or an error, never both, never neither. A request whose method or
    /// parameters do not decode is answered with exactly the decoder's
    /// error; an unknown method name gets the method-not-found code; a
    /// decoded method is owed its dispatch outcome.
    #[verifier::rlimit(100)]
    #[verifier::spinoff_prover]
    pub fn handle_request<C: LayoutCapability>(
        &mut self,
        cap: &mut C,
        client_id: ClientId,
        request: &RpcRequest,
    ) -> (r: RpcResponse)
        requires
            handler_wf(old(self)),
        ensures
            handler_wf(final(self)),
            r.id == request.id,
            !(r.result is Some && r.error is Some),
            r.result is Some || r.error is Some,
            !crate::protocol::known_method(request.method@) ==> (r.error matches Some(e) && e.code
                == crate::protocol::CODE_METHOD_NOT_FOUND && e.message@ == "Method not found: "@
                + request.method@ && r.result is None),
            forall|e: RpcError| #[trigger] crate::protocol::parse_expectation(
                request.method@,
                request.params,
                Result::<RpcMethod, RpcError>::Err(e),
            ) ==> (r.error matches Some(e2) && e2.code == e.code && e2.message@ == e.message@
                && r.result is None),
            forall|m: RpcMethod| #[trigger] crate::protocol::parse_expectation(
                request.method@,
                request.params,
                Result::<RpcMethod, RpcError>::Ok(m),
            ) ==> dispatch_expectation(
                m,
                *old(self),
                *final(self),
                crate::protocol::field_bool(request.params, "auto_commit"@) == Some(true),
                client_id,
                r,
            ),
    {
        let method = match RpcMethod::from_request(request) {
            Ok(m) => m,
            Err(e) => {
                return RpcResponse::error(request.id, e);
            },
        };
        let ghost method_g = method;
        let auto_commit = auto_commit_of(&request.params);
        let result = match method {
            RpcMethod::ListSurfaces => self.handle_list_surfaces(),
            RpcMethod::GetSurface { id } => self.handle_get_surface(id),
            RpcMethod::SetPosition { id, x, y } => self.handle_set_position(
                cap,
                id,
                x,
                y,
                auto_commit,
            ),
            RpcMethod::SetSize { id, width, height } => self.handle_set_size(
                cap,
                id,
                width,
                height,
                auto_commit,
            ),
            RpcMethod::SetVisibility { id, visible } => self.handle_set_visibility(
                cap,
                id,
                visible,
                auto_commit,
            ),
            RpcMethod::SetOpacity { id, opacity_micro } => self.handle_set_opacity(
                cap,
                id,
                opacity_micro,
                auto_commit,
            ),
            RpcMethod::SetOrientation { id, orientation: _ } => self.handle_set_orientation(id),
            RpcMethod::SetZOrder { id, z_order } => self.handle_set_z_order(
                cap,
                id,
                z_order,
                auto_commit,
            ),
            RpcMethod::SetFocus { id } => self.handle_set_focus(cap, id, auto_commit),
            RpcMethod::Commit => self.handle_commit(cap),
            RpcMethod::Subscribe { event_types } => self.handle_subscribe(client_id, event_types),
            RpcMethod::Unsubscribe { event_types } => self.handle_unsubscribe(
                client_id,
                event_types,
            ),
            RpcMethod::ListSubscriptions => self.handle_list_subscriptions(client_id),
            RpcMethod::ListLayers => self.handle_list_layers(),
            RpcMethod::GetLayer { id } => self.handle_get_layer(id),
            RpcMethod::SetLayerVisibility { id, visible } => self.handle_set_layer_visibility(
                cap,
                id,
                visible,
                auto_commit,
            ),
            RpcMethod::SetLayerOpacity { id, opacity_micro } => self.handle_set_layer_opacity(
                cap,
                id,
                opacity_micro,
                auto_commit,
            ),
        };
        let response = match result {
            Ok(value) => RpcResponse::success(request.id, value),
            Err(error) => RpcResponse::error(request.id, error),
        };
        proof {
            assert(crate::protocol::parse_expectation(
                request.method@,
                request.params,
                Result::<RpcMethod, RpcError>::Ok(method_g),
            ));
            assert(dispatch_expectation(
                method_g,
                *old(self),
                *self,
                crate::protocol::field_bool(request.params, "auto_commit"@) == Some(true),
                client_id,
                response,
            ));
            assert forall|m: RpcMethod| #[trigger] crate::protocol::parse_expectation(
                request.method@,
                request.params,
                Result::<RpcMethod, RpcError>::Ok(m),
            ) implies dispatch_expectation(
                m,
                *old(self),
                *self,
                crate::protocol::field_bool(request.params, "auto_commit"@) == Some(true),
                client_id,
                response,
            ) by {
                assert(crate::protocol::parse_expectation(
                    request.method@,
                    request.params,
                    Result::<RpcMethod, RpcError>::Ok(method_g),
                ));
            };
        }
        response
    }

    /// Handle one frame payload: decode the request, dispatch it, and
    /// serialize the response. A document carrying a numeric id but a
    /// missing or ill-typed `method` or `params` field is answered with
    /// an invalid-params error correlated by that id. Bytes that are no
    /// JSON document, or a document without a numeric id, get no answer:
    /// the wire response shape demands an id to echo, so none can be
    /// formed; the connection stays open either way.
    pub fn handle_message<C: LayoutCapability>(
        &mut self,
        cap: &mut C,
        client_id: ClientId,
        data: &[u8],
    ) -> (r: Option<String>)
        requires
            handler_wf(old(self)),
        ensures
            handler_wf(final(self)),
            crate::json::json_of(data@) is None ==> r is None && *final(self) == *old(self),
            crate::json::json_of(data@) matches Some(v) ==> (crate::protocol::req_id_of(v) is None
                ==> r is None && *final(self) == *old(self)),
            crate::json::json_of(data@) matches Some(v) ==> (crate::protocol::req_id_of(v)
                matches Some(rid) ==> (!crate::protocol::request_parses(v) ==> (r matches Some(t)
                && *final(self) == *old(self) && exists|resp: RpcResponse, b: JsonValue|
                {
                    &&& resp.id == rid
                    &&& resp.result is None
                    &&& resp.error matches Some(e) && e.code == crate::protocol::CODE_INVALID_PARAMS
                    &&& #[trigger] crate::protocol::is_response_body(b, resp)
                    &&& t@ == crate::json::json_text(b)
                }))),
            crate::json::json_of(data@) matches Some(v) ==> (crate::protocol::request_parses(v)
                ==> (r matches Some(t) && exists|req: RpcRequest, resp: RpcResponse, b: JsonValue|
                #![trigger crate::protocol::is_response_body(b, resp), crate::json::same_json(req.params, crate::protocol::req_params_of(v))]
                {
                    &&& crate::protocol::req_id_of(v) == Some(req.id)
                    &&& req.method@ == crate::protocol::req_method_of(v)
                    &&& crate::json::same_json(req.params, crate::protocol::req_params_of(v))
                    &&& resp.id == req.id
                    &&& !(resp.result is Some && resp.error is Some)
                    &&& resp.result is Some || resp.error is Some
                    &&& (!crate::protocol::known_method(req.method@) ==> (resp.error matches Some(
                        e,
                    ) && e.code == crate::protocol::CODE_METHOD_NOT_FOUND && resp.result is None))
                    &&& (forall|e: RpcError|
                        #![trigger crate::protocol::parse_expectation(req.method@, req.params, Result::<RpcMethod, RpcError>::Err(e))]
                        crate::protocol::parse_expectation(
                            req.method@,
                            req.params,
                            Result::<RpcMethod, RpcError>::Err(e),
                        ) ==> (resp.error matches Some(e2) && e2.code == e.code && e2.message@
                            == e.message@ && resp.result is None))
                    &&& (forall|m: RpcMethod|
                        #![trigger crate::protocol::parse_expectation(req.method@, req.params, Result::<RpcMethod, RpcError>::Ok(m))]
                        crate::protocol::parse_expectation(
                            req.method@,
                            req.params,
                            Result::<RpcMethod, RpcError>::Ok(m),
                        ) ==> dispatch_expectation(
                            m,
                            *old(self),
                            *final(self),
                            crate::protocol::field_bool(req.params, "auto_commit"@) == Some(
                                true,
                            ),
                            client_id,
                            resp,
                        ))
                    &&& crate::protocol::is_response_body(b, resp)
                    &&& t@ == crate::json::json_text(b)
                })),
    {
        let request = match RpcRequest::from_json(data) {
            Ok(req) => req,
            Err((Some(rid), e)) => {
                let response = RpcResponse::error(rid, e);
                let ghost resp_g = response;
                let text = response.to_json();
                proof {
                    let b = choose|b: JsonValue|
                        crate::protocol::is_response_body(b, resp_g) && text@
                            == crate::json::json_text(b);
                    assert(crate::protocol::is_response_body(b, resp_g) && text@
                        == crate::json::json_text(b));
                }
                return Some(text);
            },
            Err((None, _)) => {
                return None;
            },
        };
        let ghost req_g = request;
        let response = self.handle_request(cap, client_id, &request);
        let ghost resp_g = response;
        let text = response.to_json();
        proof {
            let b = choose|b: JsonValue|
                crate::protocol::is_response_body(b, resp_g) && text@ == crate::json::json_text(b);
            assert(crate::protocol::is_response_body(b, resp_g) && text@
                == crate::json::json_text(b));
        }
        Some(text)
    }

    /// Drop a disconnected client's subscription state.
    pub fn handle_disconnect(&mut self, client_id: ClientId)
        requires
            handler_wf(old(self)),
        ensures
            handler_wf(final(self)),
            final(self).state == old(self).state,
            !final(self).subscriptions.has_client(client_id),
            final(self).subscriptions.topics_of(client_id) == Set::<EventType>::empty(),
            final(self).subscriptions.queued_of(client_id) == Seq::<
                crate::protocol::RpcNotification,
            >::empty(),
            forall|c: ClientId|
                c != client_id ==> #[trigger] final(self).subscriptions.entry_of(c) == old(self).subscriptions.entry_of(c),
    {
        self.subscriptions.remove_client(client_id);
    }
}

} // verus!
