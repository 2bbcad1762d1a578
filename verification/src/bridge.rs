//! The bridge from typed notifications to wire notifications: each
//! state-core notification becomes a JSON-RPC notification and is
//! queued for every client subscribed to its topic.

use crate::decimal::{dec_str, dec_str_int, opacity_lit, u64_to_string, i64_to_string,
    opacity_to_string};
use crate::geometry::Rectangle;
use crate::json::JsonValue;
use crate::notifications::{Notification, NotificationData};
use crate::orientation::{orientation_label, Orientation};
use crate::protocol::{event_label, EventType, RpcNotification};
use crate::subscriptions::SubscriptionManager;
use vstd::prelude::*;

verus! {

/// What one field of a wire notification must hold.
pub enum FieldSpec {
    /// A number with this literal.
    Num(Seq<char>),
    /// A string with this text.
    Str(Seq<char>),
    /// This boolean.
    Flag(bool),
    /// `null`.
    Nothing,
    /// An object spelling out this rectangle.
    Rect(Rectangle),
}

/// Whether a JSON value holds what one field spec demands.
pub open spec fn leaf_match(v: JsonValue, f: FieldSpec) -> bool {
    match f {
        FieldSpec::Num(t) => v matches JsonValue::Num(s) && s@ == t,
        FieldSpec::Str(t) => v matches JsonValue::Str(s) && s@ == t,
        FieldSpec::Flag(b) => v == JsonValue::Bool(b),
        FieldSpec::Nothing => v == JsonValue::Null,
        FieldSpec::Rect(r) => is_rect_body(v, r),
    }
}

/// Whether a JSON value is the object spelling out a rectangle:
/// origin, then size, all decimal numbers.
pub open spec fn is_rect_body(v: JsonValue, r: Rectangle) -> bool {
    &&& v matches JsonValue::Obj(o)
    &&& o@.len() == 4
    &&& o@[0].0@ == "x"@ && (o@[0].1 matches JsonValue::Num(s) && s@ == dec_str_int(r.x as int))
    &&& o@[1].0@ == "y"@ && (o@[1].1 matches JsonValue::Num(s) && s@ == dec_str_int(r.y as int))
    &&& o@[2].0@ == "width"@ && (o@[2].1 matches JsonValue::Num(s) && s@ == dec_str_int(
        r.width as int,
    ))
    &&& o@[3].0@ == "height"@ && (o@[3].1 matches JsonValue::Num(s) && s@ == dec_str_int(
        r.height as int,
    ))
}

/// Whether an object holds exactly the listed fields, in order.
pub open spec fn fields_match(o: Seq<(String, JsonValue)>, keys: Seq<Seq<char>>, vals: Seq<
    FieldSpec,
>) -> bool {
    &&& o.len() == keys.len()
    &&& o.len() == vals.len()
    &&& forall|i: int|
        0 <= i < o.len() ==> (#[trigger] o[i]).0@ == keys[i] && leaf_match(o[i].1, vals[i])
}

/// The topic a notification is routed under: geometry changes split by
/// which rectangle moved, every other kind by its own name.
pub open spec fn topic_of_note(n: Notification) -> EventType {
    match n.data {
        NotificationData::SourceGeometryChange(_) => EventType::SourceGeometryChanged,
        NotificationData::DestinationGeometryChange(_) => EventType::DestinationGeometryChanged,
        NotificationData::FocusChange(_) => EventType::FocusChanged,
        NotificationData::SurfaceCreated { .. } => EventType::SurfaceCreated,
        NotificationData::SurfaceDestroyed { .. } => EventType::SurfaceDestroyed,
        NotificationData::VisibilityChange(_) => EventType::VisibilityChanged,
        NotificationData::OpacityChange(_) => EventType::OpacityChanged,
        NotificationData::OrientationChange(_) => EventType::OrientationChanged,
        NotificationData::ZOrderChange(_) => EventType::ZOrderChanged,
        NotificationData::LayerCreated { .. } => EventType::LayerCreated,
        NotificationData::LayerDestroyed { .. } => EventType::LayerDestroyed,
        NotificationData::LayerVisibilityChange(_) => EventType::LayerVisibilityChanged,
        NotificationData::LayerOpacityChange(_) => EventType::LayerOpacityChanged,
    }
}

/// The field keys of a notification's wire params.
pub open spec fn note_keys(n: Notification) -> Seq<Seq<char>> {
    match n.data {
        NotificationData::SourceGeometryChange(_) => seq![
            "event_type"@,
            "surface_id"@,
            "old_rect"@,
            "new_rect"@,
        ],
        NotificationData::DestinationGeometryChange(_) => seq![
            "event_type"@,
            "surface_id"@,
            "old_rect"@,
            "new_rect"@,
        ],
        NotificationData::FocusChange(_) => seq![
            "event_type"@,
            "old_focused_surface"@,
            "new_focused_surface"@,
        ],
        NotificationData::SurfaceCreated { .. } => seq!["event_type"@, "surface_id"@],
        NotificationData::SurfaceDestroyed { .. } => seq!["event_type"@, "surface_id"@],
        NotificationData::VisibilityChange(_) => seq![
            "event_type"@,
            "surface_id"@,
            "old_visibility"@,
            "new_visibility"@,
        ],
        NotificationData::OpacityChange(_) => seq![
            "event_type"@,
            "surface_id"@,
            "old_opacity"@,
            "new_opacity"@,
        ],
        NotificationData::OrientationChange(_) => seq![
            "event_type"@,
            "surface_id"@,
            "old_orientation"@,
            "new_orientation"@,
        ],
        NotificationData::ZOrderChange(_) => seq![
            "event_type"@,
            "surface_id"@,
            "old_z_order"@,
            "new_z_order"@,
        ],
        NotificationData::LayerCreated { .. } => seq!["event_type"@, "layer_id"@],
        NotificationData::LayerDestroyed { .. } => seq!["event_type"@, "layer_id"@],
        NotificationData::LayerVisibilityChange(_) => seq![
            "event_type"@,
            "layer_id"@,
            "old_visibility"@,
            "new_visibility"@,
        ],
        NotificationData::LayerOpacityChange(_) => seq![
            "event_type"@,
            "layer_id"@,
            "old_opacity"@,
            "new_opacity"@,
        ],
    }
}

/// The field values of a notification's wire params: the topic's label
/// first, then the payload, old values before new.
pub open spec fn note_vals(n: Notification) -> Seq<FieldSpec> {
    match n.data {
        NotificationData::SourceGeometryChange(g) => seq![
            FieldSpec::Str(event_label(topic_of_note(n))),
            FieldSpec::Num(dec_str(g.surface_id as nat)),
            FieldSpec::Rect(g.old_rect),
            FieldSpec::Rect(g.new_rect),
        ],
        NotificationData::DestinationGeometryChange(g) => seq![
            FieldSpec::Str(event_label(topic_of_note(n))),
            FieldSpec::Num(dec_str(g.surface_id as nat)),
            FieldSpec::Rect(g.old_rect),
            FieldSpec::Rect(g.new_rect),
        ],
        NotificationData::FocusChange(f) => seq![
            FieldSpec::Str(event_label(topic_of_note(n))),
            match f.old_focused_surface {
                Some(id) => FieldSpec::Num(dec_str(id as nat)),
                None => FieldSpec::Nothing,
            },
            match f.new_focused_surface {
                Some(id) => FieldSpec::Num(dec_str(id as nat)),
                None => FieldSpec::Nothing,
            },
        ],
        NotificationData::SurfaceCreated { surface_id } => seq![
            FieldSpec::Str(event_label(topic_of_note(n))),
            FieldSpec::Num(dec_str(surface_id as nat)),
        ],
        NotificationData::SurfaceDestroyed { surface_id } => seq![
            FieldSpec::Str(event_label(topic_of_note(n))),
            FieldSpec::Num(dec_str(surface_id as nat)),
        ],
        NotificationData::VisibilityChange(v) => seq![
            FieldSpec::Str(event_label(topic_of_note(n))),
            FieldSpec::Num(dec_str(v.surface_id as nat)),
            FieldSpec::Flag(v.old_visibility),
            FieldSpec::Flag(v.new_visibility),
        ],
        NotificationData::OpacityChange(o) => seq![
            FieldSpec::Str(event_label(topic_of_note(n))),
            FieldSpec::Num(dec_str(o.surface_id as nat)),
            FieldSpec::Num(opacity_lit(o.old_opacity as int)),
            FieldSpec::Num(opacity_lit(o.new_opacity as int)),
        ],
        NotificationData::OrientationChange(o) => seq![
            FieldSpec::Str(event_label(topic_of_note(n))),
            FieldSpec::Num(dec_str(o.surface_id as nat)),
            FieldSpec::Str(orientation_label(o.old_orientation)),
            FieldSpec::Str(orientation_label(o.new_orientation)),
        ],
        NotificationData::ZOrderChange(z) => seq![
            FieldSpec::Str(event_label(topic_of_note(n))),
            FieldSpec::Num(dec_str(z.surface_id as nat)),
            FieldSpec::Num(dec_str_int(z.old_z_order as int)),
            FieldSpec::Num(dec_str_int(z.new_z_order as int)),
        ],
        NotificationData::LayerCreated { layer_id } => seq![
            FieldSpec::Str(event_label(topic_of_note(n))),
            FieldSpec::Num(dec_str(layer_id as nat)),
        ],
        NotificationData::LayerDestroyed { layer_id } => seq![
            FieldSpec::Str(event_label(topic_of_note(n))),
            FieldSpec::Num(dec_str(layer_id as nat)),
        ],
        NotificationData::LayerVisibilityChange(v) => seq![
            FieldSpec::Str(event_label(topic_of_note(n))),
            FieldSpec::Num(dec_str(v.layer_id as nat)),
            FieldSpec::Flag(v.old_visibility),
            FieldSpec::Flag(v.new_visibility),
        ],
        NotificationData::LayerOpacityChange(o) => seq![
            FieldSpec::Str(event_label(topic_of_note(n))),
            FieldSpec::Num(dec_str(o.layer_id as nat)),
            FieldSpec::Num(opacity_lit(o.old_opacity as int)),
            FieldSpec::Num(opacity_lit(o.new_opacity as int)),
        ],
    }
}

/// Whether a wire notification is the conversion of a typed one:
/// the method is `notification` and the params hold exactly the
/// notification's fields.
pub open spec fn converted_note(n: Notification, rn: RpcNotification) -> bool {
    &&& rn.method@ == "notification"@
    &&& rn.params matches JsonValue::Obj(o) && fields_match(o@, note_keys(n), note_vals(n))
}

/// Being a conversion of a notification is a statement about the wire
/// document alone, so it carries over to any copy holding the same
/// document.
pub proof fn lemma_converted_note_same(n: Notification, a: RpcNotification, b: RpcNotification)
    requires
        converted_note(n, a),
        crate::subscriptions::same_note(b, a),
    ensures
        converted_note(n, b),
{
    let oa = a.params->Obj_0;
    let ob = b.params->Obj_0;
    assert forall|i: int| 0 <= i < ob@.len() implies (#[trigger] ob@[i]).0@ == note_keys(n)[i]
        && leaf_match(ob@[i].1, note_vals(n)[i]) by {
        assert(crate::json::same_json(ob@[i].1, oa@[i].1));
        lemma_leaf_match_same(ob@[i].1, oa@[i].1, note_vals(n)[i]);
    };
}

proof fn lemma_leaf_match_same(bv: JsonValue, av: JsonValue, f: FieldSpec)
    requires
        leaf_match(av, f),
        crate::json::same_json(bv, av),
    ensures
        leaf_match(bv, f),
{
    match f {
        FieldSpec::Rect(r) => {
            let oa = av->Obj_0;
            let ob = bv->Obj_0;
            assert(crate::json::same_json(ob@[0].1, oa@[0].1));
            assert(crate::json::same_json(ob@[1].1, oa@[1].1));
            assert(crate::json::same_json(ob@[2].1, oa@[2].1));
            assert(crate::json::same_json(ob@[3].1, oa@[3].1));
        },
        _ => {},
    }
}

/// Whether one queue evolves into another by queueing the conversions
/// of the listed notifications, in order, under a topic set: each
/// listed notification whose topic is subscribed appends one conversion
/// of it, dropping the oldest entry of a full queue first; the others
/// leave the queue alone.
pub open spec fn queues_to(
    pre: Seq<RpcNotification>,
    notes: Seq<Notification>,
    topics: Set<EventType>,
    cap: nat,
    post: Seq<RpcNotification>,
) -> bool
    decreases notes,
{
    if notes.len() == 0 {
        post == pre
    } else {
        if topics.contains(topic_of_note(notes[0])) {
            exists|mid: Seq<RpcNotification>|
                {
                    &&& #[trigger] mid.len() == crate::subscriptions::queued_after(
                        pre,
                        cap,
                    ).len() + 1
                    &&& mid.take(crate::subscriptions::queued_after(pre, cap).len() as int)
                        == crate::subscriptions::queued_after(pre, cap)
                    &&& converted_note(notes[0], mid.last())
                    &&& queues_to(mid, notes.drop_first(), topics, cap, post)
                }
        } else {
            queues_to(pre, notes.drop_first(), topics, cap, post)
        }
    }
}

/// Extending the list of notifications by one extends the queue run by
/// one step.
pub proof fn lemma_queues_to_step(
    pre: Seq<RpcNotification>,
    notes: Seq<Notification>,
    n: Notification,
    topics: Set<EventType>,
    cap: nat,
    post: Seq<RpcNotification>,
    post2: Seq<RpcNotification>,
)
    requires
        queues_to(pre, notes, topics, cap, post),
        topics.contains(topic_of_note(n)) ==> {
            &&& post2.len() == crate::subscriptions::queued_after(post, cap).len() + 1
            &&& post2.take(crate::subscriptions::queued_after(post, cap).len() as int)
                == crate::subscriptions::queued_after(post, cap)
            &&& converted_note(n, post2.last())
        },
        !topics.contains(topic_of_note(n)) ==> post2 == post,
    ensures
        queues_to(pre, notes.push(n), topics, cap, post2),
    decreases notes,
{
    let p = notes.push(n);
    if notes.len() == 0 {
        assert(p[0] == n);
        assert(p.drop_first() =~= Seq::<Notification>::empty());
        if topics.contains(topic_of_note(n)) {
            assert(queues_to(post2, p.drop_first(), topics, cap, post2));
            assert(queues_to(pre, p, topics, cap, post2)) by {
                assert(post == pre);
                assert({
                    &&& post2.len() == crate::subscriptions::queued_after(pre, cap).len() + 1
                    &&& post2.take(crate::subscriptions::queued_after(pre, cap).len() as int)
                        == crate::subscriptions::queued_after(pre, cap)
                    &&& converted_note(n, post2.last())
                    &&& queues_to(post2, p.drop_first(), topics, cap, post2)
                });
            };
        } else {
            assert(post2 == pre);
            assert(queues_to(pre, p.drop_first(), topics, cap, post2));
            assert(queues_to(pre, p, topics, cap, post2));
        }
    } else {
        assert(p[0] == notes[0]);
        assert(p.drop_first() =~= notes.drop_first().push(n));
        if topics.contains(topic_of_note(notes[0])) {
            let mid = choose|mid: Seq<RpcNotification>|
                {
                    &&& #[trigger] mid.len() == crate::subscriptions::queued_after(
                        pre,
                        cap,
                    ).len() + 1
                    &&& mid.take(crate::subscriptions::queued_after(pre, cap).len() as int)
                        == crate::subscriptions::queued_after(pre, cap)
                    &&& converted_note(notes[0], mid.last())
                    &&& queues_to(mid, notes.drop_first(), topics, cap, post)
                };
            lemma_queues_to_step(mid, notes.drop_first(), n, topics, cap, post, post2);
            assert(queues_to(mid, p.drop_first(), topics, cap, post2));
        } else {
            lemma_queues_to_step(pre, notes.drop_first(), n, topics, cap, post, post2);
        }
    }
}

fn rect_json(r: &Rectangle) -> (v: JsonValue)
    ensures
        is_rect_body(v, *r),
{
    let mut fields: Vec<(String, JsonValue)> = Vec::new();
    fields.push(("x".to_owned(), JsonValue::Num(i64_to_string(r.x as i64))));
    fields.push(("y".to_owned(), JsonValue::Num(i64_to_string(r.y as i64))));
    fields.push(("width".to_owned(), JsonValue::Num(i64_to_string(r.width as i64))));
    fields.push(("height".to_owned(), JsonValue::Num(i64_to_string(r.height as i64))));
    JsonValue::Obj(fields)
}

fn opt_u32_json(v: &Option<u32>) -> (r: JsonValue)
    ensures
        match *v {
            Some(id) => r matches JsonValue::Num(s) && s@ == dec_str(id as nat),
            None => r == JsonValue::Null,
        },
{
    match v {
        Some(id) => JsonValue::Num(u64_to_string(*id as u64)),
        None => JsonValue::Null,
    }
}

/// Bridges typed notifications into per-client wire queues.
pub struct NotificationBridge {}

impl NotificationBridge {
    /// A bridge.
    pub fn new() -> (r: Self) {
        NotificationBridge {  }
    }

    /// Convert a typed notification to its topic and wire form.
    pub fn convert_notification(&self, n: &Notification) -> (r: (EventType, RpcNotification))
        ensures
            r.0 == topic_of_note(*n),
            converted_note(*n, r.1),
    {
        let mut fields: Vec<(String, JsonValue)> = Vec::new();
        let event_type: EventType;
        match &n.data {
            NotificationData::SourceGeometryChange(g) => {
                event_type = EventType::SourceGeometryChanged;
                fields.push(("event_type".to_owned(), JsonValue::Str(event_type.as_str().to_owned())));
                fields.push(("surface_id".to_owned(), JsonValue::Num(u64_to_string(g.surface_id as u64))));
                fields.push(("old_rect".to_owned(), rect_json(&g.old_rect)));
                fields.push(("new_rect".to_owned(), rect_json(&g.new_rect)));
            },
            NotificationData::DestinationGeometryChange(g) => {
                event_type = EventType::DestinationGeometryChanged;
                fields.push(("event_type".to_owned(), JsonValue::Str(event_type.as_str().to_owned())));
                fields.push(("surface_id".to_owned(), JsonValue::Num(u64_to_string(g.surface_id as u64))));
                fields.push(("old_rect".to_owned(), rect_json(&g.old_rect)));
                fields.push(("new_rect".to_owned(), rect_json(&g.new_rect)));
            },
            NotificationData::FocusChange(f) => {
                event_type = EventType::FocusChanged;
                fields.push(("event_type".to_owned(), JsonValue::Str(event_type.as_str().to_owned())));
                fields.push(("old_focused_surface".to_owned(), opt_u32_json(&f.old_focused_surface)));
                fields.push(("new_focused_surface".to_owned(), opt_u32_json(&f.new_focused_surface)));
            },
            NotificationData::SurfaceCreated { surface_id } => {
                event_type = EventType::SurfaceCreated;
                fields.push(("event_type".to_owned(), JsonValue::Str(event_type.as_str().to_owned())));
                fields.push(("surface_id".to_owned(), JsonValue::Num(u64_to_string(*surface_id as u64))));
            },
            NotificationData::SurfaceDestroyed { surface_id } => {
                event_type = EventType::SurfaceDestroyed;
                fields.push(("event_type".to_owned(), JsonValue::Str(event_type.as_str().to_owned())));
                fields.push(("surface_id".to_owned(), JsonValue::Num(u64_to_string(*surface_id as u64))));
            },
            NotificationData::VisibilityChange(v) => {
                event_type = EventType::VisibilityChanged;
                fields.push(("event_type".to_owned(), JsonValue::Str(event_type.as_str().to_owned())));
                fields.push(("surface_id".to_owned(), JsonValue::Num(u64_to_string(v.surface_id as u64))));
                fields.push(("old_visibility".to_owned(), JsonValue::Bool(v.old_visibility)));
                fields.push(("new_visibility".to_owned(), JsonValue::Bool(v.new_visibility)));
            },
            NotificationData::OpacityChange(o) => {
                event_type = EventType::OpacityChanged;
                fields.push(("event_type".to_owned(), JsonValue::Str(event_type.as_str().to_owned())));
                fields.push(("surface_id".to_owned(), JsonValue::Num(u64_to_string(o.surface_id as u64))));
                fields.push(("old_opacity".to_owned(), JsonValue::Num(opacity_to_string(o.old_opacity))));
                fields.push(("new_opacity".to_owned(), JsonValue::Num(opacity_to_string(o.new_opacity))));
            },
            NotificationData::OrientationChange(o) => {
                event_type = EventType::OrientationChanged;
                fields.push(("event_type".to_owned(), JsonValue::Str(event_type.as_str().to_owned())));
                fields.push(("surface_id".to_owned(), JsonValue::Num(u64_to_string(o.surface_id as u64))));
                fields.push(("old_orientation".to_owned(), JsonValue::Str(o.old_orientation.as_str().to_owned())));
                fields.push(("new_orientation".to_owned(), JsonValue::Str(o.new_orientation.as_str().to_owned())));
            },
            NotificationData::ZOrderChange(z) => {
                event_type = EventType::ZOrderChanged;
                fields.push(("event_type".to_owned(), JsonValue::Str(event_type.as_str().to_owned())));
                fields.push(("surface_id".to_owned(), JsonValue::Num(u64_to_string(z.surface_id as u64))));
                fields.push(("old_z_order".to_owned(), JsonValue::Num(i64_to_string(z.old_z_order as i64))));
                fields.push(("new_z_order".to_owned(), JsonValue::Num(i64_to_string(z.new_z_order as i64))));
            },
            NotificationData::LayerCreated { layer_id } => {
                event_type = EventType::LayerCreated;
                fields.push(("event_type".to_owned(), JsonValue::Str(event_type.as_str().to_owned())));
                fields.push(("layer_id".to_owned(), JsonValue::Num(u64_to_string(*layer_id as u64))));
            },
            NotificationData::LayerDestroyed { layer_id } => {
                event_type = EventType::LayerDestroyed;
                fields.push(("event_type".to_owned(), JsonValue::Str(event_type.as_str().to_owned())));
                fields.push(("layer_id".to_owned(), JsonValue::Num(u64_to_string(*layer_id as u64))));
            },
            NotificationData::LayerVisibilityChange(v) => {
                event_type = EventType::LayerVisibilityChanged;
                fields.push(("event_type".to_owned(), JsonValue::Str(event_type.as_str().to_owned())));
                fields.push(("layer_id".to_owned(), JsonValue::Num(u64_to_string(v.layer_id as u64))));
                fields.push(("old_visibility".to_owned(), JsonValue::Bool(v.old_visibility)));
                fields.push(("new_visibility".to_owned(), JsonValue::Bool(v.new_visibility)));
            },
            NotificationData::LayerOpacityChange(o) => {
                event_type = EventType::LayerOpacityChanged;
                fields.push(("event_type".to_owned(), JsonValue::Str(event_type.as_str().to_owned())));
                fields.push(("layer_id".to_owned(), JsonValue::Num(u64_to_string(o.layer_id as u64))));
                fields.push(("old_opacity".to_owned(), JsonValue::Num(opacity_to_string(o.old_opacity))));
                fields.push(("new_opacity".to_owned(), JsonValue::Num(opacity_to_string(o.new_opacity))));
            },
        }
        let rn = RpcNotification::new("notification".to_owned(), JsonValue::Obj(fields));
        (event_type, rn)
    }

    /// Convert a typed notification and queue it for every client
    /// subscribed to its topic.
    pub fn handle_notification(&self, subs: &mut SubscriptionManager, n: &Notification)
        requires
            old(subs).wf(),
        ensures
            final(subs).wf(),
            final(subs).bound() == old(subs).bound(),
            forall|c: crate::transport::ClientId|
                final(subs).has_client(c) == old(subs).has_client(c),
            forall|c: crate::transport::ClientId| #[trigger]
                final(subs).topics_of(c) == old(subs).topics_of(c),
            forall|c: crate::transport::ClientId|
                old(subs).has_client(c) && !old(subs).topics_of(c).contains(topic_of_note(*n))
                    ==> #[trigger] final(subs).queued_of(c) == old(subs).queued_of(c),
            forall|c: crate::transport::ClientId|
                old(subs).has_client(c) && old(subs).topics_of(c).contains(topic_of_note(*n))
                    ==> {
                    let base = crate::subscriptions::queued_after(
                        old(subs).queued_of(c),
                        old(subs).bound(),
                    );
                    &&& (#[trigger] final(subs).queued_of(c)).len() == base.len() + 1
                    &&& final(subs).queued_of(c).take(base.len() as int) == base
                    &&& converted_note(*n, final(subs).queued_of(c).last())
                },
    {
        let (event_type, rn) = self.convert_notification(n);
        let ghost rn_ghost = rn;
        subs.queue_notification(event_type, rn);
        proof {
            assert forall|c: crate::transport::ClientId|
                old(subs).has_client(c) && old(subs).topics_of(c).contains(
                    topic_of_note(*n),
                ) implies converted_note(*n, final(subs).queued_of(c).last()) by {
                lemma_converted_note_same(*n, rn_ghost, final(subs).queued_of(c).last());
            };
        }
    }
}

} // verus!
