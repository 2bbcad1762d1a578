//! The state core: an in-memory mirror of the host's surfaces and
//! layers, the focus tracker, and the property diffs that turn host
//! configure events into typed notifications.

use crate::assoc::{
    assoc_distinct, assoc_lookup, assoc_set, lemma_assoc_remove_other, lemma_assoc_remove_same,
    lemma_assoc_set_distinct, lemma_assoc_set_is_push, lemma_assoc_set_is_update,
};
use crate::geometry::{Rectangle, SurfaceSize};
use crate::notifications::{
    FocusChangeNotification, GeometryChangeNotification, LayerOpacityChangeNotification,
    LayerVisibilityChangeNotification, Notification, NotificationData, NotificationType,
    OpacityChangeNotification, OrientationChangeNotification, VisibilityChangeNotification,
    ZOrderChangeNotification,
};
use crate::orientation::Orientation;
use vstd::prelude::*;

verus! {

/// The attribute categories a host configure event can flag. A zero
/// mask means the host did not say, and everything is diffed.
#[derive(Debug, Clone, Copy, PartialEq, Eq, Structural)]
pub enum NotificationMask {
    /// Nothing flagged.
    NoneMask,
    /// Opacity may have changed.
    Opacity,
    /// The source rectangle may have changed.
    SourceRect,
    /// The destination rectangle may have changed.
    DestRect,
    /// The dimensions may have changed.
    Dimension,
    /// The position may have changed.
    Position,
    /// The orientation may have changed.
    Orientation,
    /// The visibility may have changed.
    Visibility,
    /// The pixel format may have changed.
    PixelFormat,
    /// The entity was added.
    Add,
    /// The entity was removed.
    Remove,
    /// The entity was configured.
    Configure,
    /// Everything flagged.
    All,
}

/// The bit of one mask category, as the host's header lays them out.
pub open spec fn mask_bit(m: NotificationMask) -> u32 {
    match m {
        NotificationMask::NoneMask => 1,
        NotificationMask::Opacity => 2,
        NotificationMask::SourceRect => 4,
        NotificationMask::DestRect => 8,
        NotificationMask::Dimension => 16,
        NotificationMask::Position => 32,
        NotificationMask::Orientation => 64,
        NotificationMask::Visibility => 128,
        NotificationMask::PixelFormat => 256,
        NotificationMask::Add => 512,
        NotificationMask::Remove => 1024,
        NotificationMask::Configure => 2048,
        NotificationMask::All => 0xFFFFFFFFu32,
    }
}

impl NotificationMask {
    /// The bit of this category in an event mask.
    pub fn bit(&self) -> (r: u32)
        ensures
            r == mask_bit(*self),
    {
        match self {
            NotificationMask::NoneMask => 1,
            NotificationMask::Opacity => 2,
            NotificationMask::SourceRect => 4,
            NotificationMask::DestRect => 8,
            NotificationMask::Dimension => 16,
            NotificationMask::Position => 32,
            NotificationMask::Orientation => 64,
            NotificationMask::Visibility => 128,
            NotificationMask::PixelFormat => 256,
            NotificationMask::Add => 512,
            NotificationMask::Remove => 1024,
            NotificationMask::Configure => 2048,
            NotificationMask::All => 0xFFFFFFFFu32,
        }
    }
}

/// The mirrored state of one surface. Opacity is in micro-units;
/// z-order is kept by the core, not the host.
#[derive(Debug, Clone, Copy, PartialEq, Eq, Structural)]
pub struct SurfaceState {
    /// The host-chosen surface id.
    pub id: u32,
    /// The original buffer width and height.
    pub orig_size: SurfaceSize,
    /// The sampled sub-rectangle of the buffer.
    pub src_rect: Rectangle,
    /// The on-screen placement.
    pub dest_rect: Rectangle,
    /// Whether the surface is shown.
    pub visibility: bool,
    /// Opacity in micro-units, 0 through 1_000_000.
    pub opacity: i64,
    /// The rotation.
    pub orientation: Orientation,
    /// The core-kept stacking index.
    pub z_order: i32,
}

/// The mirrored state of one layer.
#[derive(Debug, Clone, Copy, PartialEq, Eq, Structural)]
pub struct LayerState {
    /// The host-chosen layer id.
    pub id: u32,
    /// Whether the layer is shown.
    pub visibility: bool,
    /// Opacity in micro-units.
    pub opacity: i64,
}

/// What the capability reports about one surface: the current property
/// values, either rectangle possibly unavailable, and the event mask of
/// what may have changed.
#[derive(Debug, Clone, Copy, PartialEq, Eq, Structural)]
pub struct SurfaceSnapshot {
    /// The original buffer width and height.
    pub orig_size: SurfaceSize,
    /// The source rectangle, when the host reports one.
    pub src_rect: Option<Rectangle>,
    /// The destination rectangle, when the host reports one.
    pub dest_rect: Option<Rectangle>,
    /// Whether the surface is shown.
    pub visibility: bool,
    /// Opacity in micro-units.
    pub opacity: i64,
    /// The rotation.
    pub orientation: Orientation,
    /// Which categories changed since the last snapshot; 0 for unknown.
    pub event_mask: u32,
}

/// What the capability reports about one layer.
#[derive(Debug, Clone, Copy, PartialEq, Eq, Structural)]
pub struct LayerSnapshot {
    /// Whether the layer is shown.
    pub visibility: bool,
    /// Opacity in micro-units.
    pub opacity: i64,
    /// Which categories changed since the last snapshot; 0 for unknown.
    pub event_mask: u32,
}

/// The mirror entry a complete snapshot builds, with the core-kept
/// z-order supplied separately.
pub open spec fn state_of_snapshot(id: u32, s: SurfaceSnapshot, z_order: i32) -> SurfaceState {
    SurfaceState {
        id,
        orig_size: s.orig_size,
        src_rect: s.src_rect->0,
        dest_rect: s.dest_rect->0,
        visibility: s.visibility,
        opacity: s.opacity,
        orientation: s.orientation,
        z_order,
    }
}

/// The notifications an unmasked diff of two surface states emits, in
/// order: source rectangle, destination rectangle, visibility, opacity,
/// orientation — one each, exactly for the attributes that differ.
pub open spec fn surface_diff(id: u32, old: SurfaceState, new: SurfaceState) -> Seq<Notification> {
    (if old.src_rect != new.src_rect {
        seq![src_geometry_note(id, old.src_rect, new.src_rect)]
    } else {
        seq![]
    }) + (if old.dest_rect != new.dest_rect {
        seq![dest_geometry_note(id, old.dest_rect, new.dest_rect)]
    } else {
        seq![]
    }) + (if old.visibility != new.visibility {
        seq![visibility_note(id, old.visibility, new.visibility)]
    } else {
        seq![]
    }) + (if old.opacity != new.opacity {
        seq![opacity_note(id, old.opacity, new.opacity)]
    } else {
        seq![]
    }) + (if old.orientation != new.orientation {
        seq![orientation_note(id, old.orientation, new.orientation)]
    } else {
        seq![]
    })
}

/// Whether an event mask flags any geometry category.
pub open spec fn mask_flags_geometry(mask: u32) -> bool {
    mask & (4u32 | 8u32 | 16u32 | 32u32) != 0
}

/// The notifications a mask-gated diff emits: within each flagged
/// category, exactly the attributes that differ.
pub open spec fn surface_diff_masked(id: u32, old: SurfaceState, new: SurfaceState, mask: u32) -> Seq<
    Notification,
> {
    (if mask_flags_geometry(mask) && old.src_rect != new.src_rect {
        seq![src_geometry_note(id, old.src_rect, new.src_rect)]
    } else {
        seq![]
    }) + (if mask_flags_geometry(mask) && old.dest_rect != new.dest_rect {
        seq![dest_geometry_note(id, old.dest_rect, new.dest_rect)]
    } else {
        seq![]
    }) + (if mask & 128u32 != 0 && old.visibility != new.visibility {
        seq![visibility_note(id, old.visibility, new.visibility)]
    } else {
        seq![]
    }) + (if mask & 2u32 != 0 && old.opacity != new.opacity {
        seq![opacity_note(id, old.opacity, new.opacity)]
    } else {
        seq![]
    }) + (if mask & 64u32 != 0 && old.orientation != new.orientation {
        seq![orientation_note(id, old.orientation, new.orientation)]
    } else {
        seq![]
    })
}

/// The notifications one surface configure event emits: nothing
/// without a complete snapshot or a prior entry; otherwise the diff
/// against the prior entry, mask-gated unless the mask is zero.
pub open spec fn surface_configure_notes(
    old_entry: Option<SurfaceState>,
    id: u32,
    snapshot: SurfaceSnapshot,
) -> Seq<Notification> {
    if snapshot.src_rect is None || snapshot.dest_rect is None {
        Seq::<Notification>::empty()
    } else {
        match old_entry {
            Some(old_state) => {
                let z = old_state.z_order;
                let new_state = state_of_snapshot(id, snapshot, z);
                if snapshot.event_mask == 0 {
                    surface_diff(id, old_state, new_state)
                } else {
                    surface_diff_masked(id, old_state, new_state, snapshot.event_mask)
                }
            },
            None => Seq::<Notification>::empty(),
        }
    }
}

/// The mirror a surface configure event leaves: unchanged without a
/// complete snapshot, else the entry replaced, keeping the prior
/// z-order.
pub open spec fn surface_configure_mirror(
    pre: Seq<(u32, SurfaceState)>,
    id: u32,
    snapshot: SurfaceSnapshot,
) -> Seq<(u32, SurfaceState)> {
    if snapshot.src_rect is None || snapshot.dest_rect is None {
        pre
    } else {
        let z = match assoc_lookup(pre, id) {
            Some(s) => s.z_order,
            None => 0,
        };
        assoc_set(pre, id, state_of_snapshot(id, snapshot, z))
    }
}

/// The notifications one layer configure event emits.
pub open spec fn layer_configure_notes(
    old_entry: Option<LayerState>,
    id: u32,
    snapshot: LayerSnapshot,
) -> Seq<Notification> {
    match old_entry {
        Some(old_state) => layer_diff_masked(
            id,
            old_state,
            LayerState { id, visibility: snapshot.visibility, opacity: snapshot.opacity },
            snapshot.event_mask,
        ),
        None => Seq::<Notification>::empty(),
    }
}

/// The notifications a layer configure emits: visibility and opacity,
/// each when its category is flagged and the value differs. A zero
/// mask means the host did not say what changed, and everything is
/// diffed.
pub open spec fn layer_diff_masked(id: u32, old: LayerState, new: LayerState, mask: u32) -> Seq<
    Notification,
> {
    (if (mask == 0 || mask & 128u32 != 0) && old.visibility != new.visibility {
        seq![layer_visibility_note(id, old.visibility, new.visibility)]
    } else {
        seq![]
    }) + (if (mask == 0 || mask & 2u32 != 0) && old.opacity != new.opacity {
        seq![layer_opacity_note(id, old.opacity, new.opacity)]
    } else {
        seq![]
    })
}

/// A source-rectangle change notification.
pub open spec fn src_geometry_note(id: u32, old_rect: Rectangle, new_rect: Rectangle) -> Notification {
    Notification {
        notification_type: NotificationType::GeometryChanged,
        data: NotificationData::SourceGeometryChange(
            GeometryChangeNotification { surface_id: id, old_rect, new_rect },
        ),
    }
}

/// A destination-rectangle change notification.
pub open spec fn dest_geometry_note(id: u32, old_rect: Rectangle, new_rect: Rectangle) -> Notification {
    Notification {
        notification_type: NotificationType::GeometryChanged,
        data: NotificationData::DestinationGeometryChange(
            GeometryChangeNotification { surface_id: id, old_rect, new_rect },
        ),
    }
}

/// A visibility change notification.
pub open spec fn visibility_note(id: u32, old_v: bool, new_v: bool) -> Notification {
    Notification {
        notification_type: NotificationType::VisibilityChanged,
        data: NotificationData::VisibilityChange(
            VisibilityChangeNotification {
                surface_id: id,
                old_visibility: old_v,
                new_visibility: new_v,
            },
        ),
    }
}

/// An opacity change notification.
pub open spec fn opacity_note(id: u32, old_o: i64, new_o: i64) -> Notification {
    Notification {
        notification_type: NotificationType::OpacityChanged,
        data: NotificationData::OpacityChange(
            OpacityChangeNotification { surface_id: id, old_opacity: old_o, new_opacity: new_o },
        ),
    }
}

/// An orientation change notification.
pub open spec fn orientation_note(id: u32, old_o: Orientation, new_o: Orientation) -> Notification {
    Notification {
        notification_type: NotificationType::OrientationChanged,
        data: NotificationData::OrientationChange(
            OrientationChangeNotification {
                surface_id: id,
                old_orientation: old_o,
                new_orientation: new_o,
            },
        ),
    }
}

/// A z-order change notification.
pub open spec fn z_order_note(id: u32, old_z: i32, new_z: i32) -> Notification {
    Notification {
        notification_type: NotificationType::ZOrderChanged,
        data: NotificationData::ZOrderChange(
            ZOrderChangeNotification { surface_id: id, old_z_order: old_z, new_z_order: new_z },
        ),
    }
}

/// A focus change notification.
pub open spec fn focus_note(old_f: Option<u32>, new_f: Option<u32>) -> Notification {
    Notification {
        notification_type: NotificationType::FocusChanged,
        data: NotificationData::FocusChange(
            FocusChangeNotification { old_focused_surface: old_f, new_focused_surface: new_f },
        ),
    }
}

/// A surface-created notification.
pub open spec fn surface_created_note(id: u32) -> Notification {
    Notification {
        notification_type: NotificationType::SurfaceCreated,
        data: NotificationData::SurfaceCreated { surface_id: id },
    }
}

/// A surface-destroyed notification.
pub open spec fn surface_destroyed_note(id: u32) -> Notification {
    Notification {
        notification_type: NotificationType::SurfaceDestroyed,
        data: NotificationData::SurfaceDestroyed { surface_id: id },
    }
}

/// A layer-created notification.
pub open spec fn layer_created_note(id: u32) -> Notification {
    Notification {
        notification_type: NotificationType::LayerCreated,
        data: NotificationData::LayerCreated { layer_id: id },
    }
}

/// A layer-destroyed notification.
pub open spec fn layer_destroyed_note(id: u32) -> Notification {
    Notification {
        notification_type: NotificationType::LayerDestroyed,
        data: NotificationData::LayerDestroyed { layer_id: id },
    }
}

/// A layer visibility change notification.
pub open spec fn layer_visibility_note(id: u32, old_v: bool, new_v: bool) -> Notification {
    Notification {
        notification_type: NotificationType::LayerVisibilityChanged,
        data: NotificationData::LayerVisibilityChange(
            LayerVisibilityChangeNotification {
                layer_id: id,
                old_visibility: old_v,
                new_visibility: new_v,
            },
        ),
    }
}

/// A layer opacity change notification.
pub open spec fn layer_opacity_note(id: u32, old_o: i64, new_o: i64) -> Notification {
    Notification {
        notification_type: NotificationType::LayerOpacityChanged,
        data: NotificationData::LayerOpacityChange(
            LayerOpacityChangeNotification { layer_id: id, old_opacity: old_o, new_opacity: new_o },
        ),
    }
}

/// Diff minimality: when only the orientation differs between two
/// states, the unmasked diff is exactly one orientation notification.
pub proof fn lemma_diff_only_orientation(id: u32, old: SurfaceState, new: SurfaceState)
    requires
        old.src_rect == new.src_rect,
        old.dest_rect == new.dest_rect,
        old.visibility == new.visibility,
        old.opacity == new.opacity,
        old.orientation != new.orientation,
    ensures
        surface_diff(id, old, new) == seq![
            orientation_note(id, old.orientation, new.orientation),
        ],
{
    assert(surface_diff(id, old, new) =~= seq![
        orientation_note(id, old.orientation, new.orientation),
    ]);
}

/// Mask gating: when the mask flags only visibility, the gated diff
/// emits exactly one visibility notification, whatever else differs.
pub proof fn lemma_diff_gated_by_visibility(id: u32, old: SurfaceState, new: SurfaceState)
    requires
        old.visibility != new.visibility,
        mask_bit(NotificationMask::Visibility) == 128,
    ensures
        surface_diff_masked(id, old, new, 128) == seq![
            visibility_note(id, old.visibility, new.visibility),
        ],
{
    assert(128u32 & (4u32 | 8u32 | 16u32 | 32u32) == 0) by (bit_vector);
    assert(128u32 & 128u32 != 0) by (bit_vector);
    assert(128u32 & 2u32 == 0) by (bit_vector);
    assert(128u32 & 64u32 == 0) by (bit_vector);
    assert(surface_diff_masked(id, old, new, 128) =~= seq![
        visibility_note(id, old.visibility, new.visibility),
    ]);
}

/// The in-memory mirror of all surfaces and layers, with the focus
/// tracker. The host's callbacks and the RPC mutators both drive it;
/// every change reports the notifications it emits.
#[derive(Debug)]
pub struct StateManager {
    surfaces: Vec<(u32, SurfaceState)>,
    layers: Vec<(u32, LayerState)>,
    focused_surface: Option<u32>,
}

impl StateManager {
    /// The mirrored surfaces, in insertion order.
    pub closed spec fn surfaces_seq(&self) -> Seq<(u32, SurfaceState)> {
        self.surfaces@
    }

    /// The mirrored layers, in insertion order.
    pub closed spec fn layers_seq(&self) -> Seq<(u32, LayerState)> {
        self.layers@
    }

    /// The mirror entry of a surface id.
    pub open spec fn surface_at(&self, id: u32) -> Option<SurfaceState> {
        assoc_lookup(self.surfaces_seq(), id)
    }

    /// The mirror entry of a layer id.
    pub open spec fn layer_at(&self, id: u32) -> Option<LayerState> {
        assoc_lookup(self.layers_seq(), id)
    }

    /// The focused surface, if any.
    pub closed spec fn focus(&self) -> Option<u32> {
        self.focused_surface
    }

    /// Each id has one mirror entry.
    pub open spec fn wf(&self) -> bool {
        assoc_distinct(self.surfaces_seq()) && assoc_distinct(self.layers_seq())
    }

    /// The focused surface, when there is one, is mirrored: destruction
    /// clears the focus before the entry goes, so focusing a vanished
    /// surface is impossible by construction.
    pub open spec fn focus_ok(&self) -> bool {
        match self.focus() {
            Some(id) => self.surface_at(id) is Some,
            None => true,
        }
    }

    /// An empty mirror with no focus.
    pub fn new() -> (r: Self)
        ensures
            r.wf(),
            r.surfaces_seq() == Seq::<(u32, SurfaceState)>::empty(),
            r.layers_seq() == Seq::<(u32, LayerState)>::empty(),
            r.focus() is None,
    {
        StateManager { surfaces: Vec::new(), layers: Vec::new(), focused_surface: None }
    }

    fn find_surface_index(&self, id: u32) -> (r: Option<usize>)
        ensures
            match r {
                Some(i) => i < self.surfaces_seq().len() && self.surfaces_seq()[i as int].0 == id
                    && self.surface_at(id) == Some(self.surfaces_seq()[i as int].1) && (forall|
                    j: int,
                |
                    0 <= j < i ==> (#[trigger] self.surfaces_seq()[j]).0 != id),
                None => self.surface_at(id) is None,
            },
    {
        let mut i: usize = 0;
        proof {
            assert(self.surfaces@.skip(0) =~= self.surfaces@);
        }
        while i < self.surfaces.len()
            invariant
                i <= self.surfaces@.len(),
                forall|j: int| 0 <= j < i ==> (#[trigger] self.surfaces@[j]).0 != id,
                assoc_lookup(self.surfaces@, id) == assoc_lookup(
                    self.surfaces@.skip(i as int),
                    id,
                ),
            decreases self.surfaces@.len() - i,
        {
            proof {
                assert(self.surfaces@.skip(i as int)[0] == self.surfaces@[i as int]);
                assert(self.surfaces@.skip(i as int).drop_first() =~= self.surfaces@.skip(i + 1));
            }
            if self.surfaces[i].0 == id {
                return Some(i);
            }
            i += 1;
        }
        proof {
            assert(self.surfaces@.skip(self.surfaces@.len() as int) =~= Seq::<(
                u32,
                SurfaceState,
            )>::empty());
        }
        None
    }

    fn find_layer_index(&self, id: u32) -> (r: Option<usize>)
        ensures
            match r {
                Some(i) => i < self.layers_seq().len() && self.layers_seq()[i as int].0 == id
                    && self.layer_at(id) == Some(self.layers_seq()[i as int].1) && (forall|j: int|
                    0 <= j < i ==> (#[trigger] self.layers_seq()[j]).0 != id),
                None => self.layer_at(id) is None,
            },
    {
        let mut i: usize = 0;
        proof {
            assert(self.layers@.skip(0) =~= self.layers@);
        }
        while i < self.layers.len()
            invariant
                i <= self.layers@.len(),
                forall|j: int| 0 <= j < i ==> (#[trigger] self.layers@[j]).0 != id,
                assoc_lookup(self.layers@, id) == assoc_lookup(self.layers@.skip(i as int), id),
            decreases self.layers@.len() - i,
        {
            proof {
                assert(self.layers@.skip(i as int)[0] == self.layers@[i as int]);
                assert(self.layers@.skip(i as int).drop_first() =~= self.layers@.skip(i + 1));
            }
            if self.layers[i].0 == id {
                return Some(i);
            }
            i += 1;
        }
        proof {
            assert(self.layers@.skip(self.layers@.len() as int) =~= Seq::<(
                u32,
                LayerState,
            )>::empty());
        }
        None
    }

    /// Put a surface's mirror entry, replacing any old one.
    pub fn add_surface(&mut self, id: u32, state: SurfaceState)
        requires
            old(self).wf(),
        ensures
            final(self).wf(),
            final(self).surfaces_seq() == assoc_set(old(self).surfaces_seq(), id, state),
            final(self).surface_at(id) == Some(state),
            forall|o: u32|
                o != id ==> final(self).surface_at(o) == #[trigger] old(self).surface_at(o),
            final(self).layers_seq() == old(self).layers_seq(),
            final(self).focus() == old(self).focus(),
    {
        match self.find_surface_index(id) {
            Some(i) => {
                let slot = &mut self.surfaces[i];
                *slot = (id, state);
                proof {
                    lemma_assoc_set_is_update(old(self).surfaces@, id, state, i as int);
                    assert(self.surfaces@ =~= old(self).surfaces@.update(i as int, (id, state)));
                }
            },
            None => {
                self.surfaces.push((id, state));
                proof {
                    lemma_assoc_set_is_push(old(self).surfaces@, id, state);
                }
            },
        }
        proof {
            lemma_assoc_set_distinct(old(self).surfaces@, id, state);
            crate::assoc::lemma_assoc_set_same(old(self).surfaces@, id, state);
            assert forall|o: u32| o != id implies #[trigger] assoc_lookup(self.surfaces@, o)
                == assoc_lookup(old(self).surfaces@, o) by {
                crate::assoc::lemma_assoc_set_other(old(self).surfaces@, id, state, o);
            };
        }
    }

    /// Drop a surface's mirror entry, returning what it held.
    pub fn remove_surface(&mut self, id: u32) -> (r: Option<SurfaceState>)
        requires
            old(self).wf(),
        ensures
            final(self).wf(),
            r == old(self).surface_at(id),
            final(self).surface_at(id) is None,
            forall|o: u32|
                o != id ==> final(self).surface_at(o) == #[trigger] old(self).surface_at(o),
            final(self).layers_seq() == old(self).layers_seq(),
            final(self).focus() == old(self).focus(),
    {
        match self.find_surface_index(id) {
            None => None,
            Some(i) => {
                let entry = self.surfaces.remove(i);
                proof {
                    lemma_assoc_remove_same(old(self).surfaces@, i as int);
                    assert forall|o: u32| o != id implies #[trigger] assoc_lookup(
                        self.surfaces@,
                        o,
                    ) == assoc_lookup(old(self).surfaces@, o) by {
                        lemma_assoc_remove_other(old(self).surfaces@, i as int, o);
                    };
                    assert(assoc_distinct(self.surfaces@)) by {
                        assert(forall|a: int, b: int|
                            0 <= a < b < self.surfaces@.len() ==> (
                            #[trigger] self.surfaces@[a]).0 != (#[trigger] self.surfaces@[b]).0)
                            by {
                            assert(forall|a: int|
                                0 <= a < self.surfaces@.len() ==> #[trigger] self.surfaces@[a]
                                    == if a < i { old(self).surfaces@[a] } else {
                                    old(self).surfaces@[a + 1]
                                });
                        };
                    };
                }
                Some(entry.1)
            },
        }
    }

    /// Overwrite a surface's mirror entry.
    pub fn update_surface(&mut self, id: u32, state: SurfaceState)
        requires
            old(self).wf(),
        ensures
            final(self).wf(),
            final(self).surfaces_seq() == assoc_set(old(self).surfaces_seq(), id, state),
            final(self).surface_at(id) == Some(state),
            forall|o: u32|
                o != id ==> final(self).surface_at(o) == #[trigger] old(self).surface_at(o),
            final(self).layers_seq() == old(self).layers_seq(),
            final(self).focus() == old(self).focus(),
    {
        self.add_surface(id, state);
    }

    /// The mirror entry of a surface.
    pub fn get_surface(&self, id: u32) -> (r: Option<SurfaceState>)
        ensures
            r == self.surface_at(id),
    {
        match self.find_surface_index(id) {
            Some(i) => Some(self.surfaces[i].1),
            None => None,
        }
    }

    /// All mirrored surfaces, in insertion order.
    pub fn get_all_surfaces(&self) -> (r: Vec<SurfaceState>)
        ensures
            r@.len() == self.surfaces_seq().len(),
            forall|j: int|
                0 <= j < r@.len() ==> #[trigger] r@[j] == self.surfaces_seq()[j].1,
    {
        let mut out: Vec<SurfaceState> = Vec::new();
        let mut i: usize = 0;
        while i < self.surfaces.len()
            invariant
                i <= self.surfaces@.len(),
                out@.len() == i,
                forall|j: int| 0 <= j < i ==> #[trigger] out@[j] == self.surfaces@[j].1,
            decreases self.surfaces@.len() - i,
        {
            out.push(self.surfaces[i].1);
            i += 1;
        }
        out
    }

    /// How many surfaces are mirrored.
    pub fn surface_count(&self) -> (r: usize)
        ensures
            r == self.surfaces_seq().len(),
    {
        self.surfaces.len()
    }

    /// Whether a surface is mirrored.
    pub fn has_surface(&self, id: u32) -> (r: bool)
        ensures
            r == (self.surface_at(id) is Some),
    {
        match self.find_surface_index(id) {
            Some(_) => true,
            None => false,
        }
    }

    /// The focused surface, if any.
    pub fn get_focused_surface(&self) -> (r: Option<u32>)
        ensures
            r == self.focus(),
    {
        self.focused_surface
    }

    /// Move the focus; a `FocusChanged` notification is reported exactly
    /// when the value changes.
    pub fn set_focused_surface(&mut self, new_focused: Option<u32>) -> (r: Option<Notification>)
        ensures
            final(self).focus() == new_focused,
            final(self).surfaces_seq() == old(self).surfaces_seq(),
            final(self).layers_seq() == old(self).layers_seq(),
            r == if old(self).focus() != new_focused {
                Some(focus_note(old(self).focus(), new_focused))
            } else {
                None::<Notification>
            },
    {
        let old_focused = self.focused_surface;
        self.focused_surface = new_focused;
        if old_focused != new_focused {
            Some(
                Notification {
                    notification_type: NotificationType::FocusChanged,
                    data: NotificationData::FocusChange(
                        FocusChangeNotification {
                            old_focused_surface: old_focused,
                            new_focused_surface: new_focused,
                        },
                    ),
                },
            )
        } else {
            None
        }
    }

    /// The notifications an unmasked diff between two surface states
    /// emits.
    pub fn emit_surface_property_changes(
        &self,
        surface_id: u32,
        old_state: &SurfaceState,
        new_state: &SurfaceState,
    ) -> (r: Vec<Notification>)
        ensures
            r@ == surface_diff(surface_id, *old_state, *new_state),
    {
        let mut out: Vec<Notification> = Vec::new();
        if old_state.src_rect != new_state.src_rect {
            out.push(
                Notification {
                    notification_type: NotificationType::GeometryChanged,
                    data: NotificationData::SourceGeometryChange(
                        GeometryChangeNotification {
                            surface_id,
                            old_rect: old_state.src_rect,
                            new_rect: new_state.src_rect,
                        },
                    ),
                },
            );
        }
        if old_state.dest_rect != new_state.dest_rect {
            out.push(
                Notification {
                    notification_type: NotificationType::GeometryChanged,
                    data: NotificationData::DestinationGeometryChange(
                        GeometryChangeNotification {
                            surface_id,
                            old_rect: old_state.dest_rect,
                            new_rect: new_state.dest_rect,
                        },
                    ),
                },
            );
        }
        if old_state.visibility != new_state.visibility {
            out.push(
                Notification {
                    notification_type: NotificationType::VisibilityChanged,
                    data: NotificationData::VisibilityChange(
                        VisibilityChangeNotification {
                            surface_id,
                            old_visibility: old_state.visibility,
                            new_visibility: new_state.visibility,
                        },
                    ),
                },
            );
        }
        if old_state.opacity != new_state.opacity {
            out.push(
                Notification {
                    notification_type: NotificationType::OpacityChanged,
                    data: NotificationData::OpacityChange(
                        OpacityChangeNotification {
                            surface_id,
                            old_opacity: old_state.opacity,
                            new_opacity: new_state.opacity,
                        },
                    ),
                },
            );
        }
        if old_state.orientation != new_state.orientation {
            out.push(
                Notification {
                    notification_type: NotificationType::OrientationChanged,
                    data: NotificationData::OrientationChange(
                        OrientationChangeNotification {
                            surface_id,
                            old_orientation: old_state.orientation,
                            new_orientation: new_state.orientation,
                        },
                    ),
                },
            );
        }
        proof {
            assert(out@ =~= surface_diff(surface_id, *old_state, *new_state));
        }
        out
    }

    /// The notifications a mask-gated diff between two surface states
    /// emits: only categories whose bit is set are considered.
    pub fn emit_surface_property_changes_filtered(
        &self,
        surface_id: u32,
        old_state: &SurfaceState,
        new_state: &SurfaceState,
        event_mask: u32,
    ) -> (r: Vec<Notification>)
        ensures
            r@ == surface_diff_masked(surface_id, *old_state, *new_state, event_mask),
    {
        let mut out: Vec<Notification> = Vec::new();
        let geometry = event_mask & (4u32 | 8u32 | 16u32 | 32u32) != 0;
        if geometry && old_state.src_rect != new_state.src_rect {
            out.push(
                Notification {
                    notification_type: NotificationType::GeometryChanged,
                    data: NotificationData::SourceGeometryChange(
                        GeometryChangeNotification {
                            surface_id,
                            old_rect: old_state.src_rect,
                            new_rect: new_state.src_rect,
                        },
                    ),
                },
            );
        }
        if geometry && old_state.dest_rect != new_state.dest_rect {
            out.push(
                Notification {
                    notification_type: NotificationType::GeometryChanged,
                    data: NotificationData::DestinationGeometryChange(
                        GeometryChangeNotification {
                            surface_id,
                            old_rect: old_state.dest_rect,
                            new_rect: new_state.dest_rect,
                        },
                    ),
                },
            );
        }
        if event_mask & 128u32 != 0 && old_state.visibility != new_state.visibility {
            out.push(
                Notification {
                    notification_type: NotificationType::VisibilityChanged,
                    data: NotificationData::VisibilityChange(
                        VisibilityChangeNotification {
                            surface_id,
                            old_visibility: old_state.visibility,
                            new_visibility: new_state.visibility,
                        },
                    ),
                },
            );
        }
        if event_mask & 2u32 != 0 && old_state.opacity != new_state.opacity {
            out.push(
                Notification {
                    notification_type: NotificationType::OpacityChanged,
                    data: NotificationData::OpacityChange(
                        OpacityChangeNotification {
                            surface_id,
                            old_opacity: old_state.opacity,
                            new_opacity: new_state.opacity,
                        },
                    ),
                },
            );
        }
        if event_mask & 64u32 != 0 && old_state.orientation != new_state.orientation {
            out.push(
                Notification {
                    notification_type: NotificationType::OrientationChanged,
                    data: NotificationData::OrientationChange(
                        OrientationChangeNotification {
                            surface_id,
                            old_orientation: old_state.orientation,
                            new_orientation: new_state.orientation,
                        },
                    ),
                },
            );
        }
        proof {
            assert(out@ =~= surface_diff_masked(
                surface_id,
                *old_state,
                *new_state,
                event_mask,
            ));
        }
        out
    }

    /// Mirror a surface the host reports as created. A snapshot missing
    /// either rectangle is not committed; otherwise the entry is stored
    /// with z-order 0 and a created notification is reported.
    pub fn handle_surface_created(&mut self, surface_id: u32, snapshot: SurfaceSnapshot) -> (r:
        Option<Notification>)
        requires
            old(self).wf(),
        ensures
            final(self).wf(),
            final(self).layers_seq() == old(self).layers_seq(),
            final(self).focus() == old(self).focus(),
            old(self).focus_ok() ==> final(self).focus_ok(),
            snapshot.src_rect is None || snapshot.dest_rect is None ==> *final(self) == *old(self)
                && r is None,
            snapshot.src_rect is Some && snapshot.dest_rect is Some ==> {
                &&& final(self).surfaces_seq() == assoc_set(
                    old(self).surfaces_seq(),
                    surface_id,
                    state_of_snapshot(surface_id, snapshot, 0),
                )
                &&& r == Some(surface_created_note(surface_id))
            },
    {
        let src_rect = match snapshot.src_rect {
            Some(s) => s,
            None => {
                return None;
            },
        };
        let dest_rect = match snapshot.dest_rect {
            Some(d) => d,
            None => {
                return None;
            },
        };
        let state = SurfaceState {
            id: surface_id,
            orig_size: snapshot.orig_size,
            src_rect,
            dest_rect,
            visibility: snapshot.visibility,
            opacity: snapshot.opacity,
            orientation: snapshot.orientation,
            z_order: 0,
        };
        self.add_surface(surface_id, state);
        Some(
            Notification {
                notification_type: NotificationType::SurfaceCreated,
                data: NotificationData::SurfaceCreated { surface_id },
            },
        )
    }

    /// Drop a destroyed surface from the mirror. A destroyed
    /// notification is always reported; when the surface held the
    /// focus, the focus is cleared and its change follows.
    pub fn handle_surface_destroyed(&mut self, surface_id: u32) -> (r: Vec<Notification>)
        requires
            old(self).wf(),
        ensures
            final(self).wf(),
            final(self).layers_seq() == old(self).layers_seq(),
            old(self).focus_ok() ==> final(self).focus_ok(),
            final(self).surface_at(surface_id) is None,
            forall|o: u32|
                o != surface_id ==> final(self).surface_at(o) == #[trigger] old(
                    self,
                ).surface_at(o),
            old(self).focus() == Some(surface_id) ==> final(self).focus() is None && r@ == seq![
                surface_destroyed_note(surface_id),
                focus_note(Some(surface_id), None),
            ],
            old(self).focus() != Some(surface_id) ==> final(self).focus() == old(self).focus()
                && r@ == seq![surface_destroyed_note(surface_id)],
    {
        let _removed = self.remove_surface(surface_id);
        let mut out: Vec<Notification> = Vec::new();
        out.push(
            Notification {
                notification_type: NotificationType::SurfaceDestroyed,
                data: NotificationData::SurfaceDestroyed { surface_id },
            },
        );
        let was_focused = match self.focused_surface {
            Some(f) => f == surface_id,
            None => false,
        };
        if was_focused {
            match self.set_focused_surface(None) {
                Some(n) => {
                    out.push(n);
                },
                None => {},
            }
        }
        proof {
            if old(self).focus() == Some(surface_id) {
                assert(out@ =~= seq![
                    surface_destroyed_note(surface_id),
                    focus_note(Some(surface_id), None),
                ]);
            } else {
                assert(out@ =~= seq![surface_destroyed_note(surface_id)]);
            }
        }
        out
    }

    /// Mirror a host configure event. The prior z-order is preserved;
    /// a snapshot missing either rectangle is not committed. When a
    /// prior entry existed, the diff — mask-gated unless the mask is
    /// zero — is reported; a surface seen here first is stored silently.
    pub fn handle_surface_configured(&mut self, surface_id: u32, snapshot: SurfaceSnapshot) -> (r:
        Vec<Notification>)
        requires
            old(self).wf(),
        ensures
            final(self).wf(),
            final(self).layers_seq() == old(self).layers_seq(),
            final(self).focus() == old(self).focus(),
            old(self).focus_ok() ==> final(self).focus_ok(),
            snapshot.src_rect is None || snapshot.dest_rect is None ==> *final(self) == *old(
                self,
            ),
            final(self).surfaces_seq() == surface_configure_mirror(
                old(self).surfaces_seq(),
                surface_id,
                snapshot,
            ),
            r@ == surface_configure_notes(
                old(self).surface_at(surface_id),
                surface_id,
                snapshot,
            ),
    {
        let old_state = self.get_surface(surface_id);
        let src_rect = match snapshot.src_rect {
            Some(s) => s,
            None => {
                return Vec::new();
            },
        };
        let dest_rect = match snapshot.dest_rect {
            Some(d) => d,
            None => {
                return Vec::new();
            },
        };
        let z_order = match &old_state {
            Some(s) => s.z_order,
            None => 0,
        };
        let new_state = SurfaceState {
            id: surface_id,
            orig_size: snapshot.orig_size,
            src_rect,
            dest_rect,
            visibility: snapshot.visibility,
            opacity: snapshot.opacity,
            orientation: snapshot.orientation,
            z_order,
        };
        let out = match &old_state {
            Some(old_entry) => {
                if snapshot.event_mask == 0 {
                    self.emit_surface_property_changes(surface_id, old_entry, &new_state)
                } else {
                    self.emit_surface_property_changes_filtered(
                        surface_id,
                        old_entry,
                        &new_state,
                        snapshot.event_mask,
                    )
                }
            },
            None => Vec::new(),
        };
        self.update_surface(surface_id, new_state);
        out
    }

    /// Put a layer's mirror entry, replacing any old one.
    pub fn add_layer(&mut self, id: u32, state: LayerState)
        requires
            old(self).wf(),
        ensures
            final(self).wf(),
            final(self).layers_seq() == assoc_set(old(self).layers_seq(), id, state),
            final(self).layer_at(id) == Some(state),
            forall|o: u32| o != id ==> #[trigger] final(self).layer_at(o) == old(self).layer_at(o),
            final(self).surfaces_seq() == old(self).surfaces_seq(),
            final(self).focus() == old(self).focus(),
    {
        match self.find_layer_index(id) {
            Some(i) => {
                let slot = &mut self.layers[i];
                *slot = (id, state);
                proof {
                    lemma_assoc_set_is_update(old(self).layers@, id, state, i as int);
                    assert(self.layers@ =~= old(self).layers@.update(i as int, (id, state)));
                }
            },
            None => {
                self.layers.push((id, state));
                proof {
                    lemma_assoc_set_is_push(old(self).layers@, id, state);
                }
            },
        }
        proof {
            lemma_assoc_set_distinct(old(self).layers@, id, state);
            crate::assoc::lemma_assoc_set_same(old(self).layers@, id, state);
            assert forall|o: u32| o != id implies #[trigger] assoc_lookup(self.layers@, o)
                == assoc_lookup(old(self).layers@, o) by {
                crate::assoc::lemma_assoc_set_other(old(self).layers@, id, state, o);
            };
        }
    }

    /// Drop a layer's mirror entry, returning what it held.
    pub fn remove_layer(&mut self, id: u32) -> (r: Option<LayerState>)
        requires
            old(self).wf(),
        ensures
            final(self).wf(),
            r == old(self).layer_at(id),
            final(self).layer_at(id) is None,
            forall|o: u32| o != id ==> #[trigger] final(self).layer_at(o) == old(self).layer_at(o),
            final(self).surfaces_seq() == old(self).surfaces_seq(),
            final(self).focus() == old(self).focus(),
    {
        match self.find_layer_index(id) {
            None => None,
            Some(i) => {
                let entry = self.layers.remove(i);
                proof {
                    lemma_assoc_remove_same(old(self).layers@, i as int);
                    assert forall|o: u32| o != id implies #[trigger] assoc_lookup(
                        self.layers@,
                        o,
                    ) == assoc_lookup(old(self).layers@, o) by {
                        lemma_assoc_remove_other(old(self).layers@, i as int, o);
                    };
                    assert(assoc_distinct(self.layers@)) by {
                        assert(forall|a: int|
                            0 <= a < self.layers@.len() ==> #[trigger] self.layers@[a] == if a
                                < i { old(self).layers@[a] } else { old(self).layers@[a + 1] });
                    };
                }
                Some(entry.1)
            },
        }
    }

    /// Overwrite a layer's mirror entry.
    pub fn update_layer(&mut self, id: u32, state: LayerState)
        requires
            old(self).wf(),
        ensures
            final(self).wf(),
            final(self).layers_seq() == assoc_set(old(self).layers_seq(), id, state),
            final(self).layer_at(id) == Some(state),
            forall|o: u32| o != id ==> #[trigger] final(self).layer_at(o) == old(self).layer_at(o),
            final(self).surfaces_seq() == old(self).surfaces_seq(),
            final(self).focus() == old(self).focus(),
    {
        self.add_layer(id, state);
    }

    /// The mirror entry of a layer.
    pub fn get_layer(&self, id: u32) -> (r: Option<LayerState>)
        ensures
            r == self.layer_at(id),
    {
        match self.find_layer_index(id) {
            Some(i) => Some(self.layers[i].1),
            None => None,
        }
    }

    /// All mirrored layers, in insertion order.
    pub fn get_all_layers(&self) -> (r: Vec<LayerState>)
        ensures
            r@.len() == self.layers_seq().len(),
            forall|j: int| 0 <= j < r@.len() ==> #[trigger] r@[j] == self.layers_seq()[j].1,
    {
        let mut out: Vec<LayerState> = Vec::new();
        let mut i: usize = 0;
        while i < self.layers.len()
            invariant
                i <= self.layers@.len(),
                out@.len() == i,
                forall|j: int| 0 <= j < i ==> #[trigger] out@[j] == self.layers@[j].1,
            decreases self.layers@.len() - i,
        {
            out.push(self.layers[i].1);
            i += 1;
        }
        out
    }

    /// How many layers are mirrored.
    pub fn layer_count(&self) -> (r: usize)
        ensures
            r == self.layers_seq().len(),
    {
        self.layers.len()
    }

    /// Whether a layer is mirrored.
    pub fn has_layer(&self, id: u32) -> (r: bool)
        ensures
            r == (self.layer_at(id) is Some),
    {
        match self.find_layer_index(id) {
            Some(_) => true,
            None => false,
        }
    }

    /// Mirror a layer the host reports as created, and report it.
    pub fn handle_layer_created(&mut self, layer_id: u32, snapshot: LayerSnapshot) -> (r:
        Notification)
        requires
            old(self).wf(),
        ensures
            final(self).wf(),
            final(self).surfaces_seq() == old(self).surfaces_seq(),
            final(self).focus() == old(self).focus(),
            final(self).layers_seq() == assoc_set(
                old(self).layers_seq(),
                layer_id,
                LayerState { id: layer_id, visibility: snapshot.visibility, opacity: snapshot.opacity },
            ),
            r == layer_created_note(layer_id),
    {
        let state = LayerState {
            id: layer_id,
            visibility: snapshot.visibility,
            opacity: snapshot.opacity,
        };
        self.add_layer(layer_id, state);
        Notification {
            notification_type: NotificationType::LayerCreated,
            data: NotificationData::LayerCreated { layer_id },
        }
    }

    /// Drop a destroyed layer from the mirror, and report it.
    pub fn handle_layer_destroyed(&mut self, layer_id: u32) -> (r: Notification)
        requires
            old(self).wf(),
        ensures
            final(self).wf(),
            final(self).surfaces_seq() == old(self).surfaces_seq(),
            final(self).focus() == old(self).focus(),
            final(self).layer_at(layer_id) is None,
            forall|o: u32|
                o != layer_id ==> final(self).layer_at(o) == #[trigger] old(self).layer_at(o),
            r == layer_destroyed_note(layer_id),
    {
        let _removed = self.remove_layer(layer_id);
        Notification {
            notification_type: NotificationType::LayerDestroyed,
            data: NotificationData::LayerDestroyed { layer_id },
        }
    }

    /// Mirror a layer configure event: the mask-gated visibility and
    /// opacity diffs are reported when a prior entry existed; a zero
    /// mask diffs both attributes.
    pub fn handle_layer_configured(&mut self, layer_id: u32, snapshot: LayerSnapshot) -> (r: Vec<
        Notification,
    >)
        requires
            old(self).wf(),
        ensures
            final(self).wf(),
            final(self).surfaces_seq() == old(self).surfaces_seq(),
            final(self).focus() == old(self).focus(),
            final(self).layers_seq() == assoc_set(
                old(self).layers_seq(),
                layer_id,
                LayerState { id: layer_id, visibility: snapshot.visibility, opacity: snapshot.opacity },
            ),
            r@ == layer_configure_notes(old(self).layer_at(layer_id), layer_id, snapshot),
    {
        let old_state = self.get_layer(layer_id);
        let new_state = LayerState {
            id: layer_id,
            visibility: snapshot.visibility,
            opacity: snapshot.opacity,
        };
        let mut out: Vec<Notification> = Vec::new();
        match &old_state {
            Some(old_entry) => {
                if (snapshot.event_mask == 0 || snapshot.event_mask & 128u32 != 0)
                    && old_entry.visibility != new_state.visibility {
                    out.push(
                        Notification {
                            notification_type: NotificationType::LayerVisibilityChanged,
                            data: NotificationData::LayerVisibilityChange(
                                LayerVisibilityChangeNotification {
                                    layer_id,
                                    old_visibility: old_entry.visibility,
                                    new_visibility: new_state.visibility,
                                },
                            ),
                        },
                    );
                }
                if (snapshot.event_mask == 0 || snapshot.event_mask & 2u32 != 0)
                    && old_entry.opacity != new_state.opacity {
                    out.push(
                        Notification {
                            notification_type: NotificationType::LayerOpacityChanged,
                            data: NotificationData::LayerOpacityChange(
                                LayerOpacityChangeNotification {
                                    layer_id,
                                    old_opacity: old_entry.opacity,
                                    new_opacity: new_state.opacity,
                                },
                            ),
                        },
                    );
                }
                proof {
                    assert(out@ =~= layer_diff_masked(
                        layer_id,
                        old_state->0,
                        new_state,
                        snapshot.event_mask,
                    ));
                }
            },
            None => {},
        }
        self.update_layer(layer_id, new_state);
        out
    }

    /// Rebuild the surface mirror from a full sweep of capability
    /// snapshots, as done at startup: the mirror is cleared, then every
    /// snapshot with both rectangles is stored with z-order 0, in order.
    pub fn sync_with_layout(&mut self, snapshots: Vec<(u32, SurfaceSnapshot)>)
        requires
            old(self).wf(),
        ensures
            final(self).wf(),
            final(self).layers_seq() == old(self).layers_seq(),
            final(self).focus() == old(self).focus(),
            final(self).surfaces_seq() == sync_entries(
                Seq::<(u32, SurfaceState)>::empty(),
                snapshots@,
            ),
    {
        self.surfaces.clear();
        proof {
            assert(self.surfaces@ =~= Seq::<(u32, SurfaceState)>::empty());
            assert(snapshots@.skip(0) =~= snapshots@);
        }
        let mut i: usize = 0;
        while i < snapshots.len()
            invariant
                old(self).wf(),
                i <= snapshots@.len(),
                assoc_distinct(self.surfaces@),
                self.layers@ == old(self).layers@,
                self.focused_surface == old(self).focused_surface,
                sync_entries(Seq::<(u32, SurfaceState)>::empty(), snapshots@) == sync_entries(
                    self.surfaces@,
                    snapshots@.skip(i as int),
                ),
            decreases snapshots@.len() - i,
        {
            proof {
                assert(snapshots@.skip(i as int)[0] == snapshots@[i as int]);
                assert(snapshots@.skip(i as int).drop_first() =~= snapshots@.skip(i + 1));
            }
            let (id, snapshot) = snapshots[i];
            match (snapshot.src_rect, snapshot.dest_rect) {
                (Some(src_rect), Some(dest_rect)) => {
                    let state = SurfaceState {
                        id,
                        orig_size: snapshot.orig_size,
                        src_rect,
                        dest_rect,
                        visibility: snapshot.visibility,
                        opacity: snapshot.opacity,
                        orientation: snapshot.orientation,
                        z_order: 0,
                    };
                    self.add_surface(id, state);
                },
                _ => {},
            }
            i += 1;
        }
        proof {
            assert(snapshots@.skip(snapshots@.len() as int) =~= Seq::<(
                u32,
                SurfaceSnapshot,
            )>::empty());
        }
    }
}

/// The surface mirror a startup sweep builds: each complete snapshot is
/// stored over what came before, in order.
pub open spec fn sync_entries(
    acc: Seq<(u32, SurfaceState)>,
    rest: Seq<(u32, SurfaceSnapshot)>,
) -> Seq<(u32, SurfaceState)>
    decreases rest,
{
    if rest.len() == 0 {
        acc
    } else {
        let (id, snapshot) = rest[0];
        let acc2 = if snapshot.src_rect is Some && snapshot.dest_rect is Some {
            assoc_set(acc, id, state_of_snapshot(id, snapshot, 0))
        } else {
            acc
        };
        sync_entries(acc2, rest.drop_first())
    }
}

} // verus!
