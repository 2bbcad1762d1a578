//! Typed notifications: what the state core reports when the mirror
//! changes. Each variant carries the entity and the old and new values.

use crate::geometry::Rectangle;
use crate::orientation::Orientation;
use vstd::prelude::*;

verus! {

/// The kind of a notification.
#[derive(Debug, Clone, Copy, PartialEq, Eq, Hash, Structural)]
pub enum NotificationType {
    /// A source or destination rectangle changed.
    GeometryChanged,
    /// The focused surface changed.
    FocusChanged,
    /// A surface appeared.
    SurfaceCreated,
    /// A surface went away.
    SurfaceDestroyed,
    /// A surface's visibility changed.
    VisibilityChanged,
    /// A surface's opacity changed.
    OpacityChanged,
    /// A surface's orientation changed.
    OrientationChanged,
    /// A surface's z-order changed.
    ZOrderChanged,
    /// A layer appeared.
    LayerCreated,
    /// A layer went away.
    LayerDestroyed,
    /// A layer's visibility changed.
    LayerVisibilityChanged,
    /// A layer's opacity changed.
    LayerOpacityChanged,
}

/// A rectangle change on one surface.
#[derive(Debug, Clone, Copy, PartialEq, Eq, Structural)]
pub struct GeometryChangeNotification {
    /// The surface whose rectangle changed.
    pub surface_id: u32,
    /// The rectangle before.
    pub old_rect: Rectangle,
    /// The rectangle after.
    pub new_rect: Rectangle,
}

/// A change of the focused surface.
#[derive(Debug, Clone, Copy, PartialEq, Eq, Structural)]
pub struct FocusChangeNotification {
    /// The surface focused before, if any.
    pub old_focused_surface: Option<u32>,
    /// The surface focused now, if any.
    pub new_focused_surface: Option<u32>,
}

/// A visibility change on one surface.
#[derive(Debug, Clone, Copy, PartialEq, Eq, Structural)]
pub struct VisibilityChangeNotification {
    /// The surface whose visibility changed.
    pub surface_id: u32,
    /// The visibility before.
    pub old_visibility: bool,
    /// The visibility after.
    pub new_visibility: bool,
}

/// An opacity change on one surface, in micro-units.
#[derive(Debug, Clone, Copy, PartialEq, Eq, Structural)]
pub struct OpacityChangeNotification {
    /// The surface whose opacity changed.
    pub surface_id: u32,
    /// The opacity before.
    pub old_opacity: i64,
    /// The opacity after.
    pub new_opacity: i64,
}

/// An orientation change on one surface.
#[derive(Debug, Clone, Copy, PartialEq, Eq, Structural)]
pub struct OrientationChangeNotification {
    /// The surface whose orientation changed.
    pub surface_id: u32,
    /// The orientation before.
    pub old_orientation: Orientation,
    /// The orientation after.
    pub new_orientation: Orientation,
}

/// A z-order change on one surface.
#[derive(Debug, Clone, Copy, PartialEq, Eq, Structural)]
pub struct ZOrderChangeNotification {
    /// The surface whose z-order changed.
    pub surface_id: u32,
    /// The z-order before.
    pub old_z_order: i32,
    /// The z-order after.
    pub new_z_order: i32,
}

/// A visibility change on one layer.
#[derive(Debug, Clone, Copy, PartialEq, Eq, Structural)]
pub struct LayerVisibilityChangeNotification {
    /// The layer whose visibility changed.
    pub layer_id: u32,
    /// The visibility before.
    pub old_visibility: bool,
    /// The visibility after.
    pub new_visibility: bool,
}

/// An opacity change on one layer, in micro-units.
#[derive(Debug, Clone, Copy, PartialEq, Eq, Structural)]
pub struct LayerOpacityChangeNotification {
    /// The layer whose opacity changed.
    pub layer_id: u32,
    /// The opacity before.
    pub old_opacity: i64,
    /// The opacity after.
    pub new_opacity: i64,
}

/// Which of a surface's two rectangles a geometry change is about.
#[derive(Debug, Clone, Copy, PartialEq, Eq, Structural)]
pub enum GeometryType {
    /// The source rectangle: what part of the buffer is sampled.
    Source,
    /// The destination rectangle: where on screen it is drawn.
    Destination,
}

/// The payload of a notification.
#[derive(Debug, Clone, Copy, PartialEq, Eq, Structural)]
pub enum NotificationData {
    /// A source rectangle changed.
    SourceGeometryChange(GeometryChangeNotification),
    /// A destination rectangle changed.
    DestinationGeometryChange(GeometryChangeNotification),
    /// The focus moved.
    FocusChange(FocusChangeNotification),
    /// A surface appeared.
    SurfaceCreated {
        /// Its id.
        surface_id: u32,
    },
    /// A surface went away.
    SurfaceDestroyed {
        /// Its id.
        surface_id: u32,
    },
    /// A surface's visibility changed.
    VisibilityChange(VisibilityChangeNotification),
    /// A surface's opacity changed.
    OpacityChange(OpacityChangeNotification),
    /// A surface's orientation changed.
    OrientationChange(OrientationChangeNotification),
    /// A surface's z-order changed.
    ZOrderChange(ZOrderChangeNotification),
    /// A layer appeared.
    LayerCreated {
        /// Its id.
        layer_id: u32,
    },
    /// A layer went away.
    LayerDestroyed {
        /// Its id.
        layer_id: u32,
    },
    /// A layer's visibility changed.
    LayerVisibilityChange(LayerVisibilityChangeNotification),
    /// A layer's opacity changed.
    LayerOpacityChange(LayerOpacityChangeNotification),
}

/// One notification: its kind and its payload.
#[derive(Debug, Clone, Copy, PartialEq, Eq, Structural)]
pub struct Notification {
    /// The kind, keying callback and subscription routing.
    pub notification_type: NotificationType,
    /// The payload.
    pub data: NotificationData,
}

} // verus!
