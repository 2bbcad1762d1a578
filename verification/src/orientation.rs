//! Surface orientation: rotation in quarter turns.

use crate::validation::{validate_orientation, validation_message, ValidationError};
use vstd::prelude::*;

verus! {

/// Orientation of a surface, in quarter turns clockwise.
#[derive(Debug, Clone, Copy, PartialEq, Eq, Structural)]
pub enum Orientation {
    /// 0 degrees
    Normal,
    /// 90 degrees
    Rotate90,
    /// 180 degrees
    Rotate180,
    /// 270 degrees
    Rotate270,
}

/// The orientation that a Wayland output-transform code stands for;
/// codes outside 0..=3 (flipped transforms) fall back to `Normal`.
pub open spec fn orientation_of_transform(t: u32) -> Orientation {
    if t == 1 { Orientation::Rotate90 }
    else if t == 2 { Orientation::Rotate180 }
    else if t == 3 { Orientation::Rotate270 }
    else { Orientation::Normal }
}

/// The degree count of an orientation: 0, 90, 180 or 270.
pub open spec fn degrees_of(o: Orientation) -> int {
    match o {
        Orientation::Normal => 0,
        Orientation::Rotate90 => 90,
        Orientation::Rotate180 => 180,
        Orientation::Rotate270 => 270,
    }
}

/// The orientation named by a degree count that is a multiple of 90,
/// taken modulo a full turn.
pub open spec fn orientation_of_degrees(d: int) -> Orientation {
    let norm = d % 360;
    if norm == 90 { Orientation::Rotate90 }
    else if norm == 180 { Orientation::Rotate180 }
    else if norm == 270 { Orientation::Rotate270 }
    else { Orientation::Normal }
}

/// The wire label of an orientation.
pub open spec fn orientation_label(o: Orientation) -> Seq<char> {
    match o {
        Orientation::Normal => "Normal"@,
        Orientation::Rotate90 => "Rotate90"@,
        Orientation::Rotate180 => "Rotate180"@,
        Orientation::Rotate270 => "Rotate270"@,
    }
}

/// The orientation a wire label names, if any.
pub open spec fn orientation_of_label(s: Seq<char>) -> Option<Orientation> {
    if s == "Normal"@ { Some(Orientation::Normal) }
    else if s == "Rotate90"@ { Some(Orientation::Rotate90) }
    else if s == "Rotate180"@ { Some(Orientation::Rotate180) }
    else if s == "Rotate270"@ { Some(Orientation::Rotate270) }
    else { None }
}

impl Orientation {
    /// Read an orientation from a Wayland output-transform code.
    pub fn from_wl_transform(transform: u32) -> (r: Self)
        ensures
            r == orientation_of_transform(transform),
    {
        match transform {
            1 => Orientation::Rotate90,
            2 => Orientation::Rotate180,
            3 => Orientation::Rotate270,
            _ => Orientation::Normal,
        }
    }

    /// The Wayland output-transform code of this orientation.
    pub fn to_wl_transform(&self) -> (r: u32)
        ensures
            r == degrees_of(*self) / 90,
            orientation_of_transform(r) == *self,
    {
        match self {
            Orientation::Normal => 0,
            Orientation::Rotate90 => 1,
            Orientation::Rotate180 => 2,
            Orientation::Rotate270 => 3,
        }
    }

    /// Read an orientation from a degree count. A count that is no
    /// multiple of 90 is rejected with the validation message; any
    /// multiple, also negative or beyond a full turn, is normalized.
    #[verifier::rlimit(50)]
    pub fn from_degrees(degrees: i32) -> (r: Result<Self, String>)
        ensures
            degrees as int % 90 == 0 ==> r == Result::<Self, String>::Ok(
                orientation_of_degrees(degrees as int),
            ),
            degrees as int % 90 != 0 ==> (r matches Err(m) && m@ == validation_message(
                ValidationError::InvalidOrientation { value: degrees },
            )),
    {
        match validate_orientation(degrees) {
            Err(e) => Err(e.message()),
            Ok(()) => {
                let rem: i32 = degrees % 360;
                let normalized: i32 = (rem + 360) % 360;
                proof {
                    assert(-360 < rem < 360);
                    assert(0 <= normalized < 360);
                    assert(normalized as int == degrees as int % 360);
                }
                Ok(
                    match normalized {
                        90 => Orientation::Rotate90,
                        180 => Orientation::Rotate180,
                        270 => Orientation::Rotate270,
                        _ => Orientation::Normal,
                    },
                )
            },
        }
    }

    /// The degree count of this orientation.
    pub fn to_degrees(&self) -> (r: i32)
        ensures
            r as int == degrees_of(*self),
    {
        match self {
            Orientation::Normal => 0,
            Orientation::Rotate90 => 90,
            Orientation::Rotate180 => 180,
            Orientation::Rotate270 => 270,
        }
    }

    /// The wire label of this orientation.
    pub fn as_str(&self) -> (r: &'static str)
        ensures
            r@ == orientation_label(*self),
    {
        match self {
            Orientation::Normal => "Normal",
            Orientation::Rotate90 => "Rotate90",
            Orientation::Rotate180 => "Rotate180",
            Orientation::Rotate270 => "Rotate270",
        }
    }

    /// Read an orientation from its wire label; any other text is refused.
    pub fn from_label(label: &String) -> (r: Option<Self>)
        ensures
            r == orientation_of_label(label@),
    {
        if crate::decimal::string_eq_lit(label, "Normal") {
            Some(Orientation::Normal)
        } else if crate::decimal::string_eq_lit(label, "Rotate90") {
            Some(Orientation::Rotate90)
        } else if crate::decimal::string_eq_lit(label, "Rotate180") {
            Some(Orientation::Rotate180)
        } else if crate::decimal::string_eq_lit(label, "Rotate270") {
            Some(Orientation::Rotate270)
        } else {
            None
        }
    }
}

} // verus!
