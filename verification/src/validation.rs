//! Input validation shared by every mutator of the controller.
//!
//! All range and enum checks on client-supplied values live here; no other
//! component performs ad-hoc checks. Each rejection names the parameter
//! and the reason.

use crate::decimal::{dec_str_int, opacity_lit, push_dec_i64, push_opacity};
use vstd::prelude::*;

verus! {

/// Smallest coordinate accepted for a position, half of the `i32` range,
/// so that later rectangle arithmetic cannot overflow.
pub const MIN_COORD: i32 = -1073741824;

/// Largest coordinate accepted for a position.
pub const MAX_COORD: i32 = 1073741823;

/// Opacity values are carried as integer micro-units: 1_000_000 stands for
/// a fully opaque 1.0, 0 for fully transparent.
pub const OPACITY_MAX_MICRO: i64 = 1000000;

/// A rejected input, naming the parameter and the reason.
#[derive(Debug, Clone, PartialEq, Eq, Structural)]
pub enum ValidationError {
    /// A coordinate lies outside [`MIN_COORD`, `MAX_COORD`].
    InvalidPosition { param_is_y: bool, value: i32 },
    /// A dimension is zero or negative.
    InvalidSize { param_is_height: bool, value: i32 },
    /// An opacity in micro-units lies outside [0, 1_000_000].
    InvalidOpacity { micro: i64 },
    /// An angle in degrees is not a multiple of 90.
    InvalidOrientation { value: i32 },
    /// A z-order lies outside the layer's accepted range.
    InvalidZOrder { value: i32, min: i32, max: i32 },
}

/// The text of a validation error, naming the parameter, the offending
/// value and the accepted range.
pub open spec fn validation_message(e: ValidationError) -> Seq<char> {
    match e {
        ValidationError::InvalidPosition { param_is_y, value } => {
            "Invalid position: "@ + (if param_is_y { "y"@ } else { "x"@ }) + " = "@
                + dec_str_int(value as int)
                + ", must be in range [-1073741824, 1073741823]"@
        },
        ValidationError::InvalidSize { param_is_height, value } => {
            "Invalid size: "@ + (if param_is_height { "height"@ } else { "width"@ }) + " = "@
                + dec_str_int(value as int) + ", must be positive non-zero"@
        },
        ValidationError::InvalidOpacity { micro } => {
            "Invalid opacity: "@ + opacity_lit(micro as int) + ", must be in range [0.0, 1.0]"@
        },
        ValidationError::InvalidOrientation { value } => {
            "Invalid orientation: "@ + dec_str_int(value as int)
                + " degrees, must be a multiple of 90 (0, 90, 180, or 270)"@
        },
        ValidationError::InvalidZOrder { value, min, max } => {
            "Invalid z-order: "@ + dec_str_int(value as int) + ", must be in range ["@
                + dec_str_int(min as int) + ", "@ + dec_str_int(max as int) + "]"@
        },
    }
}

impl ValidationError {
    /// Render the error as the text that reaches clients.
    pub fn message(&self) -> (r: String)
        ensures
            r@ == validation_message(*self),
    {
        let mut out = String::new();
        match self {
            ValidationError::InvalidPosition { param_is_y, value } => {
                out.append("Invalid position: ");
                out.append(if *param_is_y { "y" } else { "x" });
                out.append(" = ");
                push_dec_i64(*value as i64, &mut out);
                out.append(", must be in range [-1073741824, 1073741823]");
            },
            ValidationError::InvalidSize { param_is_height, value } => {
                out.append("Invalid size: ");
                out.append(if *param_is_height { "height" } else { "width" });
                out.append(" = ");
                push_dec_i64(*value as i64, &mut out);
                out.append(", must be positive non-zero");
            },
            ValidationError::InvalidOpacity { micro } => {
                out.append("Invalid opacity: ");
                push_opacity(*micro, &mut out);
                out.append(", must be in range [0.0, 1.0]");
            },
            ValidationError::InvalidOrientation { value } => {
                out.append("Invalid orientation: ");
                push_dec_i64(*value as i64, &mut out);
                out.append(" degrees, must be a multiple of 90 (0, 90, 180, or 270)");
            },
            ValidationError::InvalidZOrder { value, min, max } => {
                out.append("Invalid z-order: ");
                push_dec_i64(*value as i64, &mut out);
                out.append(", must be in range [");
                push_dec_i64(*min as i64, &mut out);
                out.append(", ");
                push_dec_i64(*max as i64, &mut out);
                out.append("]");
            },
        }
        proof {
            assert(out@ =~= validation_message(*self));
        }
        out
    }
}

/// Whether a coordinate is acceptable for either axis of a position.
pub open spec fn coord_ok(v: int) -> bool {
    MIN_COORD <= v <= MAX_COORD
}

/// Validate position coordinates.
///
/// Coordinates may be negative (off-screen placement) but must stay within
/// half the `i32` range on either axis; the x axis is reported first.
pub fn validate_position(x: i32, y: i32) -> (r: Result<(), ValidationError>)
    ensures
        r is Ok <==> coord_ok(x as int) && coord_ok(y as int),
        !coord_ok(x as int) ==> r == Result::<(), ValidationError>::Err(
            ValidationError::InvalidPosition { param_is_y: false, value: x },
        ),
        coord_ok(x as int) && !coord_ok(y as int) ==> r == Result::<(), ValidationError>::Err(
            ValidationError::InvalidPosition { param_is_y: true, value: y },
        ),
{
    if x < MIN_COORD || x > MAX_COORD {
        return Err(ValidationError::InvalidPosition { param_is_y: false, value: x });
    }
    if y < MIN_COORD || y > MAX_COORD {
        return Err(ValidationError::InvalidPosition { param_is_y: true, value: y });
    }
    Ok(())
}

/// Validate size dimensions: both must be positive and non-zero,
/// the width is reported first.
pub fn validate_size(width: i32, height: i32) -> (r: Result<(), ValidationError>)
    ensures
        r is Ok <==> width > 0 && height > 0,
        width <= 0 ==> r == Result::<(), ValidationError>::Err(
            ValidationError::InvalidSize { param_is_height: false, value: width },
        ),
        width > 0 && height <= 0 ==> r == Result::<(), ValidationError>::Err(
            ValidationError::InvalidSize { param_is_height: true, value: height },
        ),
{
    if width <= 0 {
        return Err(ValidationError::InvalidSize { param_is_height: false, value: width });
    }
    if height <= 0 {
        return Err(ValidationError::InvalidSize { param_is_height: true, value: height });
    }
    Ok(())
}

/// Validate an opacity given in micro-units: it must lie in [0, 1_000_000]
/// (0.0 to 1.0). Values decoded from the wire can never be NaN; a negative
/// or too-large decimal is rejected here.
pub fn validate_opacity(opacity: i64) -> (r: Result<(), ValidationError>)
    ensures
        r is Ok <==> 0 <= opacity <= OPACITY_MAX_MICRO,
        !(0 <= opacity <= OPACITY_MAX_MICRO) ==> r == Result::<(), ValidationError>::Err(
            ValidationError::InvalidOpacity { micro: opacity },
        ),
{
    if opacity < 0 || opacity > OPACITY_MAX_MICRO {
        return Err(ValidationError::InvalidOpacity { micro: opacity });
    }
    Ok(())
}

/// Validate an orientation: it must be a multiple of 90 degrees
/// (0, 90, 180, 270, also 360, -90 and so on).
pub fn validate_orientation(degrees: i32) -> (r: Result<(), ValidationError>)
    ensures
        r is Ok <==> degrees as int % 90 == 0,
        degrees as int % 90 != 0 ==> r == Result::<(), ValidationError>::Err(
            ValidationError::InvalidOrientation { value: degrees },
        ),
{
    if degrees % 90 != 0 {
        return Err(ValidationError::InvalidOrientation { value: degrees });
    }
    Ok(())
}

/// Validate a z-order against the containing layer's range: it must lie
/// in [`min`, `max`].
pub fn validate_z_order(z_order: i32, min: i32, max: i32) -> (r: Result<(), ValidationError>)
    ensures
        r is Ok <==> min <= z_order <= max,
        !(min <= z_order <= max) ==> r == Result::<(), ValidationError>::Err(
            ValidationError::InvalidZOrder { value: z_order, min, max },
        ),
{
    if z_order < min || z_order > max {
        return Err(ValidationError::InvalidZOrder { value: z_order, min, max });
    }
    Ok(())
}

} // verus!
