//! Human-readable result lines for command-line front-ends: a check
//! mark before a success, a cross before an error.

use crate::decimal::{dec_str, dec_str_int, push_dec_i64, push_dec_u64};
use vstd::prelude::*;

verus! {

/// The text of a success line: a check mark, a space, the message.
pub open spec fn success_text(message: Seq<char>) -> Seq<char> {
    "\u{2713} "@ + message
}

/// Prefix a message with a check mark.
pub fn format_success(message: &str) -> (r: String)
    ensures
        r@ == success_text(message@),
{
    let mut out = String::new();
    out.append("\u{2713} ");
    out.append(message);
    out
}

/// Prefix an error's text with a cross mark.
pub fn format_error(error: &str) -> (r: String)
    ensures
        r@ == "\u{2717} Error: "@ + error@,
{
    let mut out = String::new();
    out.append("\u{2717} Error: ");
    out.append(error);
    out
}

/// The success line for creating a layer.
pub fn format_layer_create_success(id: u32) -> (r: String)
    ensures
        r@ == success_text("Layer "@ + dec_str(id as nat) + " created"@),
{
    let mut m = String::new();
    m.append("Layer ");
    push_dec_u64(id as u64, &mut m);
    m.append(" created");
    format_success(m.as_str())
}

/// The success line for setting a surface's visibility.
pub fn format_surface_visibility_success(id: u32, visible: bool) -> (r: String)
    ensures
        r@ == success_text(
            "Surface "@ + dec_str(id as nat) + " visibility set to "@ + (if visible {
                "true"@
            } else {
                "false"@
            }),
        ),
{
    let mut m = String::new();
    m.append("Surface ");
    push_dec_u64(id as u64, &mut m);
    m.append(" visibility set to ");
    m.append(if visible { "true" } else { "false" });
    format_success(m.as_str())
}

/// The success line for setting a surface's source rectangle.
pub fn format_surface_source_rect_success(id: u32, x: i32, y: i32, width: i32, height: i32) -> (r:
    String)
    ensures
        r@ == success_text(
            "Surface "@ + dec_str(id as nat) + " source rectangle set to position ("@ + dec_str_int(
                x as int,
            ) + ", "@ + dec_str_int(y as int) + ") and size "@ + dec_str_int(width as int) + "x"@
                + dec_str_int(height as int),
        ),
{
    let mut m = String::new();
    m.append("Surface ");
    push_dec_u64(id as u64, &mut m);
    m.append(" source rectangle set to position (");
    push_dec_i64(x as i64, &mut m);
    m.append(", ");
    push_dec_i64(y as i64, &mut m);
    m.append(") and size ");
    push_dec_i64(width as i64, &mut m);
    m.append("x");
    push_dec_i64(height as i64, &mut m);
    format_success(m.as_str())
}

/// The success line for setting a surface's destination rectangle.
pub fn format_surface_dest_rect_success(id: u32, x: i32, y: i32, width: i32, height: i32) -> (r:
    String)
    ensures
        r@ == success_text(
            "Surface "@ + dec_str(id as nat) + " destination rectangle set to position ("@
                + dec_str_int(x as int) + ", "@ + dec_str_int(y as int) + ") and size "@
                + dec_str_int(width as int) + "x"@ + dec_str_int(height as int),
        ),
{
    let mut m = String::new();
    m.append("Surface ");
    push_dec_u64(id as u64, &mut m);
    m.append(" destination rectangle set to position (");
    push_dec_i64(x as i64, &mut m);
    m.append(", ");
    push_dec_i64(y as i64, &mut m);
    m.append(") and size ");
    push_dec_i64(width as i64, &mut m);
    m.append("x");
    push_dec_i64(height as i64, &mut m);
    format_success(m.as_str())
}

/// The success line for setting a surface's z-order.
pub fn format_surface_z_order_success(id: u32, z_order: i32) -> (r: String)
    ensures
        r@ == success_text(
            "Surface "@ + dec_str(id as nat) + " z-order set to "@ + dec_str_int(z_order as int),
        ),
{
    let mut m = String::new();
    m.append("Surface ");
    push_dec_u64(id as u64, &mut m);
    m.append(" z-order set to ");
    push_dec_i64(z_order as i64, &mut m);
    format_success(m.as_str())
}

/// The success line for focusing a surface.
pub fn format_surface_focus_success(id: u32) -> (r: String)
    ensures
        r@ == success_text("Surface "@ + dec_str(id as nat) + " focus set"@),
{
    let mut m = String::new();
    m.append("Surface ");
    push_dec_u64(id as u64, &mut m);
    m.append(" focus set");
    format_success(m.as_str())
}

/// The success line for setting a layer's visibility.
pub fn format_layer_visibility_success(id: u32, visible: bool) -> (r: String)
    ensures
        r@ == success_text(
            "Layer "@ + dec_str(id as nat) + " visibility set to "@ + (if visible {
                "true"@
            } else {
                "false"@
            }),
        ),
{
    let mut m = String::new();
    m.append("Layer ");
    push_dec_u64(id as u64, &mut m);
    m.append(" visibility set to ");
    m.append(if visible { "true" } else { "false" });
    format_success(m.as_str())
}

/// The success line for setting a layer's source rectangle.
pub fn format_layer_source_rect_success(id: u32, x: i32, y: i32, width: i32, height: i32) -> (r:
    String)
    ensures
        r@ == success_text(
            "Layer "@ + dec_str(id as nat) + " source rectangle set to position ("@ + dec_str_int(
                x as int,
            ) + ", "@ + dec_str_int(y as int) + ") and size "@ + dec_str_int(width as int) + "x"@
                + dec_str_int(height as int),
        ),
{
    let mut m = String::new();
    m.append("Layer ");
    push_dec_u64(id as u64, &mut m);
    m.append(" source rectangle set to position (");
    push_dec_i64(x as i64, &mut m);
    m.append(", ");
    push_dec_i64(y as i64, &mut m);
    m.append(") and size ");
    push_dec_i64(width as i64, &mut m);
    m.append("x");
    push_dec_i64(height as i64, &mut m);
    format_success(m.as_str())
}

/// The success line for setting a layer's destination rectangle.
pub fn format_layer_dest_rect_success(id: u32, x: i32, y: i32, width: i32, height: i32) -> (r:
    String)
    ensures
        r@ == success_text(
            "Layer "@ + dec_str(id as nat) + " destination rectangle set to position ("@
                + dec_str_int(x as int) + ", "@ + dec_str_int(y as int) + ") and size "@
                + dec_str_int(width as int) + "x"@ + dec_str_int(height as int),
        ),
{
    let mut m = String::new();
    m.append("Layer ");
    push_dec_u64(id as u64, &mut m);
    m.append(" destination rectangle set to position (");
    push_dec_i64(x as i64, &mut m);
    m.append(", ");
    push_dec_i64(y as i64, &mut m);
    m.append(") and size ");
    push_dec_i64(width as i64, &mut m);
    m.append("x");
    push_dec_i64(height as i64, &mut m);
    format_success(m.as_str())
}

/// The success line for a commit.
pub fn format_commit_success() -> (r: String)
    ensures
        r@ == success_text("Changes committed"@),
{
    format_success("Changes committed")
}

} // verus!
