//! The human-readable result lines.

use weston_ivi_controller::format::{
    format_commit_success, format_error, format_layer_create_success,
    format_layer_dest_rect_success, format_layer_source_rect_success,
    format_layer_visibility_success, format_success, format_surface_dest_rect_success,
    format_surface_focus_success, format_surface_source_rect_success,
    format_surface_visibility_success, format_surface_z_order_success,
};

#[test]
fn test_format_success() {
    assert_eq!(format_success("Test message"), "\u{2713} Test message");
    assert_eq!(
        format_success("Operation completed successfully"),
        "\u{2713} Operation completed successfully"
    );
}

#[test]
fn test_format_error() {
    let error = std::io::Error::new(std::io::ErrorKind::NotFound, "File not found");
    let formatted = format_error(&error.to_string());
    assert!(formatted.starts_with("\u{2717} Error:"));
    assert!(formatted.contains("File not found"));
}

#[test]
fn test_format_layer_create_success() {
    assert_eq!(format_layer_create_success(2000), "\u{2713} Layer 2000 created");
}

#[test]
fn test_format_surface_visibility_success() {
    assert_eq!(
        format_surface_visibility_success(1000, true),
        "\u{2713} Surface 1000 visibility set to true"
    );
    assert_eq!(
        format_surface_visibility_success(1001, false),
        "\u{2713} Surface 1001 visibility set to false"
    );
}

#[test]
fn test_format_surface_source_rect_success() {
    assert_eq!(
        format_surface_source_rect_success(1000, 0, 0, 1920, 1080),
        "\u{2713} Surface 1000 source rectangle set to position (0, 0) and size 1920x1080"
    );
    assert_eq!(
        format_surface_source_rect_success(1001, 100, 200, 800, 600),
        "\u{2713} Surface 1001 source rectangle set to position (100, 200) and size 800x600"
    );
}

#[test]
fn test_format_surface_dest_rect_success() {
    assert_eq!(
        format_surface_dest_rect_success(1000, 100, 200, 1920, 1080),
        "\u{2713} Surface 1000 destination rectangle set to position (100, 200) and size 1920x1080"
    );
    assert_eq!(
        format_surface_dest_rect_success(1001, -50, -100, 800, 600),
        "\u{2713} Surface 1001 destination rectangle set to position (-50, -100) and size 800x600"
    );
}

#[test]
fn test_format_surface_z_order_success() {
    assert_eq!(format_surface_z_order_success(1000, 0), "\u{2713} Surface 1000 z-order set to 0");
    assert_eq!(format_surface_z_order_success(1001, -5), "\u{2713} Surface 1001 z-order set to -5");
    assert_eq!(format_surface_z_order_success(1002, 10), "\u{2713} Surface 1002 z-order set to 10");
}

#[test]
fn test_format_surface_focus_success() {
    assert_eq!(format_surface_focus_success(1000), "\u{2713} Surface 1000 focus set");
}

#[test]
fn test_format_layer_visibility_success() {
    assert_eq!(
        format_layer_visibility_success(2000, true),
        "\u{2713} Layer 2000 visibility set to true"
    );
    assert_eq!(
        format_layer_visibility_success(2001, false),
        "\u{2713} Layer 2001 visibility set to false"
    );
}

#[test]
fn test_format_layer_source_rect_success() {
    assert_eq!(
        format_layer_source_rect_success(2000, 0, 0, 1920, 1080),
        "\u{2713} Layer 2000 source rectangle set to position (0, 0) and size 1920x1080"
    );
    assert_eq!(
        format_layer_source_rect_success(2001, 100, 200, 800, 600),
        "\u{2713} Layer 2001 source rectangle set to position (100, 200) and size 800x600"
    );
}

#[test]
fn test_format_layer_dest_rect_success() {
    assert_eq!(
        format_layer_dest_rect_success(2000, 100, 200, 1920, 1080),
        "\u{2713} Layer 2000 destination rectangle set to position (100, 200) and size 1920x1080"
    );
    assert_eq!(
        format_layer_dest_rect_success(2001, -50, -100, 800, 600),
        "\u{2713} Layer 2001 destination rectangle set to position (-50, -100) and size 800x600"
    );
}

#[test]
fn test_format_commit_success() {
    assert_eq!(format_commit_success(), "\u{2713} Changes committed");
}
