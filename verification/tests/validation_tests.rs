//! Validator behavior on accepted and rejected inputs.

use weston_ivi_controller::validation::{
    validate_opacity, validate_orientation, validate_position, validate_size, validate_z_order,
};

#[test]
fn test_validate_position_valid() {
    assert!(validate_position(0, 0).is_ok());
    assert!(validate_position(100, 200).is_ok());
    assert!(validate_position(-100, -200).is_ok());
    assert!(validate_position(1000000, 1000000).is_ok());
}

#[test]
fn test_validate_position_invalid() {
    assert!(validate_position(i32::MAX, 0).is_err());
    assert!(validate_position(0, i32::MAX).is_err());
    assert!(validate_position(i32::MIN, 0).is_err());
    assert!(validate_position(0, i32::MIN).is_err());
}

#[test]
fn test_validate_size_valid() {
    assert!(validate_size(1, 1).is_ok());
    assert!(validate_size(100, 200).is_ok());
    assert!(validate_size(1920, 1080).is_ok());
}

#[test]
fn test_validate_size_invalid() {
    assert!(validate_size(0, 100).is_err());
    assert!(validate_size(100, 0).is_err());
    assert!(validate_size(-1, 100).is_err());
    assert!(validate_size(100, -1).is_err());
    assert!(validate_size(0, 0).is_err());
}

#[test]
fn validation_test_validate_opacity_valid() {
    // Opacity travels as micro-units: 0.0, 0.5 and 1.0 of the original
    // reading.
    assert!(validate_opacity(0).is_ok());
    assert!(validate_opacity(500000).is_ok());
    assert!(validate_opacity(1000000).is_ok());
}

#[test]
fn validation_test_validate_opacity_invalid() {
    // -0.1 and 1.1 in micro-units; NaN cannot exist on this path.
    assert!(validate_opacity(-100000).is_err());
    assert!(validate_opacity(1100000).is_err());
}

#[test]
fn test_validate_orientation_valid() {
    assert!(validate_orientation(0).is_ok());
    assert!(validate_orientation(90).is_ok());
    assert!(validate_orientation(180).is_ok());
    assert!(validate_orientation(270).is_ok());
    assert!(validate_orientation(360).is_ok());
    assert!(validate_orientation(-90).is_ok());
}

#[test]
fn test_validate_orientation_invalid() {
    assert!(validate_orientation(45).is_err());
    assert!(validate_orientation(91).is_err());
    assert!(validate_orientation(1).is_err());
    assert!(validate_orientation(89).is_err());
}

#[test]
fn test_validate_z_order_valid() {
    assert!(validate_z_order(0, 0, 10).is_ok());
    assert!(validate_z_order(5, 0, 10).is_ok());
    assert!(validate_z_order(10, 0, 10).is_ok());
}

#[test]
fn test_validate_z_order_invalid() {
    assert!(validate_z_order(-1, 0, 10).is_err());
    assert!(validate_z_order(11, 0, 10).is_err());
}

#[test]
fn test_validation_messages() {
    assert_eq!(
        validate_size(0, 100).unwrap_err().message(),
        "Invalid size: width = 0, must be positive non-zero"
    );
    assert_eq!(
        validate_opacity(1500000).unwrap_err().message(),
        "Invalid opacity: 1.500000, must be in range [0.0, 1.0]"
    );
    assert_eq!(
        validate_z_order(1001, 0, 1000).unwrap_err().message(),
        "Invalid z-order: 1001, must be in range [0, 1000]"
    );
    assert_eq!(
        validate_orientation(45).unwrap_err().message(),
        "Invalid orientation: 45 degrees, must be a multiple of 90 (0, 90, 180, or 270)"
    );
}
