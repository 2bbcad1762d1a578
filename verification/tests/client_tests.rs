//! Client-side data types: error texts, display forms, the default
//! socket path.

use weston_ivi_controller::client::{
    parse_socket_path, IviError, Position, Size, DEFAULT_SOCKET_PATH,
};
use weston_ivi_controller::orientation::Orientation;

#[test]
fn test_default_socket_path() {
    assert_eq!(DEFAULT_SOCKET_PATH, "/tmp/weston-ivi-controller.sock");
}

#[test]
fn test_default_socket_path_constant() {
    assert_eq!(DEFAULT_SOCKET_PATH, "/tmp/weston-ivi-controller.sock");
}

#[test]
fn test_connection_failed_error() {
    let error = IviError::ConnectionFailed("Socket not found".to_string());
    assert_eq!(error.message(), "Connection failed: Socket not found");
}

#[test]
fn test_request_failed_error() {
    let error = IviError::RequestFailed {
        code: -32000,
        message: "Surface not found".to_string(),
    };
    assert_eq!(error.message(), "Request failed (code -32000): Surface not found");
}

#[test]
fn test_serialization_error() {
    let error = IviError::SerializationError("Invalid JSON".to_string());
    assert_eq!(error.message(), "Serialization error: Invalid JSON");
}

#[test]
fn test_deserialization_error() {
    let error = IviError::DeserializationError("Unexpected field".to_string());
    assert_eq!(error.message(), "Deserialization error: Unexpected field");
}

#[test]
fn test_io_error_conversion() {
    let io_error = std::io::Error::new(std::io::ErrorKind::NotFound, "File not found");
    let ivi_error = IviError::IoError(io_error.to_string());
    assert!(matches!(ivi_error, IviError::IoError(_)));
    assert_eq!(ivi_error.message(), "I/O error: File not found");
}

#[test]
fn test_position_display() {
    let pos = Position { x: 100, y: 200 };
    assert_eq!(pos.to_text(), "(100, 200)");
}

#[test]
fn test_size_display() {
    let size = Size { width: 1920, height: 1080 };
    assert_eq!(size.to_text(), "1920x1080");
}

#[test]
fn test_orientation_display() {
    assert_eq!(Orientation::Normal.as_str(), "Normal");
    assert_eq!(Orientation::Rotate90.as_str(), "Rotate90");
    assert_eq!(Orientation::Rotate180.as_str(), "Rotate180");
    assert_eq!(Orientation::Rotate270.as_str(), "Rotate270");
}

#[test]
fn test_orientation_to_string() {
    assert_eq!(Orientation::Normal.as_str(), "Normal");
    assert_eq!(Orientation::Rotate90.as_str(), "Rotate90");
    assert_eq!(Orientation::Rotate180.as_str(), "Rotate180");
    assert_eq!(Orientation::Rotate270.as_str(), "Rotate270");
}

#[test]
fn test_orientation_degrees_round_trip() {
    assert_eq!(Orientation::from_degrees(0).unwrap(), Orientation::Normal);
    assert_eq!(Orientation::from_degrees(90).unwrap(), Orientation::Rotate90);
    assert_eq!(Orientation::from_degrees(450).unwrap(), Orientation::Rotate90);
    assert_eq!(Orientation::from_degrees(-90).unwrap(), Orientation::Rotate270);
    assert!(Orientation::from_degrees(45).is_err());
    assert_eq!(Orientation::Rotate180.to_degrees(), 180);
    assert_eq!(Orientation::from_wl_transform(2), Orientation::Rotate180);
    assert_eq!(Orientation::Rotate270.to_wl_transform(), 3);
}

#[test]
fn test_parse_socket_path_forms() {
    let args = vec!["--socket-path".to_string(), "/run/ivi.sock".to_string()];
    assert_eq!(parse_socket_path(&args), Some("/run/ivi.sock".to_string()));

    let args = vec!["--socket-path=/run/other.sock".to_string()];
    assert_eq!(parse_socket_path(&args), Some("/run/other.sock".to_string()));

    let args = vec!["--verbose".to_string()];
    assert_eq!(parse_socket_path(&args), None);

    let args = vec!["--socket-path".to_string()];
    assert_eq!(parse_socket_path(&args), None);
}
