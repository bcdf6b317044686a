use schematic_erc::error::AppError;
use schematic_erc::validators::{
    sanitize_filename, validate_component_count, validate_component_id, validate_coordinate,
    validate_coordinate_strict, validate_file_path_text, validate_json_size,
    validate_project_name, validate_string_length, validate_string_length_range,
    validate_version, validate_wire_count,
};

#[test]
fn test_validate_counts() {
    assert!(validate_component_count(100));
    assert!(!validate_component_count(20000));
    assert!(validate_wire_count(1000));
    assert!(!validate_wire_count(100000));
}

#[test]
fn test_validate_string_length() {
    assert!(validate_string_length("hello", 10));
    assert!(!validate_string_length("", 10));
    assert!(!validate_string_length("x".repeat(20).as_str(), 10));
    assert!(!validate_string_length("null\0byte", 20));
}

#[test]
fn test_validate_json_size() {
    assert!(validate_json_size("{\"test\": \"value\"}"));
    assert!(!validate_json_size(&"x".repeat(11 * 1024 * 1024)));
}

#[test]
fn test_validate_project_name() {
    assert!(validate_project_name("My Project"));
    assert!(validate_project_name("project-123"));
    assert!(validate_project_name("test_project"));
    assert!(!validate_project_name(""));
    assert!(!validate_project_name("project/name"));
}

#[test]
fn test_validate_file_path() {
    assert!(validate_file_path_text("./project.eda"));
    assert!(!validate_file_path_text("../../../etc/passwd"));
    assert!(!validate_file_path_text("path/with/null\0byte"));
    assert!(!validate_file_path_text(""));
    assert!(!validate_file_path_text(&"x".repeat(5000)));
}

#[test]
fn test_validate_coordinate() {
    assert!(validate_coordinate(100));
    assert!(validate_coordinate(-100));
    assert!(!validate_coordinate(60000));
}

#[test]
fn test_security_edge_cases() {
    assert!(!validate_file_path_text("../"));
    assert!(!validate_file_path_text("..\\"));
    assert!(!validate_file_path_text("path/../other"));
    assert!(!validate_file_path_text("path\\..\\other"));

    assert!(!validate_file_path_text("file\0name"));
    assert!(!validate_file_path_text("file\rname"));
    assert!(!validate_file_path_text("file\nname"));

    assert!(!validate_coordinate(100000));
    assert!(!validate_coordinate(-100000));

    assert!(!validate_component_id("comp<script>"));
    assert!(!validate_component_id("comp&lt;script&gt;"));
    assert!(!validate_component_id("comp\0"));
}

#[test]
fn test_validate_version() {
    assert!(validate_version("1.0.0"));
    assert!(validate_version("2.1.3-alpha"));
    assert!(validate_version("1.0.0+build123"));
    assert!(!validate_version("1.0"));
    assert!(!validate_version("v1.0.0"));
}

#[test]
fn test_sanitize_filename() {
    assert_eq!(sanitize_filename("file<name>.txt"), "file_name_.txt");
    assert_eq!(sanitize_filename("file/name"), "file_name");
}

#[test]
fn component_id_accepts_plain_identifiers() {
    assert!(validate_component_id("R1_pull-up"));
    assert!(!validate_component_id(""));
    assert!(!validate_component_id(&"a".repeat(101)));
}

#[test]
fn coordinate_limits_are_inclusive() {
    assert!(validate_coordinate(50000));
    assert!(validate_coordinate(-50000));
    assert!(!validate_coordinate(50001));
    assert!(!validate_coordinate(-50001));
}

#[test]
fn strict_coordinate_reports_invalid_input() {
    assert_eq!(validate_coordinate_strict(10), Ok(()));
    assert_eq!(
        validate_coordinate_strict(70000),
        Err(AppError::InvalidInput("Invalid coordinate value".to_string()))
    );
}

#[test]
fn string_length_range_message_names_bounds() {
    assert_eq!(validate_string_length_range("abc", 1, 100), Ok(()));
    assert_eq!(
        validate_string_length_range("abc", 5, 50),
        Err(AppError::InvalidInput(
            "String length must be between 5 and 50 characters".to_string()
        ))
    );
    assert!(validate_string_length_range("", 0, 10).is_err());
    assert!(validate_string_length_range("a\0b", 1, 10).is_err());
}

#[test]
fn string_length_counts_bytes() {
    assert!(validate_string_length("héllo", 6));
    assert!(!validate_string_length("héllo", 5));
}

#[test]
fn json_size_limit_is_inclusive() {
    assert!(validate_json_size(&"x".repeat(10 * 1024 * 1024)));
    assert!(!validate_json_size(&"x".repeat(10 * 1024 * 1024 + 1)));
}
