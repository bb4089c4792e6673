use mcp_manager::device::{
    cached_device_id, create_dir_failure_message, device_id_failure_message, device_id_file_path,
    no_home_message, write_id_failure_message,
};

#[test]
fn cached_identifier_is_trimmed_content() {
    let content = Some(String::from(" abc-123\n"));
    assert_eq!(cached_device_id(&content), Some(String::from("abc-123")));
}

#[test]
fn blank_or_missing_content_yields_none() {
    assert_eq!(cached_device_id(&Some(String::from("  \n"))), None);
    assert_eq!(cached_device_id(&Some(String::from(""))), None);
    assert_eq!(cached_device_id(&None), None);
}

#[test]
fn identifier_file_path_under_home() {
    assert_eq!(device_id_file_path("/home/u"), "/home/u/.notegen/device_id.txt");
    assert_eq!(device_id_file_path(""), ".notegen/device_id.txt");
}

#[test]
fn device_message_builders_exact() {
    assert_eq!(device_id_failure_message("io"), "Failed to get device ID: io");
    assert_eq!(no_home_message(), "Failed to get home directory");
    assert_eq!(create_dir_failure_message("denied"), "Failed to create directory: denied");
    assert_eq!(write_id_failure_message("full"), "Failed to write device ID: full");
}
