use cursor_server::error::Error;
use cursor_server::plugin_data::{data_location, validate_component};

#[test]
fn data_files_live_under_the_plugin_directory() {
    let (directory, file) = data_location("com.example", "state").unwrap();
    assert_eq!(directory, "com.example");
    assert_eq!(file, "state.json");
}

#[test]
fn components_are_short_ascii_names() {
    assert!(validate_component("a", "plugin id").is_ok());
    assert!(validate_component(&"x".repeat(128), "plugin id").is_ok());
    assert!(validate_component(&"x".repeat(129), "plugin id").is_err());
    assert!(validate_component("a/b", "plugin id").is_err());
    assert!(validate_component("é", "plugin id").is_err());
    match validate_component("", "plugin data key") {
        Err(Error::Config(message)) => assert_eq!(message, "invalid plugin data key: "),
        other => panic!("unexpected {other:?}"),
    }
}

#[test]
fn the_plugin_id_is_checked_before_the_key() {
    match data_location("../x", "../y") {
        Err(Error::Config(message)) => assert_eq!(message, "invalid plugin id: ../x"),
        other => panic!("unexpected {other:?}"),
    }
    match data_location("x", "y z") {
        Err(Error::Config(message)) => assert_eq!(message, "invalid plugin data key: y z"),
        other => panic!("unexpected {other:?}"),
    }
}
