use cursor_server::error::Error;
use cursor_server::manifest::{
    is_safe_relative_path, required, validate_asset_path, validate_entry_path, validate_id,
    validate_network_host, FileFacts, ManifestFiles, PluginManifest, PluginPermissions,
    PLUGIN_API_VERSION,
};

fn present() -> FileFacts {
    FileFacts {
        is_file: true,
        within_directory: Ok(true),
    }
}

fn files() -> ManifestFiles {
    ManifestFiles {
        entry: present(),
        icon: present(),
    }
}

fn manifest() -> PluginManifest {
    PluginManifest {
        api_version: PLUGIN_API_VERSION,
        id: "com.example.tool".to_string(),
        name: "Example".to_string(),
        author: None,
        icon: "assets/icon.svg".to_string(),
        entry: "main.ts".to_string(),
        permissions: PluginPermissions {
            network: vec!["api.example.com".to_string()],
        },
    }
}

fn config_message(result: Result<(), Error>) -> String {
    match result {
        Err(Error::Config(message)) => message,
        other => panic!("expected a configuration error, got {other:?}"),
    }
}

#[test]
fn rejects_urls_in_network_host_allowlist() {
    assert!(validate_network_host("https://example.com").is_err());
    assert!(validate_network_host("example.com:443").is_err());
    assert!(validate_network_host("example.com").is_ok());
}

#[test]
fn network_hosts_must_read_back_as_themselves() {
    assert_eq!(
        config_message(validate_network_host(".example.com")),
        "invalid plugin network host: .example.com"
    );
    assert_eq!(
        config_message(validate_network_host("")),
        "invalid plugin network host: "
    );
    assert_eq!(
        config_message(validate_network_host("Example.com")),
        "invalid plugin network host: Example.com"
    );
    assert!(validate_network_host("localhost").is_ok());
}

#[test]
fn plugin_ids_are_dotted_lower_case_runs() {
    assert!(validate_id("com.example.tool", "plugin id").is_ok());
    assert!(validate_id("a-b_c.d9", "plugin id").is_ok());
    assert_eq!(
        config_message(validate_id("Com.example", "plugin id")),
        "invalid plugin id: Com.example"
    );
    assert!(validate_id("a..b", "plugin id").is_err());
    assert!(validate_id("-a", "plugin id").is_err());
    assert!(validate_id("a-", "plugin id").is_err());
    assert!(validate_id("", "plugin id").is_err());
}

#[test]
fn required_labels_are_trimmed() {
    assert_eq!(required("  Example \n", "plugin name").unwrap(), "Example");
    match required(" \t ", "plugin name") {
        Err(Error::Config(message)) => assert_eq!(message, "plugin name is required"),
        other => panic!("unexpected {other:?}"),
    }
}

#[test]
fn safe_relative_paths_stay_in_their_directory() {
    assert!(is_safe_relative_path("assets/icon.svg"));
    assert!(is_safe_relative_path("./main.ts"));
    assert!(is_safe_relative_path("main.ts"));
    assert!(!is_safe_relative_path("/etc/passwd"));
    assert!(!is_safe_relative_path("../main.ts"));
    assert!(!is_safe_relative_path("assets/../../main.ts"));
    assert!(!is_safe_relative_path("assets/.."));
}

#[test]
fn valid_manifest_passes() {
    assert!(manifest().validate(&files()).is_ok());
}

#[test]
fn manifest_checks_report_the_first_problem() {
    let mut m = manifest();
    m.api_version = 2;
    m.id = "Bad Id".to_string();
    assert_eq!(
        config_message(m.validate(&files())),
        "plugin 'Bad Id' uses unsupported API version 2"
    );

    let mut m = manifest();
    m.id = "Bad Id".to_string();
    assert_eq!(config_message(m.validate(&files())), "invalid plugin id: Bad Id");

    let mut m = manifest();
    m.name = "   ".to_string();
    assert_eq!(config_message(m.validate(&files())), "plugin name is required");

    let mut m = manifest();
    m.permissions.network = vec!["api.example.com".to_string(), "api.example.com".to_string()];
    assert_eq!(
        config_message(m.validate(&files())),
        "plugin 'com.example.tool' contains duplicate network host 'api.example.com'"
    );

    let mut m = manifest();
    m.permissions.network = vec!["api.example.com".to_string(), "API.example.com".to_string()];
    assert_eq!(
        config_message(m.validate(&files())),
        "invalid plugin network host: API.example.com"
    );
}

#[test]
fn entry_paths_are_checked_in_order() {
    assert_eq!(
        config_message(validate_entry_path("../main.ts", &present())),
        "invalid plugin entry path: ../main.ts"
    );
    assert_eq!(
        config_message(validate_entry_path("/srv/main.ts", &present())),
        "invalid plugin entry path: /srv/main.ts"
    );
    assert_eq!(
        config_message(validate_entry_path("main.PY", &present())),
        "unsupported plugin entry format: main.PY"
    );
    assert_eq!(
        config_message(validate_entry_path(".ts", &present())),
        "unsupported plugin entry format: .ts"
    );
    assert!(validate_entry_path("main.MTS", &present()).is_ok());
    assert!(validate_entry_path("src/main.js", &present()).is_ok());
    let mut missing = present();
    missing.is_file = false;
    assert_eq!(
        config_message(validate_entry_path("main.MTS", &missing)),
        "plugin entry does not exist: main.MTS"
    );
    let mut escaping = present();
    escaping.within_directory = Ok(false);
    assert_eq!(
        config_message(validate_entry_path("link.js", &escaping)),
        "plugin entry escapes its directory: link.js"
    );
    escaping.within_directory = Err("permission denied".to_string());
    match validate_entry_path("link.js", &escaping) {
        Err(Error::Io(message)) => assert_eq!(message, "permission denied"),
        other => panic!("unexpected {other:?}"),
    }
}

#[test]
fn icon_paths_are_checked_in_order() {
    assert!(validate_asset_path("icon.svg", &present()).is_ok());
    assert!(validate_asset_path("assets/icon.PNG", &present()).is_ok());
    assert_eq!(
        config_message(validate_asset_path("icon", &present())),
        "unsupported plugin icon format: icon"
    );
    let mut missing = present();
    missing.is_file = false;
    assert_eq!(
        config_message(validate_asset_path("icon.webp", &missing)),
        "plugin icon does not exist: icon.webp"
    );
    assert_eq!(
        config_message(validate_asset_path("/icon.webp", &missing)),
        "invalid plugin asset path: /icon.webp"
    );
    assert_eq!(
        config_message(validate_asset_path("assets/../../icon.svg", &present())),
        "invalid plugin asset path: assets/../../icon.svg"
    );
}

#[test]
fn manifest_paths_are_read_from_their_text() {
    let mut m = manifest();
    m.entry = "../escape.ts".to_string();
    assert_eq!(
        config_message(m.validate(&files())),
        "invalid plugin entry path: ../escape.ts"
    );
    let mut m = manifest();
    m.icon = "icon.gif".to_string();
    assert_eq!(
        config_message(m.validate(&files())),
        "unsupported plugin icon format: icon.gif"
    );
}
