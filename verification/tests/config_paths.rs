use ambient_context::config::{
    config_dir, config_dir_from, config_file_from, config_path, rotated_log_path, default_folder, default_folder_from,
    is_icloud_path, join_path, log_path, pid_path, status_path,
};

#[test]
fn detects_icloud_paths() {
    assert!(is_icloud_path(
        "/Users/x/Library/Mobile Documents/com~apple~CloudDocs/Notes"
    ));
    assert!(!is_icloud_path("/Users/x/Ambient Context"));
}

#[test]
fn icloud_markers_each_detected() {
    assert!(is_icloud_path("/a/Mobile Documents"));
    assert!(is_icloud_path("com~apple~CloudDocs/x"));
    assert!(is_icloud_path("/Volumes/iCloud Drive/notes"));
    assert!(!is_icloud_path("/Users/x/Mobile Document"));
    assert!(!is_icloud_path(""));
}

#[test]
fn join_appends_with_separator() {
    assert_eq!(join_path("/home/a", "b.txt"), "/home/a/b.txt");
    assert_eq!(join_path("/home/a/", "b.txt"), "/home/a/b.txt");
    assert_eq!(join_path("", "b.txt"), "b.txt");
    assert_eq!(join_path("/home/a", "/etc/x"), "/etc/x");
    assert_eq!(join_path(".", "Ambient Context"), "./Ambient Context");
}

#[test]
fn config_dir_is_dot_config_in_home() {
    assert_eq!(
        config_dir_from(Some("/Users/x".to_string())),
        "/Users/x/.config/ambient-context"
    );
    assert_eq!(
        config_dir_from(Some("/home/u/".to_string())),
        "/home/u/.config/ambient-context"
    );
    assert_eq!(config_dir_from(None), "./.config/ambient-context");
}

#[test]
fn config_files_live_in_config_dir() {
    let home = dirs::home_dir()
        .map(|h| h.to_string_lossy().into_owned())
        .unwrap_or_else(|| ".".to_string());
    let dir = config_dir();
    assert_eq!(dir, join_path(&join_path(&home, ".config"), "ambient-context"));
    assert_eq!(config_path(), format!("{dir}/config.toml"));
    assert_eq!(pid_path(), format!("{dir}/daemon.pid"));
    assert_eq!(status_path(), format!("{dir}/status.json"));
    assert_eq!(log_path(), format!("{dir}/daemon.log"));
    assert!(config_path().ends_with("/.config/ambient-context/config.toml"));
}

#[test]
fn default_folder_is_in_home() {
    assert_eq!(
        default_folder_from(Some("/Users/x".to_string())),
        "/Users/x/Ambient Context"
    );
    assert_eq!(default_folder_from(None), "./Ambient Context");
    assert!(default_folder().ends_with("/Ambient Context"));
}

#[test]
fn config_file_for_a_home() {
    assert_eq!(
        config_file_from(Some("/Users/x".to_string()), "config.toml"),
        "/Users/x/.config/ambient-context/config.toml"
    );
    assert_eq!(
        config_file_from(None, "daemon.pid"),
        "./.config/ambient-context/daemon.pid"
    );
}

#[test]
fn rotated_log_beside_log() {
    assert_eq!(rotated_log_path(), format!("{}.1", log_path()));
    assert_eq!(
        std::path::PathBuf::from(log_path()).with_extension("log.1"),
        std::path::PathBuf::from(rotated_log_path())
    );
}
