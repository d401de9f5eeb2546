use skywriter::config::{ClientConfig, Config, Mapping, Mappings, ServerConfig};

fn sample_config() -> Config {
    let files = vec![Mapping::new("local/notes.txt".to_string(), "notes.txt".to_string())];
    let dirs = vec![Mapping::new("local/docs".to_string(), "docs".to_string())];
    let mappings = Mappings::new(files, dirs);
    let client = ClientConfig::new("http://localhost:8000".to_string(), mappings);
    let server = ServerConfig::new(
        "files".to_string(),
        "secret".to_string(),
        vec!["files/private.txt".to_string()],
    );
    Config::new(server, client)
}

#[test]
fn mapping_getters_hand_back_both_sides() {
    let mapping = Mapping::new("local/a.txt".to_string(), "a.txt".to_string());
    assert_eq!(mapping.get_client_path(), "local/a.txt");
    assert_eq!(mapping.get_client_path_str(), "local/a.txt");
    assert_eq!(mapping.get_server_path(), "a.txt");
    assert_eq!(mapping.get_server_path_str(), "a.txt");
}

#[test]
fn config_getters_reach_every_setting() {
    let config = sample_config();
    assert_eq!(config.get_server_config().get_files_root(), "files");
    assert_eq!(config.get_server_config().get_password(), "secret");
    assert_eq!(
        config.get_server_config().get_ignored_paths(),
        &vec!["files/private.txt".to_string()]
    );
    assert_eq!(config.get_client_config().get_server_url(), "http://localhost:8000");
    let mappings = config.get_client_config().get_mappings();
    assert_eq!(mappings.get_file_mappings().len(), 1);
    assert_eq!(mappings.get_dir_mappings().len(), 1);
    assert_eq!(mappings.get_file_mappings()[0].get_server_path_str(), "notes.txt");
    assert_eq!(mappings.get_dir_mappings()[0].get_client_path_str(), "local/docs");
}

#[test]
fn ignored_paths_are_recognised() {
    let config = sample_config();
    assert!(config.get_server_config().is_ignored(&"files/private.txt".to_string()));
    assert!(!config.get_server_config().is_ignored(&"files/public.txt".to_string()));
}
