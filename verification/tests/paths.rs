use elitelm::paths::{config_base_dir, path_for_json, resolve_path};

#[test]
fn config_base_dir_is_the_parent_directory() {
    assert_eq!(config_base_dir("/etc/elitelm/elitelm.yaml"), "/etc/elitelm");
    assert_eq!(config_base_dir("configs/elitelm.yaml"), "configs");
    assert_eq!(config_base_dir("elitelm.yaml"), "");
    assert_eq!(config_base_dir("/"), ".");
}

#[test]
fn relative_paths_are_joined_and_absolute_ones_kept() {
    assert_eq!(resolve_path("/etc/elitelm", "./models/a.gguf".to_string()), "/etc/elitelm/./models/a.gguf");
    assert_eq!(resolve_path("/etc/elitelm", "bundle".to_string()), "/etc/elitelm/bundle");
    assert_eq!(resolve_path("/etc/elitelm", "/opt/model.gguf".to_string()), "/opt/model.gguf");
    assert_eq!(resolve_path("", "bundle".to_string()), "bundle");
}

#[test]
fn json_paths_double_backslashes() {
    assert_eq!(path_for_json(r"C:\models\bundle"), r"C:\\models\\bundle");
    assert_eq!(path_for_json("/plain/path"), "/plain/path");
    assert_eq!(path_for_json(""), "");
}
