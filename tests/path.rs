use config_load::path::FilePath;

fn parts(v: &[&str]) -> Vec<String> {
    v.iter().map(|s| s.to_string()).collect()
}

#[test]
fn join_appends_relative_components() {
    let base = FilePath::new(true, parts(&["home", "u"]));
    let rel = FilePath::new(false, parts(&[".app", "a.toml"]));
    assert_eq!(base.join(&rel).to_text(), "/home/u/.app/a.toml");
}

#[test]
fn join_with_absolute_path_replaces_base() {
    let base = FilePath::new(true, parts(&["home", "u"]));
    let abs = FilePath::new(true, parts(&["etc", "a.toml"]));
    assert_eq!(base.join(&abs).to_text(), "/etc/a.toml");
}

#[test]
fn parent_drops_last_component_and_stops_at_root() {
    let p = FilePath::new(true, parts(&["a", "b"]));
    let up = p.parent().unwrap();
    assert_eq!(up.to_text(), "/a");
    let root = up.parent().unwrap();
    assert_eq!(root.to_text(), "/");
    assert!(root.parent().is_none());
    let rel = FilePath::new(false, parts(&["x"]));
    assert_eq!(rel.parent().unwrap().to_text(), "");
}

#[test]
fn relative_flag_and_text() {
    let rel = FilePath::new(false, parts(&["a", "b"]));
    assert!(rel.is_relative());
    assert_eq!(rel.to_text(), "a/b");
    assert_eq!(rel.duplicate().to_text(), "a/b");
    assert!(!FilePath::new(true, Vec::new()).is_relative());
}
