use corpus::{FsPath, RootLocation};

#[test]
fn test_debug() {
    let root = RootLocation::from("path");
    let debug = format!("{:?}", root);
    assert_eq!(debug, r#"Raw("path")"#);
}

#[test]
fn test_raw_str() {
    let root = RootLocation::from("path");
    assert_eq!(root, RootLocation::Raw("path".into()));
}

#[test]
fn test_raw_string() {
    let root = RootLocation::from(String::from("path"));
    assert_eq!(root, RootLocation::Raw("path".into()));
}

#[test]
fn test_raw_path() {
    let root = RootLocation::from(FsPath::from("path"));
    assert_eq!(root, RootLocation::Raw("path".into()));
}

#[test]
fn test_raw_path_buf() {
    let root = RootLocation::from(FsPath::from(String::from("path").as_str()));
    assert_eq!(root, RootLocation::Raw("path".into()));
}

#[test]
fn root_test_xdg_data() {
    let root = RootLocation::from("xdg-data");
    assert_eq!(root, RootLocation::XDGData);
}

#[test]
fn root_test_xdg_config() {
    let root = RootLocation::from("xdg-config");
    assert_eq!(root, RootLocation::XDGConfig);
}

#[test]
fn root_test_xdg_cache() {
    let root = RootLocation::from("xdg-cache");
    assert_eq!(root, RootLocation::XDGCache);
}

fn under_home(rest: &str) -> FsPath {
    let home = dirs_next::home_dir().unwrap();
    FsPath::from(home.join(rest).to_str().unwrap())
}

#[test]
fn root_path_test_xdg_data() {
    let path = RootLocation::from("xdg-data").path().unwrap();
    assert_eq!(path, under_home(".local/share"));
}

#[test]
fn root_path_test_xdg_config() {
    let path = RootLocation::from("xdg-config").path().unwrap();
    assert_eq!(path, under_home(".config"));
}

#[test]
fn root_path_test_xdg_cache() {
    let path = RootLocation::from("xdg-cache").path().unwrap();
    assert_eq!(path, under_home(".cache"));
}
