use corpus::{FsPath, MaybePath};

#[test]
fn test_from_str() {
    let path = MaybePath::from("path");
    assert_eq!(path, MaybePath::Path(FsPath::from("path")));
}

#[test]
fn test_from_path() {
    let path = MaybePath::from(FsPath::from("path"));
    assert_eq!(path, MaybePath::Path(FsPath::from("path")));
}

#[test]
fn test_from_option_path() {
    let path = MaybePath::from(Some(FsPath::from("path")));
    assert_eq!(path, MaybePath::Path(FsPath::from("path")));
}

#[test]
fn test_from_option_none() {
    let path = MaybePath::from(None);
    assert_eq!(path, MaybePath::CurrentDir);
}
