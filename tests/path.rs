use corpus::{builder, FsPath, MaybePath, RootLocation};

#[test]
fn path_test_with_path() {
    let corpus = builder().build().unwrap();
    let result = corpus.path(MaybePath::from("/foo"));

    assert_eq!(result, FsPath::from("/foo"));
}

#[test]
fn path_test_with_root_location() {
    let corpus = builder().with_root(RootLocation::from("/home/.config")).build().unwrap();
    let result = corpus.path(MaybePath::from("/foo/bar"));

    assert_eq!(result, FsPath::from("/home/.config/foo/bar"));
}

#[test]
fn path_test_relative_to() {
    let corpus = builder()
        .with_root(RootLocation::from("/home/.config"))
        .relative_to(FsPath::from("/home"))
        .build()
        .unwrap();
    let result = corpus.path(MaybePath::from("/home/foo/bar"));

    assert_eq!(result, FsPath::from("/home/.config/foo/bar"));
}

#[test]
fn path_test_with_name() {
    let corpus = builder()
        .with_root(RootLocation::from("/home/.config"))
        .relative_to(FsPath::from("/home"))
        .with_name("example")
        .build()
        .unwrap();
    let result = corpus.path(MaybePath::from("/home/foo/bar"));

    assert_eq!(result, FsPath::from("/home/.config/example/foo/bar"));
}

#[test]
fn test_with_extension() {
    let corpus = builder()
        .with_root(RootLocation::from("/home/.config"))
        .relative_to(FsPath::from("/home"))
        .with_extension("txt")
        .build()
        .unwrap();
    let result = corpus.path(MaybePath::from("/home/foo/bar"));

    assert_eq!(result, FsPath::from("/home/.config/foo/bar.txt"));
}
