use corpus::{builder, FsPath, RootLocation};

#[test]
fn get_source_path_test_with_extension_doesnt_exist() {
    let corpus = builder()
        .with_root(RootLocation::from("/home/.config"))
        .relative_to(FsPath::from("/home"))
        .with_extension("frombly")
        .build()
        .unwrap();
    let result = corpus.get_source_path(FsPath::from("/home/.config/foo/bar"));

    assert_eq!(result, Some(FsPath::from("/home/foo/bar")));
}
