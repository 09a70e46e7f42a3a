use corpus::{CorpusBuilder, FsPath, RootLocation};

#[test]
fn test_build_relative_to() {
    let corpus = CorpusBuilder::default()
        .relative_to(FsPath::from("/home"))
        .with_root(RootLocation::from("/config"))
        .with_name("foo")
        .with_extension("txt")
        .build()
        .unwrap();

    assert_eq!(corpus.root_location, FsPath::from("/config/foo"));
    assert_eq!(corpus.relative_path, FsPath::from("/home"));
    assert_eq!(corpus.extension, Some("txt".to_string()));
}

#[test]
fn test_build_relative_to_home() {
    let corpus = CorpusBuilder::default()
        .relative_to_home()
        .unwrap()
        .with_root(RootLocation::from("/config"))
        .with_name("foo")
        .with_extension("txt")
        .build()
        .unwrap();

    let home = dirs_next::home_dir().unwrap();
    assert_eq!(corpus.root_location, FsPath::from("/config/foo"));
    assert_eq!(corpus.relative_path, FsPath::from(home.to_str().unwrap()));
    assert_eq!(corpus.extension, Some("txt".to_string()));
}
