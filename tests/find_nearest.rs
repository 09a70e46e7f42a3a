use corpus::{builder, FsPath, MaybePath, RootLocation};

fn on_disk(p: &FsPath) -> bool {
    std::path::Path::new(&p.to_text()).exists()
}

#[test]
fn find_nearest_test_with_path() {
    let corpus = builder().build().unwrap();
    let result = corpus.find_nearest(MaybePath::from("/foo"), on_disk);

    assert_eq!(result, Some(FsPath::from("/")));
}

#[test]
fn find_nearest_test_with_root_location() {
    let corpus = builder().with_root(RootLocation::from("/usr")).build().unwrap();
    let result = corpus.find_nearest(MaybePath::from("/usr/local/bin"), on_disk);

    assert_eq!(result, Some(FsPath::from("/usr")));
}

#[test]
fn find_nearest_test_relative_to() {
    let corpus = builder()
        .with_root(RootLocation::from("/usr"))
        .relative_to(FsPath::from("/usr"))
        .build()
        .unwrap();
    let result = corpus.find_nearest(MaybePath::from("/usr/local/bin/foo"), on_disk);

    assert_eq!(result, Some(FsPath::from("/usr/local/bin")));
}

#[test]
fn find_nearest_test_with_name() {
    let corpus = builder()
        .with_root(RootLocation::from("/usr"))
        .relative_to(FsPath::from("/usr"))
        .with_name("local")
        .build()
        .unwrap();
    let result = corpus.find_nearest(MaybePath::from("/usr/local/bin/foo"), on_disk);

    assert_eq!(result, Some(FsPath::from("/usr/local")));
}

#[test]
fn find_nearest_test_with_extension_doesnt_exist() {
    let corpus = builder()
        .with_root(RootLocation::from("/home/.config"))
        .relative_to(FsPath::from("/home"))
        .with_extension("frombly")
        .build()
        .unwrap();
    let result = corpus.find_nearest(MaybePath::from("/home/foo/bar"), on_disk);

    assert_eq!(result, None);
}
