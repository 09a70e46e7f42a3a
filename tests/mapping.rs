use corpus::{builder, Corpus, FsPath, MaybePath, RootLocation};

fn corpus(root: &str, anchor: &str, ext: Option<&str>) -> Corpus {
    let b = builder()
        .with_root(RootLocation::from(root))
        .relative_to(FsPath::from(anchor));
    match ext {
        Some(e) => b.with_extension(e).build().unwrap(),
        None => b.build().unwrap(),
    }
}

#[test]
fn forward_mapping_is_deterministic() {
    let c = corpus("/cfg", "/home", Some("toml"));
    let first = c.path(MaybePath::from("/home/a/b"));
    let second = c.path(MaybePath::from("/home/a/b"));
    assert_eq!(first, second);
    assert_eq!(first, FsPath::from("/cfg/a/b.toml"));
}

#[test]
fn anchor_prefix_is_stripped() {
    let c = corpus("/cfg", "/home", None);
    assert_eq!(c.path(MaybePath::from("/home/a/b")), FsPath::from("/cfg/a/b"));
    assert_eq!(c.path(MaybePath::from("/home")), FsPath::from("/cfg"));
}

#[test]
fn no_anchor_match_nests_the_whole_path() {
    let c = corpus("/cfg", "/home", None);
    assert_eq!(c.path(MaybePath::from("/root/x")), FsPath::from("/cfg/root/x"));
    // the prefix is matched by components, not by characters
    assert_eq!(c.path(MaybePath::from("/homer/x")), FsPath::from("/cfg/homer/x"));
}

#[test]
fn input_is_made_lexically_absolute() {
    let c = corpus("/cfg", "/home", None);
    assert_eq!(c.path(MaybePath::from("/home/a/../b/./c")), FsPath::from("/cfg/b/c"));
    assert_eq!(c.path(MaybePath::from("/../home//a/")), FsPath::from("/cfg/a"));
}

#[test]
fn lossless_round_trip() {
    let c = corpus("/cfg", "/home", None);
    let mapped = c.path(MaybePath::from("/home/a/../b/c"));
    assert_eq!(c.get_source_path(mapped), Some(FsPath::from("/home/b/c")));
}

#[test]
fn lossy_round_trip_drops_the_extension() {
    let c = corpus("/cfg", "/home", Some("toml"));
    let mapped = c.path(MaybePath::from("/home/a/b.txt"));
    assert_eq!(mapped, FsPath::from("/cfg/a/b.toml"));
    assert_eq!(c.get_source_path(mapped), Some(FsPath::from("/home/a/b")));
}

#[test]
fn source_path_without_root_match_is_nested() {
    let c = corpus("/cfg", "/home", Some("toml"));
    assert_eq!(
        c.get_source_path(FsPath::from("/other/x.toml")),
        Some(FsPath::from("/home/other/x"))
    );
}

#[test]
fn ancestors_stay_in_the_corpus() {
    let c = corpus("/cfg", "/home", Some("toml"));
    let all = c.ancestors(MaybePath::from("/home/a/b"));
    let expected = vec![
        FsPath::from("/cfg/a/b.toml"),
        FsPath::from("/cfg/a.toml"),
        FsPath::from("/cfg.toml"),
    ];
    assert_eq!(all, expected);
    let root = FsPath::from("/cfg");
    for a in &all {
        assert!(*a == root.with_extension("toml") || a.strip_prefix(&root).is_some());
    }
}

#[test]
fn ancestors_of_a_single_file_corpus() {
    let c = corpus("/cfg", "/home", Some("toml"));
    assert!(c.is_ancestor(&FsPath::from("/cfg.toml")));
    assert!(c.is_ancestor(&FsPath::from("/cfg/x")));
    assert!(!c.is_ancestor(&FsPath::from("/other")));
}

#[test]
fn nearest_is_none_when_nothing_exists() {
    let c = corpus("/cfg", "/home", None);
    assert_eq!(c.find_nearest(MaybePath::from("/home/a/b"), |_: &FsPath| false), None);
}

#[test]
fn nearest_stops_at_the_first_existing() {
    let c = corpus("/usr", "/usr", None);
    let only = FsPath::from("/usr/local/bin");
    let found = c.find_nearest(MaybePath::from("/usr/local/bin/foo"), |p: &FsPath| *p == only);
    assert_eq!(found, Some(FsPath::from("/usr/local/bin")));
}

#[test]
fn nearest_skips_the_extension_qualified_root() {
    let c = corpus("/cfg", "/home", Some("toml"));
    let found = c.find_nearest(MaybePath::from("/home/a"), |p: &FsPath| *p == FsPath::from("/cfg.toml"));
    assert_eq!(found, None);
}

#[test]
fn end_to_end_forward() {
    let c = builder()
        .with_root(RootLocation::from("/home/.config"))
        .relative_to(FsPath::from("/home"))
        .with_name("foo")
        .with_extension("toml")
        .build()
        .unwrap();
    assert_eq!(
        c.path(MaybePath::from("/home/bar/baz.toml")),
        FsPath::from("/home/.config/foo/bar/baz.toml")
    );
}

#[test]
fn end_to_end_inverse() {
    let c = builder()
        .with_root(RootLocation::from("/home/.config"))
        .relative_to(FsPath::from("/home"))
        .with_name("foo")
        .with_extension("toml")
        .build()
        .unwrap();
    assert_eq!(
        c.get_source_path(FsPath::from("/home/.config/foo/bar/baz.toml")),
        Some(FsPath::from("/home/bar/baz"))
    );
}

#[test]
fn new_keeps_its_values() {
    let c = Corpus::new(FsPath::from("/a"), FsPath::from("/b"), Some("x".to_string()));
    assert_eq!(c.root_location, FsPath::from("/a"));
    assert_eq!(c.relative_path, FsPath::from("/b"));
    assert_eq!(c.extension, Some("x".to_string()));
    assert_eq!(c.map_path(&FsPath::from("/b/c")), FsPath::from("/a/c.x"));
}

#[test]
fn root_location_is_made_absolute() {
    let root = RootLocation::from("/a/../b/./c").path().unwrap();
    assert_eq!(root, FsPath::from("/b/c"));
}

#[test]
fn name_that_is_rooted_replaces_the_root() {
    let c = builder()
        .with_root(RootLocation::from("/cfg"))
        .with_name("/elsewhere")
        .build()
        .unwrap();
    assert_eq!(c.root_location, FsPath::from("/elsewhere"));
}

#[test]
fn assemble_joins_the_name_and_defaults_the_anchor() {
    let c = corpus::builder::assemble(
        FsPath::from("/data"),
        Some("app".to_string()),
        None,
        Some("toml".to_string()),
    );
    assert_eq!(c.root_location, FsPath::from("/data/app"));
    assert_eq!(c.relative_path, FsPath::from("/"));
    assert_eq!(c.extension, Some("toml".to_string()));
}

#[test]
fn relative_inputs_resolve_to_rooted_paths() {
    let c = corpus("/", "/", None);
    assert!(c.path(MaybePath::from("some/relative/../path")).is_absolute());
    assert!(c.path(MaybePath::CurrentDir).is_absolute());
    assert!(RootLocation::from("relative-root").path().unwrap().is_absolute());
}

#[test]
fn source_path_under_a_rooted_anchor_is_normalized() {
    let c = corpus("/cfg", "/home", None);
    assert_eq!(
        c.get_source_path(FsPath::from("/cfg/a/../b.txt")),
        Some(FsPath::from("/home/b"))
    );
}
