use corpus::{answer, run, CreateAs, CorpusError, FsPath, Options};

#[test]
fn text_round_trips_in_canonical_form() {
    assert_eq!(FsPath::from("//a/./b/").to_text(), "/a/b");
    assert_eq!(FsPath::from("a/b").to_text(), "a/b");
    assert_eq!(FsPath::from("/").to_text(), "/");
    assert_eq!(FsPath::from("").to_text(), "");
    assert_eq!(FsPath::from("./x").to_text(), "x");
    assert_eq!(FsPath::from("a/../b").to_text(), "a/../b");
}

#[test]
fn extension_replacement() {
    assert_eq!(FsPath::from("/a/b.txt").with_extension("toml"), FsPath::from("/a/b.toml"));
    assert_eq!(FsPath::from("/a/b.tar.gz").with_extension(""), FsPath::from("/a/b.tar"));
    assert_eq!(FsPath::from("/a/.bashrc").with_extension("x"), FsPath::from("/a/.bashrc.x"));
    assert_eq!(FsPath::from("/a/b.").with_extension("x"), FsPath::from("/a/b.x"));
    assert_eq!(FsPath::from("/a/..").with_extension("x"), FsPath::from("/a/.."));
    assert_eq!(FsPath::from("/").with_extension("x"), FsPath::from("/"));
    assert_eq!(FsPath::from("/a/..x").with_extension(""), FsPath::from("/a"));
}

#[test]
fn strip_prefix_by_components() {
    let base = FsPath::from("/home");
    assert_eq!(FsPath::from("/home/a").strip_prefix(&base), Some(FsPath::from("a")));
    assert_eq!(FsPath::from("/homer/a").strip_prefix(&base), None);
    assert_eq!(FsPath::from("home/a").strip_prefix(&base), None);
    assert_eq!(FsPath::from("/home").strip_prefix(&base), Some(FsPath::from("")));
    assert_eq!(FsPath::from("/x").strip_prefix(&FsPath::from("")), Some(FsPath::from("/x")));
}

#[test]
fn join_and_nest() {
    let a = FsPath::from("/a");
    assert_eq!(a.join(&FsPath::from("b/c")), FsPath::from("/a/b/c"));
    assert_eq!(a.join(&FsPath::from("/b")), FsPath::from("/b"));
    assert_eq!(a.nest(&FsPath::from("/b")), FsPath::from("/a/b"));
    assert_eq!(FsPath::from("/a/b/c").prefix(1), FsPath::from("/a"));
    assert_eq!(FsPath::from("/a/b/c").len(), 3);
}

#[test]
fn create_as_reads_its_names() {
    assert_eq!(CreateAs::parse("dir"), Ok(CreateAs::Dir));
    assert_eq!(CreateAs::parse("file"), Ok(CreateAs::File));
    assert_eq!(CreateAs::parse("other"), Err("Invalid option".to_string()));
    assert_eq!("dir".parse::<CreateAs>(), Ok(CreateAs::Dir));
}

#[test]
fn error_variants_are_distinct() {
    assert_eq!(format!("{:?}", CorpusError::InvalidCurrentDir), "InvalidCurrentDir");
    assert_ne!(CorpusError::NoHomeDir, CorpusError::InvalidCurrentDir);
}

fn options(path: &str, kind: &str) -> Options {
    Options {
        path: Some(FsPath::from(path)),
        kind: kind.to_string(),
        ext: Some("toml".to_string()),
        nearest: false,
        create: None,
        source_path: false,
        name: Some("app".to_string()),
    }
}

#[test]
fn run_maps_a_path_outside_home_beneath_the_root() {
    let r = run(&options("/nowhere-under-home/x", "/base"), |_: &FsPath| false);
    assert_eq!(r, Ok(FsPath::from("/base/app/nowhere-under-home/x.toml")));
}

#[test]
fn answer_source_path_and_nearest() {
    let c = corpus::builder()
        .with_root(corpus::RootLocation::from("/cfg"))
        .relative_to(FsPath::from("/home"))
        .with_extension("toml")
        .build()
        .unwrap();
    let mut opts = options("/home/a/b.txt", "/cfg");
    opts.name = None;
    opts.source_path = true;
    assert_eq!(answer(&c, &opts, |_: &FsPath| false), Ok(FsPath::from("/home/a/b")));
    opts.source_path = false;
    opts.nearest = true;
    assert_eq!(answer(&c, &opts, |_: &FsPath| false), Ok(FsPath::from("")));
    let hit = FsPath::from("/cfg/a.toml");
    assert_eq!(answer(&c, &opts, |p: &FsPath| *p == hit), Ok(FsPath::from("/cfg/a.toml")));
}
