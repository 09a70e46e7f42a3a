//! What the command-line tool decides: which corpus its options configure,
//! and which path it answers with.
use crate::builder::{assembled_from, text_view};
use crate::corpus::{paths_view, Corpus};
use crate::input::{resolve, resolves, MaybePath};
use crate::normalize::normalize;
use crate::path::{parse_text, same_text, FsPath, FsPathView};
use crate::root::RootLocation;
use crate::{builder, CorpusError};
use vstd::prelude::*;

verus! {

/// How the answer is to be created on disk.
#[derive(Debug, Clone, Copy, PartialEq, Eq, Structural)]
pub enum CreateAs {
    Dir,
    File,
}

impl CreateAs {
    /// Reads `dir` or `file`; any other text is refused with
    /// `Invalid option`.
    pub fn parse(s: &str) -> (r: Result<CreateAs, String>)
        ensures
            s@ == "dir"@ ==> r == Ok::<CreateAs, String>(CreateAs::Dir),
            s@ == "file"@ ==> r == Ok::<CreateAs, String>(CreateAs::File),
            s@ != "dir"@ && s@ != "file"@ ==> (r matches Err(m) && m@ == "Invalid option"@),
    {
        proof {
            reveal_strlit("dir");
            reveal_strlit("file");
            assert("dir"@ != "file"@) by {
                assert("dir"@[0] != "file"@[0]);
            }
        }
        if same_text(s, "dir") {
            Ok(CreateAs::Dir)
        } else if same_text(s, "file") {
            Ok(CreateAs::File)
        } else {
            Err("Invalid option".to_owned())
        }
    }
}

impl std::str::FromStr for CreateAs {
    type Err = String;

    fn from_str(s: &str) -> Result<CreateAs, String> {
        CreateAs::parse(s)
    }
}

/// The options of the command-line tool.
#[derive(Debug)]
pub struct Options {
    /// The source path; the current directory where there is none.
    pub path: Option<FsPath>,
    /// The root location, as text (`xdg-data` and the like, or a path).
    pub kind: String,
    pub ext: Option<String>,
    /// Answer with the nearest ancestor that is there.
    pub nearest: bool,
    pub create: Option<CreateAs>,
    /// Answer with the source path of the corpus path.
    pub source_path: bool,
    pub name: Option<String>,
}

/// The input that the options name.
pub open spec fn input_of(opts: Options) -> MaybePath {
    match opts.path {
        Some(p) => MaybePath::Path(p),
        None => MaybePath::CurrentDir,
    }
}

/// Whether `q` can be the path chosen for the options: the corpus path of
/// the input, or with `nearest` its nearest ancestor that the probe says is
/// there (the empty path where there is none).
pub open spec fn chosen<F: Fn(&FsPath) -> bool>(
    c: Corpus,
    opts: Options,
    probe: F,
    q: FsPathView,
) -> bool {
    exists|n: FsPathView|
        {
            &&& resolves(input_of(opts), n)
            &&& if !opts.nearest {
                q == c.corpus_of(n)
            } else {
                exists|anc: Seq<FsPath>, r: Option<FsPath>|
                    {
                        &&& paths_view(anc) == c.ancestors_of(c.corpus_of(n))
                        &&& #[trigger] c.nearest_spec(anc, probe, r)
                        &&& match r {
                            Some(p) => q == p@,
                            None => q.is_empty(),
                        }
                    }
            }
        }
}

/// The answer for the options from corpus `c`: the chosen path, or with
/// `source_path` the source path of the chosen path (`InvalidCurrentDir`
/// where that cannot be made absolute).
pub open spec fn answers<F: Fn(&FsPath) -> bool>(
    c: Corpus,
    opts: Options,
    probe: F,
    r: Result<FsPath, CorpusError>,
) -> bool {
    if !opts.source_path {
        r matches Ok(q) && chosen(c, opts, probe, q@)
    } else {
        &&& r matches Err(e) ==> e == CorpusError::InvalidCurrentDir
        &&& r matches Ok(q) ==> exists|b: FsPathView|
            #[trigger] chosen(c, opts, probe, b) && (c.relative_path@.absolute ==> q@ == normalize(
                c.source_of(b),
            ))
    }
}

/// The answer for the options from the corpus that they configure.
pub fn answer<F: Fn(&FsPath) -> bool>(c: &Corpus, opts: &Options, probe: F) -> (r: Result<
    FsPath,
    CorpusError,
>)
    requires
        c.wf(),
        forall|p: &FsPath| probe.requires((p,)),
    ensures
        answers(*c, *opts, probe, r),
{
    let input = match &opts.path {
        Some(p) => MaybePath::Path(p.duplicate()),
        None => MaybePath::CurrentDir,
    };
    let ghost n: FsPathView;
    let result = if opts.nearest {
        let source = resolve(&input);
        let all = c.corpus_ancestors(&c.map_path(&source));
        let found = c.nearest_among(&all, probe);
        proof {
            n = source@;
        }
        match found {
            Some(p) => p,
            None => FsPath::empty(),
        }
    } else {
        let source = resolve(&input);
        proof {
            n = source@;
        }
        c.map_path(&source)
    };
    assert(chosen(*c, *opts, probe, result@));
    if opts.source_path {
        match c.get_source_path(result) {
            Some(p) => Ok(p),
            None => Err(CorpusError::InvalidCurrentDir),
        }
    } else {
        Ok(result)
    }
}

/// The absolute root that `kind` names where it follows from the text
/// alone: rooted text that is not one of the base-directory names.
pub open spec fn kind_root(kind: Seq<char>) -> Option<FsPathView> {
    if kind == "xdg-data"@ || kind == "xdg-config"@ || kind == "xdg-cache"@ {
        None
    } else if parse_text(kind).absolute {
        Some(normalize(parse_text(kind)))
    } else {
        None
    }
}

/// Runs the tool's logic: a corpus relative to the home directory, rooted
/// at `kind` with the name and extension given, and the answer from it. It
/// fails with `NoHomeDir` where no home directory can be found, and with
/// `InvalidCurrentDir` where a path cannot be made absolute.
pub fn run<F: Fn(&FsPath) -> bool>(opts: &Options, probe: F) -> (r: Result<FsPath, CorpusError>)
    requires
        opts.ext matches Some(e) ==> !e@.contains('/'),
        forall|p: &FsPath| probe.requires((p,)),
    ensures
        r is Ok ==> exists|c: Corpus, home: FsPathView|
            {
                &&& c.wf()
                &&& #[trigger] assembled_from(
                    c,
                    kind_root(opts.kind@),
                    text_view(opts.name),
                    Some(home),
                    text_view(opts.ext),
                )
                &&& answers(c, *opts, probe, r)
            },
{
    let mut b = match builder().relative_to_home() {
        Ok(b) => b,
        Err(e) => return Err(e),
    };
    let loc = RootLocation::parse(opts.kind.as_str());
    b = b.with_root(loc);
    assert(b.known_root() == kind_root(opts.kind@));
    if let Some(name) = &opts.name {
        b = b.with_name(name.as_str());
    }
    if let Some(ext) = &opts.ext {
        b = b.with_extension(ext.as_str());
    }
    let ghost home = b.relative_spec()->0;
    let corpus = match b.build() {
        Ok(c) => c,
        Err(e) => return Err(e),
    };
    let r = answer(&corpus, opts, probe);
    assert(corpus.wf() && assembled_from(
        corpus,
        kind_root(opts.kind@),
        text_view(opts.name),
        Some(home),
        text_view(opts.ext),
    ) && answers(corpus, *opts, probe, r));
    r
}

} // verus!
