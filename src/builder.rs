//! Assembles the configuration of a corpus.
use crate::corpus::Corpus;
use crate::normalize::{no_dot_dot, normalize};
use crate::path::{lemma_parse_render, opt_view, parse_text, FsPath, FsPathView};
use crate::root::RootLocation;
use crate::CorpusError;
use vstd::prelude::*;

verus! {

/// Relies on `dirs_next::home_dir`, which reads the environment (and the
/// user database where `HOME` is unset or empty).
#[verifier::external_body]
fn home_dir() -> Option<String> {
    dirs_next::home_dir().map(|p| p.to_string_lossy().into_owned())
}

pub open spec fn text_view(o: Option<String>) -> Option<Seq<char>> {
    match o {
        Some(s) => Some(s@),
        None => None,
    }
}

/// The root directory as a view.
pub open spec fn root_view() -> FsPathView {
    FsPathView { absolute: true, parts: seq![] }
}

/// `base` joined with the name, where there is one.
pub open spec fn named(base: FsPathView, name: Option<Seq<char>>) -> FsPathView {
    match name {
        Some(n) => base.join(parse_text(n)),
        None => base,
    }
}

/// The absolute path of a root location where it follows from the location
/// alone (the root directory where there is none).
pub open spec fn known_root_of(root: Option<RootLocation>) -> Option<FsPathView> {
    match root {
        None => Some(root_view()),
        Some(RootLocation::Raw(t)) => if parse_text(t@).absolute {
            Some(normalize(parse_text(t@)))
        } else {
            None
        },
        Some(_) => None,
    }
}

/// Whether `c` is a corpus assembled from a resolved root `root` (rooted,
/// without `..`; the known root where there is one), the name, the relative
/// path (the root directory by default) and the extension.
pub open spec fn assembled_from(
    c: Corpus,
    known: Option<FsPathView>,
    name: Option<Seq<char>>,
    relative: Option<FsPathView>,
    extension: Option<Seq<char>>,
) -> bool {
    &&& text_view(c.extension) == extension
    &&& c.relative_path@ == match relative {
        Some(p) => p,
        None => root_view(),
    }
    &&& exists|root: FsPathView|
        {
            &&& root.absolute
            &&& no_dot_dot(root)
            &&& known matches Some(b) ==> root == b
            &&& c.root_location@ == #[trigger] named(root, name)
        }
}

/// The corpus made of a resolved root, the name joined to it, the relative
/// path (the root directory where there is none) and the extension.
pub fn assemble(
    root: FsPath,
    name: Option<String>,
    relative: Option<FsPath>,
    extension: Option<String>,
) -> (r: Corpus)
    ensures
        r.root_location@ == named(root@, text_view(name)),
        r.relative_path@ == match opt_view(relative) {
            Some(p) => p,
            None => root_view(),
        },
        r.extension == extension,
{
    let root_location = match name {
        Some(n) => root.join(&FsPath::parse(n.as_str())),
        None => root,
    };
    let relative_path = match relative {
        Some(p) => p,
        None => FsPath::root(),
    };
    Corpus::new(root_location, relative_path, extension)
}

/// Assists in building a [`Corpus`]: the root location (by default the
/// root directory), a name beneath it, the relative path (by default the
/// root directory), and the extension.
pub struct CorpusBuilder {
    root_location: Option<RootLocation>,
    relative_path: Option<FsPath>,
    name: Option<String>,
    extension: Option<String>,
}

impl Default for CorpusBuilder {
    fn default() -> (r: CorpusBuilder)
        ensures
            r.root_spec() is None,
            r.relative_spec() is None,
            r.name_spec() is None,
            r.extension_spec() is None,
    {
        CorpusBuilder { root_location: None, relative_path: None, name: None, extension: None }
    }
}

impl CorpusBuilder {
    #[verifier::type_invariant]
    spec fn inv(self) -> bool {
        match self.extension {
            Some(e) => !e@.contains('/'),
            None => true,
        }
    }

    pub closed spec fn root_spec(&self) -> Option<RootLocation> {
        self.root_location
    }

    pub closed spec fn relative_spec(&self) -> Option<FsPathView> {
        match self.relative_path {
            Some(p) => Some(p@),
            None => None,
        }
    }

    pub closed spec fn name_spec(&self) -> Option<Seq<char>> {
        text_view(self.name)
    }

    pub closed spec fn extension_spec(&self) -> Option<Seq<char>> {
        text_view(self.extension)
    }

    /// The root's absolute path where it follows from the configuration
    /// alone: the default root directory, or a rooted path given as text.
    pub open spec fn known_root(&self) -> Option<FsPathView> {
        known_root_of(self.root_spec())
    }

    /// Sets the relative path: source paths are taken relative to it.
    pub fn relative_to(self, path: FsPath) -> (r: Self)
        ensures
            r.relative_spec() == Some(path@),
            r.root_spec() == self.root_spec(),
            r.name_spec() == self.name_spec(),
            r.extension_spec() == self.extension_spec(),
    {
        proof {
            use_type_invariant(&self);
        }
        CorpusBuilder {
            root_location: self.root_location,
            relative_path: Some(path),
            name: self.name,
            extension: self.extension,
        }
    }

    /// Sets the relative path to the home directory; `NoHomeDir` where it
    /// cannot be found.
    pub fn relative_to_home(self) -> (r: Result<Self, CorpusError>)
        ensures
            r matches Ok(b) ==> {
                &&& b.relative_spec() is Some
                &&& b.root_spec() == self.root_spec()
                &&& b.name_spec() == self.name_spec()
                &&& b.extension_spec() == self.extension_spec()
            },
            r matches Err(e) ==> e == CorpusError::NoHomeDir,
    {
        match home_dir() {
            Some(home) => Ok(self.relative_to(FsPath::parse(home.as_str()))),
            None => Err(CorpusError::NoHomeDir),
        }
    }

    /// Sets the root location: where corpus paths live.
    pub fn with_root(self, root: RootLocation) -> (r: Self)
        ensures
            r.root_spec() == Some(root),
            r.relative_spec() == self.relative_spec(),
            r.name_spec() == self.name_spec(),
            r.extension_spec() == self.extension_spec(),
    {
        proof {
            use_type_invariant(&self);
        }
        CorpusBuilder {
            root_location: Some(root),
            relative_path: self.relative_path,
            name: self.name,
            extension: self.extension,
        }
    }

    /// Sets a name: a path beneath the root under which corpus paths live.
    pub fn with_name(self, name: &str) -> (r: Self)
        ensures
            r.name_spec() == Some(name@),
            r.root_spec() == self.root_spec(),
            r.relative_spec() == self.relative_spec(),
            r.extension_spec() == self.extension_spec(),
    {
        proof {
            use_type_invariant(&self);
        }
        CorpusBuilder {
            root_location: self.root_location,
            relative_path: self.relative_path,
            name: Some(name.to_owned()),
            extension: self.extension,
        }
    }

    /// Sets the extension that corpus paths carry. An extension holds no
    /// separator.
    pub fn with_extension(self, extension: &str) -> (r: Self)
        requires
            !extension@.contains('/'),
        ensures
            r.extension_spec() == Some(extension@),
            r.root_spec() == self.root_spec(),
            r.relative_spec() == self.relative_spec(),
            r.name_spec() == self.name_spec(),
    {
        CorpusBuilder {
            root_location: self.root_location,
            relative_path: self.relative_path,
            name: self.name,
            extension: Some(extension.to_owned()),
        }
    }

    /// Builds the corpus: the root made absolute, with the name joined to it;
    /// the relative path; the extension. A known root (the default, or
    /// rooted text) always builds.
    pub fn build(self) -> (r: Result<Corpus, CorpusError>)
        ensures
            r matches Ok(c) ==> c.wf() && assembled_from(
                c,
                self.known_root(),
                self.name_spec(),
                self.relative_spec(),
                self.extension_spec(),
            ),
            self.known_root() is Some ==> r is Ok,
            !(self.root_spec() matches Some(RootLocation::XDGData) || self.root_spec() matches Some(
                RootLocation::XDGConfig,
            ) || self.root_spec() matches Some(RootLocation::XDGCache)) ==> r != Err::<
                Corpus,
                CorpusError,
            >(CorpusError::NoHomeDir),
    {
        proof {
            use_type_invariant(&self);
        }
        let root = match self.root_location {
            Some(root) => root,
            None => {
                proof {
                    reveal_strlit("/");
                    lemma_parse_render(root_view());
                    assert(crate::path::render(root_view()) =~= "/"@);
                }
                RootLocation::Raw("/".to_owned())
            },
        };
        let root_path = match root.path() {
            Ok(p) => p,
            Err(e) => return Err(e),
        };
        let ghost resolved = root_path@;
        let c = assemble(root_path, self.name, self.relative_path, self.extension);
        assert(c.root_location@ == named(resolved, self.name_spec()));
        Ok(c)
    }
}

} // verus!
