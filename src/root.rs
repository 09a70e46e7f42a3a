//! Where a corpus is rooted: a path given as text, or a well-known base
//! directory.
use crate::normalize::{absolutize, no_dot_dot, normalize};
use crate::path::{parse_text, same_text, FsPath};
use crate::CorpusError;
use etcetera::base_strategy::{BaseStrategy, Xdg};
use vstd::prelude::*;

verus! {

#[verifier::external_type_specification]
#[verifier::external_body]
pub struct ExXdg(Xdg);

/// Relies on etcetera's `Xdg::new`, which fails where the home directory
/// cannot be found. What it finds depends on the environment.
#[verifier::external_body]
fn xdg_strategy() -> Option<Xdg> {
    Xdg::new().ok()
}

/// Relies on etcetera's `BaseStrategy::data_dir` for `Xdg`; it reads the
/// environment.
#[verifier::external_body]
fn xdg_data_dir(x: &Xdg) -> String {
    x.data_dir().to_string_lossy().into_owned()
}

/// Relies on etcetera's `BaseStrategy::config_dir` for `Xdg`; it reads the
/// environment.
#[verifier::external_body]
fn xdg_config_dir(x: &Xdg) -> String {
    x.config_dir().to_string_lossy().into_owned()
}

/// Relies on etcetera's `BaseStrategy::cache_dir` for `Xdg`; it reads the
/// environment.
#[verifier::external_body]
fn xdg_cache_dir(x: &Xdg) -> String {
    x.cache_dir().to_string_lossy().into_owned()
}

/// The available root locations: the XDG data, config and cache
/// directories, or a path given as text.
#[derive(Debug, PartialEq, Eq)]
pub enum RootLocation {
    XDGData,
    XDGConfig,
    XDGCache,
    Raw(String),
}

/// What text `s` reads as: the names `xdg-data`, `xdg-config` and
/// `xdg-cache` stand for those directories, any other text for a path.
pub open spec fn reads_as(s: Seq<char>, r: RootLocation) -> bool {
    if s == "xdg-data"@ {
        r is XDGData
    } else if s == "xdg-config"@ {
        r is XDGConfig
    } else if s == "xdg-cache"@ {
        r is XDGCache
    } else {
        is_raw(r, s)
    }
}

/// Whether `r` is the path given as text `s`.
pub open spec fn is_raw(r: RootLocation, s: Seq<char>) -> bool {
    r matches RootLocation::Raw(t) && t@ == s
}

impl RootLocation {
    /// Reads a root location: the names `xdg-data`, `xdg-config` and
    /// `xdg-cache` stand for those directories, any other text for a path.
    pub fn parse(s: &str) -> (r: RootLocation)
        ensures
            reads_as(s@, r),
    {
        if same_text(s, "xdg-data") {
            RootLocation::XDGData
        } else if same_text(s, "xdg-config") {
            RootLocation::XDGConfig
        } else if same_text(s, "xdg-cache") {
            RootLocation::XDGCache
        } else {
            RootLocation::Raw(s.to_owned())
        }
    }

    /// The absolute path of the root, without `..`. Rooted text always gives
    /// its lexical absolute form; relative text, or a base directory that
    /// comes out relative, fails with `InvalidCurrentDir` where the current
    /// directory cannot be read; a base directory needs the home directory
    /// (`NoHomeDir` where there is none).
    pub fn path(&self) -> (r: Result<FsPath, CorpusError>)
        ensures
            r matches Ok(q) ==> q@.absolute && no_dot_dot(q@),
            self matches RootLocation::Raw(t) ==> (parse_text(t@).absolute ==> (r matches Ok(q)
                && q@ == normalize(parse_text(t@)))),
            self is Raw ==> r != Err::<FsPath, CorpusError>(CorpusError::NoHomeDir),
    {
        let text = match self {
            RootLocation::Raw(t) => t.clone(),
            _ => {
                let strategy = match xdg_strategy() {
                    Some(s) => s,
                    None => return Err(CorpusError::NoHomeDir),
                };
                match self {
                    RootLocation::XDGData => xdg_data_dir(&strategy),
                    RootLocation::XDGConfig => xdg_config_dir(&strategy),
                    _ => xdg_cache_dir(&strategy),
                }
            },
        };
        match absolutize(&FsPath::parse(text.as_str())) {
            Some(p) => Ok(p),
            None => Err(CorpusError::InvalidCurrentDir),
        }
    }
}

impl From<&str> for RootLocation {
    fn from(s: &str) -> RootLocation {
        RootLocation::parse(s)
    }
}

/// Text is equal as characters, not as values: what `from` returns is
/// stated by `RootLocation::parse`.
impl vstd::std_specs::convert::FromSpecImpl<&str> for RootLocation {
    open spec fn obeys_from_spec() -> bool {
        false
    }

    open spec fn from_spec(s: &str) -> RootLocation {
        choose|r: RootLocation| #[trigger] reads_as(s@, r)
    }
}

impl From<String> for RootLocation {
    fn from(s: String) -> RootLocation {
        RootLocation::parse(s.as_str())
    }
}

/// As for `&str`: what `from` returns is stated by `RootLocation::parse`.
impl vstd::std_specs::convert::FromSpecImpl<String> for RootLocation {
    open spec fn obeys_from_spec() -> bool {
        false
    }

    open spec fn from_spec(s: String) -> RootLocation {
        choose|r: RootLocation| #[trigger] reads_as(s@, r)
    }
}

impl From<FsPath> for RootLocation {
    fn from(p: FsPath) -> RootLocation {
        RootLocation::Raw(p.to_text())
    }
}

/// What `from` returns is the path's canonical text, as a path given.
impl vstd::std_specs::convert::FromSpecImpl<FsPath> for RootLocation {
    open spec fn obeys_from_spec() -> bool {
        false
    }

    open spec fn from_spec(p: FsPath) -> RootLocation {
        choose|r: RootLocation| #[trigger] is_raw(r, crate::path::render(p@))
    }
}

} // verus!
