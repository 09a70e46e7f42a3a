//! The input of the mapping: a path, or the current directory.
use crate::normalize::{absolutize, no_dot_dot, normalize};
use crate::path::{parse_text, FsPath, FsPathView};
use vstd::prelude::*;

verus! {

/// A path that was given, or the current directory.
#[derive(Debug, PartialEq)]
pub enum MaybePath {
    Path(FsPath),
    CurrentDir,
}

impl MaybePath {
    /// The path given, or the empty relative path for the current directory.
    pub fn given(&self) -> (r: FsPath)
        ensures
            self matches MaybePath::Path(p) ==> r@ == p@,
            self is CurrentDir ==> r@.is_empty(),
    {
        match self {
            MaybePath::Path(p) => p.duplicate(),
            MaybePath::CurrentDir => FsPath::empty(),
        }
    }
}

/// Whether `n` can be what `input` resolves to: a rooted path resolves to
/// its lexical absolute form; a relative one, or the current directory (the
/// empty path), to a rooted path without `..` that depends on the current
/// directory, or to itself where the current directory cannot be read.
pub open spec fn resolves(input: MaybePath, n: FsPathView) -> bool {
    match input {
        MaybePath::Path(p) => if p@.absolute {
            n == normalize(p@)
        } else {
            n == p@ || (n.absolute && no_dot_dot(n))
        },
        MaybePath::CurrentDir => n.is_empty() || (n.absolute && no_dot_dot(n)),
    }
}

/// The absolute form of `input`, falling back to the input itself where the
/// current directory cannot be read.
pub fn resolve(input: &MaybePath) -> (r: FsPath)
    ensures
        resolves(*input, r@),
{
    let given = input.given();
    match absolutize(&given) {
        Some(q) => q,
        None => given,
    }
}

impl From<FsPath> for MaybePath {
    fn from(path: FsPath) -> MaybePath {
        MaybePath::Path(path)
    }
}

impl vstd::std_specs::convert::FromSpecImpl<FsPath> for MaybePath {
    open spec fn obeys_from_spec() -> bool {
        true
    }

    open spec fn from_spec(path: FsPath) -> MaybePath {
        MaybePath::Path(path)
    }
}

impl From<Option<FsPath>> for MaybePath {
    fn from(path: Option<FsPath>) -> MaybePath {
        match path {
            Some(p) => MaybePath::Path(p),
            None => MaybePath::CurrentDir,
        }
    }
}

impl vstd::std_specs::convert::FromSpecImpl<Option<FsPath>> for MaybePath {
    open spec fn obeys_from_spec() -> bool {
        true
    }

    open spec fn from_spec(path: Option<FsPath>) -> MaybePath {
        match path {
            Some(p) => MaybePath::Path(p),
            None => MaybePath::CurrentDir,
        }
    }
}

impl From<&str> for MaybePath {
    fn from(s: &str) -> MaybePath {
        MaybePath::Path(FsPath::parse(s))
    }
}

/// As for `FsPath`: what `from` returns is stated by `FsPath::parse`.
impl vstd::std_specs::convert::FromSpecImpl<&str> for MaybePath {
    open spec fn obeys_from_spec() -> bool {
        false
    }

    open spec fn from_spec(s: &str) -> MaybePath {
        MaybePath::Path(choose|p: FsPath| p@ == parse_text(s@))
    }
}

} // verus!
