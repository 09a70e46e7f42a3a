//! Maps a source location onto a stable location under a fixed "corpus"
//! root, and back again.
//!
//! Paths are handled lexically, as sequences of components; the only outside
//! work is turning a possibly relative path into an absolute one, resolving
//! well-known base directories, and (at the caller's choice) asking whether a
//! path exists.
use vstd::prelude::*;

pub mod builder;
pub mod cli;
pub mod corpus;
pub mod input;
pub mod normalize;
pub mod path;
pub mod root;

pub use crate::builder::CorpusBuilder;
pub use crate::cli::{answer, run, CreateAs, Options};
pub use crate::corpus::Corpus;
pub use crate::input::MaybePath;
pub use crate::path::{FsPath, FsPathView};
pub use crate::root::RootLocation;

verus! {

/// What can go wrong while a corpus is configured.
#[derive(Debug, Clone, Copy, PartialEq, Eq, Structural)]
pub enum CorpusError {
    /// The home directory cannot be found.
    NoHomeDir,
    /// The current directory cannot be read.
    InvalidCurrentDir,
}

/// An empty builder.
pub fn builder() -> (r: CorpusBuilder)
    ensures
        r.root_spec() is None,
        r.relative_spec() is None,
        r.name_spec() is None,
        r.extension_spec() is None,
{
    CorpusBuilder::default()
}

} // verus!
