//! Making paths absolute: the lexical form of a rooted path, and the
//! outside normalizer that also resolves relative paths.
use crate::path::{lemma_parse_render, parse_text, valid_part, FsPath, FsPathView};
use path_absolutize::Absolutize;
use vstd::prelude::*;

verus! {

/// Components with each `..` resolved against the one before it; a `..`
/// with nothing before it is dropped, as `..` at the root stays at the root.
pub open spec fn normalize_parts(parts: Seq<Seq<char>>) -> Seq<Seq<char>>
    decreases parts.len(),
{
    if parts.len() == 0 {
        seq![]
    } else {
        let prev = normalize_parts(parts.drop_last());
        if parts.last() == seq!['.', '.'] {
            if prev.len() > 0 {
                prev.drop_last()
            } else {
                prev
            }
        } else {
            prev.push(parts.last())
        }
    }
}

/// The lexical absolute form of a rooted path.
pub open spec fn normalize(p: FsPathView) -> FsPathView {
    FsPathView { absolute: true, parts: normalize_parts(p.parts) }
}

/// Relies on `path_absolutize::Absolutize::absolutize_from` (path-absolutize
/// 3.1, its Unix implementation) for a rooted path: the tokens start at the
/// root, a `..` pops the token before it unless only the root is left, and
/// the directory passed in is not used. That branch has no error path, so a
/// result always comes back.
#[verifier::external_body]
fn absolutize_rooted(s: &str) -> (r: Option<String>)
    requires
        parse_text(s@).absolute,
    ensures
        r is Some,
        r matches Some(t) ==> parse_text(t@) == normalize(parse_text(s@)),
{
    std::path::Path::new(s).absolutize_from(std::path::Path::new("/")).ok().map(
        |p| p.to_string_lossy().into_owned(),
    )
}

/// Relies on `path_absolutize::Absolutize::absolutize` (path-absolutize 3.1,
/// its Unix implementation) for a relative path: the tokens start with those
/// of the current directory (`std::env::current_dir`, which is `getcwd`: a
/// rooted path without `.` or `..`), and each `..` that follows pops the
/// token before it. It fails where the current directory cannot be read.
#[verifier::external_body]
fn absolutize_text(s: &str) -> (r: Option<String>)
    ensures
        r matches Some(t) ==> parse_text(t@).absolute && no_dot_dot(parse_text(t@)),
{
    std::path::Path::new(s).absolutize().ok().map(|p| p.to_string_lossy().into_owned())
}

/// The absolute form of `p`. A rooted path always comes back, in its lexical
/// absolute form, without reading anything; a relative one is resolved
/// against the current directory, and `None` comes back where that cannot be
/// read.
pub fn absolutize(p: &FsPath) -> (r: Option<FsPath>)
    ensures
        p@.absolute ==> (r matches Some(q) && q@ == normalize(p@)),
        r matches Some(q) ==> q@.absolute && no_dot_dot(q@),
{
    let text = p.to_text();
    proof {
        lemma_parse_render(p@);
        lemma_normalize(p@);
    }
    if p.is_absolute() {
        match absolutize_rooted(text.as_str()) {
            Some(t) => Some(FsPath::parse(t.as_str())),
            None => None,
        }
    } else {
        match absolutize_text(text.as_str()) {
            Some(t) => Some(FsPath::parse(t.as_str())),
            None => None,
        }
    }
}

/// Whether no component of `p` is `..`.
pub open spec fn no_dot_dot(p: FsPathView) -> bool {
    forall|i: int| 0 <= i < p.parts.len() ==> #[trigger] p.parts[i] != seq!['.', '.']
}

/// Resolving `..` keeps components valid and leaves no `..` behind.
pub proof fn lemma_normalize_parts(x: Seq<Seq<char>>)
    requires
        forall|i: int| 0 <= i < x.len() ==> valid_part(#[trigger] x[i]),
    ensures
        forall|i: int|
            0 <= i < normalize_parts(x).len() ==> valid_part(#[trigger] normalize_parts(x)[i])
                && normalize_parts(x)[i] != seq!['.', '.'],
    decreases x.len(),
{
    if x.len() > 0 {
        let dl = x.drop_last();
        assert forall|i: int| 0 <= i < dl.len() implies valid_part(#[trigger] dl[i]) by {
            assert(dl[i] == x[i]);
        }
        lemma_normalize_parts(dl);
        let prev = normalize_parts(dl);
        if x.last() != seq!['.', '.'] {
            assert(valid_part(x.last())) by {
                assert(x.last() == x[x.len() - 1]);
            }
            assert forall|i: int| 0 <= i < prev.push(x.last()).len() implies valid_part(
                #[trigger] prev.push(x.last())[i],
            ) && prev.push(x.last())[i] != seq!['.', '.'] by {
                if i < prev.len() {
                    assert(prev.push(x.last())[i] == prev[i]);
                }
            }
        } else if prev.len() > 0 {
            assert forall|i: int| 0 <= i < prev.drop_last().len() implies valid_part(
                #[trigger] prev.drop_last()[i],
            ) && prev.drop_last()[i] != seq!['.', '.'] by {
                assert(prev.drop_last()[i] == prev[i]);
            }
        }
    }
}

/// The lexical absolute form of a rooted path is well-formed and has no `..`.
pub proof fn lemma_normalize(p: FsPathView)
    requires
        p.wf(),
    ensures
        normalize(p).wf(),
        no_dot_dot(normalize(p)),
{
    lemma_normalize_parts(p.parts);
}

/// Components without `..` are already resolved.
pub proof fn lemma_normalize_parts_noop(x: Seq<Seq<char>>)
    requires
        forall|i: int| 0 <= i < x.len() ==> #[trigger] x[i] != seq!['.', '.'],
    ensures
        normalize_parts(x) == x,
    decreases x.len(),
{
    if x.len() > 0 {
        let dl = x.drop_last();
        assert forall|i: int| 0 <= i < dl.len() implies #[trigger] dl[i] != seq!['.', '.'] by {
            assert(dl[i] == x[i]);
        }
        lemma_normalize_parts_noop(dl);
        assert(x.last() == x[x.len() - 1]);
        assert(dl.push(x.last()) =~= x);
    }
}

/// A rooted path without `..` is its own lexical absolute form.
pub proof fn lemma_normalize_noop(p: FsPathView)
    requires
        p.absolute,
        no_dot_dot(p),
    ensures
        normalize(p) == p,
{
    lemma_normalize_parts_noop(p.parts);
}

} // verus!
