//! The mapping between source paths and corpus paths.
use crate::input::{resolve, resolves, MaybePath};
use crate::normalize::{absolutize, lemma_normalize, lemma_normalize_noop, no_dot_dot, normalize};
use crate::path::{
    file_stem, lemma_stem_nonempty, lemma_stem_with_ext, valid_part, with_ext, FsPath, FsPathView,
};
use vstd::prelude::*;

verus! {

/// A corpus: where its paths live (`root_location`), the source-side path
/// that source paths are taken relative to (`relative_path`), and the
/// extension that corpus paths carry, if any.
#[derive(Debug)]
pub struct Corpus {
    pub root_location: FsPath,
    pub relative_path: FsPath,
    pub extension: Option<String>,
}

pub open spec fn paths_view(v: Seq<FsPath>) -> Seq<FsPathView> {
    v.map_values(|p: FsPath| p@)
}

impl Corpus {
    /// An extension holds no separator.
    pub open spec fn wf(&self) -> bool {
        match self.extension {
            Some(e) => !e@.contains('/'),
            None => true,
        }
    }

    /// `p` with the corpus extension, where there is one.
    pub open spec fn apply_ext(&self, p: FsPathView) -> FsPathView {
        match self.extension {
            Some(e) => p.with_extension(e@),
            None => p,
        }
    }

    /// What of `n` goes beneath the root: what follows the relative path, or
    /// all of `n` where it does not start with the relative path.
    pub open spec fn suffix(&self, n: FsPathView) -> FsPathView {
        match n.strip_prefix(self.relative_path@) {
            Some(rest) => rest,
            None => n,
        }
    }

    /// The corpus path of an absolute source path `n`.
    pub open spec fn corpus_of(&self, n: FsPathView) -> FsPathView {
        self.apply_ext(self.root_location@.nest(self.suffix(n)))
    }

    /// The source path of a corpus path `c`, before it is made absolute: what
    /// follows the root (or all of `c`) beneath the relative path, without
    /// its extension.
    pub open spec fn source_of(&self, c: FsPathView) -> FsPathView {
        let rest = match c.strip_prefix(self.root_location@) {
            Some(r) => r,
            None => c,
        };
        self.relative_path@.nest(rest).with_extension(seq![])
    }

    /// Whether `p` starts with the root.
    pub open spec fn within_root(&self, p: FsPathView) -> bool {
        p.strip_prefix(self.root_location@) is Some
    }

    /// Whether `p` belongs to the corpus: it starts with the root, or it is
    /// the root with the corpus extension (a corpus held in one file).
    pub open spec fn in_corpus(&self, p: FsPathView) -> bool {
        ||| self.within_root(p)
        ||| match self.extension {
            Some(e) => self.root_location@.with_extension(e@) == p,
            None => false,
        }
    }

    /// The prefixes of `c` with `k` components and fewer, longest first, that
    /// belong to the corpus, each with the corpus extension.
    pub open spec fn ancestors_from(&self, c: FsPathView, k: int) -> Seq<FsPathView>
        decreases k + 1,
    {
        if k < 0 {
            seq![]
        } else {
            let rest = self.ancestors_from(c, k - 1);
            if self.in_corpus(c.prefix(k)) {
                seq![self.apply_ext(c.prefix(k))] + rest
            } else {
                rest
            }
        }
    }

    /// The ancestors of the corpus path `c` (itself included) that belong to
    /// the corpus, longest first, each with the corpus extension.
    pub open spec fn ancestors_of(&self, c: FsPathView) -> Seq<FsPathView> {
        self.ancestors_from(c, c.parts.len() as int)
    }

    /// `r` is the first of `anc` that starts with the root and for which
    /// `probe` answered yes, every such path before it having been answered
    /// no; or `None`, every such path having been answered no.
    pub open spec fn nearest_spec<F: Fn(&FsPath) -> bool>(
        &self,
        anc: Seq<FsPath>,
        probe: F,
        r: Option<FsPath>,
    ) -> bool {
        match r {
            None => forall|i: int|
                0 <= i < anc.len() && self.within_root(#[trigger] anc[i]@) ==> call_ensures(
                    probe,
                    (&anc[i],),
                    false,
                ),
            Some(q) => exists|i: int|
                {
                    &&& 0 <= i < anc.len()
                    &&& self.within_root(#[trigger] anc[i]@)
                    &&& q@ == anc[i]@
                    &&& call_ensures(probe, (&anc[i],), true)
                    &&& forall|j: int|
                        0 <= j < i && self.within_root(#[trigger] anc[j]@) ==> call_ensures(
                            probe,
                            (&anc[j],),
                            false,
                        )
                },
        }
    }

    /// Constructs a corpus from its three values.
    pub fn new(root_location: FsPath, relative_path: FsPath, extension: Option<String>) -> (r:
        Corpus)
        ensures
            r.root_location@ == root_location@,
            r.relative_path@ == relative_path@,
            r.extension == extension,
    {
        Corpus { root_location, relative_path, extension }
    }

    fn apply_extension(&self, p: FsPath) -> (r: FsPath)
        requires
            self.wf(),
        ensures
            r@ == self.apply_ext(p@),
    {
        match &self.extension {
            Some(e) => p.with_extension(e.as_str()),
            None => p,
        }
    }

    /// The corpus path of `source`, an already absolute source path.
    pub fn map_path(&self, source: &FsPath) -> (r: FsPath)
        requires
            self.wf(),
        ensures
            r@ == self.corpus_of(source@),
    {
        let rest = match source.strip_prefix(&self.relative_path) {
            Some(rest) => rest,
            None => source.duplicate(),
        };
        self.apply_extension(self.root_location.nest(&rest))
    }

    /// The corpus path of `input`, once made absolute: a rooted input in its
    /// lexical absolute form; a relative one, or the current directory,
    /// resolved against the current directory (used as it is where that
    /// cannot be read).
    pub fn path(&self, input: MaybePath) -> (r: FsPath)
        requires
            self.wf(),
        ensures
            exists|n: FsPathView| resolves(input, n) && r@ == self.corpus_of(n),
    {
        let source = resolve(&input);
        self.map_path(&source)
    }

    /// Whether `path` belongs to the corpus: it starts with the root, or it
    /// is the root with the corpus extension.
    pub fn is_ancestor(&self, path: &FsPath) -> (r: bool)
        requires
            self.wf(),
        ensures
            r == self.in_corpus(path@),
    {
        if let Some(e) = &self.extension {
            if self.root_location.with_extension(e.as_str()) == *path {
                return true;
            }
        }
        path.strip_prefix(&self.root_location).is_some()
    }

    /// The ancestors of the corpus path `c` (itself included) that belong to
    /// the corpus, longest first, each with the corpus extension.
    pub fn corpus_ancestors(&self, c: &FsPath) -> (r: Vec<FsPath>)
        requires
            self.wf(),
        ensures
            paths_view(r@) == self.ancestors_of(c@),
    {
        let n = c.len();
        let mut out: Vec<FsPath> = Vec::new();
        let mut i: usize = 0;
        while i < n
            invariant
                n == c@.parts.len(),
                i <= n,
                self.wf(),
                self.ancestors_of(c@) == paths_view(out@) + self.ancestors_from(
                    c@,
                    n - i,
                ),
            decreases n - i,
        {
            let p = c.prefix(n - i);
            let ghost before = out@;
            if self.is_ancestor(&p) {
                let q = self.apply_extension(p);
                out.push(q);
                assert(paths_view(out@) =~= paths_view(before).push(q@));
            }
            assert(paths_view(out@) + self.ancestors_from(c@, n - i - 1) =~= paths_view(before)
                + self.ancestors_from(c@, (n - i) as int));
            i = i + 1;
        }
        let p = c.prefix(0);
        let ghost before = out@;
        if self.is_ancestor(&p) {
            let q = self.apply_extension(p);
            out.push(q);
            assert(paths_view(out@) =~= paths_view(before).push(q@));
        }
        assert(self.ancestors_from(c@, -1) =~= Seq::<FsPathView>::empty());
        assert(paths_view(out@) =~= paths_view(before) + self.ancestors_from(c@, 0));
        out
    }

    /// The ancestors of the corpus path of `input` (itself included) that
    /// belong to the corpus, longest first, each with the corpus extension.
    pub fn ancestors(&self, input: MaybePath) -> (r: Vec<FsPath>)
        requires
            self.wf(),
        ensures
            exists|n: FsPathView|
                resolves(input, n) && paths_view(r@) == self.ancestors_of(self.corpus_of(n)),
    {
        let source = resolve(&input);
        let c = self.map_path(&source);
        self.corpus_ancestors(&c)
    }

    /// The first of `ancestors` that starts with the root and that `probe`
    /// says is there, asking in order and stopping at the first yes.
    pub fn nearest_among<F: Fn(&FsPath) -> bool>(&self, ancestors: &Vec<FsPath>, probe: F) -> (r:
        Option<FsPath>)
        requires
            forall|p: &FsPath| probe.requires((p,)),
        ensures
            self.nearest_spec(ancestors@, probe, r),
    {
        let mut i: usize = 0;
        while i < ancestors.len()
            invariant
                i <= ancestors@.len(),
                forall|p: &FsPath| probe.requires((p,)),
                forall|j: int|
                    0 <= j < i && self.within_root(#[trigger] ancestors@[j]@) ==> call_ensures(
                        probe,
                        (&ancestors@[j],),
                        false,
                    ),
            decreases ancestors@.len() - i,
        {
            let a = &ancestors[i];
            if a.strip_prefix(&self.root_location).is_some() {
                if probe(a) {
                    let r = Some(a.duplicate());
                    assert(self.within_root(ancestors@[i as int]@));
                    return r;
                }
            }
            i = i + 1;
        }
        None
    }

    /// The nearest ancestor of the corpus path of `input` that starts with
    /// the root and that `probe` says is there.
    pub fn find_nearest<F: Fn(&FsPath) -> bool>(&self, input: MaybePath, probe: F) -> (r: Option<
        FsPath,
    >)
        requires
            self.wf(),
            forall|p: &FsPath| probe.requires((p,)),
        ensures
            exists|n: FsPathView, anc: Seq<FsPath>|
                {
                    &&& resolves(input, n)
                    &&& paths_view(anc) == self.ancestors_of(self.corpus_of(n))
                    &&& self.nearest_spec(anc, probe, r)
                },
    {
        let source = resolve(&input);
        let c = self.map_path(&source);
        let all = self.corpus_ancestors(&c);
        let r = self.nearest_among(&all, probe);
        assert(resolves(input, source@) && paths_view(all@) == self.ancestors_of(
            self.corpus_of(source@),
        ) && self.nearest_spec(all@, probe, r));
        r
    }

    /// The source path that the corpus path `path` stands for: what follows
    /// the root (or all of `path`) beneath the relative path, without its
    /// extension, made absolute. Under a rooted relative path it always comes
    /// back; otherwise `None` comes back where the current directory cannot
    /// be read.
    pub fn get_source_path(&self, path: FsPath) -> (r: Option<FsPath>)
        ensures
            self.relative_path@.absolute ==> (r matches Some(q) && q@ == normalize(
                self.source_of(path@),
            )),
            r matches Some(q) ==> q@.absolute && no_dot_dot(q@),
    {
        let rest = match path.strip_prefix(&self.root_location) {
            Some(rest) => rest,
            None => path,
        };
        proof {
            reveal_strlit("");
        }
        let joined = self.relative_path.nest(&rest).with_extension("");
        absolutize(&joined)
    }
}

/// A rooted source path maps to one corpus path, however often it is asked
/// for: the corpus path of its lexical absolute form, which depends on
/// nothing outside the corpus and the input.
pub proof fn lemma_path_deterministic(c: Corpus, p: FsPath, r1: FsPathView, r2: FsPathView)
    requires
        p@.absolute,
        exists|n: FsPathView| resolves(MaybePath::Path(p), n) && r1 == c.corpus_of(n),
        exists|n: FsPathView| resolves(MaybePath::Path(p), n) && r2 == c.corpus_of(n),
    ensures
        r1 == r2,
        r1 == c.corpus_of(normalize(p@)),
{
}

/// A rooted source path that (once absolute) starts with the relative path
/// maps to the root joined with what follows the relative path, the
/// extension aside.
pub proof fn lemma_anchor_prefix(c: Corpus, p: FsPath, r: FsPathView, rest: FsPathView)
    requires
        c.relative_path@.absolute,
        p@.absolute,
        exists|n: FsPathView| resolves(MaybePath::Path(p), n) && r == c.corpus_of(n),
        normalize(p@).strip_prefix(c.relative_path@) == Some(rest),
    ensures
        r == c.apply_ext(c.root_location@.join(rest)),
{
}

/// A rooted source path that (once absolute) does not start with the
/// relative path is placed, all of it, beneath the root, the extension aside.
pub proof fn lemma_no_anchor_match(c: Corpus, p: FsPath, r: FsPathView)
    requires
        p@.absolute,
        exists|n: FsPathView| resolves(MaybePath::Path(p), n) && r == c.corpus_of(n),
        normalize(p@).strip_prefix(c.relative_path@) is None,
    ensures
        r == c.apply_ext(c.root_location@.nest(normalize(p@))),
{
}

/// Components placed beneath the root are what follows the root.
proof fn lemma_strip_nested(root: FsPathView, rest: Seq<Seq<char>>)
    ensures
        root.nest(FsPathView { absolute: false, parts: rest }).strip_prefix(root) == Some(
            FsPathView { absolute: false, parts: rest },
        ),
{
    let m = root.nest(FsPathView { absolute: false, parts: rest });
    if !root.is_empty() {
        assert(root.parts.is_prefix_of(m.parts)) by {
            assert(m.parts.subrange(0, root.parts.len() as int) =~= root.parts);
        }
        assert(m.parts.skip(root.parts.len() as int) =~= rest);
    }
}

proof fn lemma_lossless_view(c: Corpus, p: FsPathView)
    requires
        c.extension is None,
        c.relative_path@.absolute,
        p.absolute,
        p.wf(),
        normalize(p).strip_prefix(c.relative_path@) is Some,
        normalize(p).with_extension(seq![]) == normalize(p),
    ensures
        normalize(c.source_of(c.corpus_of(normalize(p)))) == normalize(p),
{
    let n = normalize(p);
    let a = c.relative_path@;
    lemma_normalize(p);
    let rest = n.parts.skip(a.parts.len() as int);
    assert(c.suffix(n) == FsPathView { absolute: false, parts: rest });
    lemma_strip_nested(c.root_location@, rest);
    assert(a.nest(FsPathView { absolute: false, parts: rest }) == n) by {
        assert(a.parts + rest =~= n.parts);
    }
    lemma_normalize_noop(n);
}

proof fn lemma_lossy_view(c: Corpus, p: FsPathView, e: String)
    requires
        c.extension == Some(e),
        e@.len() > 0,
        !e@.contains('.'),
        !e@.contains('/'),
        c.relative_path@.absolute,
        p.absolute,
        p.wf(),
        normalize(p).strip_prefix(c.relative_path@) matches Some(rest) && rest.parts.len() > 0,
        no_dot_dot(normalize(p).with_extension(seq![])),
    ensures
        normalize(c.source_of(c.corpus_of(normalize(p)))) == normalize(p).with_extension(seq![]),
{
    let n = normalize(p);
    let a = c.relative_path@;
    let root = c.root_location@;
    lemma_normalize(p);
    let rest = n.parts.skip(a.parts.len() as int);
    assert(c.suffix(n) == FsPathView { absolute: false, parts: rest });
    let m = root.nest(FsPathView { absolute: false, parts: rest });
    let name = n.parts.last();
    assert(m.parts.last() == name);
    assert(valid_part(name) && name != seq!['.', '.']) by {
        assert(name == n.parts[n.parts.len() - 1]);
    }
    let stem = file_stem(name);
    lemma_stem_nonempty(name);
    lemma_stem_with_ext(stem, e@);
    let w = stem + seq!['.'] + e@;
    assert(w.len() >= 3);
    assert(w != seq!['.'] && w != seq!['.', '.']) by {
        assert(seq!['.'].len() == 1);
        assert(seq!['.', '.'].len() == 2);
    }
    let rest2 = rest.drop_last().push(w);
    let corpus = c.corpus_of(n);
    assert(corpus == root.nest(FsPathView { absolute: false, parts: rest2 })) by {
        assert(m.parts.drop_last().push(w) =~= root.parts + rest2);
    }
    lemma_strip_nested(root, rest2);
    let back = a.nest(FsPathView { absolute: false, parts: rest2 });
    assert(back.parts =~= n.parts.drop_last().push(w)) by {
        assert(a.parts + rest =~= n.parts);
    }
    assert(back.parts.last() == w);
    assert(back.parts.drop_last() =~= n.parts.drop_last());
    assert(back.with_extension(seq![]) == n.with_extension(seq![])) by {
        assert(with_ext(stem, seq![]) == stem);
    }
    lemma_normalize_noop(n.with_extension(seq![]));
}

/// Under the conditions of the ancestor laws, a path that belongs to the
/// corpus still does once the corpus extension is applied.
proof fn lemma_ancestor_elem(c: Corpus, p: FsPathView)
    requires
        c.extension matches Some(e) ==> (e@.len() > 0 && !e@.contains('.') && !e@.contains('/')),
        c.root_location@.wf(),
        c.in_corpus(p),
    ensures
        c.apply_ext(p) == c.apply_ext(c.root_location@) || c.within_root(c.apply_ext(p)),
{
    let root = c.root_location@;
    match c.extension {
        None => {},
        Some(e) => {
            if c.within_root(p) {
                if !root.is_empty() {
                    if p.parts.len() == root.parts.len() {
                        assert(p.parts =~= root.parts);
                        assert(p == root);
                    } else {
                        let q = p.with_extension(e@);
                        if p.has_file_name() {
                            assert(root.parts.is_prefix_of(q.parts)) by {
                                assert(q.parts.subrange(0, root.parts.len() as int) =~= root.parts);
                            }
                        }
                    }
                }
            } else if root.has_file_name() {
                let r = root.parts.last();
                assert(valid_part(r)) by {
                    assert(r == root.parts[root.parts.len() - 1]);
                }
                let stem = file_stem(r);
                lemma_stem_nonempty(r);
                lemma_stem_with_ext(stem, e@);
                let w = stem + seq!['.'] + e@;
                assert(w != seq!['.'] && w != seq!['.', '.']) by {
                    assert(seq!['.'].len() == 1);
                    assert(seq!['.', '.'].len() == 2);
                }
                assert(p.parts == root.parts.drop_last().push(w));
                assert(p.parts.last() == w);
                assert(p.parts.drop_last() =~= root.parts.drop_last());
                assert(p.with_extension(e@).parts =~= p.parts);
            }
        },
    }
}

proof fn lemma_ancestors_from_in_corpus(c: Corpus, x: FsPathView, k: int, i: int)
    requires
        c.extension matches Some(e) ==> (e@.len() > 0 && !e@.contains('.') && !e@.contains('/')),
        c.root_location@.wf(),
        0 <= i < c.ancestors_from(x, k).len(),
    ensures
        c.ancestors_from(x, k)[i] == c.apply_ext(c.root_location@) || c.within_root(
            c.ancestors_from(x, k)[i],
        ),
    decreases k + 1,
{
    if k >= 0 {
        let rest = c.ancestors_from(x, k - 1);
        if c.in_corpus(x.prefix(k)) {
            if i == 0 {
                lemma_ancestor_elem(c, x.prefix(k));
            } else {
                lemma_ancestors_from_in_corpus(c, x, k - 1, i - 1);
                assert((seq![c.apply_ext(x.prefix(k))] + rest)[i] == rest[i - 1]);
            }
        } else {
            lemma_ancestors_from_in_corpus(c, x, k - 1, i);
        }
    }
}

proof fn lemma_ancestors_of_in_corpus(c: Corpus, x: FsPathView, i: int)
    requires
        c.extension matches Some(e) ==> (e@.len() > 0 && !e@.contains('.') && !e@.contains('/')),
        c.root_location@.wf(),
        0 <= i < c.ancestors_of(x).len(),
    ensures
        c.ancestors_of(x)[i] == c.apply_ext(c.root_location@) || c.within_root(
            c.ancestors_of(x)[i],
        ),
{
    lemma_ancestors_from_in_corpus(c, x, x.parts.len() as int, i);
}

/// Where there is no extension, a rooted source path under the relative path
/// whose last component has no extension comes back from its corpus path as
/// its lexical absolute form.
pub proof fn lemma_lossless_round_trip(c: Corpus, p: FsPath, r: FsPathView, back: Option<FsPath>)
    requires
        c.extension is None,
        c.relative_path@.absolute,
        p@.absolute,
        p@.wf(),
        normalize(p@).strip_prefix(c.relative_path@) is Some,
        normalize(p@).with_extension(seq![]) == normalize(p@),
        exists|n: FsPathView| resolves(MaybePath::Path(p), n) && r == c.corpus_of(n),
        c.relative_path@.absolute ==> (back matches Some(q) && q@ == normalize(c.source_of(r))),
    ensures
        back matches Some(q) && q@ == normalize(p@),
{
    lemma_lossless_view(c, p@);
}

/// Where there is an extension (not empty, without a dot), a rooted source
/// path strictly under the relative path comes back from its corpus path as
/// its lexical absolute form without its extension, whatever that extension
/// was.
pub proof fn lemma_lossy_round_trip(
    c: Corpus,
    p: FsPath,
    e: String,
    r: FsPathView,
    back: Option<FsPath>,
)
    requires
        c.extension == Some(e),
        e@.len() > 0,
        !e@.contains('.'),
        !e@.contains('/'),
        c.relative_path@.absolute,
        p@.absolute,
        p@.wf(),
        normalize(p@).strip_prefix(c.relative_path@) matches Some(rest) && rest.parts.len() > 0,
        no_dot_dot(normalize(p@).with_extension(seq![])),
        exists|n: FsPathView| resolves(MaybePath::Path(p), n) && r == c.corpus_of(n),
        c.relative_path@.absolute ==> (back matches Some(q) && q@ == normalize(c.source_of(r))),
    ensures
        back matches Some(q) && q@ == normalize(p@).with_extension(seq![]),
{
    lemma_lossy_view(c, p@, e);
}

/// Where the extension, if any, is not empty and holds no dot, every
/// ancestor listed for an input is the root with the extension, or starts
/// with the root.
pub proof fn lemma_ancestors_in_corpus(c: Corpus, input: MaybePath, r: Seq<FsPath>, i: int)
    requires
        c.extension matches Some(e) ==> (e@.len() > 0 && !e@.contains('.') && !e@.contains('/')),
        c.root_location@.wf(),
        exists|n: FsPathView|
            resolves(input, n) && paths_view(r) == c.ancestors_of(c.corpus_of(n)),
        0 <= i < r.len(),
    ensures
        r[i]@ == c.apply_ext(c.root_location@) || c.within_root(r[i]@),
{
    let n = choose|n: FsPathView|
        resolves(input, n) && paths_view(r) == c.ancestors_of(c.corpus_of(n));
    assert(paths_view(r)[i] == r[i]@);
    lemma_ancestors_of_in_corpus(c, c.corpus_of(n), i);
}

/// Where no ancestor of the input's corpus path that starts with the root is
/// there (the probe never answers yes for one), no nearest ancestor is found.
pub proof fn lemma_nearest_absent<F: Fn(&FsPath) -> bool>(
    c: Corpus,
    input: MaybePath,
    probe: F,
    r: Option<FsPath>,
)
    requires
        exists|n: FsPathView, anc: Seq<FsPath>|
            {
                &&& resolves(input, n)
                &&& paths_view(anc) == c.ancestors_of(c.corpus_of(n))
                &&& c.nearest_spec(anc, probe, r)
            },
        forall|n: FsPathView, x: FsPath|
            resolves(input, n) && #[trigger] c.ancestors_of(c.corpus_of(n)).contains(x@)
                && c.within_root(x@) ==> !#[trigger] call_ensures(probe, (&x,), true),
    ensures
        r is None,
{
    if r is Some {
        let (n, anc) = choose|n: FsPathView, anc: Seq<FsPath>|
            {
                &&& resolves(input, n)
                &&& paths_view(anc) == c.ancestors_of(c.corpus_of(n))
                &&& c.nearest_spec(anc, probe, r)
            };
        let i = choose|i: int|
            {
                &&& 0 <= i < anc.len()
                &&& c.within_root(#[trigger] anc[i]@)
                &&& r->0@ == anc[i]@
                &&& call_ensures(probe, (&anc[i],), true)
                &&& forall|j: int|
                    0 <= j < i && c.within_root(#[trigger] anc[j]@) ==> call_ensures(
                        probe,
                        (&anc[j],),
                        false,
                    )
            };
        assert(paths_view(anc)[i] == anc[i]@);
        assert(c.ancestors_of(c.corpus_of(n)).contains(anc[i]@));
    }
}

} // verus!
