//! A lexical model of Unix paths.
//!
//! A path is a flag saying whether it starts at the root, and a sequence of
//! components. Repeated separators and `.` components carry no meaning and
//! are dropped when text is read, as the platform's own path type does when
//! it compares paths.
use vstd::prelude::*;

verus! {

/// What a path means: rooted or not, and its components in order.
pub struct FsPathView {
    pub absolute: bool,
    pub parts: Seq<Seq<char>>,
}

/// A component that can stand in a path: not empty, no separator, not `.`.
pub open spec fn valid_part(s: Seq<char>) -> bool {
    &&& s.len() > 0
    &&& !s.contains('/')
    &&& s != seq!['.']
}

impl FsPathView {
    pub open spec fn wf(self) -> bool {
        forall|i: int| 0 <= i < self.parts.len() ==> valid_part(#[trigger] self.parts[i])
    }
}

/// Ends the component being read: kept unless it is empty or `.`.
pub open spec fn close_part(parts: Seq<Seq<char>>, cur: Seq<char>) -> Seq<Seq<char>> {
    if cur.len() == 0 || cur == seq!['.'] {
        parts
    } else {
        parts.push(cur)
    }
}

/// Reads text from left to right: the components finished so far, and the
/// one still being read.
pub open spec fn scan(s: Seq<char>) -> (Seq<Seq<char>>, Seq<char>)
    decreases s.len(),
{
    if s.len() == 0 {
        (seq![], seq![])
    } else {
        let prev = scan(s.drop_last());
        if s.last() == '/' {
            (close_part(prev.0, prev.1), seq![])
        } else {
            (prev.0, prev.1.push(s.last()))
        }
    }
}

/// The path that a text names.
pub open spec fn parse_text(s: Seq<char>) -> FsPathView {
    FsPathView {
        absolute: s.len() > 0 && s[0] == '/',
        parts: close_part(scan(s).0, scan(s).1),
    }
}

/// Components written one after another, with a separator between each two.
pub open spec fn join_parts(parts: Seq<Seq<char>>) -> Seq<char>
    decreases parts.len(),
{
    if parts.len() == 0 {
        seq![]
    } else if parts.len() == 1 {
        parts[0]
    } else {
        join_parts(parts.drop_last()) + seq!['/'] + parts.last()
    }
}

/// The canonical text of a path.
pub open spec fn render(p: FsPathView) -> Seq<char> {
    if p.absolute {
        seq!['/'] + join_parts(p.parts)
    } else {
        join_parts(p.parts)
    }
}

proof fn lemma_scan_no_slash(s: Seq<char>, t: Seq<char>)
    requires
        !t.contains('/'),
    ensures
        scan(s + t) == (scan(s).0, scan(s).1 + t),
    decreases t.len(),
{
    if t.len() == 0 {
        assert(s + t =~= s);
        assert(scan(s).1 + t =~= scan(s).1);
    } else {
        let t0 = t.drop_last();
        assert(!t0.contains('/')) by {
            if t0.contains('/') {
                let k = choose|k: int| 0 <= k < t0.len() && t0[k] == '/';
                assert(t[k] == '/');
            }
        }
        lemma_scan_no_slash(s, t0);
        assert((s + t).drop_last() =~= s + t0);
        assert((s + t).last() == t.last());
        assert(t.last() != '/') by {
            assert(t[t.len() - 1] == t.last());
        }
        assert(scan(s).1 + t0 + seq![t.last()] =~= scan(s).1 + t);
        assert((scan(s).1 + t0).push(t.last()) =~= scan(s).1 + t);
    }
}

proof fn lemma_scan_join(pre: Seq<char>, parts: Seq<Seq<char>>)
    requires
        scan(pre).1 == Seq::<char>::empty(),
        parts.len() > 0,
        forall|i: int| 0 <= i < parts.len() ==> valid_part(#[trigger] parts[i]),
    ensures
        scan(pre + join_parts(parts)) == (scan(pre).0 + parts.drop_last(), parts.last()),
    decreases parts.len(),
{
    if parts.len() == 1 {
        assert(valid_part(parts[0]));
        lemma_scan_no_slash(pre, parts[0]);
        assert(Seq::<char>::empty() + parts[0] =~= parts[0]);
        assert(scan(pre).0 + parts.drop_last() =~= scan(pre).0);
    } else {
        let dl = parts.drop_last();
        assert forall|i: int| 0 <= i < dl.len() implies valid_part(#[trigger] dl[i]) by {
            assert(dl[i] == parts[i]);
        }
        lemma_scan_join(pre, dl);
        let a = pre + join_parts(dl);
        let b = a + seq!['/'];
        assert(b.drop_last() =~= a);
        assert(b.last() == '/');
        assert(valid_part(dl.last())) by {
            assert(dl.last() == parts[parts.len() - 2]);
        }
        assert(scan(b).0 =~= scan(pre).0 + dl) by {
            assert(dl.drop_last().push(dl.last()) =~= dl);
            assert((scan(pre).0 + dl.drop_last()).push(dl.last()) =~= scan(pre).0 + dl);
        }
        assert(valid_part(parts.last())) by {
            assert(parts.last() == parts[parts.len() - 1]);
        }
        lemma_scan_no_slash(b, parts.last());
        assert(pre + join_parts(parts) =~= b + parts.last());
        assert(Seq::<char>::empty() + parts.last() =~= parts.last());
    }
}

/// The first character of joined components is that of the first component.
proof fn lemma_join_first(parts: Seq<Seq<char>>)
    requires
        parts.len() > 0,
        forall|i: int| 0 <= i < parts.len() ==> valid_part(#[trigger] parts[i]),
    ensures
        join_parts(parts).len() > 0,
        join_parts(parts)[0] == parts[0][0],
    decreases parts.len(),
{
    assert(valid_part(parts[0]));
    if parts.len() > 1 {
        let dl = parts.drop_last();
        assert forall|i: int| 0 <= i < dl.len() implies valid_part(#[trigger] dl[i]) by {
            assert(dl[i] == parts[i]);
        }
        lemma_join_first(dl);
        assert(dl[0] == parts[0]);
    }
}

/// Reading the canonical text of a well-formed path gives the path back.
pub proof fn lemma_parse_render(p: FsPathView)
    requires
        p.wf(),
    ensures
        parse_text(render(p)) == p,
{
    let pre: Seq<char> = if p.absolute { seq!['/'] } else { seq![] };
    assert(scan(pre).1 == Seq::<char>::empty() && scan(pre).0 == Seq::<Seq<char>>::empty()) by {
        let e = Seq::<char>::empty();
        assert(scan(e) == (Seq::<Seq<char>>::empty(), e));
        if p.absolute {
            assert(pre.drop_last() =~= e);
            assert(pre.last() == '/');
            assert(close_part(Seq::<Seq<char>>::empty(), e) == Seq::<Seq<char>>::empty());
        }
    }
    assert(render(p) =~= pre + join_parts(p.parts));
    if p.parts.len() == 0 {
        assert(pre + join_parts(p.parts) =~= pre);
        assert(p.parts =~= Seq::<Seq<char>>::empty());
    } else {
        lemma_scan_join(pre, p.parts);
        assert(valid_part(p.parts.last())) by {
            assert(p.parts.last() == p.parts[p.parts.len() - 1]);
        }
        assert(Seq::<Seq<char>>::empty() + p.parts.drop_last() =~= p.parts.drop_last());
        assert(p.parts.drop_last().push(p.parts.last()) =~= p.parts);
        lemma_join_first(p.parts);
        assert(valid_part(p.parts[0]));
        if !p.absolute {
            assert(p.parts[0][0] != '/') by {
                assert(p.parts[0].contains(p.parts[0][0]));
            }
        }
    }
}


/// Index of the last `.` in a component, or -1 where it has none.
pub open spec fn last_dot(s: Seq<char>) -> int
    decreases s.len(),
{
    if s.len() == 0 {
        -1
    } else if s.last() == '.' {
        s.len() - 1
    } else {
        last_dot(s.drop_last())
    }
}

/// A file name without its extension: up to the last `.`, unless that dot
/// opens the name (a hidden file keeps its whole name).
pub open spec fn file_stem(name: Seq<char>) -> Seq<char> {
    if last_dot(name) <= 0 {
        name
    } else {
        name.take(last_dot(name))
    }
}

/// A stem with an extension added; an empty extension adds nothing.
pub open spec fn with_ext(stem: Seq<char>, ext: Seq<char>) -> Seq<char> {
    if ext.len() == 0 {
        stem
    } else {
        stem + seq!['.'] + ext
    }
}

impl FsPathView {
    /// The path with nothing in it: no root, no component.
    pub open spec fn is_empty(self) -> bool {
        !self.absolute && self.parts.len() == 0
    }

    /// The components that follow `base`, where `self` starts with all of
    /// `base`'s components (the root counting as one).
    pub open spec fn strip_prefix(self, base: FsPathView) -> Option<FsPathView> {
        if base.is_empty() {
            Some(self)
        } else if self.absolute == base.absolute && base.parts.is_prefix_of(self.parts) {
            Some(FsPathView { absolute: false, parts: self.parts.skip(base.parts.len() as int) })
        } else {
            None
        }
    }

    /// `rhs` placed beneath `self`: all of `rhs`'s components are appended,
    /// whether or not it is rooted.
    pub open spec fn nest(self, rhs: FsPathView) -> FsPathView {
        FsPathView { absolute: self.absolute, parts: self.parts + rhs.parts }
    }

    /// The usual join: a rooted `rhs` replaces `self`, another is appended.
    pub open spec fn join(self, rhs: FsPathView) -> FsPathView {
        if rhs.absolute {
            rhs
        } else {
            self.nest(rhs)
        }
    }

    /// The path made of the first `k` components.
    pub open spec fn prefix(self, k: int) -> FsPathView {
        FsPathView { absolute: self.absolute, parts: self.parts.take(k) }
    }

    /// Whether the path ends in a component that names a file (not `..`).
    pub open spec fn has_file_name(self) -> bool {
        self.parts.len() > 0 && self.parts.last() != seq!['.', '.']
    }

    /// The last component's extension replaced by `ext` (removed where `ext`
    /// is empty); a path without a file name is left as it is. A name that
    /// comes out as `.` names no component and is dropped.
    pub open spec fn with_extension(self, ext: Seq<char>) -> FsPathView {
        if !self.has_file_name() {
            self
        } else {
            let name = with_ext(file_stem(self.parts.last()), ext);
            FsPathView {
                absolute: self.absolute,
                parts: if name == seq!['.'] {
                    self.parts.drop_last()
                } else {
                    self.parts.drop_last().push(name)
                },
            }
        }
    }
}

pub open spec fn views(v: Seq<String>) -> Seq<Seq<char>> {
    v.map_values(|s: String| s@)
}

/// A path, held as components.
#[derive(Debug)]
pub struct FsPath {
    absolute: bool,
    parts: Vec<String>,
}

impl View for FsPath {
    type V = FsPathView;

    closed spec fn view(&self) -> FsPathView {
        FsPathView { absolute: self.absolute, parts: views(self.parts@) }
    }
}

pub open spec fn opt_view(p: Option<FsPath>) -> Option<FsPathView> {
    match p {
        Some(q) => Some(q@),
        None => None,
    }
}

proof fn lemma_views_push(v: Seq<String>, s: String)
    ensures
        views(v.push(s)) == views(v).push(s@),
{
    assert(views(v.push(s)) =~= views(v).push(s@));
}

fn push_part(parts: &mut Vec<String>, seg: &str)
    requires
        !seg@.contains('/'),
    ensures
        views(final(parts)@) == close_part(views(old(parts)@), seg@),
{
    let len = seg.unicode_len();
    if len == 0 {
        return ;
    }
    if len == 1 && seg.get_char(0) == '.' {
        assert(seg@ =~= seq!['.']);
        return ;
    }
    assert(seg@ != seq!['.']) by {
        if len == 1 {
            assert(seg@[0] != '.');
        }
    }
    let owned = seg.to_owned();
    proof {
        lemma_views_push(parts@, owned);
    }
    parts.push(owned);
}

impl FsPath {
    #[verifier::type_invariant]
    spec fn inv(self) -> bool {
        self@.wf()
    }

    /// The path that `s` names.
    pub fn parse(s: &str) -> (r: FsPath)
        ensures
            r@ == parse_text(s@),
    {
        let n = s.unicode_len();
        let mut parts: Vec<String> = Vec::new();
        let mut start: usize = 0;
        let mut i: usize = 0;
        while i < n
            invariant
                n == s@.len(),
                start <= i <= n,
                scan(s@.take(i as int)).0 == views(parts@),
                scan(s@.take(i as int)).1 == s@.subrange(start as int, i as int),
                forall|k: int| start <= k < i ==> s@[k] != '/',
                forall|k: int| 0 <= k < views(parts@).len() ==> valid_part(#[trigger] views(parts@)[k]),
            decreases n - i,
        {
            let c = s.get_char(i);
            assert(s@.take(i + 1).drop_last() =~= s@.take(i as int));
            assert(s@.take(i + 1).last() == c);
            if c == '/' {
                let seg = s.substring_char(start, i);
                assert(!seg@.contains('/')) by {
                    if seg@.contains('/') {
                        let k = choose|k: int| 0 <= k < seg@.len() && seg@[k] == '/';
                        assert(s@[start + k] == '/');
                    }
                }
                let ghost before = views(parts@);
                push_part(&mut parts, seg);
                assert forall|k: int| 0 <= k < views(parts@).len() implies valid_part(
                    #[trigger] views(parts@)[k],
                ) by {
                    if k < before.len() {
                        assert(views(parts@)[k] == before[k]);
                    }
                }
                start = i + 1;
                assert(s@.subrange(start as int, i + 1) =~= Seq::<char>::empty());
            } else {
                assert(s@.subrange(start as int, i + 1) =~= s@.subrange(start as int, i as int).push(c));
            }
            i = i + 1;
        }
        let seg = s.substring_char(start, n);
        assert(!seg@.contains('/')) by {
            if seg@.contains('/') {
                let k = choose|k: int| 0 <= k < seg@.len() && seg@[k] == '/';
                assert(s@[start + k] == '/');
            }
        }
        assert(s@.take(n as int) =~= s@);
        let ghost before = views(parts@);
        push_part(&mut parts, seg);
        assert forall|k: int| 0 <= k < views(parts@).len() implies valid_part(
            #[trigger] views(parts@)[k],
        ) by {
            if k < before.len() {
                assert(views(parts@)[k] == before[k]);
            }
        }
        let absolute = n > 0 && s.get_char(0) == '/';
        FsPath { absolute, parts }
    }

    /// The canonical text of the path: components joined by `/`, after a
    /// leading `/` where the path is rooted.
    pub fn to_text(&self) -> (r: String)
        ensures
            r@ == render(self@),
            self@.wf(),
    {
        proof {
            use_type_invariant(self);
        }
        let mut r = String::new();
        proof {
            reveal_strlit("/");
        }
        if self.absolute {
            r.append("/");
        }
        let ghost pre = r@;
        let ghost ps = views(self.parts@);
        let mut k: usize = 0;
        while k < self.parts.len()
            invariant
                k <= self.parts@.len(),
                ps == views(self.parts@),
                pre == (if self.absolute { seq!['/'] } else { Seq::<char>::empty() }),
                r@ == pre + join_parts(ps.take(k as int)),
            decreases self.parts@.len() - k,
        {
            assert(ps.take(k + 1).drop_last() =~= ps.take(k as int));
            assert(ps.take(k + 1).last() == self.parts@[k as int]@);
            let ghost old_r = r@;
            let part = self.parts[k].as_str();
            assert(ps[k as int] == part@);
            proof {
                reveal_strlit("/");
            }
            if k > 0 {
                r.append("/");
                r.append(part);
                assert(r@ =~= old_r + seq!['/'] + ps[k as int]);
                assert(join_parts(ps.take(k + 1)) == join_parts(ps.take(k as int)) + seq!['/']
                    + ps[k as int]);
                assert(r@ =~= pre + join_parts(ps.take(k + 1)));
            } else {
                r.append(part);
                assert(ps.take(0) =~= Seq::<Seq<char>>::empty());
                assert(ps.take(1) =~= seq![ps[0]]);
                assert(r@ =~= pre + join_parts(ps.take(k + 1)));
            }
            k = k + 1;
        }
        assert(ps.take(k as int) =~= ps);
        if !self.absolute {
            assert(r@ =~= join_parts(ps));
        }
        r
    }
}

proof fn lemma_no_slash_concat(a: Seq<char>, b: Seq<char>)
    requires
        !a.contains('/'),
        !b.contains('/'),
    ensures
        !(a + b).contains('/'),
{
    if (a + b).contains('/') {
        let k = choose|k: int| 0 <= k < (a + b).len() && (a + b)[k] == '/';
        if k < a.len() {
            assert(a[k] == '/');
        } else {
            assert(b[k - a.len()] == '/');
        }
    }
}

proof fn lemma_no_slash_take(a: Seq<char>, n: int)
    requires
        !a.contains('/'),
        0 <= n <= a.len(),
    ensures
        !a.take(n).contains('/'),
{
    if a.take(n).contains('/') {
        let k = choose|k: int| 0 <= k < n && a.take(n)[k] == '/';
        assert(a[k] == '/');
    }
}

/// Appends `v[from..to]` to `out`.
fn copy_parts(v: &Vec<String>, from: usize, to: usize, out: &mut Vec<String>)
    requires
        from <= to <= v@.len(),
    ensures
        views(final(out)@) == views(old(out)@) + views(v@).subrange(from as int, to as int),
{
    let ghost start = views(out@);
    let mut i = from;
    while i < to
        invariant
            from <= i <= to <= v@.len(),
            views(out@) == start + views(v@).subrange(from as int, i as int),
        decreases to - i,
    {
        let s = v[i].clone();
        proof {
            lemma_views_push(out@, s);
        }
        out.push(s);
        assert(views(v@).subrange(from as int, i + 1) =~= views(v@).subrange(from as int, i as int).push(v@[i as int]@));
        assert(start + views(v@).subrange(from as int, i + 1) =~= (start + views(v@).subrange(from as int, i as int)).push(v@[i as int]@));
        i = i + 1;
    }
}

/// Whether `name` is the component `..`.
fn is_dot_dot(name: &str) -> (r: bool)
    ensures
        r == (name@ == seq!['.', '.']),
{
    if name.unicode_len() == 2 && name.get_char(0) == '.' && name.get_char(1) == '.' {
        assert(name@ =~= seq!['.', '.']);
        true
    } else {
        false
    }
}

/// Whether `name` is the component `.`.
fn is_dot(name: &str) -> (r: bool)
    ensures
        r == (name@ == seq!['.']),
{
    if name.unicode_len() == 1 && name.get_char(0) == '.' {
        assert(name@ =~= seq!['.']);
        true
    } else {
        false
    }
}

/// Where the last `.` of `name` stands, if it has one.
fn find_last_dot(name: &str) -> (r: (bool, usize))
    ensures
        last_dot(name@) == (if r.0 { r.1 as int } else { -1 }),
        r.0 ==> r.1 < name@.len(),
{
    let n = name.unicode_len();
    let mut found = false;
    let mut dot: usize = 0;
    let mut j: usize = 0;
    while j < n
        invariant
            n == name@.len(),
            j <= n,
            last_dot(name@.take(j as int)) == (if found { dot as int } else { -1 }),
            found ==> dot < j,
        decreases n - j,
    {
        let c = name.get_char(j);
        assert(name@.take(j + 1).drop_last() =~= name@.take(j as int));
        assert(name@.take(j + 1).last() == c);
        if c == '.' {
            found = true;
            dot = j;
        }
        j = j + 1;
    }
    assert(name@.take(n as int) =~= name@);
    (found, dot)
}

impl PartialEq for FsPath {
    fn eq(&self, other: &FsPath) -> (r: bool) {
        if self.absolute != other.absolute || self.parts.len() != other.parts.len() {
            assert(self@.parts.len() == self.parts@.len());
            return false;
        }
        let mut i: usize = 0;
        while i < self.parts.len()
            invariant
                self.parts@.len() == other.parts@.len(),
                i <= self.parts@.len(),
                forall|k: int| 0 <= k < i ==> self.parts@[k]@ == other.parts@[k]@,
            decreases self.parts@.len() - i,
        {
            if self.parts[i] != other.parts[i] {
                assert(self@.parts[i as int] != other@.parts[i as int]);
                return false;
            }
            i = i + 1;
        }
        assert(self@.parts =~= other@.parts);
        true
    }
}

impl vstd::std_specs::cmp::PartialEqSpecImpl for FsPath {
    open spec fn obeys_eq_spec() -> bool {
        true
    }

    open spec fn eq_spec(&self, other: &FsPath) -> bool {
        self@ == other@
    }
}

impl FsPath {
    /// The root directory `/`.
    pub fn root() -> (r: FsPath)
        ensures
            r@ == (FsPathView { absolute: true, parts: seq![] }),
    {
        let r = FsPath { absolute: true, parts: Vec::new() };
        assert(r@.parts =~= Seq::<Seq<char>>::empty());
        r
    }

    /// The same path, as a value of its own.
    pub fn duplicate(&self) -> (r: FsPath)
        ensures
            r@ == self@,
    {
        proof {
            use_type_invariant(self);
        }
        let mut parts: Vec<String> = Vec::new();
        copy_parts(&self.parts, 0, self.parts.len(), &mut parts);
        assert(views(parts@) =~= views(self.parts@));
        FsPath { absolute: self.absolute, parts }
    }

    pub fn is_absolute(&self) -> (r: bool)
        ensures
            r == self@.absolute,
    {
        self.absolute
    }

    /// How many components the path has.
    pub fn len(&self) -> (r: usize)
        ensures
            r == self@.parts.len(),
    {
        self.parts.len()
    }

    /// The path made of the first `k` components (with the root, if any).
    pub fn prefix(&self, k: usize) -> (r: FsPath)
        requires
            k <= self@.parts.len(),
        ensures
            r@ == self@.prefix(k as int),
    {
        proof {
            use_type_invariant(self);
        }
        let mut parts: Vec<String> = Vec::new();
        copy_parts(&self.parts, 0, k, &mut parts);
        assert(views(parts@) =~= self@.parts.take(k as int));
        FsPath { absolute: self.absolute, parts }
    }

    /// The components of `self` that follow `base`, as a relative path, where
    /// `self` starts with `base`.
    pub fn strip_prefix(&self, base: &FsPath) -> (r: Option<FsPath>)
        ensures
            opt_view(r) == self@.strip_prefix(base@),
    {
        proof {
            use_type_invariant(self);
        }
        if !base.absolute && base.parts.len() == 0 {
            return Some(self.duplicate());
        }
        if self.absolute != base.absolute || base.parts.len() > self.parts.len() {
            return None;
        }
        let n = base.parts.len();
        let mut i: usize = 0;
        while i < n
            invariant
                n == base.parts@.len() <= self.parts@.len(),
                i <= n,
                forall|k: int| 0 <= k < i ==> self.parts@[k]@ == base.parts@[k]@,
            decreases n - i,
        {
            if self.parts[i] != base.parts[i] {
                assert(self@.parts[i as int] != base@.parts[i as int]);
                return None;
            }
            i = i + 1;
        }
        assert(base@.parts.is_prefix_of(self@.parts)) by {
            assert(base@.parts =~= self@.parts.take(n as int));
        }
        let mut parts: Vec<String> = Vec::new();
        copy_parts(&self.parts, n, self.parts.len(), &mut parts);
        assert(views(parts@) =~= self@.parts.skip(n as int));
        Some(FsPath { absolute: false, parts })
    }

    /// `rhs` placed beneath `self`: its components appended, whether or not it
    /// is rooted.
    pub fn nest(&self, rhs: &FsPath) -> (r: FsPath)
        ensures
            r@ == self@.nest(rhs@),
    {
        proof {
            use_type_invariant(self);
            use_type_invariant(rhs);
        }
        let mut parts: Vec<String> = Vec::new();
        copy_parts(&self.parts, 0, self.parts.len(), &mut parts);
        copy_parts(&rhs.parts, 0, rhs.parts.len(), &mut parts);
        assert(views(parts@) =~= self@.parts + rhs@.parts);
        FsPath { absolute: self.absolute, parts }
    }

    /// `self` joined with `rhs`: a rooted `rhs` replaces `self`.
    pub fn join(&self, rhs: &FsPath) -> (r: FsPath)
        ensures
            r@ == self@.join(rhs@),
    {
        if rhs.absolute {
            rhs.duplicate()
        } else {
            self.nest(rhs)
        }
    }

    /// The path with the extension of its last component replaced by `ext`,
    /// or removed where `ext` is empty. An extension holds no separator.
    pub fn with_extension(&self, ext: &str) -> (r: FsPath)
        requires
            !ext@.contains('/'),
        ensures
            r@ == self@.with_extension(ext@),
    {
        proof {
            use_type_invariant(self);
        }
        let n = self.parts.len();
        if n == 0 {
            return self.duplicate();
        }
        let name = self.parts[n - 1].as_str();
        assert(name@ == self@.parts.last());
        if is_dot_dot(name) {
            return self.duplicate();
        }
        assert(valid_part(name@)) by {
            assert(self@.parts[n - 1] == name@);
        }
        let (found, dot) = find_last_dot(name);
        let stem = if found && dot > 0 {
            name.substring_char(0, dot)
        } else {
            name
        };
        assert(stem@ == file_stem(name@));
        proof {
            lemma_no_slash_take(name@, if found && dot > 0 { dot as int } else { name@.len() as int });
            assert(name@.take(name@.len() as int) =~= name@);
        }
        let mut new_name = stem.to_owned();
        if ext.unicode_len() > 0 {
            proof {
                reveal_strlit(".");
                lemma_no_slash_concat(stem@, seq!['.']);
                lemma_no_slash_concat(stem@ + seq!['.'], ext@);
                assert(!seq!['.'].contains('/')) by {
                    if seq!['.'].contains('/') {
                        assert(seq!['.'][0] == '.');
                    }
                }
            }
            new_name.append(".");
            new_name.append(ext);
        }
        assert(new_name@ == with_ext(file_stem(name@), ext@));
        let mut parts: Vec<String> = Vec::new();
        copy_parts(&self.parts, 0, n - 1, &mut parts);
        assert(views(parts@) =~= self@.parts.drop_last());
        if is_dot(new_name.as_str()) {
            FsPath { absolute: self.absolute, parts }
        } else {
            assert(new_name@.len() > 0);
            proof {
                lemma_views_push(parts@, new_name);
            }
            parts.push(new_name);
            FsPath { absolute: self.absolute, parts }
        }
    }
}

/// Whether two texts hold the same characters.
pub(crate) fn same_text(a: &str, b: &str) -> (r: bool)
    ensures
        r == (a@ == b@),
{
    let n = a.unicode_len();
    if n != b.unicode_len() {
        return false;
    }
    let mut i: usize = 0;
    while i < n
        invariant
            n == a@.len() == b@.len(),
            i <= n,
            forall|k: int| 0 <= k < i ==> a@[k] == b@[k],
        decreases n - i,
    {
        if a.get_char(i) != b.get_char(i) {
            return false;
        }
        i = i + 1;
    }
    assert(a@ =~= b@);
    true
}

impl From<&str> for FsPath {
    fn from(s: &str) -> FsPath {
        FsPath::parse(s)
    }
}

/// Paths are equal as components, not as values: what `from` returns is
/// stated by `FsPath::parse`.
impl vstd::std_specs::convert::FromSpecImpl<&str> for FsPath {
    open spec fn obeys_from_spec() -> bool {
        false
    }

    open spec fn from_spec(s: &str) -> FsPath {
        choose|p: FsPath| p@ == parse_text(s@)
    }
}

proof fn lemma_last_dot_append(s: Seq<char>, t: Seq<char>)
    requires
        !t.contains('.'),
    ensures
        last_dot(s + t) == last_dot(s),
    decreases t.len(),
{
    if t.len() == 0 {
        assert(s + t =~= s);
    } else {
        let t0 = t.drop_last();
        assert(!t0.contains('.')) by {
            if t0.contains('.') {
                let k = choose|k: int| 0 <= k < t0.len() && t0[k] == '.';
                assert(t[k] == '.');
            }
        }
        lemma_last_dot_append(s, t0);
        assert((s + t).drop_last() =~= s + t0);
        assert(t[t.len() - 1] == t.last());
    }
}

/// The stem of a name made of a stem, a dot and an extension without a dot
/// is that stem.
pub proof fn lemma_stem_with_ext(stem: Seq<char>, ext: Seq<char>)
    requires
        stem.len() > 0,
        ext.len() > 0,
        !ext.contains('.'),
    ensures
        with_ext(stem, ext) == stem + seq!['.'] + ext,
        file_stem(stem + seq!['.'] + ext) == stem,
{
    let d = stem + seq!['.'];
    lemma_last_dot_append(d, ext);
    assert(d.drop_last() =~= stem);
    assert(d.last() == '.');
    assert(last_dot(d) == stem.len());
    assert((stem + seq!['.'] + ext).take(stem.len() as int) =~= stem);
}

/// A dot found in a name stands within it.
proof fn lemma_last_dot_bound(s: Seq<char>)
    ensures
        -1 <= last_dot(s) < s.len(),
    decreases s.len(),
{
    if s.len() > 0 {
        lemma_last_dot_bound(s.drop_last());
    }
}

/// The stem of a non-empty name is not empty.
pub proof fn lemma_stem_nonempty(name: Seq<char>)
    requires
        name.len() > 0,
    ensures
        file_stem(name).len() > 0,
{
    lemma_last_dot_bound(name);
}

impl FsPath {
    /// The empty relative path, which names the current directory.
    pub fn empty() -> (r: FsPath)
        ensures
            r@.is_empty(),
    {
        FsPath { absolute: false, parts: Vec::new() }
    }
}

} // verus!
