//! Absolute filesystem paths, modeled as a sequence of components.
//!
//! The library never touches the real filesystem; a path here is the plain
//! value that discovery, workspace listing and environment layout reason
//! about. A path's view is the sequence of its components' character
//! sequences; the root directory is the empty sequence.

use vstd::prelude::*;
use vstd::string::StrSliceExecFns;
use vstd::string::StringExecFns;

verus! {

/// Strict lexicographic order on character sequences, by code point.
pub open spec fn chars_lt(a: Seq<char>, b: Seq<char>) -> bool
    decreases a.len(),
{
    if b.len() == 0 {
        false
    } else if a.len() == 0 {
        true
    } else if a[0] == b[0] {
        chars_lt(a.drop_first(), b.drop_first())
    } else {
        (a[0] as u32) < (b[0] as u32)
    }
}

/// Strict lexicographic order on paths: component-wise, shorter prefixes
/// first, components ordered by `chars_lt`.
pub open spec fn path_lt(a: Seq<Seq<char>>, b: Seq<Seq<char>>) -> bool
    decreases a.len(),
{
    if b.len() == 0 {
        false
    } else if a.len() == 0 {
        true
    } else if a[0] == b[0] {
        path_lt(a.drop_first(), b.drop_first())
    } else {
        chars_lt(a[0], b[0])
    }
}

/// Non-strict lexicographic order on paths.
pub open spec fn path_le(a: Seq<Seq<char>>, b: Seq<Seq<char>>) -> bool {
    path_lt(a, b) || a == b
}

pub proof fn lemma_chars_lt_irreflexive(a: Seq<char>)
    ensures
        !chars_lt(a, a),
    decreases a.len(),
{
    if a.len() > 0 {
        lemma_chars_lt_irreflexive(a.drop_first());
    }
}

/// Any two character sequences are ordered or equal.
pub proof fn lemma_chars_trichotomy(a: Seq<char>, b: Seq<char>)
    ensures
        chars_lt(a, b) || chars_lt(b, a) || a == b,
    decreases a.len(),
{
    if b.len() == 0 {
        if a.len() == 0 {
            assert(a =~= b);
        }
    } else if a.len() == 0 {
    } else if a[0] == b[0] {
        lemma_chars_trichotomy(a.drop_first(), b.drop_first());
        if a.drop_first() == b.drop_first() {
            assert(a.drop_first().len() == b.drop_first().len());
            assert(a.len() == b.len());
            assert forall|k: int| 0 <= k < a.len() implies a[k] == b[k] by {
                if k > 0 {
                    assert(a[k] == a.drop_first()[k - 1]);
                    assert(b[k] == b.drop_first()[k - 1]);
                }
            }
            assert(a =~= b);
        }
    } else {
        vstd::utf8::char_u32_cast(a[0], a[0] as u32);
        vstd::utf8::char_u32_cast(b[0], b[0] as u32);
        assert((a[0] as u32) != (b[0] as u32));
    }
}

pub proof fn lemma_chars_lt_transitive(a: Seq<char>, b: Seq<char>, c: Seq<char>)
    requires
        chars_lt(a, b),
        chars_lt(b, c),
    ensures
        chars_lt(a, c),
    decreases a.len(),
{
    if a.len() > 0 && b.len() > 0 && c.len() > 0 {
        if a[0] == b[0] && b[0] == c[0] {
            lemma_chars_lt_transitive(a.drop_first(), b.drop_first(), c.drop_first());
        }
    }
}

pub proof fn lemma_path_lt_irreflexive(a: Seq<Seq<char>>)
    ensures
        !path_lt(a, a),
    decreases a.len(),
{
    if a.len() > 0 {
        lemma_path_lt_irreflexive(a.drop_first());
    }
}

/// Any two paths are ordered or equal.
pub proof fn lemma_path_trichotomy(a: Seq<Seq<char>>, b: Seq<Seq<char>>)
    ensures
        path_le(a, b) || path_le(b, a),
    decreases a.len(),
{
    if b.len() == 0 {
        if a.len() == 0 {
            assert(a =~= b);
        }
    } else if a.len() == 0 {
    } else if a[0] == b[0] {
        lemma_path_trichotomy(a.drop_first(), b.drop_first());
        if a.drop_first() == b.drop_first() {
            assert(a.drop_first().len() == b.drop_first().len());
            assert(a.len() == b.len());
            assert forall|k: int| 0 <= k < a.len() implies a[k] == b[k] by {
                if k > 0 {
                    assert(a[k] == a.drop_first()[k - 1]);
                    assert(b[k] == b.drop_first()[k - 1]);
                }
            }
            assert(a =~= b);
        }
    } else {
        lemma_chars_trichotomy(a[0], b[0]);
    }
}

pub proof fn lemma_path_lt_transitive(a: Seq<Seq<char>>, b: Seq<Seq<char>>, c: Seq<Seq<char>>)
    requires
        path_lt(a, b),
        path_lt(b, c),
    ensures
        path_lt(a, c),
    decreases a.len(),
{
    if a.len() > 0 && b.len() > 0 && c.len() > 0 {
        if a[0] == b[0] && b[0] == c[0] {
            lemma_path_lt_transitive(a.drop_first(), b.drop_first(), c.drop_first());
        } else if a[0] != b[0] && b[0] != c[0] {
            lemma_chars_lt_transitive(a[0], b[0], c[0]);
            if a[0] == c[0] {
                lemma_chars_lt_irreflexive(a[0]);
            }
        }
    }
}

pub proof fn lemma_path_le_transitive(a: Seq<Seq<char>>, b: Seq<Seq<char>>, c: Seq<Seq<char>>)
    requires
        path_le(a, b),
        path_le(b, c),
    ensures
        path_le(a, c),
{
    if path_lt(a, b) && path_lt(b, c) {
        lemma_path_lt_transitive(a, b, c);
    }
}

proof fn lemma_chars_lt_skip_step(a: Seq<char>, b: Seq<char>, i: int)
    requires
        0 <= i < a.len(),
        i < b.len(),
        a[i] == b[i],
    ensures
        chars_lt(a.skip(i), b.skip(i)) == chars_lt(a.skip(i + 1), b.skip(i + 1)),
{
    assert(a.skip(i).drop_first() =~= a.skip(i + 1));
    assert(b.skip(i).drop_first() =~= b.skip(i + 1));
}

proof fn lemma_path_lt_skip_step(a: Seq<Seq<char>>, b: Seq<Seq<char>>, i: int)
    requires
        0 <= i < a.len(),
        i < b.len(),
        a[i] == b[i],
    ensures
        path_lt(a.skip(i), b.skip(i)) == path_lt(a.skip(i + 1), b.skip(i + 1)),
{
    assert(a.skip(i).drop_first() =~= a.skip(i + 1));
    assert(b.skip(i).drop_first() =~= b.skip(i + 1));
}

/// Lexicographic comparison of two strings by code point.
pub fn str_lt(a: &str, b: &str) -> (r: bool)
    ensures
        r == chars_lt(a@, b@),
{
    let alen = a.unicode_len();
    let blen = b.unicode_len();
    let mut i: usize = 0;
    proof {
        assert(a@.skip(0) =~= a@);
        assert(b@.skip(0) =~= b@);
    }
    loop
        invariant
            i <= alen,
            i <= blen,
            alen == a@.len(),
            blen == b@.len(),
            chars_lt(a@, b@) == chars_lt(a@.skip(i as int), b@.skip(i as int)),
        decreases alen - i,
    {
        if i >= blen {
            proof {
                assert(b@.skip(i as int).len() == 0);
            }
            return false;
        }
        if i >= alen {
            proof {
                assert(a@.skip(i as int).len() == 0);
            }
            return true;
        }
        let ca = a.get_char(i);
        let cb = b.get_char(i);
        if ca == cb {
            proof {
                lemma_chars_lt_skip_step(a@, b@, i as int);
            }
            i = i + 1;
        } else {
            proof {
                assert(a@.skip(i as int)[0] == ca);
                assert(b@.skip(i as int)[0] == cb);
            }
            return (ca as u32) < (cb as u32);
        }
    }
}

/// A path component is non-empty and contains no separator.
pub open spec fn wf_component(c: Seq<char>) -> bool {
    &&& c.len() > 0
    &&& forall|j: int| 0 <= j < c.len() ==> c[j] != '/'
}

/// An absolute path: the list of directory components below the root.
pub struct AbsPath {
    components: Vec<String>,
}

impl View for AbsPath {
    type V = Seq<Seq<char>>;

    closed spec fn view(&self) -> Seq<Seq<char>> {
        self.components.deep_view()
    }
}

impl DeepView for AbsPath {
    type V = Seq<Seq<char>>;

    open spec fn deep_view(&self) -> Seq<Seq<char>> {
        self@
    }
}

impl AbsPath {
    /// Every component is non-empty and separator-free.
    pub open spec fn wf(&self) -> bool {
        forall|i: int| 0 <= i < self@.len() ==> wf_component(#[trigger] self@[i])
    }

    /// The filesystem root.
    pub fn root() -> (r: AbsPath)
        ensures
            r@ == Seq::<Seq<char>>::empty(),
            r.wf(),
    {
        AbsPath { components: Vec::new() }
    }

    /// Number of components below the root.
    pub fn depth(&self) -> (n: usize)
        ensures
            n == self@.len(),
    {
        self.components.len()
    }

    /// An identical copy of this path.
    pub fn duplicate(&self) -> (r: AbsPath)
        ensures
            r@ == self@,
    {
        let mut c: Vec<String> = Vec::new();
        let mut i: usize = 0;
        while i < self.components.len()
            invariant
                i <= self.components.len(),
                c@ == self.components@.take(i as int),
            decreases self.components.len() - i,
        {
            c.push(self.components[i].clone());
            i = i + 1;
            proof {
                assert(c@ =~= self.components@.take(i as int));
            }
        }
        proof {
            assert(c@ =~= self.components@);
            assert(c.deep_view() =~~= self@);
        }
        AbsPath { components: c }
    }

    /// The path extended by one more component.
    pub fn join(&self, comp: &str) -> (r: AbsPath)
        ensures
            r@ == self@.push(comp@),
            self.wf() && wf_component(comp@) ==> r.wf(),
    {
        let mut r = self.duplicate();
        r.components.push(comp.to_owned());
        proof {
            assert(r@ =~~= self@.push(comp@));
        }
        r
    }

    /// The enclosing directory: `None` at the root, otherwise the path
    /// with its last component removed.
    pub fn parent(&self) -> (r: Option<AbsPath>)
        ensures
            r is Some <==> self@.len() > 0,
            r is Some ==> r->Some_0@ == self@.drop_last(),
    {
        if self.components.len() == 0 {
            None
        } else {
            let mut p = self.duplicate();
            let _last = p.components.pop();
            proof {
                assert(p@ =~~= self@.drop_last());
            }
            Some(p)
        }
    }

    /// Component-wise equality.
    pub fn eq_path(&self, other: &AbsPath) -> (r: bool)
        ensures
            r == (self@ == other@),
    {
        if self.components.len() != other.components.len() {
            proof {
                assert(self@.len() != other@.len());
            }
            return false;
        }
        let n = self.components.len();
        let mut i: usize = 0;
        while i < n
            invariant
                i <= n,
                n == self.components.len(),
                n == other.components.len(),
                forall|k: int| 0 <= k < i ==> self@[k] == other@[k],
            decreases n - i,
        {
            let a = &self.components[i];
            let b = &other.components[i];
            if !(*a == *b) {
                proof {
                    assert(self@[i as int] != other@[i as int]);
                }
                return false;
            }
            i = i + 1;
        }
        proof {
            assert(self@ =~~= other@);
        }
        true
    }

    /// Whether `prefix` is an ancestor of this path, or the path itself.
    pub fn starts_with(&self, prefix: &AbsPath) -> (r: bool)
        ensures
            r == prefix@.is_prefix_of(self@),
    {
        let n = prefix.components.len();
        if n > self.components.len() {
            return false;
        }
        let mut i: usize = 0;
        while i < n
            invariant
                i <= n,
                n == prefix.components.len(),
                n <= self.components.len(),
                forall|k: int| 0 <= k < i ==> prefix@[k] == self@[k],
            decreases n - i,
        {
            let a = &prefix.components[i];
            let b = &self.components[i];
            if !(*a == *b) {
                proof {
                    assert(prefix@[i as int] != self@[i as int]);
                    assert(!(prefix@ =~= self@.subrange(0, n as int)));
                }
                return false;
            }
            i = i + 1;
        }
        proof {
            assert(prefix@ =~= self@.subrange(0, n as int));
        }
        true
    }

    /// The components of this path below the ancestor `prefix`; `None`
    /// when `prefix` is not an ancestor of (or equal to) this path.
    pub fn strip_prefix(&self, prefix: &AbsPath) -> (r: Option<Vec<String>>)
        ensures
            r is Some <==> prefix@.is_prefix_of(self@),
            r is Some ==> r->Some_0.deep_view() == self@.skip(prefix@.len() as int),
    {
        if !self.starts_with(prefix) {
            return None;
        }
        let n = prefix.components.len();
        let mut rest: Vec<String> = Vec::new();
        let mut i: usize = n;
        while i < self.components.len()
            invariant
                n <= i <= self.components.len(),
                rest@ == self.components@.subrange(n as int, i as int),
            decreases self.components.len() - i,
        {
            rest.push(self.components[i].clone());
            i = i + 1;
            proof {
                assert(rest@ =~= self.components@.subrange(n as int, i as int));
            }
        }
        proof {
            assert(rest@ =~= self.components@.skip(n as int));
            assert(rest.deep_view() =~~= self@.skip(n as int));
        }
        Some(rest)
    }

    /// Strict lexicographic comparison of two paths.
    pub fn lt_path(&self, other: &AbsPath) -> (r: bool)
        ensures
            r == path_lt(self@, other@),
    {
        let alen = self.components.len();
        let blen = other.components.len();
        let mut i: usize = 0;
        proof {
            assert(self@.skip(0) =~= self@);
            assert(other@.skip(0) =~= other@);
        }
        loop
            invariant
                i <= alen,
                i <= blen,
                alen == self.components.len(),
                blen == other.components.len(),
                path_lt(self@, other@) == path_lt(self@.skip(i as int), other@.skip(i as int)),
            decreases alen - i,
        {
            if i >= blen {
                proof {
                    assert(other@.skip(i as int).len() == 0);
                }
                return false;
            }
            if i >= alen {
                proof {
                    assert(self@.skip(i as int).len() == 0);
                }
                return true;
            }
            let a = &self.components[i];
            let b = &other.components[i];
            if *a == *b {
                proof {
                    lemma_path_lt_skip_step(self@, other@, i as int);
                }
                i = i + 1;
            } else {
                proof {
                    assert(self@.skip(i as int)[0] == a@);
                    assert(other@.skip(i as int)[0] == b@);
                }
                return str_lt(a.as_str(), b.as_str());
            }
        }
    }

    /// Non-strict lexicographic comparison of two paths.
    pub fn le_path(&self, other: &AbsPath) -> (r: bool)
        ensures
            r == path_le(self@, other@),
    {
        if self.eq_path(other) {
            true
        } else {
            self.lt_path(other)
        }
    }

    /// The textual form of the path: `/` followed by the components,
    /// separated by `/`; `/` alone for the root.
    pub fn to_display(&self) -> (r: String)
        ensures
            r@ == display_of(self@),
    {
        if self.components.len() == 0 {
            let r = "/".to_owned();
            proof {
                reveal_strlit("/");
                assert(r@ =~= seq!['/']);
            }
            return r;
        }
        let mut s = String::new();
        append_slash_join(&mut s, &self.components);
        proof {
            assert(s@ =~= slash_join(self@));
        }
        s
    }

    /// The display form of this path relative to the workspace root `ws`:
    /// `.` followed by the components below `ws` when `ws` encloses this
    /// path, and the absolute form otherwise.
    pub fn rel_display(&self, ws: &AbsPath) -> (r: String)
        ensures
            r@ == rel_display_of(self@, ws@),
    {
        match self.strip_prefix(ws) {
            Some(rest) => {
                let mut s = ".".to_owned();
                proof {
                    reveal_strlit(".");
                    assert(s@ =~= seq!['.']);
                }
                append_slash_join(&mut s, &rest);
                proof {
                    assert(s@ =~= seq!['.'] + slash_join(self@.skip(ws@.len() as int)));
                }
                s
            },
            None => self.to_display(),
        }
    }
}

/// The concatenation `/c1/c2.../cn` over the components of `p`.
pub open spec fn slash_join(p: Seq<Seq<char>>) -> Seq<char>
    decreases p.len(),
{
    if p.len() == 0 {
        Seq::empty()
    } else {
        seq!['/'] + p[0] + slash_join(p.drop_first())
    }
}

/// The textual form of an absolute path.
pub open spec fn display_of(p: Seq<Seq<char>>) -> Seq<char> {
    if p.len() == 0 {
        seq!['/']
    } else {
        slash_join(p)
    }
}

/// The display form of a member path relative to a workspace root: the
/// relative form below the root when nested, the absolute form otherwise.
pub open spec fn rel_display_of(member: Seq<Seq<char>>, ws: Seq<Seq<char>>) -> Seq<char> {
    if ws.is_prefix_of(member) {
        seq!['.'] + slash_join(member.skip(ws.len() as int))
    } else {
        display_of(member)
    }
}

pub proof fn lemma_slash_join_app(p: Seq<Seq<char>>, q: Seq<Seq<char>>)
    ensures
        slash_join(p + q) == slash_join(p) + slash_join(q),
    decreases p.len(),
{
    if p.len() == 0 {
        assert(p + q =~= q);
        assert(slash_join(p) + slash_join(q) =~= slash_join(q));
    } else {
        assert((p + q).drop_first() =~= p.drop_first() + q);
        lemma_slash_join_app(p.drop_first(), q);
        assert((p + q).len() > 0);
        assert((p + q)[0] == p[0]);
        assert(seq!['/'] + p[0] + (slash_join(p.drop_first()) + slash_join(q)) =~= (seq!['/']
            + p[0] + slash_join(p.drop_first())) + slash_join(q));
    }
}

/// Appends `/c` to `s` for each component `c` of `comps`.
fn append_slash_join(s: &mut String, comps: &Vec<String>)
    ensures
        final(s)@ == old(s)@ + slash_join(comps.deep_view()),
{
    let mut i: usize = 0;
    proof {
        assert(comps.deep_view().take(0) =~= Seq::<Seq<char>>::empty());
        assert(old(s)@ + slash_join(comps.deep_view().take(0)) =~= old(s)@);
    }
    while i < comps.len()
        invariant
            i <= comps.len(),
            s@ == old(s)@ + slash_join(comps.deep_view().take(i as int)),
        decreases comps.len() - i,
    {
        s.append("/");
        s.append(comps[i].as_str());
        proof {
            reveal_strlit("/");
            let dv = comps.deep_view();
            assert(dv.take(i + 1) =~= dv.take(i as int) + seq![dv[i as int]]);
            lemma_slash_join_app(dv.take(i as int), seq![dv[i as int]]);
            let single = seq![dv[i as int]];
            assert(single.drop_first() =~= Seq::<Seq<char>>::empty());
            assert(slash_join(Seq::<Seq<char>>::empty()) == Seq::<char>::empty());
            assert(slash_join(single) == seq!['/'] + single[0] + slash_join(single.drop_first()));
            assert(slash_join(single) =~= seq!['/'] + dv[i as int]);
            assert("/"@ =~= seq!['/']);
            assert(comps[i as int]@ == dv[i as int]);
            assert(s@ =~= old(s)@ + slash_join(dv.take(i + 1)));
        }
        i = i + 1;
    }
    proof {
        assert(comps.deep_view().take(comps.len() as int) =~= comps.deep_view());
    }
}

} // verus!
