//! Path manipulation utilities.
//!
//! Paths are handled as sequences of characters; every function is specified
//! over the character sequence of its argument.

use vstd::prelude::*;
use vstd::string::*;
use crate::text::is_prefix;

verus! {

/// `s` with every trailing `/` removed.
pub open spec fn trim_end_slashes(s: Seq<char>) -> Seq<char>
    decreases s.len(),
{
    if s.len() > 0 && s.last() == '/' {
        trim_end_slashes(s.drop_last())
    } else {
        s
    }
}

/// `s` with every leading `/` removed.
pub open spec fn trim_start_slashes(s: Seq<char>) -> Seq<char>
    decreases s.len(),
{
    if s.len() > 0 && s[0] == '/' {
        trim_start_slashes(s.drop_first())
    } else {
        s
    }
}

/// Position of the last occurrence of `c` in `s`.
pub open spec fn last_index_of(s: Seq<char>, c: char) -> Option<int>
    decreases s.len(),
{
    if s.len() == 0 {
        None
    } else if s.last() == c {
        Some(s.len() - 1)
    } else {
        last_index_of(s.drop_last(), c)
    }
}

/// The single-character sequence `/`.
pub open spec fn root_seq() -> Seq<char> {
    seq!['/']
}

/// The parent directory of a path: `/` for the root and for a path made of
/// slashes only.
pub open spec fn spec_parent(p: Seq<char>) -> Seq<char> {
    if p.len() == 0 || p == root_seq() {
        root_seq()
    } else {
        let t = trim_end_slashes(p);
        if t.len() == 0 {
            root_seq()
        } else {
            match last_index_of(t, '/') {
                Some(pos) => if pos == 0 {
                    root_seq()
                } else {
                    t.subrange(0, pos)
                },
                None => seq!['.'],
            }
        }
    }
}

/// The last component of a path.
pub open spec fn spec_basename(p: Seq<char>) -> Seq<char> {
    if p.len() == 0 || p == root_seq() {
        Seq::empty()
    } else {
        let t = trim_end_slashes(p);
        match last_index_of(t, '/') {
            Some(pos) => t.subrange(pos + 1, t.len() as int),
            None => t,
        }
    }
}

/// `base` and `path` joined by one `/`; an absolute `path` replaces `base`.
pub open spec fn spec_join(base: Seq<char>, path: Seq<char>) -> Seq<char> {
    if path.len() > 0 && path[0] == '/' {
        path
    } else if base.len() == 0 {
        path
    } else {
        trim_end_slashes(base) + root_seq() + trim_start_slashes(path)
    }
}

/// The components of `s` separated by `/`, the first one prefixed by `cur`
/// (`str::split('/')`).
pub open spec fn split_acc(s: Seq<char>, cur: Seq<char>) -> Seq<Seq<char>>
    decreases s.len(),
{
    if s.len() == 0 {
        seq![cur]
    } else if s[0] == '/' {
        seq![cur] + split_acc(s.drop_first(), Seq::empty())
    } else {
        split_acc(s.drop_first(), cur.push(s[0]))
    }
}

/// The components of `s` separated by `/`.
pub open spec fn split_slash(s: Seq<char>) -> Seq<Seq<char>> {
    split_acc(s, Seq::empty())
}

/// One step of normalisation: `""` and `"."` are skipped, `".."` drops the
/// last kept component (if any), anything else is kept.
pub open spec fn normalize_step(stack: Seq<Seq<char>>, comp: Seq<char>) -> Seq<Seq<char>> {
    if comp.len() == 0 || comp == seq!['.'] {
        stack
    } else if comp == seq!['.', '.'] {
        if stack.len() > 0 {
            stack.drop_last()
        } else {
            stack
        }
    } else {
        stack.push(comp)
    }
}

/// Normalisation of the components `comps`, starting from the kept components `stack`.
pub open spec fn normalize_components(stack: Seq<Seq<char>>, comps: Seq<Seq<char>>) -> Seq<
    Seq<char>,
>
    decreases comps.len(),
{
    if comps.len() == 0 {
        stack
    } else {
        normalize_components(normalize_step(stack, comps[0]), comps.drop_first())
    }
}

/// The components joined by `/`.
pub open spec fn join_slash(comps: Seq<Seq<char>>) -> Seq<char>
    decreases comps.len(),
{
    if comps.len() == 0 {
        Seq::empty()
    } else if comps.len() == 1 {
        comps[0]
    } else {
        join_slash(comps.drop_last()) + root_seq() + comps.last()
    }
}

/// The components that normalisation keeps of `p`.
pub open spec fn kept_components(p: Seq<char>) -> Seq<Seq<char>> {
    normalize_components(Seq::empty(), split_slash(p))
}

/// The normalised form of a path: `/` followed by the kept components.
pub open spec fn spec_normalize(p: Seq<char>) -> Seq<char> {
    let st = kept_components(p);
    if st.len() == 0 {
        root_seq()
    } else {
        root_seq() + join_slash(st)
    }
}

/// The extension of the last component of a path.
pub open spec fn spec_extension(p: Seq<char>) -> Option<Seq<char>> {
    let name = spec_basename(p);
    match last_index_of(name, '.') {
        Some(i) => if i > 0 {
            Some(name.subrange(i + 1, name.len() as int))
        } else {
            None
        },
        None => None,
    }
}

/// The last component of a path without its extension: a leading dot
/// starts no extension, so a dotfile is its own stem.
pub open spec fn spec_stem(p: Seq<char>) -> Seq<char> {
    let name = spec_basename(p);
    match last_index_of(name, '.') {
        Some(i) => if i > 0 {
            name.subrange(0, i)
        } else {
            name
        },
        None => name,
    }
}

/// The character sequences of a list of string slices.
pub open spec fn strs_view(v: Seq<&str>) -> Seq<Seq<char>> {
    v.map_values(|s: &str| s@)
}

/// Path utility functions.
pub struct Path;

/// Length of `s` with its trailing `/` removed.
pub(crate) fn trimmed_end_len(s: &str) -> (r: usize)
    ensures
        r <= s@.len(),
        s@.subrange(0, r as int) == trim_end_slashes(s@),
{
    let mut end = s.unicode_len();
    assert(s@.subrange(0, end as int) =~= s@);
    while end > 0 && s.get_char(end - 1) == '/'
        invariant
            end <= s@.len(),
            trim_end_slashes(s@) == trim_end_slashes(s@.subrange(0, end as int)),
        decreases end,
    {
        assert(s@.subrange(0, end as int).drop_last() =~= s@.subrange(0, end - 1));
        end = end - 1;
    }
    assert(s@.subrange(0, end as int) == trim_end_slashes(s@.subrange(0, end as int)));
    end
}

/// Number of leading `/` of `s`.
pub(crate) fn trimmed_start_len(s: &str) -> (r: usize)
    ensures
        r <= s@.len(),
        s@.subrange(r as int, s@.len() as int) == trim_start_slashes(s@),
{
    let n = s.unicode_len();
    let mut start: usize = 0;
    assert(s@.subrange(0, n as int) =~= s@);
    while start < n && s.get_char(start) == '/'
        invariant
            n == s@.len(),
            start <= n,
            trim_start_slashes(s@) == trim_start_slashes(s@.subrange(start as int, n as int)),
        decreases n - start,
    {
        assert(s@.subrange(start as int, n as int).drop_first() =~= s@.subrange(
            start + 1,
            n as int,
        ));
        start = start + 1;
    }
    assert(s@.subrange(start as int, n as int) == trim_start_slashes(
        s@.subrange(start as int, n as int),
    ));
    start
}

/// Last position before `end` where `s` holds `c`.
fn rfind_before(s: &str, end: usize, c: char) -> (r: Option<usize>)
    requires
        end <= s@.len(),
    ensures
        match r {
            Some(i) => last_index_of(s@.subrange(0, end as int), c) == Some(i as int),
            None => last_index_of(s@.subrange(0, end as int), c) is None,
        },
{
    let mut i = end;
    while i > 0
        invariant
            i <= end <= s@.len(),
            last_index_of(s@.subrange(0, end as int), c) == last_index_of(
                s@.subrange(0, i as int),
                c,
            ),
        decreases i,
    {
        if s.get_char(i - 1) == c {
            return Some(i - 1);
        }
        assert(s@.subrange(0, i as int).drop_last() =~= s@.subrange(0, i - 1));
        i = i - 1;
    }
    None
}

proof fn lemma_last_index_of(s: Seq<char>, c: char)
    ensures
        match last_index_of(s, c) {
            Some(i) => 0 <= i < s.len() && s[i] == c,
            None => forall|j: int| 0 <= j < s.len() ==> s[j] != c,
        },
    decreases s.len(),
{
    if s.len() > 0 && s.last() != c {
        lemma_last_index_of(s.drop_last(), c);
        if last_index_of(s, c) is None {
            assert forall|j: int| 0 <= j < s.len() implies s[j] != c by {
                if j < s.len() - 1 {
                    assert(s.drop_last()[j] == s[j]);
                }
            }
        }
    }
}

/// Whether `s` is exactly the one-character string `c`.
fn is_single(s: &str, c: char) -> (r: bool)
    ensures
        r == (s@ == seq![c]),
{
    let n = s.unicode_len();
    if n == 1 {
        let d = s.get_char(0);
        if d == c {
            assert(s@ =~= seq![c]);
            true
        } else {
            false
        }
    } else {
        false
    }
}

/// Whether `s` is exactly `..`.
fn is_dot_dot(s: &str) -> (r: bool)
    ensures
        r == (s@ == seq!['.', '.']),
{
    let n = s.unicode_len();
    if n == 2 {
        let a = s.get_char(0);
        let b = s.get_char(1);
        if a == '.' && b == '.' {
            assert(s@ =~= seq!['.', '.']);
            true
        } else {
            false
        }
    } else {
        false
    }
}

proof fn lemma_root_literal()
    ensures
        "/"@ == root_seq(),
        "."@ == seq!['.'],
        ""@ == Seq::<char>::empty(),
{
    reveal_strlit("/");
    reveal_strlit(".");
    reveal_strlit("");
    assert("/"@ =~= root_seq());
    assert("."@ =~= seq!['.']);
    assert(""@ =~= Seq::<char>::empty());
}

/// Applies one normalisation step to the kept components.
fn push_component<'a>(stack: &mut Vec<&'a str>, comp: &'a str)
    ensures
        strs_view(final(stack)@) == normalize_step(strs_view(old(stack)@), comp@),
{
    let n = comp.unicode_len();
    if n == 0 || is_single(comp, '.') {
        return;
    }
    if is_dot_dot(comp) {
        if stack.len() > 0 {
            stack.pop();
            assert(strs_view(stack@) =~= strs_view(old(stack)@).drop_last());
        }
        return;
    }
    stack.push(comp);
    assert(strs_view(stack@) =~= strs_view(old(stack)@).push(comp@));
}

proof fn lemma_normalize_components_cons(
    stack: Seq<Seq<char>>,
    x: Seq<char>,
    rest: Seq<Seq<char>>,
)
    ensures
        normalize_components(stack, seq![x] + rest) == normalize_components(
            normalize_step(stack, x),
            rest,
        ),
{
    let l = seq![x] + rest;
    assert(l[0] == x);
    assert(l.drop_first() =~= rest);
}

proof fn lemma_join_slash_prefix(comps: Seq<Seq<char>>, k: int)
    requires
        1 <= k < comps.len(),
    ensures
        join_slash(comps.subrange(0, k + 1)) == join_slash(comps.subrange(0, k)) + root_seq()
            + comps[k],
{
    let s = comps.subrange(0, k + 1);
    assert(s.drop_last() =~= comps.subrange(0, k));
}

impl Path {
    /// Get the parent directory of a path.
    pub fn parent(path: &str) -> (r: &str)
        ensures
            r@ == spec_parent(path@),
    {
        proof {
            lemma_root_literal();
        }
        let n = path.unicode_len();
        if n == 0 || is_single(path, '/') {
            return "/";
        }
        let end = trimmed_end_len(path);
        if end == 0 {
            return "/";
        }
        proof {
            lemma_last_index_of(path@.subrange(0, end as int), '/');
        }
        match rfind_before(path, end, '/') {
            Some(pos) => {
                if pos == 0 {
                    "/"
                } else {
                    let r = path.substring_char(0, pos);
                    assert(r@ =~= path@.subrange(0, end as int).subrange(0, pos as int));
                    r
                }
            },
            None => ".",
        }
    }

    /// Get the basename (last component) of a path.
    pub fn basename(path: &str) -> (r: &str)
        ensures
            r@ == spec_basename(path@),
    {
        proof {
            lemma_root_literal();
        }
        let n = path.unicode_len();
        if n == 0 || is_single(path, '/') {
            return "";
        }
        let end = trimmed_end_len(path);
        proof {
            lemma_last_index_of(path@.subrange(0, end as int), '/');
        }
        match rfind_before(path, end, '/') {
            Some(pos) => {
                let r = path.substring_char(pos + 1, end);
                assert(r@ =~= path@.subrange(0, end as int).subrange(pos + 1, end as int));
                r
            },
            None => {
                let r = path.substring_char(0, end);
                r
            },
        }
    }

    /// Join two path components.
    pub fn join(base: &str, path: &str) -> (r: String)
        ensures
            r@ == spec_join(base@, path@),
    {
        proof {
            lemma_root_literal();
        }
        let pn = path.unicode_len();
        if pn > 0 && path.get_char(0) == '/' {
            return String::from_str(path);
        }
        let bn = base.unicode_len();
        if bn == 0 {
            return String::from_str(path);
        }
        let bend = trimmed_end_len(base);
        let pstart = trimmed_start_len(path);
        let b = base.substring_char(0, bend);
        let p = path.substring_char(pstart, pn);
        let mut out = String::from_str(b);
        out.append("/");
        out.append(p);
        out
    }

    /// Normalize a path (remove `.` and `..` components).
    pub fn normalize(path: &str) -> (r: String)
        ensures
            r@ == spec_normalize(path@),
    {
        proof {
            lemma_root_literal();
        }
        let n = path.unicode_len();
        let mut stack: Vec<&str> = Vec::new();
        let mut start: usize = 0;
        let mut i: usize = 0;
        assert(path@.subrange(0, n as int) =~= path@);
        assert(path@.subrange(0, 0) =~= Seq::<char>::empty());
        assert(strs_view(stack@) =~= Seq::<Seq<char>>::empty());
        while i < n
            invariant
                n == path@.len(),
                start <= i <= n,
                kept_components(path@) == normalize_components(
                    strs_view(stack@),
                    split_acc(path@.subrange(i as int, n as int), path@.subrange(start as int, i as int)),
                ),
            decreases n - i,
        {
            let c = path.get_char(i);
            let ghost rest = path@.subrange(i as int, n as int);
            let ghost cur = path@.subrange(start as int, i as int);
            assert(rest.drop_first() =~= path@.subrange(i + 1, n as int));
            if c == '/' {
                let comp = path.substring_char(start, i);
                proof {
                    lemma_normalize_components_cons(
                        strs_view(stack@),
                        cur,
                        split_acc(path@.subrange(i + 1, n as int), Seq::empty()),
                    );
                }
                push_component(&mut stack, comp);
                start = i + 1;
                assert(path@.subrange(start as int, i + 1) =~= Seq::<char>::empty());
            } else {
                assert(cur.push(c) =~= path@.subrange(start as int, i + 1));
            }
            i = i + 1;
        }
        let comp = path.substring_char(start, n);
        proof {
            let cur = path@.subrange(start as int, n as int);
            assert(path@.subrange(n as int, n as int) =~= Seq::<char>::empty());
            assert(split_acc(Seq::<char>::empty(), cur) == seq![cur]);
            assert(seq![cur] =~= seq![cur] + Seq::<Seq<char>>::empty());
            lemma_normalize_components_cons(strs_view(stack@), cur, Seq::empty());
        }
        push_component(&mut stack, comp);
        let ghost st = strs_view(stack@);
        assert(st == kept_components(path@));
        let len = stack.len();
        if len == 0 {
            return String::from_str("/");
        }
        let mut out = String::from_str("/");
        out.append(stack[0]);
        assert(st.subrange(0, 1) =~= seq![st[0]]);
        let mut k: usize = 1;
        while k < len
            invariant
                len == stack@.len(),
                st == strs_view(stack@),
                1 <= k <= len,
                out@ == root_seq() + join_slash(st.subrange(0, k as int)),
            decreases len - k,
        {
            proof {
                lemma_join_slash_prefix(st, k as int);
                lemma_root_literal();
            }
            let ghost before = out@;
            out.append("/");
            out.append(stack[k]);
            assert(stack@[k as int]@ == st[k as int]);
            assert(out@ =~= before + root_seq() + st[k as int]);
            assert(out@ =~= root_seq() + join_slash(st.subrange(0, k + 1)));
            k = k + 1;
        }
        assert(st.subrange(0, len as int) =~= st);
        out
    }

    /// Check if a path is absolute.
    pub fn is_absolute(path: &str) -> (r: bool)
        ensures
            r == (path@.len() > 0 && path@[0] == '/'),
    {
        let n = path.unicode_len();
        n > 0 && path.get_char(0) == '/'
    }

    /// Get the extension of a filename.
    pub fn extension(path: &str) -> (r: Option<&str>)
        ensures
            match r {
                Some(e) => spec_extension(path@) == Some(e@),
                None => spec_extension(path@) is None,
            },
    {
        let name = Self::basename(path);
        let n = name.unicode_len();
        assert(name@.subrange(0, n as int) =~= name@);
        proof {
            lemma_last_index_of(name@, '.');
        }
        match rfind_before(name, n, '.') {
            Some(i) => {
                if i > 0 {
                    Some(name.substring_char(i + 1, n))
                } else {
                    None
                }
            },
            None => None,
        }
    }

    /// Get the stem (filename without extension).
    pub fn stem(path: &str) -> (r: &str)
        ensures
            r@ == spec_stem(path@),
    {
        let name = Self::basename(path);
        let n = name.unicode_len();
        assert(name@.subrange(0, n as int) =~= name@);
        proof {
            lemma_last_index_of(name@, '.');
        }
        match rfind_before(name, n, '.') {
            Some(i) => {
                if i > 0 {
                    name.substring_char(0, i)
                } else {
                    name
                }
            },
            None => name,
        }
    }
}

/// `c` holds no `/`.
pub open spec fn no_slash(c: Seq<char>) -> bool {
    forall|i: int| 0 <= i < c.len() ==> c[i] != '/'
}

/// A component that normalisation keeps as it is: not empty, not `.` or
/// `..`, without `/`.
pub open spec fn plain_component(c: Seq<char>) -> bool {
    &&& c.len() > 0
    &&& c != seq!['.']
    &&& c != seq!['.', '.']
    &&& no_slash(c)
}

proof fn lemma_split_no_slash(a: Seq<char>, cur: Seq<char>)
    requires
        no_slash(a),
    ensures
        split_acc(a, cur) == seq![cur + a],
    decreases a.len(),
{
    if a.len() == 0 {
        assert(cur + a =~= cur);
    } else {
        assert(a[0] != '/');
        assert(no_slash(a.drop_first()));
        lemma_split_no_slash(a.drop_first(), cur.push(a[0]));
        assert(cur.push(a[0]) + a.drop_first() =~= cur + a);
    }
}

proof fn lemma_split_append(s: Seq<char>, y: Seq<char>, cur: Seq<char>)
    requires
        no_slash(y),
    ensures
        split_acc(s + root_seq() + y, cur) == split_acc(s, cur) + seq![y],
    decreases s.len(),
{
    let t = s + root_seq() + y;
    if s.len() == 0 {
        assert(t[0] == '/');
        assert(t.drop_first() =~= y);
        lemma_split_no_slash(y, Seq::empty());
        assert(Seq::<char>::empty() + y =~= y);
        assert(seq![cur] + seq![y] =~= seq![cur, y]);
        assert(split_acc(s, cur) == seq![cur]);
    } else {
        assert(t[0] == s[0]);
        assert(t.drop_first() =~= s.drop_first() + root_seq() + y);
        if s[0] == '/' {
            lemma_split_append(s.drop_first(), y, Seq::empty());
            assert(seq![cur] + (split_acc(s.drop_first(), Seq::empty()) + seq![y]) =~= (seq![cur]
                + split_acc(s.drop_first(), Seq::empty())) + seq![y]);
        } else {
            lemma_split_append(s.drop_first(), y, cur.push(s[0]));
        }
    }
}

proof fn lemma_split_join(comps: Seq<Seq<char>>)
    requires
        comps.len() > 0,
        forall|i: int| 0 <= i < comps.len() ==> no_slash(#[trigger] comps[i]),
    ensures
        split_acc(join_slash(comps), Seq::empty()) == comps,
    decreases comps.len(),
{
    if comps.len() == 1 {
        lemma_split_no_slash(comps[0], Seq::empty());
        assert(Seq::<char>::empty() + comps[0] =~= comps[0]);
        assert(seq![comps[0]] =~= comps);
    } else {
        let init = comps.drop_last();
        assert forall|i: int| 0 <= i < init.len() implies no_slash(#[trigger] init[i]) by {
            assert(init[i] == comps[i]);
        }
        lemma_split_join(init);
        assert(no_slash(comps[comps.len() - 1]));
        lemma_split_append(join_slash(init), comps.last(), Seq::empty());
        assert(init + seq![comps.last()] =~= comps);
    }
}

proof fn lemma_split_parts_no_slash(s: Seq<char>, cur: Seq<char>)
    requires
        no_slash(cur),
    ensures
        forall|i: int| 0 <= i < split_acc(s, cur).len() ==> no_slash(#[trigger] split_acc(s, cur)[i]),
    decreases s.len(),
{
    if s.len() == 0 {
        assert(split_acc(s, cur) == seq![cur]);
    } else if s[0] == '/' {
        lemma_split_parts_no_slash(s.drop_first(), Seq::empty());
        let rest = split_acc(s.drop_first(), Seq::empty());
        assert forall|i: int| 0 <= i < split_acc(s, cur).len() implies no_slash(#[trigger] split_acc(s, cur)[i]) by {
            if i > 0 {
                assert(split_acc(s, cur)[i] == rest[i - 1]);
            }
        }
    } else {
        assert(no_slash(cur.push(s[0])));
        lemma_split_parts_no_slash(s.drop_first(), cur.push(s[0]));
        assert(split_acc(s, cur) == split_acc(s.drop_first(), cur.push(s[0])));
    }
}

proof fn lemma_normalize_plain(stack: Seq<Seq<char>>, comps: Seq<Seq<char>>)
    requires
        forall|i: int| 0 <= i < stack.len() ==> plain_component(#[trigger] stack[i]),
        forall|i: int| 0 <= i < comps.len() ==> no_slash(#[trigger] comps[i]),
    ensures
        forall|i: int|
            0 <= i < normalize_components(stack, comps).len() ==> plain_component(
                #[trigger] normalize_components(stack, comps)[i],
            ),
    decreases comps.len(),
{
    if comps.len() == 0 {
        assert(normalize_components(stack, comps) == stack);
    } else {
        let next = normalize_step(stack, comps[0]);
        assert(no_slash(comps[0]));
        assert forall|i: int| 0 <= i < next.len() implies plain_component(#[trigger] next[i]) by {
            if i < stack.len() {
                assert(next[i] == stack[i]);
            }
        }
        assert forall|i: int| 0 <= i < comps.drop_first().len() implies no_slash(#[trigger] comps.drop_first()[i]) by {
            assert(comps.drop_first()[i] == comps[i + 1]);
        }
        lemma_normalize_plain(next, comps.drop_first());
        assert(normalize_components(stack, comps) == normalize_components(next, comps.drop_first()));
    }
}

proof fn lemma_normalize_keeps_plain(stack: Seq<Seq<char>>, comps: Seq<Seq<char>>)
    requires
        forall|i: int| 0 <= i < comps.len() ==> plain_component(#[trigger] comps[i]),
    ensures
        normalize_components(stack, comps) == stack + comps,
    decreases comps.len(),
{
    if comps.len() == 0 {
        assert(stack + comps =~= stack);
    } else {
        assert(plain_component(comps[0]));
        assert forall|i: int| 0 <= i < comps.drop_first().len() implies plain_component(#[trigger] comps.drop_first()[i]) by {
            assert(comps.drop_first()[i] == comps[i + 1]);
        }
        lemma_normalize_keeps_plain(stack.push(comps[0]), comps.drop_first());
        assert(stack.push(comps[0]) + comps.drop_first() =~= stack + comps);
    }
}

/// Every component that normalisation keeps is plain.
pub proof fn lemma_kept_components_plain(p: Seq<char>)
    ensures
        forall|i: int| 0 <= i < kept_components(p).len() ==> plain_component(#[trigger] kept_components(p)[i]),
{
    lemma_split_parts_no_slash(p, Seq::empty());
    lemma_normalize_plain(Seq::empty(), split_slash(p));
}

/// A normalised path is absolute.
pub proof fn lemma_normalize_absolute(p: Seq<char>)
    ensures
        spec_normalize(p).len() > 0,
        spec_normalize(p)[0] == '/',
{
}

/// Normalising a normalised path changes nothing.
pub proof fn lemma_normalize_idempotent(p: Seq<char>)
    ensures
        spec_normalize(spec_normalize(p)) == spec_normalize(p),
{
    let comps = kept_components(p);
    let q = spec_normalize(p);
    lemma_kept_components_plain(p);
    if comps.len() == 0 {
        assert(q == root_seq());
        assert(q[0] == '/');
        assert(q.drop_first() =~= Seq::<char>::empty());
        assert(split_slash(q) == seq![Seq::<char>::empty()] + split_acc(Seq::<char>::empty(), Seq::<char>::empty()));
        assert(split_slash(q) =~= seq![Seq::<char>::empty(), Seq::<char>::empty()]);
        let ss = split_slash(q);
        let e = Seq::<Seq<char>>::empty();
        assert(normalize_step(e, Seq::<char>::empty()) == e);
        assert(ss.drop_first() =~= seq![Seq::<char>::empty()]);
        assert(ss.drop_first().drop_first() =~= e);
        assert(normalize_components(e, ss.drop_first().drop_first()) == e);
        assert(normalize_components(e, ss.drop_first()) == normalize_components(e, ss.drop_first().drop_first()));
        assert(normalize_components(e, ss) == normalize_components(e, ss.drop_first()));
        assert(kept_components(q) =~= e);
    } else {
        assert forall|i: int| 0 <= i < comps.len() implies no_slash(#[trigger] comps[i]) by {
            assert(plain_component(comps[i]));
        }
        lemma_split_join(comps);
        assert(q[0] == '/');
        assert(q.drop_first() =~= join_slash(comps));
        let ss = split_slash(q);
        assert(ss == seq![Seq::<char>::empty()] + comps);
        assert(ss[0] == Seq::<char>::empty());
        assert(ss.drop_first() =~= comps);
        assert(normalize_components(Seq::empty(), ss) == normalize_components(Seq::empty(), comps));
        lemma_normalize_keeps_plain(Seq::empty(), comps);
        assert(Seq::<Seq<char>>::empty() + comps =~= comps);
        assert(kept_components(q) == comps);
    }
}

/// A normalised path is in canonical form: it is `/`, or `/` followed by
/// plain components (not empty, not `.` or `..`) separated by single
/// slashes, with no slash at the end; and normalising it again changes
/// nothing.
pub proof fn lemma_normalize_canonical(p: Seq<char>)
    ensures
        spec_normalize(p).len() > 0,
        spec_normalize(p)[0] == '/',
        spec_normalize(p) == root_seq() || {
            &&& spec_normalize(p).last() != '/'
            &&& forall|i: int|
                0 <= i < split_slash(spec_normalize(p).drop_first()).len() ==> plain_component(
                    #[trigger] split_slash(spec_normalize(p).drop_first())[i],
                )
        },
        spec_normalize(spec_normalize(p)) == spec_normalize(p),
{
    let comps = kept_components(p);
    let q = spec_normalize(p);
    lemma_kept_components_plain(p);
    lemma_normalize_idempotent(p);
    if comps.len() > 0 {
        assert forall|i: int| 0 <= i < comps.len() implies no_slash(#[trigger] comps[i]) by {
            assert(plain_component(comps[i]));
        }
        lemma_split_join(comps);
        assert(q.drop_first() =~= join_slash(comps));
        let c = comps.last();
        assert(plain_component(comps[comps.len() - 1]));
        assert(c.len() > 0 && c[c.len() - 1] != '/');
        if comps.len() == 1 {
            assert(join_slash(comps) == c);
        } else {
            let head = join_slash(comps.drop_last()) + root_seq();
            assert(join_slash(comps) == head + c);
            assert((head + c).last() == c.last());
        }
        assert(q.last() == join_slash(comps).last());
    }
}

proof fn lemma_trim_end_prefix(s: Seq<char>)
    ensures
        trim_end_slashes(s).len() <= s.len(),
        trim_end_slashes(s) == s.subrange(0, trim_end_slashes(s).len() as int),
        trim_end_slashes(s).len() > 0 ==> trim_end_slashes(s).last() != '/',
    decreases s.len(),
{
    if s.len() > 0 && s.last() == '/' {
        lemma_trim_end_prefix(s.drop_last());
        let t = trim_end_slashes(s.drop_last());
        assert(s.drop_last().subrange(0, t.len() as int) =~= s.subrange(0, t.len() as int));
    } else {
        assert(s.subrange(0, s.len() as int) =~= s);
    }
}

/// The extension and the stem split the last component at its last dot:
/// with an extension, stem, `.` and extension give the component back;
/// without one (no dot, or only a leading one), the stem is the component.
pub proof fn lemma_stem_extension(p: Seq<char>)
    ensures
        match spec_extension(p) {
            Some(e) => spec_stem(p) + seq!['.'] + e == spec_basename(p),
            None => spec_stem(p) == spec_basename(p),
        },
{
    let name = spec_basename(p);
    lemma_last_index_of(name, '.');
    match last_index_of(name, '.') {
        Some(i) => {
            if i > 0 {
                assert(name.subrange(0, i) + seq!['.'] + name.subrange(i + 1, name.len() as int)
                    =~= name);
            }
        },
        None => {},
    }
}

/// The parent of an absolute path is absolute, and it is the root or a
/// proper prefix of the path that stops just before a `/`.
pub proof fn lemma_parent_of_absolute(p: Seq<char>)
    requires
        p.len() > 0,
        p[0] == '/',
    ensures
        spec_parent(p).len() > 0,
        spec_parent(p)[0] == '/',
        spec_parent(p) == root_seq() || ({
            let r = spec_parent(p);
            &&& is_prefix(r, p)
            &&& r.len() < p.len()
            &&& p[r.len() as int] == '/'
        }),
{
    if p == root_seq() {
    } else {
        let t = trim_end_slashes(p);
        lemma_trim_end_prefix(p);
        if t.len() > 0 {
            assert(t[0] == p[0]);
            lemma_last_index_of(t, '/');
            let o = last_index_of(t, '/');
            assert(o is Some) by {
                if o is None {
                    assert(t[0] != '/');
                }
            }
            let pos = o->0;
            if pos > 0 {
                let r = t.subrange(0, pos);
                assert(r[0] == t[0]);
                assert(p.subrange(0, r.len() as int) =~= r);
                assert(p[pos] == t[pos]);
            }
        }
    }
}

/// Joining a path's parent and its last component gives the path back
/// without its trailing slashes, when that path holds a `/` and never two
/// in a row.
pub proof fn lemma_join_parent_basename(p: Seq<char>)
    requires
        exists|i: int| 0 <= i < trim_end_slashes(p).len() && trim_end_slashes(p)[i] == '/',
        forall|i: int|
            0 <= i < trim_end_slashes(p).len() - 1 ==> !(#[trigger] trim_end_slashes(p)[i] == '/'
                && trim_end_slashes(p)[i + 1] == '/'),
    ensures
        spec_join(spec_parent(p), spec_basename(p)) == trim_end_slashes(p),
{
    let q = trim_end_slashes(p);
    lemma_trim_end_prefix(p);
    assert(q.len() > 0);
    assert(p.len() > 0);
    if p == root_seq() {
        assert(p.drop_last() =~= Seq::<char>::empty());
        assert(q == trim_end_slashes(p.drop_last()));
        assert(false);
    }
    lemma_last_index_of(q, '/');
    let o = last_index_of(q, '/');
    let w = choose|i: int| 0 <= i < q.len() && q[i] == '/';
    assert(o is Some) by {
        if o is None {
            assert(q[w] != '/');
        }
    }
    let pos = o->0;
    assert(q.last() != '/');
    assert(pos < q.len() - 1);
    let b = q.subrange(pos + 1, q.len() as int);
    assert(spec_basename(p) == b);
    assert(b.len() > 0 && b[0] != '/') by {
        assert(b[0] == q[pos + 1]);
        assert(pos + 1 != pos);
        if q[pos + 1] == '/' {
            lemma_last_index_of_max(q, '/', pos + 1);
        }
    }
    assert(trim_start_slashes(b) == b);
    if pos == 0 {
        assert(spec_parent(p) == root_seq());
        assert(root_seq().drop_last() =~= Seq::<char>::empty());
        assert(trim_end_slashes(root_seq()) == trim_end_slashes(Seq::<char>::empty()));
        assert(Seq::<char>::empty() + root_seq() + b =~= q);
    } else {
        let par = q.subrange(0, pos);
        assert(spec_parent(p) == par);
        assert(par.last() == q[pos - 1]);
        assert(q[pos - 1] != '/') by {
            if q[pos - 1] == '/' {
                assert(!(q[pos - 1] == '/' && q[(pos - 1) + 1] == '/'));
            }
        }
        assert(trim_end_slashes(par) == par);
        assert(par + root_seq() + b =~= q);
    }
}

/// No occurrence of `c` lies after its last one.
proof fn lemma_last_index_of_max(s: Seq<char>, c: char, j: int)
    requires
        0 <= j < s.len(),
        s[j] == c,
    ensures
        last_index_of(s, c) matches Some(i) && j <= i,
    decreases s.len(),
{
    if s.last() != c {
        assert(s.drop_last()[j] == s[j]);
        lemma_last_index_of_max(s.drop_last(), c, j);
    }
}

} // verus!
