//! Byte-level model of Unix paths.
//!
//! A path is a sequence of bytes. A component is a maximal run of bytes
//! between `/` separators; repeated separators are empty and dropped, and a
//! `.` component is dropped unless it stands at the very start of a relative
//! path. The spec functions here define the last component, the parent, the
//! stem and the component list; the executable functions are proved to
//! compute exactly those.

use vstd::prelude::*;

verus! {

/// The path separator byte `/`.
pub const SEP_BYTE: u8 = 47;

/// The `.` byte.
pub const DOT_BYTE: u8 = 46;

/// Length of `s[..n]` once trailing separators and trailing `.` components
/// are removed. A trailing `.` counts as a component when it is preceded by
/// a separator or stands alone.
pub open spec fn trim_end(s: Seq<u8>, n: int) -> int
    decreases n,
{
    if n <= 0 {
        0
    } else if s[n - 1] == SEP_BYTE {
        trim_end(s, n - 1)
    } else if s[n - 1] == DOT_BYTE && (n == 1 || s[n - 2] == SEP_BYTE) {
        trim_end(s, n - 1)
    } else {
        n
    }
}

pub proof fn lemma_trim_end_bounds(s: Seq<u8>, n: int)
    requires
        n >= 0,
    ensures
        0 <= trim_end(s, n) <= n,
    decreases n,
{
    if n <= 0 {
    } else if s[n - 1] == SEP_BYTE {
        lemma_trim_end_bounds(s, n - 1);
    } else if s[n - 1] == DOT_BYTE && (n == 1 || s[n - 2] == SEP_BYTE) {
        lemma_trim_end_bounds(s, n - 1);
    }
}

/// Index of the last separator strictly below `n`, or `-1` if there is none.
pub open spec fn last_sep(s: Seq<u8>, n: int) -> int
    decreases n,
{
    if n <= 0 {
        -1
    } else if s[n - 1] == SEP_BYTE {
        n - 1
    } else {
        last_sep(s, n - 1)
    }
}

pub proof fn lemma_last_sep_bounds(s: Seq<u8>, n: int)
    requires
        n >= 0,
    ensures
        -1 <= last_sep(s, n) < n,
    decreases n,
{
    if n <= 0 {
    } else if s[n - 1] == SEP_BYTE {
    } else {
        lemma_last_sep_bounds(s, n - 1);
    }
}

/// Like `trim_end`, but keeps a `.` component that stands at index 0: used
/// when cutting a parent, where a leading `.` component is a real component.
pub open spec fn trim_head_end(s: Seq<u8>, n: int) -> int
    decreases n,
{
    if n <= 0 {
        0
    } else if s[n - 1] == SEP_BYTE {
        trim_head_end(s, n - 1)
    } else if s[n - 1] == DOT_BYTE && n >= 2 && s[n - 2] == SEP_BYTE {
        trim_head_end(s, n - 1)
    } else {
        n
    }
}

pub proof fn lemma_trim_head_end_bounds(s: Seq<u8>, n: int)
    requires
        n >= 0,
    ensures
        0 <= trim_head_end(s, n) <= n,
    decreases n,
{
    if n <= 0 {
    } else if s[n - 1] == SEP_BYTE {
        lemma_trim_head_end_bounds(s, n - 1);
    } else if s[n - 1] == DOT_BYTE && n >= 2 && s[n - 2] == SEP_BYTE {
        lemma_trim_head_end_bounds(s, n - 1);
    }
}

/// The last component of the path, if it has one. The root, the empty path,
/// a path of separators and `.` components only, and a path ending in a
/// `..` component have none.
pub open spec fn file_name_opt(s: Seq<u8>) -> Option<Seq<u8>> {
    let n = trim_end(s, s.len() as int);
    if n == 0 {
        None
    } else {
        let j = last_sep(s, n);
        let seg = s.subrange(j + 1, n);
        if seg == seq![DOT_BYTE, DOT_BYTE] {
            None
        } else {
            Some(seg)
        }
    }
}

/// Length of the parent prefix of the path, or `None` when the path has no
/// parent (the empty path and the root). `Some(0)` is the empty parent of a
/// single relative component.
pub open spec fn parent_len(s: Seq<u8>) -> Option<int> {
    let n = trim_end(s, s.len() as int);
    if n == 0 {
        if s.len() == 0 || s[0] == SEP_BYTE {
            None
        } else {
            Some(0)
        }
    } else {
        let j = last_sep(s, n);
        if j == -1 {
            Some(0)
        } else {
            let h = trim_head_end(s, j);
            if h == 0 {
                if s[0] == SEP_BYTE {
                    Some(1)
                } else {
                    Some(0)
                }
            } else {
                Some(h)
            }
        }
    }
}

/// The last component, with the whole path as the fallback.
pub open spec fn basename_spec(s: Seq<u8>) -> Seq<u8> {
    match file_name_opt(s) {
        Some(seg) => seg,
        None => s,
    }
}

/// The parent of the path; `.` when the parent is empty; the path itself
/// when it has no parent.
pub open spec fn dirname_spec(s: Seq<u8>) -> Seq<u8> {
    match parent_len(s) {
        None => s,
        Some(k) => if k == 0 {
            seq![DOT_BYTE]
        } else {
            s.subrange(0, k)
        },
    }
}

/// Index of the last `.` strictly below `n`, or `-1` if there is none.
pub open spec fn last_dot(s: Seq<u8>, n: int) -> int
    decreases n,
{
    if n <= 0 {
        -1
    } else if s[n - 1] == DOT_BYTE {
        n - 1
    } else {
        last_dot(s, n - 1)
    }
}

pub proof fn lemma_last_dot_bounds(s: Seq<u8>, n: int)
    requires
        n >= 0,
    ensures
        -1 <= last_dot(s, n) < n,
    decreases n,
{
    if n <= 0 {
    } else if s[n - 1] == DOT_BYTE {
    } else {
        lemma_last_dot_bounds(s, n - 1);
    }
}

/// The stem of the last component: the component up to its last `.`, or the
/// whole component when the only `.` leads it or there is none. Falls back
/// to the whole path when there is no last component.
pub open spec fn stem_spec(s: Seq<u8>) -> Seq<u8> {
    match file_name_opt(s) {
        None => s,
        Some(name) => {
            let d = last_dot(name, name.len() as int);
            if d <= 0 {
                name
            } else {
                name.subrange(0, d)
            }
        },
    }
}

/// Joining `b` onto `a`: an absolute `b` replaces `a`; otherwise the two are
/// glued with a single separator.
pub open spec fn join_spec(a: Seq<u8>, b: Seq<u8>) -> Seq<u8> {
    if b.len() > 0 && b[0] == SEP_BYTE {
        b
    } else if a.len() == 0 {
        b
    } else if a[a.len() - 1] == SEP_BYTE {
        a + b
    } else {
        a + seq![SEP_BYTE] + b
    }
}

/// First index at or after `i` that does not hold a separator.
pub open spec fn skip_seps(s: Seq<u8>, i: int) -> int
    decreases s.len() - i,
{
    if i < s.len() && s[i] == SEP_BYTE {
        skip_seps(s, i + 1)
    } else {
        i
    }
}

pub proof fn lemma_skip_seps_bounds(s: Seq<u8>, i: int)
    requires
        0 <= i <= s.len(),
    ensures
        i <= skip_seps(s, i) <= s.len(),
    decreases s.len() - i,
{
    if i < s.len() && s[i] == SEP_BYTE {
        lemma_skip_seps_bounds(s, i + 1);
    }
}

/// Dropping one leading `.` component, separators included.
pub open spec fn strip_cur_spec(s: Seq<u8>) -> Seq<u8> {
    if s.len() > 0 && s[0] == DOT_BYTE && (s.len() == 1 || s[1] == SEP_BYTE) {
        s.subrange(skip_seps(s, 1), s.len() as int)
    } else {
        s
    }
}

/// The path without the extension of its last component: the parent joined
/// with the stem, a leading `.` component dropped.
pub open spec fn remove_extension_spec(s: Seq<u8>) -> Seq<u8> {
    strip_cur_spec(join_spec(dirname_spec(s), stem_spec(s)))
}

/// Copy of `s[i..j]`.
pub fn subvec(s: &Vec<u8>, i: usize, j: usize) -> (r: Vec<u8>)
    requires
        i <= j <= s@.len(),
    ensures
        r@ == s@.subrange(i as int, j as int),
{
    let mut r: Vec<u8> = Vec::new();
    let mut k: usize = i;
    while k < j
        invariant
            i <= k <= j <= s@.len(),
            r@ == s@.subrange(i as int, k as int),
        decreases j - k,
    {
        r.push(s[k]);
        proof {
            assert(r@ =~= s@.subrange(i as int, k + 1 as int));
        }
        k = k + 1;
    }
    r
}

/// Appends all of `src` to `dst`.
pub fn append_bytes(dst: &mut Vec<u8>, src: &Vec<u8>)
    ensures
        final(dst)@ == old(dst)@ + src@,
{
    let mut k: usize = 0;
    while k < src.len()
        invariant
            k <= src@.len(),
            dst@ == old(dst)@ + src@.subrange(0, k as int),
        decreases src@.len() - k,
    {
        dst.push(src[k]);
        proof {
            assert(dst@ =~= old(dst)@ + src@.subrange(0, k + 1 as int));
        }
        k = k + 1;
    }
    proof {
        assert(dst@ =~= old(dst)@ + src@);
    }
}

/// Length of the path once trailing separators and `.` components are gone.
fn trim_junk_end(s: &Vec<u8>) -> (n: usize)
    ensures
        n as int == trim_end(s@, s@.len() as int),
        n <= s@.len(),
{
    let mut n: usize = s.len();
    while n > 0 && (s[n - 1] == SEP_BYTE || (s[n - 1] == DOT_BYTE && (n == 1 || s[n - 2]
        == SEP_BYTE)))
        invariant
            n <= s@.len(),
            trim_end(s@, s@.len() as int) == trim_end(s@, n as int),
        decreases n,
    {
        n = n - 1;
    }
    n
}

/// Start of the last component of `s[..n]`: one past the last separator.
fn seg_start(s: &Vec<u8>, n: usize) -> (j: usize)
    requires
        n <= s@.len(),
    ensures
        j as int == last_sep(s@, n as int) + 1,
        j <= n,
{
    proof {
        lemma_last_sep_bounds(s@, n as int);
    }
    let mut j: usize = n;
    while j > 0 && s[j - 1] != SEP_BYTE
        invariant
            j <= n <= s@.len(),
            last_sep(s@, n as int) == last_sep(s@, j as int),
        decreases j,
    {
        j = j - 1;
    }
    j
}

/// End of the parent prefix of `s[..j]`, a leading `.` component kept.
fn head_end(s: &Vec<u8>, j: usize) -> (h: usize)
    requires
        j <= s@.len(),
    ensures
        h as int == trim_head_end(s@, j as int),
        h <= j,
{
    let mut h: usize = j;
    while h > 0 && (s[h - 1] == SEP_BYTE || (s[h - 1] == DOT_BYTE && h >= 2 && s[h - 2]
        == SEP_BYTE))
        invariant
            h <= j <= s@.len(),
            trim_head_end(s@, j as int) == trim_head_end(s@, h as int),
        decreases h,
    {
        h = h - 1;
    }
    h
}

/// The last component of the path; the whole path when it has none.
pub fn basename(p: &Vec<u8>) -> (r: Vec<u8>)
    ensures
        r@ == basename_spec(p@),
{
    let n = trim_junk_end(p);
    if n == 0 {
        proof {
            assert(p@.subrange(0, p@.len() as int) =~= p@);
        }
        subvec(p, 0, p.len())
    } else {
        let j = seg_start(p, n);
        let seg = subvec(p, j, n);
        if seg.len() == 2 && seg[0] == DOT_BYTE && seg[1] == DOT_BYTE {
            proof {
                assert(seg@ =~= seq![DOT_BYTE, DOT_BYTE]);
                assert(p@.subrange(0, p@.len() as int) =~= p@);
            }
            subvec(p, 0, p.len())
        } else {
            seg
        }
    }
}

/// The parent of the path; `.` for an empty parent; the path itself when it
/// has no parent.
pub fn dirname(p: &Vec<u8>) -> (r: Vec<u8>)
    ensures
        r@ == dirname_spec(p@),
{
    let n = trim_junk_end(p);
    if n == 0 {
        if p.len() == 0 || p[0] == SEP_BYTE {
            proof {
                assert(p@.subrange(0, p@.len() as int) =~= p@);
            }
            subvec(p, 0, p.len())
        } else {
            let mut r: Vec<u8> = Vec::new();
            r.push(DOT_BYTE);
            proof {
                assert(r@ =~= seq![DOT_BYTE]);
            }
            r
        }
    } else {
        let j = seg_start(p, n);
        if j == 0 {
            let mut r: Vec<u8> = Vec::new();
            r.push(DOT_BYTE);
            proof {
                assert(r@ =~= seq![DOT_BYTE]);
            }
            r
        } else {
            let h = head_end(p, j - 1);
            if h == 0 {
                if p[0] == SEP_BYTE {
                    subvec(p, 0, 1)
                } else {
                    let mut r: Vec<u8> = Vec::new();
                    r.push(DOT_BYTE);
                    proof {
                        assert(r@ =~= seq![DOT_BYTE]);
                    }
                    r
                }
            } else {
                subvec(p, 0, h)
            }
        }
    }
}

/// End of the component that starts at `i`: the first index at or after `i`
/// holding a separator, or the end of the path.
pub open spec fn next_sep(s: Seq<u8>, i: int) -> int
    decreases s.len() - i,
{
    if i < s.len() && s[i] != SEP_BYTE {
        next_sep(s, i + 1)
    } else {
        i
    }
}

pub proof fn lemma_next_sep_bounds(s: Seq<u8>, i: int)
    requires
        0 <= i <= s.len(),
    ensures
        i <= next_sep(s, i) <= s.len(),
    decreases s.len() - i,
{
    if i < s.len() && s[i] != SEP_BYTE {
        lemma_next_sep_bounds(s, i + 1);
    }
}

/// The component list of `s[i..]`: maximal runs between separators, empty
/// runs dropped, and a `.` component dropped unless it stands at the very
/// start of the path.
pub open spec fn components_from(s: Seq<u8>, i: int) -> Seq<Seq<u8>>
    decreases s.len() - i,
        when 0 <= i <= s.len()
        via components_from_decreases
{
    if i >= s.len() {
        Seq::empty()
    } else if s[i] == SEP_BYTE {
        components_from(s, i + 1)
    } else {
        let j = next_sep(s, i);
        let seg = s.subrange(i, j);
        let rest = components_from(s, j);
        if seg == seq![DOT_BYTE] && i != 0 {
            rest
        } else {
            seq![seg] + rest
        }
    }
}

#[via_fn]
proof fn components_from_decreases(s: Seq<u8>, i: int) {
    if i < s.len() && s[i] != SEP_BYTE {
        lemma_next_sep_bounds(s, i + 1);
    }
}

/// Whether the path is absolute.
pub open spec fn has_root(s: Seq<u8>) -> bool {
    s.len() > 0 && s[0] == SEP_BYTE
}

/// `cs[k..]` joined with `sep` between the components.
pub open spec fn render_from(cs: Seq<Seq<u8>>, sep: Seq<u8>, k: int) -> Seq<u8>
    decreases cs.len() - k,
{
    if k >= cs.len() {
        Seq::empty()
    } else if k == cs.len() - 1 {
        cs[k]
    } else {
        cs[k] + sep + render_from(cs, sep, k + 1)
    }
}

/// The path with its separators replaced by `sep`: a root becomes one `sep`,
/// and the components are rejoined with `sep` between them.
pub open spec fn replace_sep_spec(s: Seq<u8>, sep: Seq<u8>) -> Seq<u8> {
    if has_root(s) {
        sep + render_from(components_from(s, 0), sep, 0)
    } else {
        render_from(components_from(s, 0), sep, 0)
    }
}

/// The component list of the path, as fresh byte vectors.
pub fn split_components(s: &Vec<u8>) -> (out: Vec<Vec<u8>>)
    ensures
        out.deep_view() == components_from(s@, 0),
{
    let mut out: Vec<Vec<u8>> = Vec::new();
    let mut i: usize = 0;
    proof {
        assert(out.deep_view() =~~= Seq::<Seq<u8>>::empty());
    }
    while i < s.len()
        invariant
            i <= s@.len(),
            components_from(s@, 0) == out.deep_view() + components_from(s@, i as int),
        decreases s@.len() - i,
    {
        if s[i] == SEP_BYTE {
            i = i + 1;
        } else {
            let ghost prev = out.deep_view();
            let mut j: usize = i;
            while j < s.len() && s[j] != SEP_BYTE
                invariant
                    i <= j <= s@.len(),
                    next_sep(s@, i as int) == next_sep(s@, j as int),
                decreases s@.len() - j,
            {
                j = j + 1;
            }
            let seg = subvec(s, i, j);
            if seg.len() == 1 && seg[0] == DOT_BYTE && i != 0 {
                proof {
                    assert(seg@ =~= seq![DOT_BYTE]);
                }
            } else {
                proof {
                    if seg@ == seq![DOT_BYTE] {
                        assert(seg@.len() == 1 && seg@[0] == DOT_BYTE);
                    }
                }
                out.push(seg);
                proof {
                    assert(out.deep_view() =~~= prev + seq![seg@]);
                }
            }
            i = j;
        }
    }
    proof {
        assert(out.deep_view() + components_from(s@, s@.len() as int) =~~= out.deep_view());
    }
    out
}

/// `comps` joined with `sep` between the components, after one `sep` when
/// `root` is set.
pub fn render_with_sep(root: bool, comps: &Vec<Vec<u8>>, sep: &Vec<u8>) -> (out: Vec<u8>)
    ensures
        out@ == if root {
            sep@ + render_from(comps.deep_view(), sep@, 0)
        } else {
            render_from(comps.deep_view(), sep@, 0)
        },
{
    let mut out: Vec<u8> = Vec::new();
    if root {
        append_bytes(&mut out, sep);
    }
    let ghost base = out@;
    let mut k: usize = 0;
    while k < comps.len()
        invariant
            k <= comps@.len(),
            base + render_from(comps.deep_view(), sep@, 0) == out@ + render_from(
                comps.deep_view(),
                sep@,
                k as int,
            ),
        decreases comps@.len() - k,
    {
        append_bytes(&mut out, &comps[k]);
        if k + 1 < comps.len() {
            append_bytes(&mut out, sep);
        }
        k = k + 1;
    }
    out
}

/// The stem of the path: `stem_spec` made executable.
fn stem_vec(p: &Vec<u8>) -> (r: Vec<u8>)
    ensures
        r@ == stem_spec(p@),
{
    let n = trim_junk_end(p);
    if n == 0 {
        proof {
            assert(p@.subrange(0, p@.len() as int) =~= p@);
        }
        subvec(p, 0, p.len())
    } else {
        let j = seg_start(p, n);
        let seg = subvec(p, j, n);
        if seg.len() == 2 && seg[0] == DOT_BYTE && seg[1] == DOT_BYTE {
            proof {
                assert(seg@ =~= seq![DOT_BYTE, DOT_BYTE]);
                assert(p@.subrange(0, p@.len() as int) =~= p@);
            }
            subvec(p, 0, p.len())
        } else {
            proof {
                if seg@ == seq![DOT_BYTE, DOT_BYTE] {
                    assert(seg@.len() == 2 && seg@[0] == DOT_BYTE && seg@[1] == DOT_BYTE);
                }
                lemma_last_dot_bounds(seg@, seg@.len() as int);
            }
            let mut d: usize = seg.len();
            while d > 0 && seg[d - 1] != DOT_BYTE
                invariant
                    d <= seg@.len(),
                    last_dot(seg@, seg@.len() as int) == last_dot(seg@, d as int),
                decreases d,
            {
                d = d - 1;
            }
            if d <= 1 {
                seg
            } else {
                subvec(&seg, 0, d - 1)
            }
        }
    }
}

/// Joins `b` onto `a` as `join_spec` does.
pub fn join_paths(a: &Vec<u8>, b: &Vec<u8>) -> (r: Vec<u8>)
    ensures
        r@ == join_spec(a@, b@),
{
    if (b.len() > 0 && b[0] == SEP_BYTE) || a.len() == 0 {
        proof {
            assert(b@.subrange(0, b@.len() as int) =~= b@);
        }
        subvec(b, 0, b.len())
    } else {
        let mut r = subvec(a, 0, a.len());
        proof {
            assert(a@.subrange(0, a@.len() as int) =~= a@);
        }
        if a[a.len() - 1] != SEP_BYTE {
            r.push(SEP_BYTE);
            proof {
                assert(r@ =~= a@ + seq![SEP_BYTE]);
            }
        }
        append_bytes(&mut r, b);
        r
    }
}

/// Drops a leading `.` component, separators included, as `strip_cur_spec`.
pub fn strip_cur(p: &Vec<u8>) -> (r: Vec<u8>)
    ensures
        r@ == strip_cur_spec(p@),
{
    if p.len() > 0 && p[0] == DOT_BYTE && (p.len() == 1 || p[1] == SEP_BYTE) {
        proof {
            lemma_skip_seps_bounds(p@, 1);
        }
        let mut k: usize = 1;
        while k < p.len() && p[k] == SEP_BYTE
            invariant
                1 <= k <= p@.len(),
                skip_seps(p@, 1) == skip_seps(p@, k as int),
            decreases p@.len() - k,
        {
            k = k + 1;
        }
        subvec(p, k, p.len())
    } else {
        proof {
            assert(p@.subrange(0, p@.len() as int) =~= p@);
        }
        subvec(p, 0, p.len())
    }
}

/// The path without the extension of its last component.
pub fn remove_extension(p: &Vec<u8>) -> (r: Vec<u8>)
    ensures
        r@ == remove_extension_spec(p@),
{
    let d = dirname(p);
    let st = stem_vec(p);
    let joined = join_paths(&d, &st);
    strip_cur(&joined)
}

/// Length of the directory prefix of the path: the length of its parent,
/// extended over the separators that follow it.
pub open spec fn dir_prefix_spec(s: Seq<u8>) -> int {
    match parent_len(s) {
        None => 0,
        Some(k) => skip_seps(s, k),
    }
}

/// Where the directory prefix of the path ends.
pub fn dir_prefix_len(p: &Vec<u8>) -> (r: usize)
    ensures
        r as int == dir_prefix_spec(p@),
        r <= p@.len(),
{
    let n = trim_junk_end(p);
    let start: usize;
    let has_parent: bool;
    if n == 0 {
        if p.len() == 0 || p[0] == SEP_BYTE {
            has_parent = false;
            start = 0;
        } else {
            has_parent = true;
            start = 0;
        }
    } else {
        let j = seg_start(p, n);
        if j == 0 {
            has_parent = true;
            start = 0;
        } else {
            let h = head_end(p, j - 1);
            if h == 0 {
                has_parent = true;
                if p[0] == SEP_BYTE {
                    start = 1;
                } else {
                    start = 0;
                }
            } else {
                has_parent = true;
                start = h;
            }
        }
    }
    if !has_parent {
        return 0;
    }
    proof {
        lemma_skip_seps_bounds(p@, start as int);
    }
    let mut k: usize = start;
    while k < p.len() && p[k] == SEP_BYTE
        invariant
            start <= k <= p@.len(),
            skip_seps(p@, start as int) == skip_seps(p@, k as int),
        decreases p@.len() - k,
    {
        k = k + 1;
    }
    k
}

pub proof fn lemma_skip_seps_run(s: Seq<u8>, i: int)
    requires
        0 <= i <= s.len(),
    ensures
        i <= skip_seps(s, i) <= s.len(),
        forall|m: int| i <= m < skip_seps(s, i) ==> s[m] == SEP_BYTE,
        skip_seps(s, i) == s.len() || s[skip_seps(s, i)] != SEP_BYTE,
    decreases s.len() - i,
{
    if i < s.len() && s[i] == SEP_BYTE {
        lemma_skip_seps_run(s, i + 1);
    }
}

/// In colorized rendering, the directory prefix of a path with a
/// non-trivial parent is exactly the parent — which is what `dirname`
/// returns — followed by every separator byte that directly follows it.
pub proof fn lemma_dir_prefix_decomposition(s: Seq<u8>, k: int)
    requires
        parent_len(s) == Some(k),
        k > 0,
    ensures
        dirname_spec(s) == s.subrange(0, k),
        dirname_spec(s).len() == k,
        k <= dir_prefix_spec(s) <= s.len(),
        forall|m: int| k <= m < dir_prefix_spec(s) ==> s[m] == SEP_BYTE,
        dir_prefix_spec(s) == s.len() || s[dir_prefix_spec(s)] != SEP_BYTE,
{
    lemma_trim_end_bounds(s, s.len() as int);
    let n = trim_end(s, s.len() as int);
    lemma_last_sep_bounds(s, n);
    let j = last_sep(s, n);
    if j >= 0 {
        lemma_trim_head_end_bounds(s, j);
    }
    lemma_skip_seps_run(s, k);
}

/// Three-way order of two byte strings from index `i` on: negative,
/// zero or positive sign for less, equal, greater.
pub open spec fn lex_bytes_from(a: Seq<u8>, b: Seq<u8>, i: int) -> int
    decreases a.len() - i,
{
    if i >= a.len() && i >= b.len() {
        0
    } else if i >= a.len() {
        -1
    } else if i >= b.len() {
        1
    } else if a[i] < b[i] {
        -1
    } else if a[i] > b[i] {
        1
    } else {
        lex_bytes_from(a, b, i + 1)
    }
}

/// Three-way order of two component lists from index `k` on, comparing
/// componentwise and shorter-first.
pub open spec fn lex_comps_from(x: Seq<Seq<u8>>, y: Seq<Seq<u8>>, k: int) -> int
    decreases x.len() - k,
{
    if k >= x.len() && k >= y.len() {
        0
    } else if k >= x.len() {
        -1
    } else if k >= y.len() {
        1
    } else if lex_bytes_from(x[k], y[k], 0) != 0 {
        lex_bytes_from(x[k], y[k], 0)
    } else {
        lex_comps_from(x, y, k + 1)
    }
}

/// Three-way order of two paths, lexicographic over their components: a
/// root marker sorts before any component, and components compare by
/// their bytes.
pub open spec fn path_cmp_spec(p: Seq<u8>, q: Seq<u8>) -> int {
    let ca = components_from(p, 0);
    let cb = components_from(q, 0);
    if has_root(p) == has_root(q) {
        lex_comps_from(ca, cb, 0)
    } else if has_root(p) {
        if cb.len() == 0 {
            1
        } else {
            -1
        }
    } else {
        if ca.len() == 0 {
            -1
        } else {
            1
        }
    }
}

/// The sign of an order outcome.
pub open spec fn ord_sign(r: core::cmp::Ordering) -> int {
    match r {
        core::cmp::Ordering::Less => -1,
        core::cmp::Ordering::Equal => 0,
        core::cmp::Ordering::Greater => 1,
    }
}

/// The order outcome of a sign.
pub open spec fn ord_of_sign(i: int) -> core::cmp::Ordering {
    if i < 0 {
        core::cmp::Ordering::Less
    } else if i == 0 {
        core::cmp::Ordering::Equal
    } else {
        core::cmp::Ordering::Greater
    }
}

/// Bytewise three-way comparison.
pub fn bytes_cmp(a: &Vec<u8>, b: &Vec<u8>) -> (r: core::cmp::Ordering)
    ensures
        ord_sign(r) == lex_bytes_from(a@, b@, 0),
{
    let mut i: usize = 0;
    while i < a.len() && i < b.len()
        invariant
            i <= a@.len(),
            i <= b@.len(),
            lex_bytes_from(a@, b@, 0) == lex_bytes_from(a@, b@, i as int),
        decreases a@.len() - i,
    {
        if a[i] < b[i] {
            return core::cmp::Ordering::Less;
        }
        if a[i] > b[i] {
            return core::cmp::Ordering::Greater;
        }
        i = i + 1;
    }
    if a.len() == b.len() {
        core::cmp::Ordering::Equal
    } else if a.len() < b.len() {
        core::cmp::Ordering::Less
    } else {
        core::cmp::Ordering::Greater
    }
}

/// Componentwise three-way comparison.
pub fn comps_cmp(x: &Vec<Vec<u8>>, y: &Vec<Vec<u8>>) -> (r: core::cmp::Ordering)
    ensures
        ord_sign(r) == lex_comps_from(x.deep_view(), y.deep_view(), 0),
{
    let mut k: usize = 0;
    while k < x.len() && k < y.len()
        invariant
            k <= x@.len(),
            k <= y@.len(),
            lex_comps_from(x.deep_view(), y.deep_view(), 0) == lex_comps_from(
                x.deep_view(),
                y.deep_view(),
                k as int,
            ),
        decreases x@.len() - k,
    {
        let c = bytes_cmp(&x[k], &y[k]);
        proof {
            assert(x@[k as int]@ == x.deep_view()[k as int]);
            assert(y@[k as int]@ == y.deep_view()[k as int]);
        }
        if matches!(c, core::cmp::Ordering::Less) {
            return core::cmp::Ordering::Less;
        }
        if matches!(c, core::cmp::Ordering::Greater) {
            return core::cmp::Ordering::Greater;
        }
        k = k + 1;
    }
    if x.len() == y.len() {
        core::cmp::Ordering::Equal
    } else if x.len() < y.len() {
        core::cmp::Ordering::Less
    } else {
        core::cmp::Ordering::Greater
    }
}

/// Three-way comparison of two paths over their components.
pub fn path_cmp(p: &Vec<u8>, q: &Vec<u8>) -> (r: core::cmp::Ordering)
    ensures
        ord_sign(r) == path_cmp_spec(p@, q@),
{
    let ca = split_components(p);
    let cb = split_components(q);
    let ra = p.len() > 0 && p[0] == SEP_BYTE;
    let rb = q.len() > 0 && q[0] == SEP_BYTE;
    if ra == rb {
        comps_cmp(&ca, &cb)
    } else if ra {
        if cb.len() == 0 {
            core::cmp::Ordering::Greater
        } else {
            core::cmp::Ordering::Less
        }
    } else {
        if ca.len() == 0 {
            core::cmp::Ordering::Less
        } else {
            core::cmp::Ordering::Greater
        }
    }
}

/// A well-formed component: non-empty, with no separator byte inside.
pub open spec fn comp_ok(c: Seq<u8>) -> bool {
    c.len() > 0 && forall|m: int| 0 <= m < c.len() ==> c[m] != SEP_BYTE
}

proof fn lemma_next_sep_no_sep(s: Seq<u8>, i: int)
    requires
        0 <= i <= s.len(),
    ensures
        i <= next_sep(s, i) <= s.len(),
        forall|m: int| i <= m < next_sep(s, i) ==> s[m] != SEP_BYTE,
        next_sep(s, i) == s.len() || s[next_sep(s, i)] == SEP_BYTE,
    decreases s.len() - i,
{
    if i < s.len() && s[i] != SEP_BYTE {
        lemma_next_sep_no_sep(s, i + 1);
    }
}

proof fn lemma_next_sep_run(s: Seq<u8>, i: int, m: int)
    requires
        0 <= i,
        i + m <= s.len(),
        0 <= m,
        forall|t: int| i <= t < i + m ==> s[t] != SEP_BYTE,
        i + m == s.len() || s[i + m] == SEP_BYTE,
    ensures
        next_sep(s, i) == i + m,
    decreases m,
{
    if m > 0 {
        lemma_next_sep_run(s, i + 1, m - 1);
    }
}

/// Every component the parser yields is well formed, and a lone `.` can
/// only be the first component of a relative path parsed from its start.
proof fn lemma_components_wf(s: Seq<u8>, i: int)
    requires
        0 <= i <= s.len(),
    ensures
        forall|k: int|
            0 <= k < components_from(s, i).len() ==> comp_ok(#[trigger] components_from(s, i)[k]),
        forall|k: int|
            0 <= k < components_from(s, i).len() && #[trigger] components_from(s, i)[k] == seq![
                DOT_BYTE,
            ] ==> i == 0 && k == 0 && i < s.len() && s[i] != SEP_BYTE,
    decreases s.len() - i,
{
    if i >= s.len() {
    } else if s[i] == SEP_BYTE {
        lemma_components_wf(s, i + 1);
        assert forall|k: int|
            0 <= k < components_from(s, i).len() && #[trigger] components_from(s, i)[k] == seq![
                DOT_BYTE,
            ] implies i == 0 && k == 0 && i < s.len() && s[i] != SEP_BYTE by {
            assert(components_from(s, i)[k] == components_from(s, i + 1)[k]);
        }
    } else {
        lemma_next_sep_no_sep(s, i);
        let j = next_sep(s, i);
        lemma_components_wf(s, j);
        let seg = s.subrange(i, j);
        assert(comp_ok(seg));
        let rest = components_from(s, j);
        if !(seg == seq![DOT_BYTE] && i != 0) {
            assert(components_from(s, i) == seq![seg] + rest);
            assert forall|k: int|
                0 <= k < components_from(s, i).len() implies comp_ok(
                #[trigger] components_from(s, i)[k],
            ) by {
                if k > 0 {
                    assert(components_from(s, i)[k] == rest[k - 1]);
                }
            }
            assert forall|k: int|
                0 <= k < components_from(s, i).len() && #[trigger] components_from(s, i)[k]
                    == seq![DOT_BYTE] implies i == 0 && k == 0 && i < s.len() && s[i]
                != SEP_BYTE by {
                if k > 0 {
                    assert(components_from(s, i)[k] == rest[k - 1]);
                    assert(j > 0);
                }
            }
        } else {
            assert(components_from(s, i) == rest);
            assert forall|k: int|
                0 <= k < components_from(s, i).len() && #[trigger] components_from(s, i)[k]
                    == seq![DOT_BYTE] implies i == 0 && k == 0 && i < s.len() && s[i]
                != SEP_BYTE by {
                assert(rest[k] == seq![DOT_BYTE]);
                assert(j > 0);
            }
        }
    }
}

proof fn lemma_next_sep_shift(s: Seq<u8>, i: int, d: int)
    requires
        0 < i,
        0 <= d,
        i + d <= s.len(),
    ensures
        next_sep(s, i + d) == i + next_sep(s.subrange(i, s.len() as int), d),
    decreases s.len() - i - d,
{
    if i + d < s.len() && s[i + d] != SEP_BYTE {
        lemma_next_sep_shift(s, i, d + 1);
    }
}

/// Parsing from a positive offset equals parsing the suffix, as long as
/// the suffix does not begin with a lone `.` component, which only a scan
/// from the very start would keep.
proof fn lemma_components_shift(s: Seq<u8>, i: int, d: int)
    requires
        0 < i,
        0 <= d,
        i + d <= s.len(),
        d == 0 ==> !(i < s.len() && s[i] == DOT_BYTE && (i + 1 == s.len() || s[i + 1]
            == SEP_BYTE)),
    ensures
        components_from(s, i + d) == components_from(s.subrange(i, s.len() as int), d),
    decreases s.len() - i - d,
{
    let t = s.subrange(i, s.len() as int);
    if i + d >= s.len() {
    } else if s[i + d] == SEP_BYTE {
        lemma_components_shift(s, i, d + 1);
    } else {
        lemma_next_sep_no_sep(s, i + d);
        lemma_next_sep_shift(s, i, d);
        let j = next_sep(s, i + d);
        let jt = next_sep(t, d);
        assert(j == i + jt);
        assert(s.subrange(i + d, j) =~= t.subrange(d, jt));
        lemma_components_shift(s, i, jt);
    }
}

/// A component list that rendering and parsing carry back and forth: each
/// component well formed, a lone `.` at most in front, and none at all in
/// an absolute path.
pub open spec fn wf_comps(root: bool, cs: Seq<Seq<u8>>) -> bool {
    forall|k: int|
        0 <= k < cs.len() ==> (comp_ok(#[trigger] cs[k]) && (cs[k] == seq![DOT_BYTE] ==> (!root
            && k == 0)))
}

/// The rendering of a root flag and components with the native separator.
pub open spec fn render_all(root: bool, cs: Seq<Seq<u8>>) -> Seq<u8> {
    if root {
        seq![SEP_BYTE] + render_from(cs, seq![SEP_BYTE], 0)
    } else {
        render_from(cs, seq![SEP_BYTE], 0)
    }
}

proof fn lemma_render_drop(cs: Seq<Seq<u8>>, sep: Seq<u8>, k: int)
    requires
        0 <= k,
        cs.len() >= 1,
    ensures
        render_from(cs, sep, k + 1) == render_from(cs.drop_first(), sep, k),
    decreases cs.len() - k,
{
    if k + 1 < cs.len() {
        lemma_render_drop(cs, sep, k + 1);
    }
}

/// Parsing the rendering of well-formed relative components gives the
/// components back.
proof fn lemma_parse_render(cs: Seq<Seq<u8>>)
    requires
        forall|k: int| 0 <= k < cs.len() ==> comp_ok(#[trigger] cs[k]),
        forall|k: int| 0 < k < cs.len() ==> #[trigger] cs[k] != seq![DOT_BYTE],
    ensures
        components_from(render_from(cs, seq![SEP_BYTE], 0), 0) == cs,
    decreases cs.len(),
{
    let sep = seq![SEP_BYTE];
    let r = render_from(cs, sep, 0);
    if cs.len() == 0 {
        assert(components_from(r, 0) =~~= cs);
    } else if cs.len() == 1 {
        assert(r == cs[0]);
        assert(comp_ok(cs[0]));
        lemma_next_sep_run(r, 0, cs[0].len() as int);
        assert(r.subrange(0, cs[0].len() as int) =~= cs[0]);
        assert(components_from(r, cs[0].len() as int) =~~= Seq::<Seq<u8>>::empty());
        assert(components_from(r, 0) =~~= cs);
    } else {
        let c0 = cs[0];
        let tail = cs.drop_first();
        lemma_render_drop(cs, sep, 0);
        let rt = render_from(tail, sep, 0);
        assert(r == c0 + sep + rt);
        assert(comp_ok(c0));
        assert(comp_ok(tail[0]));
        let n0 = c0.len() as int;
        assert(r[n0] == SEP_BYTE);
        assert forall|t: int| 0 <= t < n0 implies r[t] != SEP_BYTE by {
            assert(r[t] == c0[t]);
        }
        lemma_next_sep_run(r, 0, n0);
        assert(r.subrange(0, n0) =~= c0);
        lemma_parse_render(tail);
        // the suffix after the separator is exactly the rendering of the tail
        assert(r.subrange(n0 + 1, r.len() as int) =~= rt);
        // that suffix does not begin with a lone `.` component
        assert(tail[0] != seq![DOT_BYTE]);
        assert(rt[0] == tail[0][0]);
        if r[n0 + 1] == DOT_BYTE && (n0 + 2 == r.len() || r[n0 + 2] == SEP_BYTE) {
            if tail[0].len() == 1 {
                assert(tail[0] =~= seq![DOT_BYTE]);
                assert(false);
            } else {
                assert(rt[1] == tail[0][1]);
                assert(tail[0][1] != SEP_BYTE);
                if tail.len() == 1 {
                    assert(rt == tail[0]);
                    assert(false);
                } else {
                    lemma_render_drop(tail, sep, 0);
                    assert(rt == tail[0] + sep + render_from(tail.drop_first(), sep, 0));
                    assert(false);
                }
            }
        }
        lemma_components_shift(r, n0 + 1, 0);
        assert(components_from(r, n0 + 1) == tail);
        assert(components_from(r, n0) == tail);
        assert(components_from(r, 0) =~~= seq![c0] + tail);
        assert(seq![c0] + tail =~~= cs);
    }
}

/// Separator replacement with the native separator is idempotent: once a
/// path has been rewritten with `/`, rewriting it again changes nothing.
pub proof fn lemma_replace_native_sep_idempotent(p: Seq<u8>)
    ensures
        replace_sep_spec(replace_sep_spec(p, seq![SEP_BYTE]), seq![SEP_BYTE]) == replace_sep_spec(
            p,
            seq![SEP_BYTE],
        ),
{
    let sep = seq![SEP_BYTE];
    let cs = components_from(p, 0);
    let root = has_root(p);
    lemma_components_wf(p, 0);
    let r0 = render_from(cs, sep, 0);
    let r = replace_sep_spec(p, sep);
    if root {
        assert forall|k: int| 0 < k < cs.len() implies #[trigger] cs[k] != seq![DOT_BYTE] by {}
        if cs.len() == 0 {
            assert(r == seq![SEP_BYTE]);
            assert(has_root(r));
            assert(components_from(r, 1) =~~= Seq::<Seq<u8>>::empty());
            assert(components_from(r, 0) == cs);
        } else {
            assert(cs[0] != seq![DOT_BYTE]);
            assert(r == seq![SEP_BYTE] + r0);
            assert(has_root(r));
            lemma_parse_render(cs);
            assert(r.subrange(1, r.len() as int) =~= r0);
            assert(comp_ok(cs[0]));
            assert(r0[0] == cs[0][0]);
            if r[1] == DOT_BYTE && (2 == r.len() || r[2] == SEP_BYTE) {
                if cs[0].len() == 1 {
                    assert(cs[0] =~= seq![DOT_BYTE]);
                    assert(false);
                } else {
                    assert(r0[1] == cs[0][1]);
                    assert(cs[0][1] != SEP_BYTE);
                    if cs.len() == 1 {
                        assert(r0 == cs[0]);
                        assert(false);
                    } else {
                        lemma_render_drop(cs, sep, 0);
                        assert(r0 == cs[0] + sep + render_from(cs.drop_first(), sep, 0));
                        assert(false);
                    }
                }
            }
            lemma_components_shift(r, 1, 0);
            assert(components_from(r, 1) == components_from(r0, 0));
            assert(components_from(r, 0) == cs);
        }
    } else {
        assert(r == r0);
        lemma_parse_render(cs);
        if cs.len() == 0 {
            assert(!has_root(r));
        } else {
            assert(comp_ok(cs[0]));
            assert(r0.len() > 0);
            if cs.len() == 1 {
                assert(r0 == cs[0]);
                assert(r0[0] == cs[0][0]);
            } else {
                lemma_render_drop(cs, sep, 0);
                assert(r0 == cs[0] + sep + render_from(cs.drop_first(), sep, 0));
                assert(r0[0] == cs[0][0]);
            }
            assert(!has_root(r));
        }
    }
}

} // verus!
