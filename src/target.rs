//! Target names: the directory name that a repository URL is cloned under.
use vstd::prelude::*;

verus! {

/// The version-control suffix marker that is stripped from target names.
pub open spec fn git_marker() -> Seq<char> {
    seq!['.', 'g', 'i', 't']
}

/// `s` begins with the marker.
pub open spec fn starts_with_marker(s: Seq<char>) -> bool {
    s.len() >= 4 && s.subrange(0, 4) == git_marker()
}

/// The marker occurs somewhere in `s`.
pub open spec fn contains_marker(s: Seq<char>) -> bool {
    exists|i: int| 0 <= i && i + 4 <= s.len() && #[trigger] s.subrange(i, i + 4) == git_marker()
}

/// `s` with every occurrence of the marker removed, scanning left to right.
pub open spec fn strip_git(s: Seq<char>) -> Seq<char>
    decreases s.len(),
{
    if s.len() == 0 {
        s
    } else if starts_with_marker(s) {
        strip_git(s.subrange(4, s.len() as int))
    } else {
        seq![s[0]] + strip_git(s.subrange(1, s.len() as int))
    }
}

/// Index of the last `/` in `s`, or -1 when there is none.
pub open spec fn last_slash(s: Seq<char>) -> int
    decreases s.len(),
{
    if s.len() == 0 {
        -1
    } else if s.last() == '/' {
        s.len() - 1
    } else {
        last_slash(s.drop_last())
    }
}

/// The target name of a URL: its final path segment without the marker, or
/// nothing when the URL holds no `/`.
pub open spec fn target_name(url: Seq<char>) -> Option<Seq<char>> {
    let k = last_slash(url);
    if k < 0 {
        None
    } else {
        Some(strip_git(url.subrange(k + 1, url.len() as int)))
    }
}

/// The characters of an optional string.
pub open spec fn opt_chars(r: Option<String>) -> Option<Seq<char>> {
    match r {
        Some(s) => Some(s@),
        None => None,
    }
}

proof fn lemma_last_slash_bounds(s: Seq<char>)
    ensures
        -1 <= last_slash(s) < s.len(),
        last_slash(s) >= 0 ==> s[last_slash(s)] == '/',
    decreases s.len(),
{
    if s.len() > 0 && s.last() != '/' {
        lemma_last_slash_bounds(s.drop_last());
    }
}

/// Position of the last `/` in `url`.
pub fn find_last_slash(url: &str) -> (r: Option<usize>)
    ensures
        match r {
            None => last_slash(url@) < 0,
            Some(k) => k == last_slash(url@),
        },
{
    let n = url.unicode_len();
    let mut i: usize = n;
    assert(url@.subrange(0, n as int) =~= url@);
    while i > 0
        invariant
            i <= n,
            n == url@.len(),
            last_slash(url@) == last_slash(url@.subrange(0, i as int)),
        decreases i,
    {
        let c = url.get_char(i - 1);
        if c == '/' {
            return Some(i - 1);
        }
        assert(url@.subrange(0, i as int).drop_last() =~= url@.subrange(0, i - 1));
        i = i - 1;
    }
    None
}

/// Removes every occurrence of ".git" from `seg`.
pub fn strip_git_marker(seg: &str) -> (r: String)
    ensures
        r@ == strip_git(seg@),
{
    let n = seg.unicode_len();
    let mut out = String::new();
    let mut i: usize = 0;
    proof {
        reveal_strlit("");
        assert(seg@.subrange(0, n as int) =~= seg@);
        assert(out@ + seg@ =~= seg@);
    }
    while i < n
        invariant
            n == seg@.len(),
            i <= n,
            out@ + strip_git(seg@.subrange(i as int, n as int)) == strip_git(seg@),
        decreases n - i,
    {
        let ghost t = seg@.subrange(i as int, n as int);
        if n - i >= 4 && seg.get_char(i) == '.' && seg.get_char(i + 1) == 'g' && seg.get_char(
            i + 2,
        ) == 'i' && seg.get_char(i + 3) == 't' {
            proof {
                assert(t.subrange(0, 4) =~= git_marker());
                assert(t.subrange(4, t.len() as int) =~= seg@.subrange(i + 4, n as int));
            }
            i = i + 4;
        } else {
            let one = seg.substring_char(i, i + 1);
            proof {
                assert(!starts_with_marker(t)) by {
                    if t.len() >= 4 && t.subrange(0, 4) == git_marker() {
                        assert(t.subrange(0, 4)[0] == t[0]);
                        assert(t.subrange(0, 4)[1] == t[1]);
                        assert(t.subrange(0, 4)[2] == t[2]);
                        assert(t.subrange(0, 4)[3] == t[3]);
                    }
                }
                assert(one@ =~= seq![t[0]]);
                assert(t.subrange(1, t.len() as int) =~= seg@.subrange(i + 1, n as int));
                assert(out@ + one@ + strip_git(seg@.subrange(i + 1, n as int)) =~= out@ + (
                one@ + strip_git(seg@.subrange(i + 1, n as int))));
            }
            out.append(one);
            i = i + 1;
        }
    }
    proof {
        assert(seg@.subrange(n as int, n as int) =~= Seq::<char>::empty());
        assert(out@ + Seq::<char>::empty() =~= out@);
    }
    out
}

/// The target name of `url`: the text after its last `/`, with every ".git"
/// removed; `None` when `url` holds no `/`.
pub fn resolve_target_name(url: &str) -> (r: Option<String>)
    ensures
        opt_chars(r) == target_name(url@),
{
    match find_last_slash(url) {
        None => None,
        Some(k) => {
            let n = url.unicode_len();
            proof {
                lemma_last_slash_bounds(url@);
            }
            let seg = url.substring_char(k + 1, n);
            Some(strip_git_marker(seg))
        },
    }
}

proof fn lemma_marker_unfolds(a: Seq<char>, b: Seq<char>)
    requires
        a.len() > 0,
    ensures
        starts_with_marker(a + git_marker() + b) <==> starts_with_marker(a),
{
    let s = a + git_marker() + b;
    let m = git_marker();
    if starts_with_marker(s) {
        if a.len() < 4 {
            // The marker cannot overlap itself, so no proper suffix of `a`
            // followed by a prefix of the marker spells the marker.
            assert(s.subrange(0, 4)[a.len() as int] == s[a.len() as int]);
            assert(s[a.len() as int] == m[0]);
            assert(s.subrange(0, 4)[0] == s[0]);
            assert(s.subrange(0, 4)[1] == s[1]);
            assert(s.subrange(0, 4)[2] == s[2]);
            assert(s.subrange(0, 4)[3] == s[3]);
            assert(false);
        } else {
            assert(a.subrange(0, 4) =~= s.subrange(0, 4));
        }
    }
    if starts_with_marker(a) {
        assert(a.subrange(0, 4) =~= s.subrange(0, 4));
    }
}

/// Removing the marker splits at each occurrence: an occurrence between `a`
/// and `b` goes, and each side is stripped on its own.
pub proof fn lemma_strip_around_marker(a: Seq<char>, b: Seq<char>)
    ensures
        strip_git(a + git_marker() + b) == strip_git(a) + strip_git(b),
    decreases a.len(),
{
    let s = a + git_marker() + b;
    if a.len() == 0 {
        assert(s.subrange(0, 4) =~= git_marker());
        assert(s.subrange(4, s.len() as int) =~= b);
        assert(strip_git(a) + strip_git(b) =~= strip_git(b));
    } else {
        lemma_marker_unfolds(a, b);
        if starts_with_marker(a) {
            let a2 = a.subrange(4, a.len() as int);
            assert(s.subrange(4, s.len() as int) =~= a2 + git_marker() + b);
            lemma_strip_around_marker(a2, b);
        } else {
            let a1 = a.subrange(1, a.len() as int);
            assert(s.subrange(1, s.len() as int) =~= a1 + git_marker() + b);
            lemma_strip_around_marker(a1, b);
            assert(s[0] == a[0]);
            assert(seq![a[0]] + (strip_git(a1) + strip_git(b)) =~= seq![a[0]] + strip_git(a1)
                + strip_git(b));
        }
    }
}

/// A segment without the marker keeps its name unchanged.
pub proof fn lemma_strip_without_marker(s: Seq<char>)
    requires
        !contains_marker(s),
    ensures
        strip_git(s) == s,
    decreases s.len(),
{
    if s.len() > 0 {
        assert(!starts_with_marker(s)) by {
            if starts_with_marker(s) {
                assert(s.subrange(0int, 0int + 4) == git_marker());
            }
        }
        let s1 = s.subrange(1, s.len() as int);
        assert(!contains_marker(s1)) by {
            if contains_marker(s1) {
                let i = choose|i: int|
                    0 <= i && i + 4 <= s1.len() && #[trigger] s1.subrange(i, i + 4)
                        == git_marker();
                assert(s.subrange(i + 1, i + 1 + 4) =~= s1.subrange(i, i + 4));
            }
        }
        lemma_strip_without_marker(s1);
        assert(seq![s[0]] + s1 =~= s);
    }
}

/// The last `/` of `p + "/" + seg` is the one before `seg` when `seg` holds
/// none.
pub proof fn lemma_last_slash_before_segment(p: Seq<char>, seg: Seq<char>)
    requires
        !seg.contains('/'),
    ensures
        last_slash(p + seq!['/'] + seg) == p.len(),
    decreases seg.len(),
{
    let s = p + seq!['/'] + seg;
    if seg.len() == 0 {
        assert(s.last() == '/');
    } else {
        assert(s.last() == seg.last());
        assert(seg.last() != '/') by {
            if seg.last() == '/' {
                assert(seg[seg.len() - 1] == '/');
            }
        }
        assert(!seg.drop_last().contains('/')) by {
            if seg.drop_last().contains('/') {
                let j = choose|j: int| 0 <= j < seg.drop_last().len() && seg.drop_last()[j] == '/';
                assert(seg[j] == '/');
            }
        }
        assert(s.drop_last() =~= p + seq!['/'] + seg.drop_last());
        lemma_last_slash_before_segment(p, seg.drop_last());
    }
}

/// A URL whose final segment holds ".git" gets a name with that ".git"
/// removed, and every other ".git" of the segment removed too; where the two
/// sides hold no further ".git", the name is exactly what surrounds it.
pub proof fn lemma_name_drops_marker(prefix: Seq<char>, a: Seq<char>, b: Seq<char>)
    requires
        !a.contains('/'),
        !b.contains('/'),
    ensures
        target_name(prefix + seq!['/'] + (a + git_marker() + b)) == Some(strip_git(a) + strip_git(b)),
        !contains_marker(a) && !contains_marker(b) ==> target_name(
            prefix + seq!['/'] + (a + git_marker() + b),
        ) == Some(a + b),
{
    let seg = a + git_marker() + b;
    let url = prefix + seq!['/'] + seg;
    assert(!seg.contains('/')) by {
        if seg.contains('/') {
            let j = choose|j: int| 0 <= j < seg.len() && seg[j] == '/';
            if j < a.len() {
                assert(a[j] == '/');
            } else if j >= a.len() + 4 {
                assert(b[j - a.len() - 4] == '/');
            } else {
                assert(git_marker()[j - a.len()] == '/');
            }
        }
    }
    lemma_last_slash_before_segment(prefix, seg);
    assert(url.subrange(prefix.len() as int + 1, url.len() as int) =~= seg);
    lemma_strip_around_marker(a, b);
    if !contains_marker(a) && !contains_marker(b) {
        lemma_strip_without_marker(a);
        lemma_strip_without_marker(b);
    }
}

/// A URL without any `/` has no target name.
pub proof fn lemma_no_slash_no_name(url: Seq<char>)
    requires
        !url.contains('/'),
    ensures
        target_name(url) is None,
{
    lemma_last_slash_bounds(url);
    if last_slash(url) >= 0 {
        assert(url[last_slash(url)] == '/');
    }
}

} // verus!
