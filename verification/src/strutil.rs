//! Verified helpers on paths and plain strings.

use vstd::prelude::*;

verus! {

/// True when the character sequence holds a '/' anywhere.
pub open spec fn has_slash(s: Seq<char>) -> bool {
    exists|i: int| 0 <= i < s.len() && s[i] == '/'
}

/// The part of a path after its last '/'; the whole path when it has none.
pub open spec fn basename_of(s: Seq<char>) -> Seq<char>
    decreases s.len(),
{
    if s.len() == 0 {
        s
    } else if s.last() == '/' {
        Seq::empty()
    } else {
        basename_of(s.drop_last()).push(s.last())
    }
}

/// A path without a '/' is its own basename.
proof fn lemma_basename_no_slash(s: Seq<char>)
    requires
        forall|k: int| 0 <= k < s.len() ==> s[k] != '/',
    ensures
        basename_of(s) == s,
    decreases s.len(),
{
    if s.len() > 0 {
        lemma_basename_no_slash(s.drop_last());
        assert(basename_of(s.drop_last()).push(s.last()) =~= s);
    } else {
        assert(basename_of(s) =~= s);
    }
}

/// After the last '/', the basename is exactly the remaining suffix.
proof fn lemma_basename_after_slash(s: Seq<char>, p: int)
    requires
        0 <= p < s.len(),
        s[p] == '/',
        forall|k: int| p < k < s.len() ==> s[k] != '/',
    ensures
        basename_of(s) == s.subrange(p + 1, s.len() as int),
    decreases s.len(),
{
    if p == s.len() - 1 {
        assert(basename_of(s) =~= s.subrange(p + 1, s.len() as int));
    } else {
        lemma_basename_after_slash(s.drop_last(), p);
        assert(basename_of(s) =~= s.subrange(p + 1, s.len() as int));
    }
}

/// The basename of a path: everything after the last '/'.
pub fn basename<'a>(s: &'a str) -> (r: &'a str)
    ensures
        r@ == basename_of(s@),
{
    let n: usize = s.unicode_len();
    let mut i: usize = 0;
    let mut cut: usize = 0;
    while i < n
        invariant
            i <= n,
            n == s@.len(),
            cut <= i,
            cut == 0 || (s@[cut - 1] == '/'),
            forall|k: int| cut <= k < i ==> s@[k] != '/',
        decreases n - i,
    {
        if s.get_char(i) == '/' {
            cut = i + 1;
        }
        i = i + 1;
    }
    proof {
        if cut == 0 {
            lemma_basename_no_slash(s@);
            assert(s@.subrange(0, n as int) =~= s@);
        } else {
            lemma_basename_after_slash(s@, cut - 1);
        }
    }
    s.substring_char(cut, n)
}

/// Whether the path holds a '/' anywhere.
pub fn contains_slash(s: &str) -> (r: bool)
    ensures
        r == has_slash(s@),
{
    let n: usize = s.unicode_len();
    let mut i: usize = 0;
    while i < n
        invariant
            i <= n,
            n == s@.len(),
            forall|k: int| 0 <= k < i ==> s@[k] != '/',
        decreases n - i,
    {
        if s.get_char(i) == '/' {
            return true;
        }
        i = i + 1;
    }
    false
}

/// A "://" occurrence starting at position i.
pub open spec fn has_scheme_at(s: Seq<char>, i: int) -> bool {
    &&& 0 <= i
    &&& i + 3 <= s.len()
    &&& s[i] == ':'
    &&& s[i + 1] == '/'
    &&& s[i + 2] == '/'
}

/// True when the string holds "://" somewhere, the shape of a remote url.
pub open spec fn has_scheme(s: Seq<char>) -> bool {
    exists|i: int| has_scheme_at(s, i)
}

/// Whether the target string holds a url scheme separator "://".
pub fn contains_scheme(s: &str) -> (r: bool)
    ensures
        r == has_scheme(s@),
{
    let n: usize = s.unicode_len();
    if n < 3 {
        return false;
    }
    let mut i: usize = 0;
    while i <= n - 3
        invariant
            i <= n - 2,
            3 <= n == s@.len(),
            forall|k: int| 0 <= k < i ==> !has_scheme_at(s@, k),
        decreases n - i,
    {
        if s.get_char(i) == ':' && s.get_char(i + 1) == '/' && s.get_char(i + 2) == '/' {
            assert(has_scheme_at(s@, i as int));
            return true;
        }
        i = i + 1;
    }
    assert forall|k: int| !has_scheme_at(s@, k) by {
        if 0 <= k && k + 3 <= s@.len() {
            assert(k < i);
        }
    }
    false
}

/// Character-wise string equality.
pub fn str_eq(a: &str, b: &str) -> (r: bool)
    ensures
        r == (a@ == b@),
{
    let n: usize = a.unicode_len();
    if n != b.unicode_len() {
        return false;
    }
    let mut i: usize = 0;
    while i < n
        invariant
            i <= n,
            n == a@.len(),
            n == b@.len(),
            forall|k: int| 0 <= k < i ==> a@[k] == b@[k],
        decreases n - i,
    {
        if a.get_char(i) != b.get_char(i) {
            return false;
        }
        i = i + 1;
    }
    proof {
        assert(a@ =~= b@);
    }
    true
}

/// The string with every leading '/' removed.
pub open spec fn strip_slashes(s: Seq<char>) -> Seq<char>
    decreases s.len(),
{
    if s.len() > 0 && s[0] == '/' {
        strip_slashes(s.drop_first())
    } else {
        s
    }
}

/// Dropping a slash-only prefix yields the suffix.
proof fn lemma_strip_slashes(s: Seq<char>, i: int)
    requires
        0 <= i <= s.len(),
        forall|k: int| 0 <= k < i ==> s[k] == '/',
        i == s.len() || s[i] != '/',
    ensures
        strip_slashes(s) == s.subrange(i, s.len() as int),
    decreases i,
{
    if i == 0 {
        assert(strip_slashes(s) =~= s.subrange(0, s.len() as int));
    } else {
        lemma_strip_slashes(s.drop_first(), i - 1);
        assert(s.drop_first().subrange(i - 1, s.drop_first().len() as int) =~= s.subrange(
            i,
            s.len() as int,
        ));
    }
}

/// The pattern with leading '/' characters removed, as patterns are
/// matched against entry paths that carry none.
pub fn strip_leading_slashes<'a>(s: &'a str) -> (r: &'a str)
    ensures
        r@ == strip_slashes(s@),
{
    let n: usize = s.unicode_len();
    let mut i: usize = 0;
    while i < n
        invariant
            i <= n,
            n == s@.len(),
            forall|k: int| 0 <= k < i ==> s@[k] == '/',
        decreases n - i,
    {
        if s.get_char(i) != '/' {
            proof {
                lemma_strip_slashes(s@, i as int);
            }
            return s.substring_char(i, n);
        }
        i = i + 1;
    }
    proof {
        lemma_strip_slashes(s@, n as int);
    }
    s.substring_char(n, n)
}

/// The two strings joined with a '/' between them.
pub fn join_slash(a: &str, b: &str) -> (r: String)
    ensures
        r@ == a@ + seq!['/'] + b@,
{
    let mut r = a.to_owned();
    r.append("/");
    r.append(b);
    proof {
        reveal_strlit("/");
        assert("/"@ =~= seq!['/']);
    }
    r
}

/// The two strings joined directly.
pub fn concat_str(a: &str, b: &str) -> (r: String)
    ensures
        r@ == a@ + b@,
{
    let mut r = a.to_owned();
    r.append(b);
    r
}

/// The path with a single '/' put in front.
pub fn slash_prefixed(s: &str) -> (r: String)
    ensures
        r@ == seq!['/'] + s@,
{
    let mut r = String::new();
    r.append("/");
    r.append(s);
    proof {
        reveal_strlit("/");
        assert("/"@ =~= seq!['/']);
        assert(r@ =~= seq!['/'] + s@);
    }
    r
}

} // verus!
