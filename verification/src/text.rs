//! Tests on strings and on type paths written as strings.

use vstd::prelude::*;
use vstd::string::StrSliceExecFns;

verus! {

/// Whether `pat` occurs in `s` as a contiguous run of characters.
pub open spec fn has_substring(s: Seq<char>, pat: Seq<char>) -> bool {
    exists|i: int| 0 <= i && i + pat.len() <= s.len() && #[trigger] s.subrange(i, i + pat.len()) == pat
}

/// A path pattern without the slash that may end it.
pub open spec fn trim_slash(p: Seq<char>) -> Seq<char> {
    if p.len() > 0 && p.last() == '/' {
        p.drop_last()
    } else {
        p
    }
}

/// Whether the type written `path` is the type written `parent` or lies below
/// it: `path` is `parent` without its closing slash, or continues it after a
/// slash. Names are compared whole, so `/obj/items` is not below `/obj/item/`.
pub open spec fn is_subpath(path: Seq<char>, parent: Seq<char>) -> bool {
    path == trim_slash(parent) || trim_slash(parent).push('/').is_prefix_of(path)
}

/// `String::push` of the standard library appends the character to the end
/// of the string.
pub assume_specification[ std::string::String::push ](s: &mut std::string::String, c: char)
    ensures
        final(s)@ == old(s)@.push(c),
;

/// The characters of a string.
pub fn chars_of(s: &str) -> (v: Vec<char>)
    ensures
        v@ == s@,
{
    let n = s.unicode_len();
    let mut v: Vec<char> = Vec::new();
    let mut i: usize = 0;
    while i < n
        invariant
            n == s@.len(),
            i <= n,
            v@ == s@.subrange(0, i as int),
        decreases n - i,
    {
        v.push(s.get_char(i));
        i += 1;
    }
    v
}

/// The string that holds the characters `chars`.
pub fn string_of(chars: &Vec<char>) -> (s: String)
    ensures
        s@ == chars@,
{
    let mut s = String::new();
    let mut i: usize = 0;
    while i < chars.len()
        invariant
            i <= chars.len(),
            s@ == chars@.subrange(0, i as int),
        decreases chars.len() - i,
    {
        proof {
            assert(chars@.subrange(0, i + 1) =~= chars@.subrange(0, i as int).push(chars@[i as int]));
        }
        s.push(chars[i]);
        i += 1;
    }
    assert(chars@.subrange(0, i as int) =~= chars@);
    s
}

/// Whether `a[at..]` begins with `b[..len]`.
fn matches_at(a: &Vec<char>, at: usize, b: &Vec<char>, len: usize) -> (r: bool)
    requires
        len <= b.len(),
        at + len <= a.len(),
    ensures
        r == (a@.subrange(at as int, at + len) == b@.subrange(0, len as int)),
{
    let mut i: usize = 0;
    while i < len
        invariant
            i <= len <= b.len(),
            at + len <= a.len(),
            a@.subrange(at as int, at + i) == b@.subrange(0, i as int),
        decreases len - i,
    {
        if a[at + i] != b[i] {
            proof {
                let x = a@.subrange(at as int, at + len);
                let y = b@.subrange(0, len as int);
                assert(x[i as int] != y[i as int]);
            }
            return false;
        }
        proof {
            assert(a@.subrange(at as int, at + i + 1) == a@.subrange(at as int, at + i).push(
                a@[at + i],
            ));
            assert(b@.subrange(0, i + 1) == b@.subrange(0, i as int).push(b@[i as int]));
        }
        i += 1;
    }
    true
}

/// Whether two strings hold the same characters.
pub fn str_eq(a: &str, b: &str) -> (r: bool)
    ensures
        r == (a@ == b@),
{
    let x = chars_of(a);
    let y = chars_of(b);
    if x.len() != y.len() {
        return false;
    }
    let r = matches_at(&x, 0, &y, y.len());
    proof {
        assert(x@.subrange(0, x.len() as int) == x@);
        assert(y@.subrange(0, y.len() as int) == y@);
    }
    r
}

/// Whether `s` begins with `prefix`.
pub fn starts_with(s: &str, prefix: &str) -> (r: bool)
    ensures
        r == prefix@.is_prefix_of(s@),
{
    let x = chars_of(s);
    let y = chars_of(prefix);
    if y.len() > x.len() {
        return false;
    }
    let r = matches_at(&x, 0, &y, y.len());
    proof {
        assert(y@.subrange(0, y.len() as int) == y@);
    }
    r
}

/// Whether `pat` occurs somewhere in `s`.
pub fn contains(s: &str, pat: &str) -> (r: bool)
    ensures
        r == has_substring(s@, pat@),
{
    let x = chars_of(s);
    let y = chars_of(pat);
    if y.len() > x.len() {
        return false;
    }
    if y.len() == 0 {
        assert(s@.subrange(0int, 0int + pat@.len()) == pat@);
        return true;
    }
    let last: usize = x.len() - y.len();
    let mut i: usize = 0;
    while i <= last
        invariant
            x@ == s@,
            y@ == pat@,
            0 < y.len() <= x.len(),
            last == x.len() - y.len(),
            i <= last + 1,
            forall|j: int| 0 <= j < i ==> #[trigger] x@.subrange(j, j + y.len()) != y@,
        decreases last + 1 - i,
    {
        let m = matches_at(&x, i, &y, y.len());
        proof {
            assert(y@.subrange(0, y.len() as int) == y@);
        }
        if m {
            return true;
        }
        i += 1;
    }
    false
}

/// Whether the type written `path` is the type written `parent` or lies below it.
pub fn subpath(path: &str, parent: &str) -> (r: bool)
    ensures
        r == is_subpath(path@, parent@),
{
    let x = chars_of(path);
    let mut y = chars_of(parent);
    if y.len() > 0 && y[y.len() - 1] == '/' {
        y.pop();
    }
    assert(y@ == trim_slash(parent@));
    if x.len() == y.len() {
        let r = matches_at(&x, 0, &y, y.len());
        proof {
            assert(x@.subrange(0, x.len() as int) == x@);
            assert(y@.subrange(0, y.len() as int) == y@);
            assert(!y@.push('/').is_prefix_of(x@));
        }
        r
    } else if x.len() < y.len() {
        false
    } else {
        let r = matches_at(&x, 0, &y, y.len()) && x[y.len()] == '/';
        proof {
            assert(y@.subrange(0, y.len() as int) == y@);
            let z = y@.push('/');
            if r {
                assert(x@.subrange(0, z.len() as int) == z);
            } else if z.is_prefix_of(x@) {
                assert(x@.subrange(0, z.len() as int) == z);
                assert(x@.subrange(0, y.len() as int) == z.subrange(0, y.len() as int));
                assert(z.subrange(0, y.len() as int) == y@);
                assert(x@[y.len() as int] == z[y.len() as int]);
            }
        }
        r
    }
}

/// Every type lies under the pattern made of its own path and a slash.
pub proof fn lemma_subpath_reflexive(a: Seq<char>)
    ensures
        is_subpath(a, a.push('/')),
{
    assert(a.push('/').drop_last() =~= a);
}

/// What lies under a type that lies under a third type lies under the third.
pub proof fn lemma_subpath_transitive(a: Seq<char>, b: Seq<char>, c: Seq<char>)
    requires
        is_subpath(a, b.push('/')),
        is_subpath(b, c.push('/')),
    ensures
        is_subpath(a, c.push('/')),
{
    assert(b.push('/').drop_last() =~= b);
    assert(c.push('/').drop_last() =~= c);
    let bs = b.push('/');
    let cs = c.push('/');
    if a != b && b != c {
        assert(bs.is_prefix_of(a));
        assert(cs.is_prefix_of(b));
        assert(a.subrange(0, bs.len() as int) == bs);
        assert(b.subrange(0, cs.len() as int) == cs);
        assert forall|i: int| 0 <= i < cs.len() implies a[i] == cs[i] by {
            assert(b.subrange(0, cs.len() as int)[i] == b[i]);
            assert(bs[i] == b[i]);
            assert(a.subrange(0, bs.len() as int)[i] == a[i]);
        }
        assert(a.subrange(0, cs.len() as int) =~= cs);
    }
}

} // verus!
