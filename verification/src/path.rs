//! Slash-separated paths.

use vstd::prelude::*;

use crate::text;

verus! {

/// Index of the last `c` in `s`, or -1 when there is none.
pub open spec fn last_of(s: Seq<char>, c: char) -> int
    decreases s.len(),
{
    if s.len() == 0 {
        -1
    } else if s.last() == c {
        s.len() - 1
    } else {
        last_of(s.drop_last(), c)
    }
}

/// What follows the last slash.
pub open spec fn leaf(p: Seq<char>) -> Seq<char> {
    p.skip(last_of(p, '/') + 1)
}

/// The last of the first `n` segments that is neither empty nor `.`.
pub open spec fn last_named(segments: Seq<Seq<char>>, n: int) -> Option<Seq<char>>
    decreases n,
{
    if n <= 0 || n > segments.len() {
        None
    } else if segments[n - 1] == ""@ || segments[n - 1] == "."@ {
        last_named(segments, n - 1)
    } else {
        Some(segments[n - 1])
    }
}

/// The name of the file that a path leads to; a path that ends in `..` has
/// none.
pub open spec fn name_of(p: Seq<char>) -> Option<Seq<char>> {
    let segments = text::pieces(p, '/');
    match last_named(segments, segments.len() as int) {
        Some(s) => if s == ".."@ {
            None
        } else {
            Some(s)
        },
        None => None,
    }
}

/// What follows the last dot of a file name, unless that dot starts it.
pub open spec fn extension_of_name(name: Seq<char>) -> Option<Seq<char>> {
    let i = last_of(name, '.');
    if i > 0 {
        Some(name.skip(i + 1))
    } else {
        None
    }
}

/// The extension of the file that a path leads to.
pub open spec fn extension_of(p: Seq<char>) -> Option<Seq<char>> {
    match name_of(p) {
        Some(n) => extension_of_name(n),
        None => None,
    }
}

/// Number of characters up to and with the last `c`.
pub(crate) fn after_last(v: &Vec<char>, c: char) -> (r: usize)
    ensures
        r <= v.len(),
        r == last_of(v@, c) + 1,
{
    let mut j: usize = v.len();
    assert(v@.take(j as int) =~= v@);
    while 0 < j && v[j - 1] != c
        invariant
            j <= v.len(),
            last_of(v@, c) == last_of(v@.take(j as int), c),
        decreases j,
    {
        assert(v@.take(j as int).drop_last() =~= v@.take(j - 1));
        j = j - 1;
    }
    j
}

/// What follows the last slash of a path.
pub fn leaf_name(p: &str) -> (r: String)
    ensures
        r@ == leaf(p@),
{
    let v = text::chars_of(p);
    let i: usize = after_last(&v, '/');
    let n: usize = v.len();
    assert(v@.subrange(i as int, n as int) =~= p@.skip(i as int));
    text::text_between(&v, i, n)
}

/// The name of the file that a path leads to.
pub fn file_name(p: &str) -> (r: Option<String>)
    ensures
        text::opt_view(r) == name_of(p@),
{
    let segments = text::split(p, '/');
    let ghost all = text::pieces(p@, '/');
    let mut n: usize = segments.len();
    while 0 < n
        invariant
            text::views(segments@) == all,
            n <= segments.len() == all.len(),
            last_named(all, all.len() as int) == last_named(all, n as int),
            all == text::pieces(p@, '/'),
        decreases n,
    {
        let s = segments[n - 1].as_str();
        assert(s@ == all[n - 1]);
        if !text::same_text(s, "") && !text::same_text(s, ".") {
            if text::same_text(s, "..") {
                return None;
            }
            return Some(segments[n - 1].clone());
        }
        n = n - 1;
    }
    None
}

/// The extension of the file that a path leads to.
pub fn extension(p: &str) -> (r: Option<String>)
    ensures
        text::opt_view(r) == extension_of(p@),
{
    match file_name(p) {
        None => None,
        Some(name) => {
            let v = text::chars_of(name.as_str());
            let i: usize = after_last(&v, '.');
            let n: usize = v.len();
            if i > 1 {
                assert(v@.subrange(i as int, n as int) =~= name@.skip(i as int));
                Some(text::text_between(&v, i, n))
            } else {
                None
            }
        },
    }
}

// ---------------------------------------------------------------------------
// Laws
// ---------------------------------------------------------------------------

proof fn lemma_last_of(s: Seq<char>, c: char)
    ensures
        -1 <= last_of(s, c) < s.len(),
        last_of(s, c) >= 0 ==> s[last_of(s, c)] == c,
        forall|i: int| last_of(s, c) < i < s.len() ==> #[trigger] s[i] != c,
    decreases s.len(),
{
    if s.len() > 0 && s.last() != c {
        let t = s.drop_last();
        lemma_last_of(t, c);
        assert forall|i: int| last_of(s, c) < i < s.len() implies #[trigger] s[i] != c by {
            if i < t.len() {
                assert(t[i] == s[i]);
            }
        }
    }
}

/// The leaf of a path is its end, holds no slash, and stands behind one unless
/// it is the whole path.
pub proof fn leaf_stands_behind_the_last_slash(p: &str, r: String) -> (n: int)
    requires
        call_ensures(leaf_name, (p,), r),
    ensures
        0 <= n <= p@.len(),
        r@ == p@.skip(n),
        !r@.contains('/'),
        n > 0 ==> p@[n - 1] == '/',
{
    lemma_last_of(p@, '/');
    let n = last_of(p@, '/') + 1;
    assert(!p@.skip(n).contains('/'));
    n
}

proof fn lemma_last_named(segments: Seq<Seq<char>>, n: int) -> (i: int)
    requires
        0 <= n <= segments.len(),
    ensures
        match last_named(segments, n) {
            Some(s) => {
                &&& 0 <= i < n
                &&& segments[i] == s
                &&& s != ""@ && s != "."@
                &&& forall|j: int|
                    i < j < n ==> #[trigger] segments[j] == ""@ || segments[j] == "."@
            },
            None => forall|j: int|
                0 <= j < n ==> #[trigger] segments[j] == ""@ || segments[j] == "."@,
        },
    decreases n,
{
    if n > 0 && (segments[n - 1] == ""@ || segments[n - 1] == "."@) {
        lemma_last_named(segments, n - 1)
    } else {
        n - 1
    }
}

/// The name of a file is the last segment of its path that names anything;
/// only a path without such a segment, or one that ends by going up, has none.
pub proof fn name_is_the_last_segment(p: &str, r: Option<String>) -> (i: int)
    requires
        call_ensures(file_name, (p,), r),
    ensures
        ({
            let segments = text::pieces(p@, '/');
            let last = if 0 <= i < segments.len() {
                Some(segments[i])
            } else {
                None
            };
            &&& forall|j: int|
                i < j < segments.len() && 0 <= j ==> #[trigger] segments[j] == ""@ || segments[j]
                    == "."@
            &&& last matches Some(s) ==> s != ""@ && s != "."@
            &&& match r {
                Some(n) => last == Some(n@) && n@ != ".."@,
                None => last is None || last == Some(".."@),
            }
        }),
{
    let segments = text::pieces(p@, '/');
    let i = lemma_last_named(segments, segments.len() as int);
    if last_named(segments, segments.len() as int) is None {
        -1
    } else {
        i
    }
}

/// The extension stands behind the last dot of the name, which does not start
/// it; only a name without such a dot has none.
pub proof fn extension_stands_behind_the_last_dot(
    p: &str,
    name: Option<String>,
    r: Option<String>,
)
    requires
        call_ensures(file_name, (p,), name),
        call_ensures(extension, (p,), r),
    ensures
        name is None ==> r is None,
        name matches Some(n) ==> match r {
            Some(e) => {
                &&& e@.len() + 1 < n@.len()
                &&& n@ == n@.take(n@.len() - e@.len() - 1) + seq!['.'] + e@
                &&& !e@.contains('.')
            },
            None => forall|i: int| 0 < i < n@.len() ==> #[trigger] n@[i] != '.',
        },
{
    if let Some(n) = name {
        lemma_last_of(n@, '.');
        let i = last_of(n@, '.');
        if let Some(e) = r {
            assert(e@ == n@.skip(i + 1));
            assert(n@.len() - e@.len() - 1 == i);
            assert(n@ =~= n@.take(i) + seq!['.'] + n@.skip(i + 1));
            assert(!n@.skip(i + 1).contains('.'));
        }
    }
}

} // verus!
