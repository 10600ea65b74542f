//! Text primitives.
//!
//! Strings are modelled by their sequences of characters. Each executable
//! function states its result through one of the spec functions at the top of
//! this file, so that the rest of the crate can reason about text without
//! looking at bytes or iterators.

use vstd::prelude::*;
use vstd::string::StringExecFns;
use vstd::utf8::{decode_utf8, encode_utf8, valid_utf8};

verus! {

/// `String::push` appends one character.
pub assume_specification[ String::push ](s: &mut String, c: char)
    ensures
        final(s)@ == old(s)@.push(c),
;

// ---------------------------------------------------------------------------
// Models
// ---------------------------------------------------------------------------

/// The Unicode `White_Space` property.
pub open spec fn is_white_space(c: char) -> bool {
    let n = c as int;
    ||| 0x9 <= n <= 0xD
    ||| n == 0x20
    ||| n == 0x85
    ||| n == 0xA0
    ||| n == 0x1680
    ||| 0x2000 <= n <= 0x200A
    ||| n == 0x2028
    ||| n == 0x2029
    ||| n == 0x202F
    ||| n == 0x205F
    ||| n == 0x3000
}

/// `s` without its leading white space.
pub open spec fn trimmed_start(s: Seq<char>) -> Seq<char>
    decreases s.len(),
{
    if s.len() > 0 && is_white_space(s[0]) {
        trimmed_start(s.drop_first())
    } else {
        s
    }
}

/// `s` without its trailing white space.
pub open spec fn trimmed_end(s: Seq<char>) -> Seq<char>
    decreases s.len(),
{
    if s.len() > 0 && is_white_space(s.last()) {
        trimmed_end(s.drop_last())
    } else {
        s
    }
}

/// `s` without white space at either end.
pub open spec fn trimmed(s: Seq<char>) -> Seq<char> {
    trimmed_end(trimmed_start(s))
}

/// ASCII letters to lower case, everything else unchanged.
pub open spec fn lower_char(c: char) -> char {
    if 'A' <= c <= 'Z' {
        (c as int + 32) as char
    } else {
        c
    }
}

/// ASCII letters to upper case, everything else unchanged.
pub open spec fn upper_char(c: char) -> char {
    if 'a' <= c <= 'z' {
        (c as int - 32) as char
    } else {
        c
    }
}

pub open spec fn lowered(s: Seq<char>) -> Seq<char> {
    Seq::new(s.len(), |i: int| lower_char(s[i]))
}

pub open spec fn uppered(s: Seq<char>) -> Seq<char> {
    Seq::new(s.len(), |i: int| upper_char(s[i]))
}

/// Index of the first `c` in `s`, or `s.len()` when there is none.
pub open spec fn first_of(s: Seq<char>, c: char) -> int
    decreases s.len(),
{
    if s.len() == 0 || s[0] == c {
        0
    } else {
        1 + first_of(s.drop_first(), c)
    }
}

/// The pieces of `s` between the occurrences of `c`; never empty.
pub open spec fn pieces(s: Seq<char>, c: char) -> Seq<Seq<char>>
    decreases s.len(),
{
    let i = first_of(s, c);
    if 0 <= i < s.len() {
        seq![s.take(i)] + pieces(s.skip(i + 1), c)
    } else {
        seq![s]
    }
}

/// The parts one after the other with `sep` between neighbours.
pub open spec fn joined(parts: Seq<Seq<char>>, sep: Seq<char>) -> Seq<char>
    decreases parts.len(),
{
    if parts.len() == 0 {
        seq![]
    } else if parts.len() == 1 {
        parts[0]
    } else {
        parts[0] + sep + joined(parts.drop_first(), sep)
    }
}

/// The models of a vector of strings.
pub open spec fn views(v: Seq<String>) -> Seq<Seq<char>> {
    Seq::new(v.len(), |i: int| v[i]@)
}

/// The model of an optional string.
pub open spec fn opt_view(s: Option<String>) -> Option<Seq<char>> {
    match s {
        Some(t) => Some(t@),
        None => None,
    }
}

/// The model of an optional borrowed string.
pub open spec fn opt_str_view(s: Option<&str>) -> Option<Seq<char>> {
    match s {
        Some(t) => Some(t@),
        None => None,
    }
}

/// Whether `p` occurs somewhere in `s`.
pub open spec fn has_text(s: Seq<char>, p: Seq<char>) -> bool {
    exists|i: int| 0 <= i <= s.len() - p.len() && #[trigger] s.subrange(i, i + p.len()) == p
}

/// Number of bytes of `s` in UTF-8.
pub open spec fn byte_len(s: Seq<char>) -> nat {
    encode_utf8(s).len()
}

pub open spec fn is_digit(c: char) -> bool {
    '0' <= c <= '9'
}

pub open spec fn is_hex_digit(c: char) -> bool {
    is_digit(c) || 'a' <= c <= 'f' || 'A' <= c <= 'F'
}

/// The decimal digit for `d`, `0 <= d <= 9`.
pub open spec fn digit_char(d: int) -> char {
    (48 + d) as char
}

/// `n` in decimal, without leading zeros.
pub open spec fn decimal(n: nat) -> Seq<char>
    decreases n,
{
    if n < 10 {
        seq![digit_char(n as int)]
    } else {
        decimal(n / 10).push(digit_char((n % 10) as int))
    }
}

/// `n` in decimal with a minus sign when negative.
pub open spec fn signed_decimal(n: int) -> Seq<char> {
    if n < 0 {
        seq!['-'] + decimal((-n) as nat)
    } else {
        decimal(n as nat)
    }
}

/// `n` in decimal, zero-padded to two columns.
pub open spec fn two_columns(n: int) -> Seq<char> {
    if 0 <= n < 10 {
        seq!['0'] + decimal(n as nat)
    } else {
        signed_decimal(n)
    }
}

pub open spec fn all_digits(s: Seq<char>) -> bool {
    forall|i: int| 0 <= i < s.len() ==> is_digit(#[trigger] s[i])
}

/// The number that a run of decimal digits denotes.
pub open spec fn digits_value(s: Seq<char>) -> nat
    decreases s.len(),
{
    if s.len() == 0 {
        0
    } else {
        10 * digits_value(s.drop_last()) + (s.last() as int - 48) as nat
    }
}

/// An unsigned decimal number of at most `max`, with an optional plus sign.
pub open spec fn unsigned_in(s: Seq<char>, max: nat) -> Option<nat> {
    let t = if s.len() > 0 && s[0] == '+' {
        s.skip(1)
    } else {
        s
    };
    if t.len() > 0 && all_digits(t) && digits_value(t) <= max {
        Some(digits_value(t))
    } else {
        None
    }
}

// ---------------------------------------------------------------------------
// Characters
// ---------------------------------------------------------------------------

/// The characters of `s`, in order.
pub fn chars_of(s: &str) -> (r: Vec<char>)
    ensures
        r@ == s@,
{
    let mut out: Vec<char> = Vec::new();
    for c in it: s.chars()
        invariant
            it.seq() == s@,
            out@ == s@.take(it.index()),
    {
        out.push(c);
    }
    out
}

/// The string made of `v[from]` up to and without `v[to]`.
pub fn text_between(v: &Vec<char>, from: usize, to: usize) -> (r: String)
    requires
        from <= to <= v.len(),
    ensures
        r@ == v@.subrange(from as int, to as int),
{
    let mut out = String::new();
    let mut i: usize = from;
    while i < to
        invariant
            from <= i <= to <= v.len(),
            out@ == v@.subrange(from as int, i as int),
        decreases to - i,
    {
        out.push(v[i]);
        i = i + 1;
        assert(v@.subrange(from as int, i as int) =~= v@.subrange(from as int, i - 1).push(
            v[i - 1],
        ));
    }
    out
}

pub fn same_text(a: &str, b: &str) -> (r: bool)
    ensures
        r == (a@ == b@),
{
    let x = chars_of(a);
    let y = chars_of(b);
    if x.len() != y.len() {
        return false;
    }
    for i in 0..x.len()
        invariant
            x.len() == y.len(),
            x@ == a@,
            y@ == b@,
            forall|j: int| 0 <= j < i ==> x[j] == y[j],
    {
        if x[i] != y[i] {
            return false;
        }
    }
    assert(x@ =~= y@);
    true
}

pub fn whitespace(c: char) -> (r: bool)
    ensures
        r == is_white_space(c),
{
    let n: u32 = c as u32;
    (0x9 <= n && n <= 0xD) || n == 0x20 || n == 0x85 || n == 0xA0 || n == 0x1680 || (0x2000 <= n
        && n <= 0x200A) || n == 0x2028 || n == 0x2029 || n == 0x202F || n == 0x205F || n == 0x3000
}

pub fn ascii_lower_char(c: char) -> (r: char)
    ensures
        r == lower_char(c),
{
    if 'A' <= c && c <= 'Z' {
        let b: u8 = c as u8;
        (b + 32) as char
    } else {
        c
    }
}

pub fn ascii_upper_char(c: char) -> (r: char)
    ensures
        r == upper_char(c),
{
    if 'a' <= c && c <= 'z' {
        let b: u8 = c as u8;
        (b - 32) as char
    } else {
        c
    }
}

// ---------------------------------------------------------------------------
// Case, trimming, searching
// ---------------------------------------------------------------------------

pub fn to_ascii_lowercase(s: &str) -> (r: String)
    ensures
        r@ == lowered(s@),
{
    let v = chars_of(s);
    let mut out = String::new();
    for i in 0..v.len()
        invariant
            v@ == s@,
            out@ == lowered(s@).take(i as int),
    {
        out.push(ascii_lower_char(v[i]));
        assert(lowered(s@).take(i + 1) =~= lowered(s@).take(i as int).push(lowered(s@)[i as int]));
    }
    assert(lowered(s@).take(v.len() as int) =~= lowered(s@));
    out
}

pub fn to_ascii_uppercase(s: &str) -> (r: String)
    ensures
        r@ == uppered(s@),
{
    let v = chars_of(s);
    let mut out = String::new();
    for i in 0..v.len()
        invariant
            v@ == s@,
            out@ == uppered(s@).take(i as int),
    {
        out.push(ascii_upper_char(v[i]));
        assert(uppered(s@).take(i + 1) =~= uppered(s@).take(i as int).push(uppered(s@)[i as int]));
    }
    assert(uppered(s@).take(v.len() as int) =~= uppered(s@));
    out
}

/// Equality up to the case of ASCII letters.
pub fn eq_ignore_ascii_case(a: &str, b: &str) -> (r: bool)
    ensures
        r == (lowered(a@) == lowered(b@)),
{
    let x = to_ascii_lowercase(a);
    let y = to_ascii_lowercase(b);
    x == y
}

/// Number of leading white-space characters of `v`.
fn leading_white_space(v: &Vec<char>) -> (r: usize)
    ensures
        r <= v.len(),
        trimmed_start(v@) == v@.skip(r as int),
{
    let mut i: usize = 0;
    assert(v@.skip(0) =~= v@);
    while i < v.len() && whitespace(v[i])
        invariant
            i <= v.len(),
            trimmed_start(v@) == trimmed_start(v@.skip(i as int)),
        decreases v.len() - i,
    {
        assert(v@.skip(i as int).drop_first() =~= v@.skip(i + 1));
        i = i + 1;
    }
    i
}

/// End of what is left of `v[from..]` without its trailing white space.
fn end_of_text(v: &Vec<char>, from: usize) -> (r: usize)
    requires
        from <= v.len(),
    ensures
        from <= r <= v.len(),
        trimmed_end(v@.skip(from as int)) == v@.subrange(from as int, r as int),
{
    let mut j: usize = v.len();
    assert(v@.skip(from as int) =~= v@.subrange(from as int, j as int));
    while from < j && whitespace(v[j - 1])
        invariant
            from <= j <= v.len(),
            trimmed_end(v@.skip(from as int)) == trimmed_end(
                v@.subrange(from as int, j as int),
            ),
        decreases j,
    {
        assert(v@.subrange(from as int, j as int).drop_last() =~= v@.subrange(
            from as int,
            j - 1,
        ));
        j = j - 1;
    }
    j
}

pub fn trim(s: &str) -> (r: String)
    ensures
        r@ == trimmed(s@),
{
    let v = chars_of(s);
    let i = leading_white_space(&v);
    let j = end_of_text(&v, i);
    text_between(&v, i, j)
}

pub fn trim_start(s: &str) -> (r: String)
    ensures
        r@ == trimmed_start(s@),
{
    let v = chars_of(s);
    let i = leading_white_space(&v);
    let n = v.len();
    assert(v@.skip(i as int) =~= v@.subrange(i as int, n as int));
    text_between(&v, i, n)
}

/// `s` without the characters `c` at its end.
pub open spec fn without_trailing(s: Seq<char>, c: char) -> Seq<char>
    decreases s.len(),
{
    if s.len() > 0 && s.last() == c {
        without_trailing(s.drop_last(), c)
    } else {
        s
    }
}

pub fn trim_end_matches(s: &str, c: char) -> (r: String)
    ensures
        r@ == without_trailing(s@, c),
{
    let v = chars_of(s);
    let mut j: usize = v.len();
    assert(v@.subrange(0, j as int) =~= s@);
    while 0 < j && v[j - 1] == c
        invariant
            j <= v.len(),
            v@ == s@,
            without_trailing(s@, c) == without_trailing(v@.subrange(0, j as int), c),
        decreases j,
    {
        assert(v@.subrange(0, j as int).drop_last() =~= v@.subrange(0, j - 1));
        j = j - 1;
    }
    text_between(&v, 0, j)
}

/// Index of the first `c` at or after `from`, or the length.
pub fn find_char(v: &Vec<char>, c: char, from: usize) -> (r: usize)
    requires
        from <= v.len(),
    ensures
        from <= r <= v.len(),
        r - from == first_of(v@.skip(from as int), c),
        r < v.len() ==> v[r as int] == c,
        forall|k: int| from <= k < r ==> v[k] != c,
{
    let mut i: usize = from;
    while i < v.len() && v[i] != c
        invariant
            from <= i <= v.len(),
            first_of(v@.skip(from as int), c) == i - from + first_of(v@.skip(i as int), c),
            forall|k: int| from <= k < i ==> v[k] != c,
        decreases v.len() - i,
    {
        assert(v@.skip(i as int).drop_first() =~= v@.skip(i + 1));
        i = i + 1;
    }
    i
}

pub fn has_char(s: &str, c: char) -> (r: bool)
    ensures
        r == s@.contains(c),
{
    let v = chars_of(s);
    let i = find_char(&v, c, 0);
    if i < v.len() {
        assert(s@[i as int] == c);
        true
    } else {
        false
    }
}

pub fn starts_with(s: &str, p: &str) -> (r: bool)
    ensures
        r == p@.is_prefix_of(s@),
{
    let v = chars_of(s);
    let w = chars_of(p);
    matches_at(&v, &w, 0)
}

/// Whether `w` stands in `v` at `from`.
fn matches_at(v: &Vec<char>, w: &Vec<char>, from: usize) -> (r: bool)
    requires
        from <= v.len(),
    ensures
        r == w@.is_prefix_of(v@.skip(from as int)),
        r == (from + w.len() <= v.len() && v@.subrange(from as int, from + w.len()) == w@),
{
    if v.len() - from < w.len() {
        return false;
    }
    for k in 0..w.len()
        invariant
            from + w.len() <= v.len(),
            forall|j: int| 0 <= j < k ==> v[from + j] == w[j],
    {
        if v[from + k] != w[k] {
            assert(v@.skip(from as int)[k as int] != w@[k as int]);
            assert(v@.subrange(from as int, from + w.len())[k as int] != w@[k as int]);
            return false;
        }
    }
    assert(v@.subrange(from as int, from + w.len()) =~= w@);
    assert(v@.skip(from as int).subrange(0, w@.len() as int) =~= w@);
    true
}

/// Whether `p` occurs in `s`.
pub fn contains_text(s: &str, p: &str) -> (r: bool)
    ensures
        r == has_text(s@, p@),
{
    let v = chars_of(s);
    let w = chars_of(p);
    let mut i: usize = 0;
    loop
        invariant
            v@ == s@,
            w@ == p@,
            i <= v.len(),
            forall|k: int|
                0 <= k < i && k <= s@.len() - p@.len() ==> #[trigger] s@.subrange(k, k + p@.len())
                    != p@,
        decreases v.len() - i,
    {
        if matches_at(&v, &w, i) {
            return true;
        }
        if i == v.len() {
            return false;
        }
        i = i + 1;
    }
}

/// What follows the prefix `p` of `s`, if `s` starts with it.
pub fn strip_prefix(s: &str, p: &str) -> (r: Option<String>)
    ensures
        match r {
            Some(t) => p@.is_prefix_of(s@) && t@ == s@.skip(p@.len() as int),
            None => !p@.is_prefix_of(s@),
        },
{
    let v = chars_of(s);
    let w = chars_of(p);
    if matches_at(&v, &w, 0) {
        assert(v@.skip(0) =~= s@);
        let n = v.len();
        assert(v@.subrange(w.len() as int, n as int) =~= s@.skip(p@.len() as int));
        Some(text_between(&v, w.len(), n))
    } else {
        assert(v@.skip(0) =~= s@);
        None
    }
}

/// The pieces of `s` between the occurrences of `c`.
pub fn split(s: &str, c: char) -> (r: Vec<String>)
    ensures
        views(r@) == pieces(s@, c),
{
    let v = chars_of(s);
    let mut out: Vec<String> = Vec::new();
    let mut from: usize = 0;
    assert(v@.skip(0) =~= s@);
    assert(views(out@) + pieces(s@, c) =~= pieces(s@, c));
    loop
        invariant
            v@ == s@,
            from <= v.len(),
            views(out@) + pieces(v@.skip(from as int), c) == pieces(s@, c),
        decreases v.len() - from,
    {
        let i = find_char(&v, c, from);
        let piece = text_between(&v, from, i);
        let ghost rest = v@.skip(from as int);
        let ghost before = views(out@);
        proof {
            assert(rest.take(i - from) =~= v@.subrange(from as int, i as int));
        }
        out.push(piece);
        assert(views(out@) =~= before.push(piece@));
        if i == v.len() {
            assert(rest =~= piece@);
            assert(before + seq![rest] =~= views(out@));
            return out;
        }
        proof {
            assert(rest.skip(i - from + 1) =~= v@.skip(i + 1));
            assert(before + (seq![rest.take(i - from)] + pieces(v@.skip(i + 1), c)) =~= views(out@)
                + pieces(v@.skip(i + 1), c));
        }
        from = i + 1;
    }
}

/// The text before and after the first `c`, if there is one.
pub fn split_once(s: &str, c: char) -> (r: Option<(String, String)>)
    ensures
        match r {
            Some((a, b)) => first_of(s@, c) < s@.len() && a@ == s@.take(first_of(s@, c)) && b@
                == s@.skip(first_of(s@, c) + 1),
            None => first_of(s@, c) == s@.len(),
        },
{
    let v = chars_of(s);
    assert(v@.skip(0) =~= s@);
    let i = find_char(&v, c, 0);
    let n = v.len();
    if i < n {
        let a = text_between(&v, 0, i);
        let b = text_between(&v, i + 1, n);
        assert(a@ =~= s@.take(i as int));
        assert(b@ =~= s@.skip(i + 1));
        Some((a, b))
    } else {
        None
    }
}

/// Appends the decimal digits of `n`.
pub fn decimal_u64(n: u64) -> (r: String)
    ensures
        r@ == decimal(n as nat),
    decreases n,
{
    let d: u8 = (n % 10) as u8;
    let c: char = (48 + d) as char;
    if n < 10 {
        let mut out = String::new();
        out.push(c);
        assert(out@ =~= decimal(n as nat));
        out
    } else {
        let mut out = decimal_u64(n / 10);
        out.push(c);
        out
    }
}

/// The parts one after the other with `sep` between neighbours.
pub fn join(parts: &Vec<String>, sep: &str) -> (r: String)
    ensures
        r@ == joined(views(parts@), sep@),
{
    let mut out = String::new();
    let mut i: usize = parts.len();
    assert(views(parts@).skip(i as int) =~= seq![]);
    while 0 < i
        invariant
            i <= parts.len(),
            out@ == joined(views(parts@).skip(i as int), sep@),
        decreases i,
    {
        let ghost tail = views(parts@).skip(i as int);
        i = i - 1;
        let mut head = parts[i].clone();
        let ghost whole = views(parts@).skip(i as int);
        assert(whole.drop_first() =~= tail);
        assert(whole[0] == parts[i as int]@);
        if i + 1 < parts.len() {
            head.append(sep);
            head.append(out.as_str());
        }
        out = head;
    }
    assert(views(parts@).skip(0) =~= views(parts@));
    out
}

/// `n` in decimal, with a minus sign when negative.
pub fn decimal_i64(n: i64) -> (r: String)
    ensures
        r@ == signed_decimal(n as int),
{
    if n >= 0 {
        decimal_u64(n as u64)
    } else {
        let m: u64 = if n == i64::MIN {
            9_223_372_036_854_775_808
        } else {
            (-n) as u64
        };
        let mut out = String::new();
        out.push('-');
        assert(out@ =~= seq!['-']);
        out.append(decimal_u64(m).as_str());
        out
    }
}

/// `n` in decimal, zero-padded to two columns.
pub fn two_column_i64(n: i64) -> (r: String)
    ensures
        r@ == two_columns(n as int),
{
    if 0 <= n && n < 10 {
        let mut out = String::new();
        out.push('0');
        assert(out@ =~= seq!['0']);
        out.append(decimal_u64(n as u64).as_str());
        out
    } else {
        decimal_i64(n)
    }
}

/// The unsigned number that `s` denotes, where it fits.
pub fn parse_u64(s: &str) -> (r: Option<u64>)
    ensures
        match r {
            Some(n) => unsigned_in(s@, u64::MAX as nat) == Some(n as nat),
            None => unsigned_in(s@, u64::MAX as nat) is None,
        },
{
    let v = chars_of(s);
    let n: usize = v.len();
    let from: usize = if n > 0 && v[0] == '+' {
        1
    } else {
        0
    };
    let ghost t = s@.skip(from as int);
    assert(from == 0 ==> t =~= s@);
    if from == n {
        return None;
    }
    let mut i: usize = from;
    let mut acc: u64 = 0;
    assert(t.take(0) =~= Seq::empty());
    while i < n
        invariant
            from <= i <= n == v.len(),
            from <= 1,
            v@ == s@,
            t == s@.skip(from as int),
            t == (if s@.len() > 0 && s@[0] == '+' {
                s@.skip(1)
            } else {
                s@
            }),
            t.len() > 0,
            all_digits(t.take(i - from)),
            acc == digits_value(t.take(i - from)),
        decreases n - i,
    {
        let c = v[i];
        let ghost upto = t.take(i - from + 1);
        proof {
            assert(t[i - from] == c);
            assert(upto.drop_last() =~= t.take(i - from));
            assert(upto.last() == c);
        }
        if c < '0' || c > '9' {
            assert(!is_digit(t[i - from]));
            return None;
        }
        let d: u64 = c as u64 - 48;
        let wide: u128 = acc as u128 * 10 + d as u128;
        assert(wide == digits_value(upto));
        assert(all_digits(upto)) by {
            assert forall|k: int| 0 <= k < upto.len() implies is_digit(#[trigger] upto[k]) by {
                if k < i - from {
                    assert(t.take(i - from)[k] == upto[k]);
                }
            }
        }
        if wide > u64::MAX as u128 {
            proof {
                lemma_prefix_value(t, i - from + 1);
            }
            return None;
        }
        acc = wide as u64;
        i = i + 1;
    }
    assert(t.take(n - from) =~= t);
    Some(acc)
}

/// The unsigned 32-bit number that `s` denotes, where it fits.
pub fn parse_u32(s: &str) -> (r: Option<u32>)
    ensures
        match r {
            Some(n) => unsigned_in(s@, u32::MAX as nat) == Some(n as nat),
            None => unsigned_in(s@, u32::MAX as nat) is None,
        },
{
    match parse_u64(s) {
        Some(n) => {
            if n <= u32::MAX as u64 {
                Some(n as u32)
            } else {
                None
            }
        },
        None => None,
    }
}

/// The unsigned number of machine size that `s` denotes, where it fits.
pub fn parse_usize(s: &str) -> (r: Option<usize>)
    ensures
        match r {
            Some(n) => unsigned_in(s@, usize::MAX as nat) == Some(n as nat),
            None => unsigned_in(s@, usize::MAX as nat) is None,
        },
{
    match parse_u64(s) {
        Some(n) => {
            if n <= usize::MAX as u64 {
                Some(n as usize)
            } else {
                None
            }
        },
        None => None,
    }
}

proof fn lemma_prefix_value(s: Seq<char>, k: int)
    requires
        0 <= k <= s.len(),
        all_digits(s.take(k)),
    ensures
        all_digits(s) ==> digits_value(s.take(k)) <= digits_value(s),
    decreases s.len() - k,
{
    if k < s.len() {
        let next = s.take(k + 1);
        assert(next.drop_last() =~= s.take(k));
        if all_digits(s) {
            assert forall|i: int| 0 <= i < next.len() implies is_digit(#[trigger] next[i]) by {
                assert(next[i] == s[i]);
            }
            assert(next.last() == s[k]);
            assert(is_digit(s[k]));
            lemma_prefix_value(s, k + 1);
        }
    } else {
        assert(s.take(k) =~= s);
    }
}

/// A number written in decimal denotes itself.
pub proof fn decimal_denotes(n: nat)
    ensures
        decimal(n).len() > 0,
        all_digits(decimal(n)),
        digits_value(decimal(n)) == n,
        decimal(n)[0] != '+',
    decreases n,
{
    let s = decimal(n);
    if n < 10 {
        assert(s.drop_last() =~= Seq::empty());
        assert(digits_value(s.drop_last()) == 0);
    } else {
        decimal_denotes(n / 10);
        assert(s.drop_last() =~= decimal(n / 10));
        assert forall|i: int| 0 <= i < s.len() implies is_digit(#[trigger] s[i]) by {
            if i < s.len() - 1 {
                assert(s[i] == decimal(n / 10)[i]);
            }
        }
        assert(s[0] == decimal(n / 10)[0]);
    }
}

/// Reading back a written number gives the number.
pub proof fn written_number_reads_back(n: nat, max: nat)
    requires
        n <= max,
    ensures
        unsigned_in(decimal(n), max) == Some(n),
{
    decimal_denotes(n);
}

/// The lower-case form of a text by the rules of Unicode.
pub uninterp spec fn unicode_lower(s: Seq<char>) -> Seq<char>;

/// Only ASCII characters occur in `s`.
pub open spec fn is_ascii_text(s: Seq<char>) -> bool {
    forall|i: int| 0 <= i < s.len() ==> (#[trigger] s[i]) as u32 <= 127
}

/// `str::to_lowercase`. Its result depends on the text alone; on ASCII text
/// it lower-cases the letters and keeps the rest.
#[verifier::external_body]
pub(crate) fn to_lowercase(s: &str) -> (r: String)
    ensures
        r@ == unicode_lower(s@),
        is_ascii_text(s@) ==> r@ == lowered(s@),
{
    s.to_lowercase()
}

/// The text that valid UTF-8 bytes stand for, by `std::str::from_utf8`.
#[verifier::external_body]
pub(crate) fn utf8_text(bytes: &Vec<u8>) -> (r: Option<String>)
    ensures
        match r {
            Some(s) => valid_utf8(bytes@) && s@ == decode_utf8(bytes@),
            None => !valid_utf8(bytes@),
        },
{
    match std::str::from_utf8(bytes) {
        Ok(s) => Some(s.to_owned()),
        Err(_) => None,
    }
}

/// Number of bytes of `s` in UTF-8.
pub fn byte_length(s: &str) -> (r: usize)
    ensures
        r == byte_len(s@),
{
    s.as_bytes().len()
}

/// Whether `s` is empty.
pub fn is_blank(s: &str) -> (r: bool)
    ensures
        r == (s@.len() == 0),
{
    proof {
        reveal_strlit("");
        if s@.len() == 0 {
            assert(s@ =~= ""@);
        }
    }
    same_text(s, "")
}

/// Whether `w` is one of `words`.
pub fn holds(words: &Vec<String>, w: &str) -> (r: bool)
    ensures
        r == views(words@).contains(w@),
{
    for i in 0..words.len()
        invariant
            forall|j: int| 0 <= j < i ==> (#[trigger] words@[j])@ != w@,
    {
        if same_text(words[i].as_str(), w) {
            assert(views(words@)[i as int] == w@);
            return true;
        }
    }
    assert forall|j: int| 0 <= j < words@.len() implies #[trigger] views(words@)[j] != w@ by {
        assert(words@[j]@ != w@);
    }
    false
}

/// A copy of an optional string.
pub fn clone_opt(s: &Option<String>) -> (r: Option<String>)
    ensures
        r == *s,
{
    match s {
        Some(t) => Some(t.clone()),
        None => None,
    }
}

/// The text of an optional string.
pub fn opt_str(s: &Option<String>) -> (r: Option<&str>)
    ensures
        opt_str_view(r) == opt_view(*s),
{
    match s {
        Some(t) => Some(t.as_str()),
        None => None,
    }
}

// ---------------------------------------------------------------------------
// Order
// ---------------------------------------------------------------------------

/// Lexicographic order by code point, which is also the order of the UTF-8
/// bytes.
pub open spec fn text_lt(a: Seq<char>, b: Seq<char>) -> bool
    decreases b.len(),
{
    if b.len() == 0 {
        false
    } else if a.len() == 0 {
        true
    } else if a[0] != b[0] {
        a[0] < b[0]
    } else {
        text_lt(a.drop_first(), b.drop_first())
    }
}

/// `text_lt` is a strict total order.
pub proof fn text_lt_is_total_order(a: Seq<char>, b: Seq<char>, c: Seq<char>)
    ensures
        !text_lt(a, a),
        text_lt(a, b) ==> !text_lt(b, a),
        a != b ==> text_lt(a, b) || text_lt(b, a),
        text_lt(a, b) && text_lt(b, c) ==> text_lt(a, c),
    decreases a.len() + b.len() + c.len(),
{
    if a.len() > 0 && b.len() > 0 && c.len() > 0 {
        text_lt_is_total_order(a.drop_first(), b.drop_first(), c.drop_first());
    } else if a.len() > 0 && b.len() > 0 {
        text_lt_is_total_order(a.drop_first(), b.drop_first(), c);
    } else if a.len() > 0 {
        text_lt_is_total_order(a.drop_first(), b, c);
    }
    if a.len() > 0 && b.len() > 0 && a[0] == b[0] && a.drop_first() == b.drop_first() {
        assert(a =~= seq![a[0]] + a.drop_first());
        assert(b =~= seq![b[0]] + b.drop_first());
    }
    if a.len() == 0 && b.len() == 0 {
        assert(a =~= b);
    }
}

/// Whether `a` sorts strictly before `b`.
pub fn sorts_before(a: &str, b: &str) -> (r: bool)
    ensures
        r == text_lt(a@, b@),
{
    let x = chars_of(a);
    let y = chars_of(b);
    let mut i: usize = 0;
    assert(x@.skip(0) =~= a@);
    assert(y@.skip(0) =~= b@);
    loop
        invariant
            x@ == a@,
            y@ == b@,
            i <= x.len(),
            i <= y.len(),
            text_lt(a@, b@) == text_lt(x@.skip(i as int), y@.skip(i as int)),
        decreases x.len() - i,
    {
        if i == y.len() {
            return false;
        }
        if i == x.len() {
            return true;
        }
        if x[i] != y[i] {
            return x[i] < y[i];
        }
        assert(x@.skip(i as int).drop_first() =~= x@.skip(i + 1));
        assert(y@.skip(i as int).drop_first() =~= y@.skip(i + 1));
        i = i + 1;
    }
}

// ---------------------------------------------------------------------------
// Facts about the models
// ---------------------------------------------------------------------------

/// No character of `s` is `c`.
pub open spec fn lacks(s: Seq<char>, c: char) -> bool {
    forall|i: int| 0 <= i < s.len() ==> #[trigger] s[i] != c
}

/// `s` has no white space at either end.
pub open spec fn is_trimmed(s: Seq<char>) -> bool {
    s.len() > 0 ==> !is_white_space(s[0]) && !is_white_space(s.last())
}

/// No upper-case ASCII letter occurs in `s`.
pub open spec fn is_lower(s: Seq<char>) -> bool {
    forall|i: int| 0 <= i < s.len() ==> #[trigger] s[i] < 'A' || s[i] > 'Z'
}

proof fn lemma_trimmed_start(s: Seq<char>)
    ensures
        exists|k: int| 0 <= k <= s.len() && trimmed_start(s) == #[trigger] s.skip(k),
        trimmed_start(s).len() > 0 ==> !is_white_space(trimmed_start(s)[0]),
    decreases s.len(),
{
    if s.len() > 0 && is_white_space(s[0]) {
        lemma_trimmed_start(s.drop_first());
        let k = choose|k: int|
            0 <= k <= s.drop_first().len() && trimmed_start(s.drop_first())
                == #[trigger] s.drop_first().skip(k);
        assert(s.drop_first().skip(k) =~= s.skip(k + 1));
    } else {
        assert(s.skip(0) =~= s);
    }
}

proof fn lemma_trimmed_end(s: Seq<char>)
    ensures
        exists|k: int| 0 <= k <= s.len() && trimmed_end(s) == #[trigger] s.take(k),
        trimmed_end(s).len() > 0 ==> !is_white_space(trimmed_end(s).last()),
    decreases s.len(),
{
    if s.len() > 0 && is_white_space(s.last()) {
        lemma_trimmed_end(s.drop_last());
        let k = choose|k: int|
            0 <= k <= s.drop_last().len() && trimmed_end(s.drop_last())
                == #[trigger] s.drop_last().take(k);
        assert(s.drop_last().take(k) =~= s.take(k));
    } else {
        assert(s.take(s.len() as int) =~= s);
    }
}

/// Trimming leaves a trimmed stretch of the text, and trimmed text alone.
pub proof fn lemma_trimmed(s: Seq<char>)
    ensures
        is_trimmed(trimmed(s)),
        forall|c: char| lacks(s, c) ==> #[trigger] lacks(trimmed(s), c),
        is_lower(s) ==> is_lower(trimmed(s)),
        trimmed(s).len() <= s.len(),
        is_trimmed(s) ==> trimmed(s) == s,
{
    lemma_trimmed_start(s);
    let t = trimmed_start(s);
    lemma_trimmed_end(t);
    let a = choose|k: int| 0 <= k <= s.len() && t == #[trigger] s.skip(k);
    let b = choose|k: int| 0 <= k <= t.len() && trimmed_end(t) == #[trigger] t.take(k);
    assert(t == s.skip(a));
    assert(trimmed(s) == t.take(b));
    assert forall|c: char| lacks(s, c) implies #[trigger] lacks(trimmed(s), c) by {
        assert forall|i: int| 0 <= i < trimmed(s).len() implies #[trigger] trimmed(s)[i] != c by {
            assert(trimmed(s)[i] == s[a + i]);
        }
    }
    if is_lower(s) {
        assert forall|i: int| 0 <= i < trimmed(s).len() implies #[trigger] trimmed(s)[i] < 'A'
            || trimmed(s)[i] > 'Z' by {
            assert(trimmed(s)[i] == s[a + i]);
        }
    }
}

/// Leading white space does not survive trimming.
pub proof fn lemma_trimmed_after_space(s: Seq<char>)
    ensures
        trimmed(seq![' '] + s) == trimmed(s),
{
    let t = seq![' '] + s;
    assert(t[0] == ' ');
    assert(t.drop_first() =~= s);
}

/// Lower-casing keeps the length, the trimming and every character outside
/// `A..Z`.
pub proof fn lemma_lowered(s: Seq<char>)
    ensures
        is_lower(lowered(s)),
        is_lower(s) ==> lowered(s) == s,
        is_trimmed(s) ==> is_trimmed(lowered(s)),
        forall|c: char| lacks(s, c) && !('a' <= c <= 'z') ==> #[trigger] lacks(lowered(s), c),
        lowered(s).len() == s.len(),
{
    assert forall|i: int| 0 <= i < s.len() implies #[trigger] lowered(s)[i] < 'A' || lowered(s)[i]
        > 'Z' by {}
    if is_lower(s) {
        assert forall|i: int| 0 <= i < s.len() implies lowered(s)[i] == s[i] by {
            assert(s[i] < 'A' || s[i] > 'Z');
        }
        assert(lowered(s) =~= s);
    }
    assert forall|c: char| lacks(s, c) && !('a' <= c <= 'z') implies #[trigger] lacks(
        lowered(s),
        c,
    ) by {
        assert forall|i: int| 0 <= i < s.len() implies #[trigger] lowered(s)[i] != c by {
            assert(s[i] != c);
        }
    }
}

/// `first_of` is the first occurrence.
pub proof fn lemma_first_of(s: Seq<char>, c: char)
    ensures
        0 <= first_of(s, c) <= s.len(),
        first_of(s, c) < s.len() ==> s[first_of(s, c)] == c,
        lacks(s.take(first_of(s, c)), c),
        lacks(s, c) <==> first_of(s, c) == s.len(),
    decreases s.len(),
{
    if s.len() > 0 && s[0] != c {
        let t = s.drop_first();
        lemma_first_of(t, c);
        let k = first_of(t, c);
        assert forall|i: int| 0 <= i < k + 1 implies #[trigger] s.take(k + 1)[i] != c by {
            if i > 0 {
                assert(t.take(k)[i - 1] == s[i]);
            }
        }
        if lacks(t, c) {
            assert forall|i: int| 0 <= i < s.len() implies #[trigger] s[i] != c by {
                if i > 0 {
                    assert(t[i - 1] == s[i]);
                }
            }
        }
        if lacks(s, c) {
            assert forall|i: int| 0 <= i < t.len() implies #[trigger] t[i] != c by {
                assert(t[i] == s[i + 1]);
            }
        }
    }
}

/// The first `c` of `a` followed by `c` and more is where `a` ends, if `a`
/// has none.
pub proof fn lemma_first_of_joint(a: Seq<char>, c: char, b: Seq<char>)
    requires
        lacks(a, c),
    ensures
        first_of(a + seq![c] + b, c) == a.len(),
    decreases a.len(),
{
    let s = a + seq![c] + b;
    if a.len() > 0 {
        assert(a[0] != c);
        assert(s[0] == a[0]);
        assert(s.drop_first() =~= a.drop_first() + seq![c] + b);
        assert forall|i: int| 0 <= i < a.drop_first().len() implies #[trigger] a.drop_first()[i]
            != c by {
            assert(a[i + 1] != c);
        }
        lemma_first_of_joint(a.drop_first(), c, b);
    } else {
        assert(s[0] == c);
    }
}

/// There is always a piece, and no piece holds the separator.
pub proof fn lemma_pieces_lack(s: Seq<char>, c: char)
    ensures
        pieces(s, c).len() > 0,
        forall|i: int| 0 <= i < pieces(s, c).len() ==> lacks(#[trigger] pieces(s, c)[i], c),
    decreases s.len(),
{
    lemma_first_of(s, c);
    let i = first_of(s, c);
    if i < s.len() {
        lemma_pieces_lack(s.skip(i + 1), c);
        let rest = pieces(s.skip(i + 1), c);
        assert forall|k: int| 0 <= k < pieces(s, c).len() implies lacks(
            #[trigger] pieces(s, c)[k],
            c,
        ) by {
            if k > 0 {
                assert(pieces(s, c)[k] == rest[k - 1]);
            }
        }
    }
}

/// Texts with a separator between them split into the pieces of both.
pub proof fn lemma_pieces_of_two(a: Seq<char>, c: char, b: Seq<char>)
    ensures
        pieces(a + seq![c] + b, c) == pieces(a, c) + pieces(b, c),
    decreases a.len(),
{
    let s = a + seq![c] + b;
    lemma_first_of(a, c);
    let i = first_of(a, c);
    if i < a.len() {
        let head = a.take(i);
        let rest = a.skip(i + 1);
        assert(a =~= head + seq![c] + rest);
        assert(s =~= head + seq![c] + (rest + seq![c] + b));
        lemma_first_of_joint(head, c, rest + seq![c] + b);
        assert(s.take(i) =~= head);
        assert(s.skip(i + 1) =~= rest + seq![c] + b);
        lemma_pieces_of_two(rest, c, b);
        assert(pieces(s, c) =~= pieces(a, c) + pieces(b, c));
    } else {
        lemma_first_of_joint(a, c, b);
        assert(s.take(a.len() as int) =~= a);
        assert(s.skip(a.len() as int + 1) =~= b);
        assert(pieces(s, c) =~= pieces(a, c) + pieces(b, c));
    }
}

/// Splitting what was joined gives back the parts: the first behind what
/// precedes it, the others behind what follows the separator character.
pub proof fn lemma_pieces_of_joined(
    pre: Seq<char>,
    parts: Seq<Seq<char>>,
    c: char,
    post: Seq<char>,
)
    requires
        parts.len() > 0,
        lacks(pre, c),
        lacks(post, c),
        forall|i: int| 0 <= i < parts.len() ==> lacks(#[trigger] parts[i], c),
    ensures
        pieces(pre + joined(parts, seq![c] + post), c) == Seq::new(
            parts.len(),
            |i: int|
                if i == 0 {
                    pre + parts[i]
                } else {
                    post + parts[i]
                },
        ),
    decreases parts.len(),
{
    let sep = seq![c] + post;
    let s = pre + joined(parts, sep);
    let head = pre + parts[0];
    assert(lacks(parts[0], c));
    assert(lacks(head, c));
    let goal = Seq::new(
        parts.len(),
        |i: int|
            if i == 0 {
                pre + parts[i]
            } else {
                post + parts[i]
            },
    );
    if parts.len() == 1 {
        assert(s =~= head);
        lemma_first_of(s, c);
        assert(pieces(s, c) =~= goal);
    } else {
        let rest = parts.drop_first();
        assert forall|i: int| 0 <= i < rest.len() implies lacks(#[trigger] rest[i], c) by {
            assert(lacks(parts[i + 1], c));
        }
        let tail = post + joined(rest, sep);
        assert(s =~= head + seq![c] + tail);
        lemma_first_of_joint(head, c, tail);
        assert(s.take(head.len() as int) =~= head);
        assert(s.skip(head.len() as int + 1) =~= tail);
        lemma_pieces_of_joined(post, rest, c, post);
        assert(pieces(s, c) =~= goal);
    }
}

// ---------------------------------------------------------------------------
// Laws
// ---------------------------------------------------------------------------

proof fn lemma_trimmed_start_splits(s: Seq<char>) -> (n: int)
    ensures
        0 <= n <= s.len(),
        trimmed_start(s) == s.skip(n),
        forall|i: int| 0 <= i < n ==> is_white_space(#[trigger] s[i]),
        n < s.len() ==> !is_white_space(s[n]),
    decreases s.len(),
{
    if s.len() > 0 && is_white_space(s[0]) {
        let t = s.drop_first();
        let n = lemma_trimmed_start_splits(t);
        assert(t.skip(n) =~= s.skip(n + 1));
        assert forall|i: int| 0 <= i < n + 1 implies is_white_space(#[trigger] s[i]) by {
            if i > 0 {
                assert(s[i] == t[i - 1]);
            }
        }
        n + 1
    } else {
        assert(s.skip(0) =~= s);
        0
    }
}

proof fn lemma_trimmed_end_splits(s: Seq<char>) -> (n: int)
    ensures
        0 <= n <= s.len(),
        trimmed_end(s) == s.take(n),
        forall|i: int| n <= i < s.len() ==> is_white_space(#[trigger] s[i]),
        n > 0 ==> !is_white_space(s[n - 1]),
    decreases s.len(),
{
    if s.len() > 0 && is_white_space(s.last()) {
        let t = s.drop_last();
        let n = lemma_trimmed_end_splits(t);
        assert(t.take(n) =~= s.take(n));
        assert forall|i: int| n <= i < s.len() implies is_white_space(#[trigger] s[i]) by {
            if i < t.len() {
                assert(s[i] == t[i]);
            }
        }
        n
    } else {
        assert(s.take(s.len() as int) =~= s);
        s.len() as int
    }
}

/// Among the ASCII characters the blank, the tabs and the line breaks are white
/// space; among the others, no letter of Latin-1 is.
pub proof fn ascii_white_space(c: char, r: bool)
    requires
        call_ensures(whitespace, (c,), r),
    ensures
        c as int <= 0x7F ==> r == (c == ' ' || 9 <= c as int <= 13),
        0xC0 <= c as int <= 0xFF ==> !r,
        c as int == 0xA0 || c as int == 0x3000 || 0x2000 <= c as int <= 0x200A ==> r,
        c as int > 0x3000 ==> !r,
{
}

/// Trimming takes white space away at the ends, all of it, and nothing else.
pub proof fn trimming_takes_white_space_only(s: &str, r: String) -> (p: (int, int))
    requires
        call_ensures(trim, (s,), r),
    ensures
        0 <= p.0 <= p.1 <= s@.len(),
        r@ == s@.subrange(p.0, p.1),
        forall|i: int|
            (0 <= i < p.0 || p.1 <= i < s@.len()) ==> is_white_space(#[trigger] s@[i]),
        r@.len() > 0 ==> !is_white_space(r@[0]) && !is_white_space(r@.last()),
{
    let a = lemma_trimmed_start_splits(s@);
    let t = s@.skip(a);
    let n = lemma_trimmed_end_splits(t);
    assert(t.take(n) =~= s@.subrange(a, a + n));
    assert forall|i: int|
        (0 <= i < a || a + n <= i < s@.len()) implies is_white_space(#[trigger] s@[i]) by {
        if i >= a + n {
            assert(t[i - a] == s@[i]);
        }
    }
    if n > 0 {
        assert(r@.last() == t[n - 1]);
        assert(r@[0] == s@[a]);
    }
    (a, a + n)
}

/// Trimming at the start keeps the end of the text.
pub proof fn start_is_trimmed_alone(s: &str, r: String) -> (n: int)
    requires
        call_ensures(trim_start, (s,), r),
    ensures
        0 <= n <= s@.len(),
        r@ == s@.skip(n),
        forall|i: int| 0 <= i < n ==> is_white_space(#[trigger] s@[i]),
        r@.len() > 0 ==> !is_white_space(r@[0]),
{
    lemma_trimmed_start_splits(s@)
}

proof fn lemma_without_trailing(s: Seq<char>, c: char) -> (n: int)
    ensures
        0 <= n <= s.len(),
        without_trailing(s, c) == s.take(n),
        forall|i: int| n <= i < s.len() ==> #[trigger] s[i] == c,
        n > 0 ==> s[n - 1] != c,
    decreases s.len(),
{
    if s.len() > 0 && s.last() == c {
        let t = s.drop_last();
        let n = lemma_without_trailing(t, c);
        assert(t.take(n) =~= s.take(n));
        assert forall|i: int| n <= i < s.len() implies #[trigger] s[i] == c by {
            if i < t.len() {
                assert(s[i] == t[i]);
            }
        }
        n
    } else {
        assert(s.take(s.len() as int) =~= s);
        s.len() as int
    }
}

/// What is taken off the end is the character asked for, all of it there.
pub proof fn end_is_freed_of_a_character(s: &str, c: char, r: String) -> (n: int)
    requires
        call_ensures(trim_end_matches, (s, c), r),
    ensures
        0 <= n <= s@.len(),
        r@ == s@.take(n),
        forall|i: int| n <= i < s@.len() ==> #[trigger] s@[i] == c,
        r@.len() > 0 ==> r@.last() != c,
{
    lemma_without_trailing(s@, c)
}

/// Lower case moves the ASCII capitals to their small letters, upper case the
/// small letters to their capitals; each keeps everything else where it is.
pub proof fn case_is_of_ascii_letters(s: &str, lower: String, upper: String, i: int)
    requires
        call_ensures(to_ascii_lowercase, (s,), lower),
        call_ensures(to_ascii_uppercase, (s,), upper),
        0 <= i < s@.len(),
    ensures
        lower@.len() == s@.len() == upper@.len(),
        'A' <= s@[i] <= 'Z' ==> lower@[i] as int - 'a' as int == s@[i] as int - 'A' as int
            && upper@[i] == s@[i],
        'a' <= s@[i] <= 'z' ==> upper@[i] as int - 'A' as int == s@[i] as int - 'a' as int
            && lower@[i] == s@[i],
        !('A' <= s@[i] <= 'Z') && !('a' <= s@[i] <= 'z') ==> lower@[i] == s@[i] && upper@[i]
            == s@[i],
{
}

/// Texts that differ in the case of ASCII letters alone are the same when case
/// is ignored, and no others are.
pub proof fn case_alone_is_ignored(a: &str, b: &str, r: bool)
    requires
        call_ensures(eq_ignore_ascii_case, (a, b), r),
    ensures
        r == (a@.len() == b@.len() && forall|i: int|
            0 <= i < a@.len() ==> #[trigger] a@[i] == b@[i] || ('A' <= a@[i] <= 'Z' && b@[i] as int
                == a@[i] as int + 32) || ('A' <= b@[i] <= 'Z' && a@[i] as int == b@[i] as int
                + 32)),
{
    let la = lowered(a@);
    let lb = lowered(b@);
    assert(la.len() == a@.len() && lb.len() == b@.len());
    if la.len() == lb.len() {
        assert forall|i: int| 0 <= i < la.len() implies ((#[trigger] la[i]) == lb[i]) == (a@[i]
            == b@[i] || ('A' <= a@[i] <= 'Z' && b@[i] as int == a@[i] as int + 32) || ('A' <= b@[i]
            <= 'Z' && a@[i] as int == b@[i] as int + 32)) by {
            lemma_case_of_two(a@[i], b@[i]);
        }
        if r {
            assert forall|i: int| 0 <= i < a@.len() implies #[trigger] a@[i] == b@[i] || ('A'
                <= a@[i] <= 'Z' && b@[i] as int == a@[i] as int + 32) || ('A' <= b@[i] <= 'Z'
                && a@[i] as int == b@[i] as int + 32) by {
                assert(la[i] == lb[i]);
            }
        } else {
            assert(!(la =~= lb));
            let i = choose|i: int| 0 <= i < la.len() && la[i] != lb[i];
            assert(a@[i] != b@[i]);
        }
    }
}

proof fn lemma_case_of_two(x: char, y: char)
    ensures
        (lower_char(x) == lower_char(y)) == (x == y || ('A' <= x <= 'Z' && y as int == x as int
            + 32) || ('A' <= y <= 'Z' && x as int == y as int + 32)),
{
    assert('A' <= x <= 'Z' ==> lower_char(x) as int == x as int + 32);
    assert('A' <= y <= 'Z' ==> lower_char(y) as int == y as int + 32);
    if x as int == y as int {
        assert(x == y);
    }
    if lower_char(x) as int == lower_char(y) as int {
        assert(lower_char(x) == lower_char(y));
    }
}

/// A text is found in every text that holds it, wherever it stands.
pub proof fn part_is_found(s: &str, p: &str, r: bool)
    requires
        call_ensures(contains_text, (s, p), r),
    ensures
        r == exists|a: Seq<char>, b: Seq<char>| s@ == #[trigger] ((a + p@) + b),
{
    if r {
        let i = choose|i: int|
            0 <= i <= s@.len() - p@.len() && #[trigger] s@.subrange(i, i + p@.len()) == p@;
        let a = s@.take(i);
        let b = s@.skip(i + p@.len());
        assert(s@ =~= (a + s@.subrange(i, i + p@.len())) + b);
        assert(s@ == (a + p@) + b);
    }
    if exists|a: Seq<char>, b: Seq<char>| s@ == #[trigger] ((a + p@) + b) {
        let (a, b) = choose|a: Seq<char>, b: Seq<char>| s@ == #[trigger] ((a + p@) + b);
        let n = a.len() as int;
        assert(s@.subrange(n, n + p@.len()) =~= p@);
    }
}

/// A text starts with every prefix of it, and taking a prefix off leaves what
/// makes the text again behind it.
pub proof fn prefix_comes_off(s: &str, p: &str, starts: bool, rest: Option<String>)
    requires
        call_ensures(starts_with, (s, p), starts),
        call_ensures(strip_prefix, (s, p), rest),
    ensures
        starts == (rest is Some),
        rest matches Some(t) ==> s@ == p@ + t@,
        rest is None ==> forall|t: Seq<char>| s@ != #[trigger] (p@ + t),
{
    if let Some(t) = rest {
        assert(s@ =~= p@ + t@);
    } else {
        assert forall|t: Seq<char>| s@ != #[trigger] (p@ + t) by {
            if s@ == p@ + t {
                assert(p@ =~= s@.subrange(0, p@.len() as int));
            }
        }
    }
}

proof fn lemma_joined_pieces(s: Seq<char>, c: char)
    ensures
        joined(pieces(s, c), seq![c]) == s,
    decreases s.len(),
{
    lemma_first_of(s, c);
    let i = first_of(s, c);
    if 0 <= i < s.len() {
        let rest = pieces(s.skip(i + 1), c);
        lemma_joined_pieces(s.skip(i + 1), c);
        lemma_pieces_lack(s.skip(i + 1), c);
        let all = seq![s.take(i)] + rest;
        assert(all.drop_first() =~= rest);
        assert(s =~= s.take(i) + seq![c] + s.skip(i + 1));
    }
}

/// The pieces of a text hold no separator, and joined by it make the text.
pub proof fn pieces_make_the_text(s: &str, c: char, r: Vec<String>)
    requires
        call_ensures(split, (s, c), r),
    ensures
        r@.len() > 0,
        joined(views(r@), seq![c]) == s@,
        forall|i: int| 0 <= i < r@.len() ==> !(#[trigger] r@[i])@.contains(c),
{
    lemma_joined_pieces(s@, c);
    lemma_pieces_lack(s@, c);
    assert forall|i: int| 0 <= i < r@.len() implies !(#[trigger] r@[i])@.contains(c) by {
        assert(lacks(pieces(s@, c)[i], c));
        assert(views(r@)[i] == r@[i]@);
    }
}

/// Joining puts the separator between a list and each part put behind it.
pub proof fn joining_goes_part_by_part(
    parts: &Vec<String>,
    more: &Vec<String>,
    sep: &str,
    a: String,
    b: String,
)
    requires
        more@.len() == parts@.len() + 1,
        more@.drop_last() == parts@,
        call_ensures(join, (parts, sep), a),
        call_ensures(join, (more, sep), b),
    ensures
        parts@.len() == 0 ==> a@.len() == 0 && b@ == more@[0]@,
        parts@.len() > 0 ==> b@ == a@ + sep@ + more@.last()@,
{
    assert(views(more@) =~= views(parts@).push(more@.last()@));
    lemma_joined_push(views(parts@), more@.last()@, sep@);
}

proof fn lemma_joined_push(parts: Seq<Seq<char>>, p: Seq<char>, sep: Seq<char>)
    ensures
        parts.len() == 0 ==> joined(parts.push(p), sep) == p,
        parts.len() > 0 ==> joined(parts.push(p), sep) == joined(parts, sep) + sep + p,
    decreases parts.len(),
{
    if parts.len() > 0 {
        let t = parts.drop_first();
        lemma_joined_push(t, p, sep);
        assert(parts.push(p).drop_first() =~= t.push(p));
        if parts.len() > 1 {
            assert(parts[0] + sep + (joined(t, sep) + sep + p) =~= (parts[0] + sep + joined(t, sep))
                + sep + p);
        } else {
            reveal_with_fuel(joined, 3);
        }
    }
}

/// Splitting once parts a text at the first separator.
pub proof fn text_parts_at_the_first(s: &str, c: char, r: Option<(String, String)>)
    requires
        call_ensures(split_once, (s, c), r),
    ensures
        match r {
            Some((a, b)) => s@ == a@ + seq![c] + b@ && !a@.contains(c),
            None => !s@.contains(c),
        },
{
    lemma_first_of(s@, c);
    let i = first_of(s@, c);
    if let Some((a, b)) = r {
        assert(s@ =~= s@.take(i) + seq![c] + s@.skip(i + 1));
        assert(lacks(s@.take(i), c));
    }
}

/// A digit in front of others counts for itself times a power of ten.
pub proof fn digits_count_by_place(c: char, s: Seq<char>)
    requires
        is_digit(c),
    ensures
        digits_value(seq![c] + s) == (c as int - '0' as int) * vstd::arithmetic::power::pow(
            10,
            s.len(),
        ) + digits_value(s),
        digits_value(Seq::empty()) == 0,
    decreases s.len(),
{
    reveal(vstd::arithmetic::power::pow);
    let all = seq![c] + s;
    if s.len() == 0 {
        assert(all =~= seq![c]);
        assert(all.drop_last() =~= Seq::empty());
        assert(all.last() == c);
        assert(digits_value(all.drop_last()) == 0);
        assert(vstd::arithmetic::power::pow(10, 0) == 1);
    } else {
        let t = s.drop_last();
        digits_count_by_place(c, t);
        assert(all.drop_last() =~= seq![c] + t);
        assert(all.last() == s.last());
        let p = vstd::arithmetic::power::pow(10, t.len());
        let d = c as int - '0' as int;
        assert(vstd::arithmetic::power::pow(10, s.len()) == 10 * p);
        assert(10 * (d * p) == d * (10 * p)) by (nonlinear_arith);
    }
}

/// A number that is written reads back, has no zero in front, and texts that
/// are no run of digits behind an optional plus are no numbers.
pub proof fn numbers_read_back(n: u64, s: String, t: &str, back: Option<u64>)
    requires
        call_ensures(decimal_u64, (n,), s),
        call_ensures(parse_u64, (t,), back),
    ensures
        t@ == s@ ==> back == Some(n),
        t@ == seq!['+'] + s@ ==> back == Some(n),
        n > 0 ==> s@[0] != '0',
        n == 0 ==> s@ == seq!['0'],
        forall|i: int| 0 <= i < s@.len() ==> '0' <= #[trigger] s@[i] <= '9',
        back is Some ==> t@.len() > 0 && forall|i: int|
            0 < i < t@.len() ==> '0' <= #[trigger] t@[i] <= '9',
        t@.len() == 0 || t@ == seq!['+'] ==> back is None,
        t@.len() > 0 && t@[0] != '+' && !('0' <= t@[0] <= '9') ==> back is None,
{
    decimal_denotes(n as nat);
    lemma_no_zero_in_front(n as nat);
    let d = decimal(n as nat);
    assert((seq!['+'] + d).skip(1) =~= d);
    assert(all_digits(d));
    assert forall|i: int| 0 <= i < d.len() implies '0' <= #[trigger] d[i] <= '9' by {
        assert(is_digit(d[i]));
    }
    if back is Some {
        assert forall|i: int| 0 < i < t@.len() implies '0' <= #[trigger] t@[i] <= '9' by {
            if t@[0] == '+' {
                assert(is_digit(t@.skip(1)[i - 1]));
            } else {
                assert(is_digit(t@[i]));
            }
        }
        if t@[0] != '+' {
            assert(is_digit(t@[0]));
        }
    }
}

proof fn lemma_no_zero_in_front(n: nat)
    ensures
        n > 0 ==> decimal(n)[0] != '0',
        n == 0 ==> decimal(n) == seq!['0'],
        decimal(n).len() > 0,
    decreases n,
{
    if n >= 10 {
        lemma_no_zero_in_front(n / 10);
    } else {
        assert(digit_char(n as int) as int == 48 + n);
        assert(decimal(n)[0] == digit_char(n as int));
        if n == 0 {
            assert(digit_char(0) as int == '0' as int);
            assert(digit_char(0) == '0');
            assert(decimal(n) =~= seq!['0']);
        }
    }
}

/// Texts are in the order of the first character in which they differ, and a
/// text comes before each that goes on behind it.
pub proof fn first_difference_decides(a: &str, b: &str, k: int, r: bool)
    requires
        call_ensures(sorts_before, (a, b), r),
        0 <= k <= a@.len(),
        k <= b@.len(),
        a@.take(k) == b@.take(k),
    ensures
        k < a@.len() && k < b@.len() && a@[k] != b@[k] ==> r == (a@[k] < b@[k]),
        k == a@.len() && k < b@.len() ==> r,
        k == b@.len() ==> !r,
{
    lemma_first_difference(a@, b@, k);
}

pub proof fn lemma_first_difference(a: Seq<char>, b: Seq<char>, k: int)
    requires
        0 <= k <= a.len(),
        k <= b.len(),
        a.take(k) == b.take(k),
    ensures
        k < a.len() && k < b.len() && a[k] != b[k] ==> text_lt(a, b) == (a[k] < b[k]),
        k == a.len() && k < b.len() ==> text_lt(a, b),
        k == b.len() ==> !text_lt(a, b),
    decreases k,
{
    if k > 0 {
        assert(a[0] == a.take(k)[0] && b[0] == b.take(k)[0]);
        let x = a.drop_first();
        let y = b.drop_first();
        assert(x.take(k - 1) =~= a.take(k).drop_first());
        assert(y.take(k - 1) =~= b.take(k).drop_first());
        lemma_first_difference(x, y, k - 1);
    }
}

/// Digits below ten stand behind a zero where two columns are asked for; a
/// negative number stands behind a minus sign.
pub proof fn columns_are_filled(n: i64, plain: String, two: String)
    requires
        call_ensures(decimal_i64, (n,), plain),
        call_ensures(two_column_i64, (n,), two),
    ensures
        n < 0 ==> plain@[0] == '-' && plain@.skip(1) == decimal((-n) as nat),
        n >= 0 ==> plain@ == decimal(n as nat),
        0 <= n < 10 ==> two@ == seq!['0'] + plain@,
        !(0 <= n < 10) ==> two@ == plain@,
{
    if n < 0 {
        assert(plain@.skip(1) =~= decimal((-n) as nat));
    }
}

/// The models of strings are their texts, one for each.
pub proof fn models_are_the_texts(v: Seq<String>, s: Option<String>, t: Option<&str>)
    ensures
        views(v).len() == v.len(),
        forall|i: int| 0 <= i < v.len() ==> #[trigger] views(v)[i] == v[i]@,
        opt_view(s) is Some == s is Some,
        s is Some ==> opt_view(s)->0 == s->0@,
        opt_str_view(t) is Some == t is Some,
        t is Some ==> opt_str_view(t)->0 == t->0@,
{
}

/// Every character takes a byte or more, and a character of ASCII takes one.
pub proof fn characters_take_bytes(s: Seq<char>)
    ensures
        byte_len(s) >= s.len(),
        s.len() == 0 ==> byte_len(s) == 0,
        (forall|i: int| 0 <= i < s.len() ==> (#[trigger] s[i] as u32) < 128) ==> byte_len(s)
            == s.len(),
    decreases s.len(),
{
    if s.len() > 0 {
        characters_take_bytes(s.drop_first());
        assert(forall|i: int| 0 <= i < s.len() - 1 ==> (#[trigger] s.drop_first()[i]) == s[i + 1]);
    }
}

/// A number that is written reads back into every width that it fits, and into
/// none that it does not.
pub proof fn numbers_fit_their_width(
    n: u64,
    s: String,
    t: &str,
    a: Option<u32>,
    b: Option<usize>,
    wide: Option<u64>,
)
    requires
        call_ensures(decimal_u64, (n,), s),
        call_ensures(parse_u32, (t,), a),
        call_ensures(parse_usize, (t,), b),
        call_ensures(parse_u64, (t,), wide),
    ensures
        t@ == s@ ==> (a is Some <==> n < 0x1_0000_0000),
        t@ == s@ && a is Some ==> a->0 == n,
        t@ == s@ ==> (b is Some <==> n <= usize::MAX),
        t@ == s@ && b is Some ==> b->0 == n,
        a is Some ==> wide is Some && wide->0 == a->0,
        b is Some && wide is Some ==> b->0 == wide->0,
{
    decimal_denotes(n as nat);
    let d = decimal(n as nat);
    assert(is_digit(d[0]));
}

/// A character or a word is held where it stands at some place.
pub proof fn what_stands_somewhere_is_held(
    s: &str,
    c: char,
    i: int,
    found: bool,
    words: &Vec<String>,
    w: &str,
    k: int,
    held: bool,
)
    requires
        call_ensures(has_char, (s, c), found),
        call_ensures(holds, (words, w), held),
    ensures
        0 <= i < s@.len() && s@[i] == c ==> found,
        (forall|j: int| 0 <= j < s@.len() ==> #[trigger] s@[j] != c) ==> !found,
        0 <= k < words@.len() && words@[k]@ == w@ ==> held,
        (forall|j: int| 0 <= j < words@.len() ==> (#[trigger] words@[j])@ != w@) ==> !held,
{
    let v = views(words@);
    assert(v.len() == words@.len());
    if 0 <= k < words@.len() && words@[k]@ == w@ {
        assert(v[k] == w@);
    }
    if held {
        let j = choose|j: int| 0 <= j < v.len() && v[j] == w@;
        assert(words@[j]@ == w@);
    }
}

/// Letters of ASCII change their case, nothing else does, and changing it back
/// gives the letter.
pub proof fn letters_change_their_case(c: char, low: char, up: char, back: char)
    requires
        call_ensures(ascii_lower_char, (c,), low),
        call_ensures(ascii_upper_char, (c,), up),
        call_ensures(ascii_upper_char, (low,), back),
    ensures
        'A' <= c <= 'Z' ==> low as int == c as int + 32 && up == c && back == c,
        'a' <= c <= 'z' ==> up as int == c as int - 32 && low == c,
        !('A' <= c <= 'Z') && !('a' <= c <= 'z') ==> low == c && up == c,
{
}

} // verus!
