//! Verified text utilities used by the matching and reporting layers:
//! substring search, prefix tests, string equality, joining, decimal
//! rendering, and path basenames.

use vstd::prelude::*;

verus! {

/// The characters of `needle` occur in `hay` starting at position `i`.
pub open spec fn seq_matches_at(hay: Seq<char>, needle: Seq<char>, i: int) -> bool {
    0 <= i && i + needle.len() <= hay.len() && hay.subrange(i, i + needle.len() as int)
        == needle
}

/// `needle` occurs somewhere in `hay` (always true for an empty needle).
pub open spec fn seq_contains(hay: Seq<char>, needle: Seq<char>) -> bool {
    exists|i: int| seq_matches_at(hay, needle, i)
}

/// `needle` occurs at the start of `hay`.
pub open spec fn seq_starts_with(hay: Seq<char>, needle: Seq<char>) -> bool {
    seq_matches_at(hay, needle, 0)
}

/// Compare `needle` against the characters of `hay` at position `i`.
fn match_at(hay: &str, needle: &str, i: usize) -> (r: bool)
    requires
        i + needle@.len() <= hay@.len(),
        i + needle@.len() <= usize::MAX,
    ensures
        r == seq_matches_at(hay@, needle@, i as int),
{
    let n = needle.unicode_len();
    let mut j: usize = 0;
    while j < n
        invariant
            n == needle@.len(),
            i + n <= hay@.len(),
            i + n <= usize::MAX,
            j <= n,
            forall|k: int| 0 <= k < j ==> hay@[i + k] == needle@[k],
        decreases n - j,
    {
        if hay.get_char(i + j) != needle.get_char(j) {
            assert(hay@.subrange(i as int, i + n as int)[j as int] == hay@[i + j]);
            return false;
        }
        j += 1;
    }
    assert(hay@.subrange(i as int, i + n as int) =~= needle@);
    true
}

/// Substring test: does `needle` occur anywhere in `hay`?
pub fn contains_sub(hay: &str, needle: &str) -> (r: bool)
    ensures
        r == seq_contains(hay@, needle@),
{
    let hn = hay.unicode_len();
    let nn = needle.unicode_len();
    if nn > hn {
        assert(forall|i: int| !seq_matches_at(hay@, needle@, i));
        return false;
    }
    if nn == 0 {
        assert(hay@.subrange(0, 0) =~= needle@);
        assert(seq_matches_at(hay@, needle@, 0));
        return true;
    }
    let lim = hn - nn;
    let mut i: usize = 0;
    while i <= lim
        invariant
            hn == hay@.len(),
            nn == needle@.len(),
            1 <= nn <= hn,
            lim == hn - nn,
            i <= lim + 1,
            forall|k: int| 0 <= k < i ==> !seq_matches_at(hay@, needle@, k),
        decreases lim + 1 - i,
    {
        if match_at(hay, needle, i) {
            return true;
        }
        i += 1;
    }
    assert(forall|k: int| !seq_matches_at(hay@, needle@, k));
    false
}

/// Prefix test: does `hay` start with `needle`?
pub fn starts_with_sub(hay: &str, needle: &str) -> (r: bool)
    ensures
        r == seq_starts_with(hay@, needle@),
{
    let hn = hay.unicode_len();
    let nn = needle.unicode_len();
    if nn > hn {
        return false;
    }
    match_at(hay, needle, 0)
}

/// Character-for-character string equality.
pub fn str_eq(a: &str, b: &str) -> (r: bool)
    ensures
        r == (a@ == b@),
{
    let an = a.unicode_len();
    let bn = b.unicode_len();
    if an != bn {
        return false;
    }
    proof {
        assert(a@.subrange(0, an as int) =~= a@);
    }
    match_at(a, b, 0)
}

/// The elements of `parts` joined with `sep`, as `[T]::join` does.
pub open spec fn join_seq(parts: Seq<Seq<char>>, sep: Seq<char>) -> Seq<char>
    decreases parts.len(),
{
    if parts.len() == 0 {
        Seq::empty()
    } else if parts.len() == 1 {
        parts[0]
    } else {
        join_seq(parts.drop_last(), sep) + sep + parts.last()
    }
}

/// The elements of `parts` joined with a single space.
pub open spec fn join_spaces_seq(parts: Seq<Seq<char>>) -> Seq<char> {
    join_seq(parts, " "@)
}

/// Join strings with a separator.
pub fn join_with(parts: &Vec<String>, sep: &str) -> (r: String)
    ensures
        r@ == join_seq(parts.deep_view(), sep@),
{
    let mut acc = String::new();
    let n = parts.len();
    let mut i: usize = 0;
    while i < n
        invariant
            n == parts@.len(),
            i <= n,
            acc@ == join_seq(parts.deep_view().take(i as int), sep@),
        decreases n - i,
    {
        if i > 0 {
            acc.append(sep);
        }
        acc.append(parts[i].as_str());
        proof {
            assert(parts.deep_view().take(i + 1).drop_last() =~= parts.deep_view().take(i as int));
            assert(parts.deep_view().take(i + 1).last() == parts@[i as int]@);
        }
        i += 1;
    }
    proof {
        assert(parts.deep_view().take(n as int) =~= parts.deep_view());
    }
    acc
}

/// Join strings with single spaces.
pub fn join_spaces(parts: &Vec<String>) -> (r: String)
    ensures
        r@ == join_spaces_seq(parts.deep_view()),
{
    join_with(parts, " ")
}

/// The decimal digit character for `d`.
pub open spec fn dec_digit(d: int) -> char {
    if d == 0 {
        '0'
    } else if d == 1 {
        '1'
    } else if d == 2 {
        '2'
    } else if d == 3 {
        '3'
    } else if d == 4 {
        '4'
    } else if d == 5 {
        '5'
    } else if d == 6 {
        '6'
    } else if d == 7 {
        '7'
    } else if d == 8 {
        '8'
    } else {
        '9'
    }
}

/// The decimal rendering of a non-negative number, most significant digit
/// first and without leading zeroes.
pub open spec fn dec_str(n: int) -> Seq<char>
    decreases n,
{
    if n < 10 {
        seq![dec_digit(n)]
    } else {
        dec_str(n / 10) + seq![dec_digit(n % 10)]
    }
}

/// The one-character string for decimal digit `d`.
fn dec_digit_str(d: u64) -> (r: &'static str)
    requires
        d < 10,
    ensures
        r@ =~= seq![dec_digit(d as int)],
{
    proof {
        reveal_strlit("0");
        reveal_strlit("1");
        reveal_strlit("2");
        reveal_strlit("3");
        reveal_strlit("4");
        reveal_strlit("5");
        reveal_strlit("6");
        reveal_strlit("7");
        reveal_strlit("8");
        reveal_strlit("9");
    }
    if d == 0 {
        "0"
    } else if d == 1 {
        "1"
    } else if d == 2 {
        "2"
    } else if d == 3 {
        "3"
    } else if d == 4 {
        "4"
    } else if d == 5 {
        "5"
    } else if d == 6 {
        "6"
    } else if d == 7 {
        "7"
    } else if d == 8 {
        "8"
    } else {
        "9"
    }
}

/// Render a number in decimal.
pub fn u64_to_dec(n: u64) -> (r: String)
    ensures
        r@ == dec_str(n as int),
    decreases n,
{
    if n < 10 {
        let mut s = String::new();
        s.append(dec_digit_str(n));
        s
    } else {
        let mut s = u64_to_dec(n / 10);
        s.append(dec_digit_str(n % 10));
        s
    }
}

/// A path with its trailing `/` characters removed.
pub open spec fn strip_trailing_slashes(p: Seq<char>) -> Seq<char>
    decreases p.len(),
{
    if p.len() > 0 && p.last() == '/' {
        strip_trailing_slashes(p.drop_last())
    } else {
        p
    }
}

/// The suffix after the last `/` of a path that does not end in `/` (the
/// whole path when it holds no `/`).
pub open spec fn suffix_after_slash(p: Seq<char>) -> Seq<char>
    decreases p.len(),
{
    if p.len() == 0 {
        Seq::empty()
    } else if p.last() == '/' {
        Seq::empty()
    } else {
        suffix_after_slash(p.drop_last()) + seq![p.last()]
    }
}

/// The last component of a path: trailing slashes are ignored, then
/// everything after the last `/` is taken, as `Path::file_name` cuts it
/// (dot components are not treated specially here).
pub open spec fn basename_of(p: Seq<char>) -> Seq<char> {
    suffix_after_slash(strip_trailing_slashes(p))
}

proof fn lemma_suffix_subrange(p: Seq<char>, start: int)
    requires
        0 <= start <= p.len(),
        forall|k: int| start <= k < p.len() ==> p[k] != '/',
        start == 0 || p[start - 1] == '/',
    ensures
        suffix_after_slash(p) == p.subrange(start, p.len() as int),
    decreases p.len(),
{
    if p.len() == 0 {
        assert(suffix_after_slash(p) =~= p.subrange(start, p.len() as int));
    } else if start == p.len() {
        assert(p.last() == '/');
        assert(suffix_after_slash(p) =~= p.subrange(start, p.len() as int));
    } else {
        assert(p.last() != '/');
        lemma_suffix_subrange(p.drop_last(), start);
        assert(suffix_after_slash(p) =~= p.subrange(start, p.len() as int));
    }
}

proof fn lemma_strip_take(p: Seq<char>, end: int)
    requires
        0 <= end <= p.len(),
        forall|k: int| end <= k < p.len() ==> p[k] == '/',
        end == 0 || p[end - 1] != '/',
    ensures
        strip_trailing_slashes(p) == p.take(end),
    decreases p.len(),
{
    if end == p.len() {
        assert(p.take(end) =~= p);
    } else {
        assert(p.last() == '/');
        lemma_strip_take(p.drop_last(), end);
        assert(p.drop_last().take(end) =~= p.take(end));
    }
}

/// The basename of a path: its last component, trailing slashes ignored.
pub fn basename_str(p: &str) -> (r: String)
    ensures
        r@ == basename_of(p@),
{
    let n = p.unicode_len();
    let mut end: usize = n;
    while end > 0 && p.get_char(end - 1) == '/'
        invariant
            n == p@.len(),
            end <= n,
            forall|k: int| end <= k < n ==> p@[k] == '/',
        decreases end,
    {
        end -= 1;
    }
    proof {
        lemma_strip_take(p@, end as int);
    }
    let mut start: usize = 0;
    let mut i: usize = 0;
    while i < end
        invariant
            n == p@.len(),
            end <= n,
            i <= end,
            start <= i,
            forall|k: int| start <= k < i ==> p@[k] != '/',
            start == 0 || p@[start - 1] == '/',
        decreases end - i,
    {
        if p.get_char(i) == '/' {
            start = i + 1;
        }
        i += 1;
    }
    proof {
        lemma_suffix_subrange(p@.take(end as int), start as int);
        assert(p@.take(end as int).subrange(start as int, end as int) =~= p@.subrange(
            start as int,
            end as int,
        ));
    }
    let r = p.substring_char(start, end);
    String::from_str(r)
}

/// The lower-case folding of a sequence of characters, as the standard
/// library computes it.
pub uninterp spec fn lower_of(s: Seq<char>) -> Seq<char>;

/// Relies on `str::to_lowercase`: the result is the Unicode lower-case
/// rendering of the input and depends on the input characters alone.
#[verifier::external_body]
pub(crate) fn lowercase(s: &str) -> (r: String)
    ensures
        r@ == lower_of(s@),
{
    s.to_lowercase()
}

} // verus!
