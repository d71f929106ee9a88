//! Character-level helpers on strings, each with the mathematical meaning it
//! is proved against.

use vstd::prelude::*;

verus! {

/// Unicode's White_Space property, which is what `char::is_whitespace` tests.
pub open spec fn is_white(c: char) -> bool {
    ||| c == ' '
    ||| ('\t' <= c && c <= '\r')
    ||| c == '\u{85}'
    ||| c == '\u{A0}'
    ||| c == '\u{1680}'
    ||| ('\u{2000}' <= c && c <= '\u{200A}')
    ||| c == '\u{2028}'
    ||| c == '\u{2029}'
    ||| c == '\u{202F}'
    ||| c == '\u{205F}'
    ||| c == '\u{3000}'
}

/// Every character of `s` is white space (true of the empty sequence).
pub open spec fn all_white(s: Seq<char>) -> bool {
    forall|i: int| 0 <= i < s.len() ==> is_white(#[trigger] s[i])
}

/// `c` occurs somewhere in `s`.
pub open spec fn has_char(s: Seq<char>, c: char) -> bool {
    exists|i: int| 0 <= i < s.len() && s[i] == c
}

/// `i` is the position of the first `c` in `s`.
pub open spec fn is_first_index(s: Seq<char>, c: char, i: int) -> bool {
    &&& 0 <= i < s.len()
    &&& s[i] == c
    &&& !has_char(s.take(i), c)
}

pub fn char_is_white(c: char) -> (r: bool)
    ensures
        r == is_white(c),
{
    c == ' ' || ('\t' <= c && c <= '\r') || c == '\u{85}' || c == '\u{A0}' || c == '\u{1680}'
        || ('\u{2000}' <= c && c <= '\u{200A}') || c == '\u{2028}' || c == '\u{2029}' || c
        == '\u{202F}' || c == '\u{205F}' || c == '\u{3000}'
}

/// Whether every character of `s` is white space.
pub fn str_all_white(s: &str) -> (r: bool)
    ensures
        r == all_white(s@),
{
    let n = s.unicode_len();
    let mut i: usize = 0;
    while i < n
        invariant
            n == s@.len(),
            i <= n,
            forall|j: int| 0 <= j < i ==> is_white(#[trigger] s@[j]),
        decreases n - i,
    {
        if !char_is_white(s.get_char(i)) {
            return false;
        }
        i = i + 1;
    }
    true
}

/// The position of the first `c` in `s`, if there is one.
pub fn find_char(s: &str, c: char) -> (r: Option<usize>)
    ensures
        match r {
            Some(i) => is_first_index(s@, c, i as int),
            None => !has_char(s@, c),
        },
{
    let n = s.unicode_len();
    let mut i: usize = 0;
    while i < n
        invariant
            n == s@.len(),
            i <= n,
            !has_char(s@.take(i as int), c),
        decreases n - i,
    {
        if s.get_char(i) == c {
            return Some(i);
        }
        proof {
            assert forall|j: int| 0 <= j < i + 1 implies #[trigger] s@.take(i + 1)[j] != c by {
                if j < i {
                    assert(s@.take(i + 1)[j] == s@.take(i as int)[j]);
                }
            }
        }
        i = i + 1;
    }
    assert(s@.take(n as int) =~= s@);
    None
}


/// `s` split around its first `c`: the text before it and the text after it.
pub open spec fn split_first(s: Seq<char>, c: char) -> Option<(Seq<char>, Seq<char>)> {
    if has_char(s, c) {
        let i = choose|i: int| is_first_index(s, c, i);
        Some((s.take(i), s.skip(i + 1)))
    } else {
        None
    }
}

/// A string holds at most one first occurrence of a character.
pub proof fn lemma_first_index_unique(s: Seq<char>, c: char, i: int, j: int)
    requires
        is_first_index(s, c, i),
        is_first_index(s, c, j),
    ensures
        i == j,
{
    if i < j {
        assert(s.take(j)[i] == c);
    } else if j < i {
        assert(s.take(i)[j] == c);
    }
}

/// Splitting at a known first occurrence.
pub proof fn lemma_split_first_at(s: Seq<char>, c: char, i: int)
    requires
        is_first_index(s, c, i),
    ensures
        split_first(s, c) == Some((s.take(i), s.skip(i + 1))),
{
    assert(has_char(s, c));
    let k = choose|k: int| is_first_index(s, c, k);
    lemma_first_index_unique(s, c, i, k);
}

/// Joining `a` and `b` with a `c` that `a` lacks, then splitting at the
/// first `c`, gives `a` and `b` back.
pub proof fn lemma_split_joined(a: Seq<char>, c: char, b: Seq<char>)
    requires
        !has_char(a, c),
    ensures
        split_first(a + seq![c] + b, c) == Some((a, b)),
{
    let s = a + seq![c] + b;
    assert(s.take(a.len() as int) =~= a);
    assert(s.skip(a.len() as int + 1) =~= b);
    assert(s[a.len() as int] == c);
    lemma_split_first_at(s, c, a.len() as int);
}


/// `h` equals `p` once `h` is lowered if it is an ASCII capital.
pub open spec fn lowered_eq(h: char, p: char) -> bool {
    if 'A' <= h && h <= 'Z' {
        (h as u32) + 32 == (p as u32)
    } else {
        h == p
    }
}

/// `pat` occurs in `hay` at `i`, ignoring the ASCII case of `hay`.
pub open spec fn matches_at(hay: Seq<char>, pat: Seq<char>, i: int) -> bool {
    &&& 0 <= i
    &&& i + pat.len() <= hay.len()
    &&& forall|j: int| 0 <= j < pat.len() ==> lowered_eq(#[trigger] hay[i + j], pat[j])
}

/// `pat` occurs somewhere in `hay` lowered to ASCII lower case.
pub open spec fn contains_lowered(hay: Seq<char>, pat: Seq<char>) -> bool {
    exists|i: int| matches_at(hay, pat, i)
}

pub fn lowered_eq_exec(h: char, p: char) -> (r: bool)
    ensures
        r == lowered_eq(h, p),
{
    if 'A' <= h && h <= 'Z' {
        (h as u32) + 32 == (p as u32)
    } else {
        h == p
    }
}

/// The characters of `s`, one by one.
pub fn chars_of(s: &str) -> (r: Vec<char>)
    ensures
        r@ == s@,
{
    let n = s.unicode_len();
    let mut r: Vec<char> = Vec::new();
    let mut i: usize = 0;
    while i < n
        invariant
            n == s@.len(),
            i <= n,
            r@ == s@.take(i as int),
        decreases n - i,
    {
        r.push(s.get_char(i));
        i = i + 1;
        assert(r@ =~= s@.take(i as int));
    }
    assert(s@.take(n as int) =~= s@);
    r
}

/// Whether `pat` occurs at `i` in `hay`, ignoring the ASCII case of `hay`.
fn matches_here(hay: &Vec<char>, pat: &Vec<char>, i: usize) -> (r: bool)
    requires
        i + pat@.len() <= hay@.len(),
    ensures
        r == matches_at(hay@, pat@, i as int),
{
    let n = hay.len();
    let mut j: usize = 0;
    while j < pat.len()
        invariant
            n == hay@.len(),
            i + pat@.len() <= hay@.len(),
            j <= pat@.len(),
            forall|k: int| 0 <= k < j ==> lowered_eq(#[trigger] hay@[i + k], pat@[k]),
        decreases pat@.len() - j,
    {
        if !lowered_eq_exec(hay[i + j], pat[j]) {
            return false;
        }
        j = j + 1;
    }
    true
}

/// Whether `pat` occurs in `hay` lowered to ASCII lower case.
pub fn contains_lowered_exec(hay: &Vec<char>, pat: &str) -> (r: bool)
    ensures
        r == contains_lowered(hay@, pat@),
{
    let p = chars_of(pat);
    if p.len() > hay.len() {
        return false;
    }
    let last = hay.len() - p.len();
    let mut i: usize = 0;
    loop
        invariant
            last == hay@.len() - p@.len(),
            p@ == pat@,
            i <= last,
            forall|k: int| 0 <= k < i ==> !#[trigger] matches_at(hay@, pat@, k),
        decreases last - i,
    {
        if matches_here(hay, &p, i) {
            return true;
        }
        if i == last {
            return false;
        }
        i = i + 1;
    }
}

/// Whether `a` and `b` hold the same characters.
pub fn str_eq(a: &str, b: &str) -> (r: bool)
    ensures
        r == (a@ == b@),
{
    let n = a.unicode_len();
    if n != b.unicode_len() {
        return false;
    }
    let mut i: usize = 0;
    while i < n
        invariant
            n == a@.len(),
            n == b@.len(),
            i <= n,
            forall|k: int| 0 <= k < i ==> a@[k] == b@[k],
        decreases n - i,
    {
        if a.get_char(i) != b.get_char(i) {
            return false;
        }
        i = i + 1;
    }
    assert(a@ =~= b@);
    true
}


/// Lexicographic order of two texts by character, a proper prefix first.
pub open spec fn text_cmp(a: Seq<char>, b: Seq<char>) -> std::cmp::Ordering
    decreases a.len(),
{
    if a.len() == 0 {
        if b.len() == 0 {
            std::cmp::Ordering::Equal
        } else {
            std::cmp::Ordering::Less
        }
    } else if b.len() == 0 {
        std::cmp::Ordering::Greater
    } else if a[0] < b[0] {
        std::cmp::Ordering::Less
    } else if a[0] > b[0] {
        std::cmp::Ordering::Greater
    } else {
        text_cmp(a.skip(1), b.skip(1))
    }
}

/// The text order is antisymmetric, and only equal texts compare equal.
pub proof fn lemma_text_cmp(a: Seq<char>, b: Seq<char>)
    ensures
        text_cmp(a, b) == std::cmp::Ordering::Equal <==> a == b,
        text_cmp(b, a) == crate::version::flip(text_cmp(a, b)),
    decreases a.len(),
{
    if a.len() == 0 && b.len() == 0 {
        assert(a =~= b);
    }
    if a.len() > 0 && b.len() > 0 && a[0] == b[0] {
        lemma_text_cmp(a.skip(1), b.skip(1));
        if a.skip(1) == b.skip(1) {
            assert(a =~= seq![a[0]] + a.skip(1));
            assert(b =~= seq![b[0]] + b.skip(1));
        }
        if a == b {
            assert(a.skip(1) == b.skip(1));
        }
    }
}

/// The order of `a` and `b` by `text_cmp`.
pub fn compare_text(a: &str, b: &str) -> (r: std::cmp::Ordering)
    ensures
        r == text_cmp(a@, b@),
{
    let n = a.unicode_len();
    let m = b.unicode_len();
    let mut i: usize = 0;
    assert(a@.skip(0) =~= a@);
    assert(b@.skip(0) =~= b@);
    while i < n && i < m
        invariant
            n == a@.len(),
            m == b@.len(),
            i <= n,
            i <= m,
            text_cmp(a@, b@) == text_cmp(a@.skip(i as int), b@.skip(i as int)),
        decreases n - i,
    {
        let x = a.get_char(i);
        let y = b.get_char(i);
        assert(a@.skip(i as int)[0] == x);
        assert(b@.skip(i as int)[0] == y);
        if x < y {
            return std::cmp::Ordering::Less;
        }
        if x > y {
            return std::cmp::Ordering::Greater;
        }
        assert(a@.skip(i as int).skip(1) =~= a@.skip(i + 1));
        assert(b@.skip(i as int).skip(1) =~= b@.skip(i + 1));
        i = i + 1;
    }
    if i == n && i == m {
        std::cmp::Ordering::Equal
    } else if i == n {
        std::cmp::Ordering::Less
    } else {
        std::cmp::Ordering::Greater
    }
}

/// `s` without a final carriage return.
pub open spec fn strip_cr(s: Seq<char>) -> Seq<char> {
    if s.len() > 0 && s.last() == '\r' {
        s.drop_last()
    } else {
        s
    }
}

/// The lines of `s` as `str::lines` yields them: split at each `\n`, a
/// final `\r` dropped from each, no empty line after a final `\n`.
pub open spec fn lines(s: Seq<char>) -> Seq<Seq<char>>
    decreases s.len(),
{
    match split_first(s, '\n') {
        None => if s.len() == 0 {
            Seq::empty()
        } else {
            seq![strip_cr(s)]
        },
        Some((line, rest)) => {
            if rest.len() < s.len() {
                seq![strip_cr(line)] + lines(rest)
            } else {
                Seq::empty()
            }
        },
    }
}

/// `s` without a final carriage return.
pub fn strip_cr_exec(s: &str) -> (r: &str)
    ensures
        r@ == strip_cr(s@),
{
    let n = s.unicode_len();
    if n > 0 && s.get_char(n - 1) == '\r' {
        let r = s.substring_char(0, n - 1);
        assert(r@ =~= s@.drop_last());
        r
    } else {
        s
    }
}

/// The lines of `s`, as `str::lines` yields them.
pub fn split_lines(s: &str) -> (r: Vec<&str>)
    ensures
        r@.map_values(|l: &str| l@) == lines(s@),
{
    let mut r: Vec<&str> = Vec::new();
    let mut rest: &str = s;
    loop
        invariant
            r@.map_values(|l: &str| l@) + lines(rest@) == lines(s@),
        decreases rest@.len(),
    {
        let n = rest.unicode_len();
        match find_char(rest, '\n') {
            None => {
                if n > 0 {
                    r.push(strip_cr_exec(rest));
                }
                assert(r@.map_values(|l: &str| l@) =~= lines(s@));
                return r;
            },
            Some(i) => {
                proof {
                    lemma_split_first_at(rest@, '\n', i as int);
                }
                let line = rest.substring_char(0, i);
                let next = rest.substring_char(i + 1, n);
                assert(line@ =~= rest@.take(i as int));
                assert(next@ =~= rest@.skip(i + 1));
                let ghost old_r = r@;
                r.push(strip_cr_exec(line));
                assert(r@.map_values(|l: &str| l@) =~= old_r.map_values(|l: &str| l@).push(
                    strip_cr(line@),
                ));
                assert(lines(rest@) == seq![strip_cr(line@)] + lines(next@));
                assert(r@.map_values(|l: &str| l@) + lines(next@) =~= old_r.map_values(
                    |l: &str| l@,
                ) + lines(rest@));
                rest = next;
            },
        }
    }
}

} // verus!
