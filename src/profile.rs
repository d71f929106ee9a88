//! Adding the manager's environment script to a shell profile.

use vstd::prelude::*;

use crate::text::chars_of;

verus! {

/// `pat` occurs in `hay`.
pub open spec fn contains_text(hay: Seq<char>, pat: Seq<char>) -> bool {
    exists|i: int| 0 <= i && i + pat.len() <= hay.len() && #[trigger] hay.subrange(i, i + pat.len()) == pat
}

fn occurs_at(hay: &Vec<char>, pat: &Vec<char>, i: usize) -> (r: bool)
    requires
        i + pat@.len() <= hay@.len(),
    ensures
        r == (hay@.subrange(i as int, i + pat@.len()) == pat@),
{
    let n = hay.len();
    let mut j: usize = 0;
    while j < pat.len()
        invariant
            n == hay@.len(),
            i + pat@.len() <= n,
            j <= pat@.len(),
            forall|k: int| 0 <= k < j ==> hay@[i + k] == pat@[k],
        decreases pat@.len() - j,
    {
        if hay[i + j] != pat[j] {
            assert(hay@.subrange(i as int, i + pat@.len())[j as int] != pat@[j as int]);
            return false;
        }
        j = j + 1;
    }
    assert(hay@.subrange(i as int, i + pat@.len()) =~= pat@);
    true
}

/// Whether `pat` occurs in `hay`.
pub fn contains_str(hay: &str, pat: &str) -> (r: bool)
    ensures
        r == contains_text(hay@, pat@),
{
    let h = chars_of(hay);
    let p = chars_of(pat);
    if p.len() > h.len() {
        return false;
    }
    let last = h.len() - p.len();
    let mut i: usize = 0;
    loop
        invariant
            h@ == hay@,
            p@ == pat@,
            last == h@.len() - p@.len(),
            i <= last,
            forall|k: int| 0 <= k < i ==> #[trigger] hay@.subrange(k, k + pat@.len()) != pat@,
        decreases last - i,
    {
        if occurs_at(&h, &p, i) {
            return true;
        }
        if i == last {
            return false;
        }
        i = i + 1;
    }
}

/// The line that sources the environment script at `env_path`.
pub fn source_line(env_path: &str) -> (r: String)
    ensures
        r@ == ". \""@ + env_path@ + "\""@,
{
    let mut r = String::from_str(". \"");
    r.append(env_path);
    r.append("\"");
    r
}

/// What to append to a shell profile so that it holds `line`: nothing when
/// the profile does not exist or holds the line already; otherwise the
/// line and a newline, after a newline of its own where the profile does
/// not end with one.
pub open spec fn profile_addition_spec(existing: Option<Seq<char>>, line: Seq<char>) -> Option<
    Seq<char>,
> {
    match existing {
        None => None,
        Some(c) => if contains_text(c, line) {
            None
        } else if c.len() > 0 && c.last() == '\n' {
            Some(line + seq!['\n'])
        } else {
            Some(seq!['\n'] + line + seq!['\n'])
        },
    }
}

pub fn profile_addition(existing: Option<&str>, line: &str) -> (r: Option<String>)
    ensures
        match r {
            Some(s) => profile_addition_spec(
                match existing {
                    Some(c) => Some(c@),
                    None => None,
                },
                line@,
            ) == Some(s@),
            None => profile_addition_spec(
                match existing {
                    Some(c) => Some(c@),
                    None => None,
                },
                line@,
            ) is None,
        },
{
    proof {
        reveal_strlit("\n");
    }
    match existing {
        None => None,
        Some(c) => {
            if contains_str(c, line) {
                return None;
            }
            let n = c.unicode_len();
            let mut r = String::new();
            if !(n > 0 && c.get_char(n - 1) == '\n') {
                r.append("\n");
            }
            r.append(line);
            r.append("\n");
            assert(r@ =~= profile_addition_spec(Some(c@), line@)->Some_0);
            Some(r)
        },
    }
}

} // verus!
