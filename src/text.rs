//! Character-level helpers for the SMTP line grammar: trimming, splitting at
//! the first space, and ASCII case-insensitive keyword matching.
use vstd::prelude::*;
use vstd::string::*;

verus! {

/// The characters that `char::is_whitespace` accepts (Unicode `White_Space`).
pub open spec fn is_ws(c: char) -> bool {
    let u = c as u32;
    (9 <= u && u <= 13) || u == 32 || u == 0x85 || u == 0xa0 || u == 0x1680 || (0x2000 <= u && u
        <= 0x200a) || u == 0x2028 || u == 0x2029 || u == 0x202f || u == 0x205f || u == 0x3000
}

/// What a strip removes: angle brackets when `angles`, whitespace otherwise.
pub open spec fn strips(angles: bool, c: char) -> bool {
    if angles {
        c == '<' || c == '>'
    } else {
        is_ws(c)
    }
}

/// First index at or after `i` whose character is not stripped.
pub open spec fn skip_front(s: Seq<char>, angles: bool, i: int) -> int
    decreases s.len() - i,
{
    if 0 <= i < s.len() && strips(angles, s[i]) {
        skip_front(s, angles, i + 1)
    } else {
        i
    }
}

/// Smallest `k <= j` such that every character in `k..j` is stripped.
pub open spec fn skip_back(s: Seq<char>, angles: bool, j: int) -> int
    decreases j,
{
    if 0 < j <= s.len() && strips(angles, s[j - 1]) {
        skip_back(s, angles, j - 1)
    } else {
        j
    }
}

/// `s` without its leading and trailing stripped characters.
pub open spec fn strip_both(s: Seq<char>, angles: bool) -> Seq<char> {
    let t = s.subrange(skip_front(s, angles, 0), s.len() as int);
    t.subrange(0, skip_back(t, angles, t.len() as int))
}

/// `str::trim`: leading and trailing whitespace removed.
pub open spec fn trim(s: Seq<char>) -> Seq<char> {
    strip_both(s, false)
}

/// Index of the first space at or after `i`, or the length when there is none.
pub open spec fn space_at(s: Seq<char>, i: int) -> int
    decreases s.len() - i,
{
    if 0 <= i < s.len() && s[i] != ' ' {
        space_at(s, i + 1)
    } else {
        i
    }
}

/// `c` equals the upper-case ASCII character `u`, ignoring ASCII case.
pub open spec fn ci_eq(c: char, u: char) -> bool {
    c == u || (65 <= (u as u32) && (u as u32) <= 90 && (c as u32) == (u as u32) + 32)
}

/// `w` spells the upper-case keyword `k`, ignoring ASCII case.
pub open spec fn ci_match(w: Seq<char>, k: Seq<char>) -> bool {
    w.len() == k.len() && forall|i: int| 0 <= i < k.len() ==> ci_eq(#[trigger] w[i], k[i])
}

/// `s` starts with the upper-case keyword `k`, ignoring ASCII case.
pub open spec fn ci_prefix(s: Seq<char>, k: Seq<char>) -> bool {
    k.len() <= s.len() && ci_match(s.subrange(0, k.len() as int), k)
}

fn is_ws_char(c: char) -> (r: bool)
    ensures
        r == is_ws(c),
{
    let u = c as u32;
    (9 <= u && u <= 13) || u == 32 || u == 0x85 || u == 0xa0 || u == 0x1680 || (0x2000 <= u && u
        <= 0x200a) || u == 0x2028 || u == 0x2029 || u == 0x202f || u == 0x205f || u == 0x3000
}

fn strips_char(angles: bool, c: char) -> (r: bool)
    ensures
        r == strips(angles, c),
{
    if angles {
        c == '<' || c == '>'
    } else {
        is_ws_char(c)
    }
}

/// Removes leading and trailing angle brackets (`angles`) or whitespace.
pub fn strip_chars(s: &str, angles: bool) -> (r: &str)
    ensures
        r@ == strip_both(s@, angles),
{
    let n = s.unicode_len();
    let mut i: usize = 0;
    while i < n && strips_char(angles, s.get_char(i))
        invariant
            i <= n,
            n == s@.len(),
            skip_front(s@, angles, i as int) == skip_front(s@, angles, 0),
        decreases n - i,
    {
        i = i + 1;
    }
    let t = s.substring_char(i, n);
    let mut j: usize = t.unicode_len();
    while j > 0 && strips_char(angles, t.get_char(j - 1))
        invariant
            j <= t@.len(),
            skip_back(t@, angles, j as int) == skip_back(t@, angles, t@.len() as int),
        decreases j,
    {
        j = j - 1;
    }
    t.substring_char(0, j)
}

/// `str::trim` over the whitespace set of `is_ws`.
pub fn trim_ws(s: &str) -> (r: &str)
    ensures
        r@ == trim(s@),
{
    strip_chars(s, false)
}

/// Index of the first space in `s`, or its length when it has none.
pub fn find_space(s: &str) -> (r: usize)
    ensures
        r == space_at(s@, 0),
        r <= s@.len(),
{
    let n = s.unicode_len();
    let mut i: usize = 0;
    while i < n && s.get_char(i) != ' '
        invariant
            i <= n,
            n == s@.len(),
            space_at(s@, i as int) == space_at(s@, 0),
        decreases n - i,
    {
        i = i + 1;
    }
    i
}

/// Does `w` spell the upper-case keyword `k`, ignoring ASCII case?
pub fn keyword_is(w: &str, k: &str) -> (r: bool)
    ensures
        r == ci_match(w@, k@),
{
    let n = k.unicode_len();
    if w.unicode_len() != n {
        return false;
    }
    let mut i: usize = 0;
    while i < n
        invariant
            i <= n,
            n == k@.len(),
            n == w@.len(),
            forall|j: int| 0 <= j < i ==> ci_eq(#[trigger] w@[j], k@[j]),
        decreases n - i,
    {
        let c = w.get_char(i);
        let u = k.get_char(i);
        let uu = u as u32;
        if !(c == u || (65 <= uu && uu <= 90 && (c as u32) == uu + 32)) {
            return false;
        }
        i = i + 1;
    }
    true
}

/// Does `s` start with the upper-case keyword `k`, ignoring ASCII case?
pub fn keyword_prefix(s: &str, k: &str) -> (r: bool)
    ensures
        r == ci_prefix(s@, k@),
{
    let n = k.unicode_len();
    if n > s.unicode_len() {
        return false;
    }
    keyword_is(s.substring_char(0, n), k)
}

/// Are the two strings equal character for character?
pub fn same_text(a: &str, b: &str) -> (r: bool)
    ensures
        r == (a@ == b@),
{
    let n = a.unicode_len();
    if b.unicode_len() != n {
        return false;
    }
    let mut i: usize = 0;
    while i < n
        invariant
            i <= n,
            n == a@.len(),
            n == b@.len(),
            forall|j: int| 0 <= j < i ==> a@[j] == b@[j],
        decreases n - i,
    {
        if a.get_char(i) != b.get_char(i) {
            return false;
        }
        i = i + 1;
    }
    assert(a@ =~= b@);
    true
}

/// The three texts one after another, as a new string.
pub fn concat3(a: &str, b: &str, c: &str) -> (r: String)
    ensures
        r@ == a@ + b@ + c@,
{
    let mut s = String::from_str(a);
    s.append(b);
    s.append(c);
    s
}

} // verus!
