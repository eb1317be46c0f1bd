//! Character-level helpers on string slices.
use vstd::prelude::*;
use vstd::string::*;

verus! {

/// Whether `a` and `b` hold the same characters.
pub fn str_eq(a: &str, b: &str) -> (r: bool)
    ensures
        r == (a@ == b@),
{
    let n = a.unicode_len();
    if n != b.unicode_len() {
        return false;
    }
    let mut i: usize = 0;
    while i < n
        invariant
            n == a@.len(),
            n == b@.len(),
            i <= n,
            a@.subrange(0, i as int) == b@.subrange(0, i as int),
        decreases n - i,
    {
        if a.get_char(i) != b.get_char(i) {
            return false;
        }
        i += 1;
        assert(a@.subrange(0, i as int) =~= a@.subrange(0, i - 1) .push(a@[i - 1]));
        assert(b@.subrange(0, i as int) =~= b@.subrange(0, i - 1) .push(b@[i - 1]));
    }
    assert(a@ =~= a@.subrange(0, n as int));
    assert(b@ =~= b@.subrange(0, n as int));
    true
}

/// Whether `s` begins with `prefix`.
pub open spec fn has_prefix(s: Seq<char>, prefix: Seq<char>) -> bool {
    prefix.len() <= s.len() && s.subrange(0, prefix.len() as int) == prefix
}

/// `s` without its leading `prefix`, if it has one.
pub fn strip_prefix<'a>(s: &'a str, prefix: &str) -> (r: Option<&'a str>)
    ensures
        match r {
            Some(rest) => has_prefix(s@, prefix@) && rest@ == s@.subrange(
                prefix@.len() as int,
                s@.len() as int,
            ),
            None => !has_prefix(s@, prefix@),
        },
{
    let n = s.unicode_len();
    let m = prefix.unicode_len();
    if m > n {
        return None;
    }
    let head = s.substring_char(0, m);
    if str_eq(head, prefix) {
        Some(s.substring_char(m, n))
    } else {
        None
    }
}

/// Whether "://" starts at position `i` of `s`.
pub open spec fn scheme_separator_at(s: Seq<char>, i: int) -> bool {
    0 <= i && i + 3 <= s.len() && s[i] == ':' && s[i + 1] == '/' && s[i + 2] == '/'
}

/// The first position at or after `i` where "://" starts.
pub open spec fn first_scheme_separator(s: Seq<char>, i: nat) -> Option<nat>
    decreases s.len() - i,
{
    if i + 3 > s.len() {
        None
    } else if scheme_separator_at(s, i as int) {
        Some(i)
    } else {
        first_scheme_separator(s, i + 1)
    }
}

/// The position of the first "://" in `s`.
pub fn find_scheme_separator(s: &str) -> (r: Option<usize>)
    ensures
        match r {
            Some(i) => first_scheme_separator(s@, 0) == Some(i as nat) && i + 3 <= s@.len(),
            None => first_scheme_separator(s@, 0) is None,
        },
{
    let n = s.unicode_len();
    let mut i: usize = 0;
    while n >= 3 && i <= n - 3
        invariant
            n == s@.len(),
            i <= n,
            first_scheme_separator(s@, 0) == first_scheme_separator(s@, i as nat),
        decreases n - i,
    {
        if s.get_char(i) == ':' && s.get_char(i + 1) == '/' && s.get_char(i + 2) == '/' {
            return Some(i);
        }
        i += 1;
    }
    None
}

} // verus!
