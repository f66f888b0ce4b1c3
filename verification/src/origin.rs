//! URL rules: the canonical source repository and HTTPS network origins.

use vstd::prelude::*;
use crate::unicode::{chars_of, starts_with_text};

verus! {

/// Whether `s` contains the character `c`.
pub open spec fn has_char(s: Seq<char>, c: char) -> bool {
    exists|i: int| 0 <= i < s.len() && s[i] == c
}

/// An HTTPS origin: `https://` followed by a non-empty authority that holds no `/`, `?`,
/// `#` or `@` (no path, query, fragment or credentials).
pub open spec fn https_origin_ok(s: Seq<char>) -> bool {
    let authority = s.subrange(8, s.len() as int);
    &&& s.len() > 8
    &&& s.subrange(0, 8) == "https://"@
    &&& !has_char(authority, '/')
    &&& !has_char(authority, '?')
    &&& !has_char(authority, '#')
    &&& !has_char(authority, '@')
}

/// A canonical repository URL: it starts with `https://github.com/` and holds no `?` or `#`.
pub open spec fn source_url_ok(s: Seq<char>) -> bool {
    &&& s.len() >= 19
    &&& s.subrange(0, 19) == "https://github.com/"@
    &&& !has_char(s, '?')
    &&& !has_char(s, '#')
}

/// Whether some character of `s[from..]` is `c`.
fn any_char_from(s: &Vec<char>, from: usize, c: char) -> (res: bool)
    requires
        from <= s@.len(),
    ensures
        res == has_char(s@.subrange(from as int, s@.len() as int), c),
{
    let ghost tail = s@.subrange(from as int, s@.len() as int);
    let mut i = from;
    while i < s.len()
        invariant
            from <= i <= s@.len(),
            tail == s@.subrange(from as int, s@.len() as int),
            forall|k: int| 0 <= k < i - from ==> tail[k] != c,
        decreases s@.len() - i,
    {
        if s[i] == c {
            assert(tail[i - from] == c);
            return true;
        }
        i += 1;
    }
    false
}

/// Whether `value` is an HTTPS origin without path, query, fragment or credentials.
pub fn is_https_origin(value: &str) -> (res: bool)
    ensures
        res == https_origin_ok(value@),
{
    let s = chars_of(value);
    proof {
        reveal_strlit("https://");
    }
    if !starts_with_text(&s, "https://") || s.len() == 8 {
        return false;
    }
    !any_char_from(&s, 8, '/') && !any_char_from(&s, 8, '?') && !any_char_from(&s, 8, '#')
        && !any_char_from(&s, 8, '@')
}

/// Whether `value` is a canonical HTTPS GitHub repository URL.
pub fn is_source_url(value: &str) -> (res: bool)
    ensures
        res == source_url_ok(value@),
{
    let s = chars_of(value);
    proof {
        reveal_strlit("https://github.com/");
        assert(s@.subrange(0, s@.len() as int) == s@);
    }
    starts_with_text(&s, "https://github.com/") && !any_char_from(&s, 0, '?') && !any_char_from(&s, 0, '#')
}

} // verus!
