use vstd::prelude::*;

verus! {

/// Whether a character above the ASCII range has the Unicode `White_Space`
/// property; fixed by the Unicode tables, so a function of `c` alone.
pub uninterp spec fn unicode_whitespace(c: char) -> bool;

/// Whether a character above the ASCII range has the Unicode `Alphabetic`
/// property; fixed by the Unicode tables, so a function of `c` alone.
pub uninterp spec fn unicode_alphabetic(c: char) -> bool;

/// What `char::is_whitespace` returns: on ASCII, exactly TAB through CR
/// (U+0009..U+000D) and SPACE (U+0020).
pub open spec fn whitespace(c: char) -> bool {
    if (c as u32) < 128 {
        c as u32 == 32 || (9 <= c as u32 && c as u32 <= 13)
    } else {
        unicode_whitespace(c)
    }
}

/// What `char::is_alphabetic` returns: on ASCII, exactly the letters
/// `A`..`Z` and `a`..`z`.
pub open spec fn alphabetic(c: char) -> bool {
    if (c as u32) < 128 {
        (65 <= c as u32 && c as u32 <= 90) || (97 <= c as u32 && c as u32 <= 122)
    } else {
        unicode_alphabetic(c)
    }
}

/// Relies on char::is_whitespace: true exactly for characters with the
/// Unicode `White_Space` property, whose ASCII members are TAB through CR
/// and SPACE.
#[verifier::external_body]
pub fn is_whitespace_char(c: char) -> (r: bool)
    ensures
        r == whitespace(c),
        (c as u32) >= 128 ==> r == unicode_whitespace(c),
{
    c.is_whitespace()
}

/// Relies on char::is_alphabetic: true exactly for characters with the
/// Unicode `Alphabetic` property, whose ASCII members are the letters.
#[verifier::external_body]
pub fn is_alphabetic_char(c: char) -> (r: bool)
    ensures
        r == alphabetic(c),
        (c as u32) >= 128 ==> r == unicode_alphabetic(c),
{
    c.is_alphabetic()
}

/// Greatest position `j <= i` such that every character in `s[j..i]` is
/// whitespace.
pub open spec fn skip_ws_back(s: Seq<char>, i: int) -> int
    decreases i,
{
    if 0 < i <= s.len() && whitespace(s[i - 1]) {
        skip_ws_back(s, i - 1)
    } else {
        i
    }
}

/// Greatest position `j <= i` such that every character in `s[j..i]` is
/// non-whitespace.
pub open spec fn skip_word_back(s: Seq<char>, i: int) -> int
    decreases i,
{
    if 0 < i <= s.len() && !whitespace(s[i - 1]) {
        skip_word_back(s, i - 1)
    } else {
        i
    }
}

/// Least position `j >= i` such that every character in `s[i..j]` is
/// whitespace.
pub open spec fn skip_ws_fwd(s: Seq<char>, i: int) -> int
    decreases s.len() - i,
{
    if 0 <= i < s.len() && whitespace(s[i]) {
        skip_ws_fwd(s, i + 1)
    } else {
        i
    }
}

/// Least position `j >= i` such that every character in `s[i..j]` is
/// non-whitespace.
pub open spec fn skip_word_fwd(s: Seq<char>, i: int) -> int
    decreases s.len() - i,
{
    if 0 <= i < s.len() && !whitespace(s[i]) {
        skip_word_fwd(s, i + 1)
    } else {
        i
    }
}

} // verus!
