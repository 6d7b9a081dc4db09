//! Characters and short texts: what the readers and the renderers share.

use vstd::prelude::*;
use vstd::string::*;

verus! {

/// Whether std counts a character as alphabetic, by the Unicode property.
pub uninterp spec fn unicode_alphabetic(c: char) -> bool;

/// Whether std counts a character as white space, by the Unicode property.
pub uninterp spec fn unicode_whitespace(c: char) -> bool;

/// The lower-case form that std gives a text, by the Unicode mappings.
pub uninterp spec fn unicode_lowercase(s: Seq<char>) -> Seq<char>;

/// `char::is_alphabetic` decides by the Unicode property `Alphabetic`, a
/// table of the character alone; its answer is named here, not stated.
pub assume_specification[ char::is_alphabetic ](c: char) -> (r: bool)
    ensures
        r == unicode_alphabetic(c),
;

/// `char::is_whitespace` decides by the Unicode property `White_Space`, a
/// table of the character alone; its answer is named here, not stated.
pub assume_specification[ char::is_whitespace ](c: char) -> (r: bool)
    ensures
        r == unicode_whitespace(c),
;

/// `str::to_lowercase` maps a text by the Unicode lower-case mappings, which
/// depend on the text alone; its result is named here, not stated.
pub assume_specification[ str::to_lowercase ](s: &str) -> (r: String)
    ensures
        r@ == unicode_lowercase(s@),
;

/// `String::push` appends the character to the end of the string.
pub assume_specification[ String::push ](s: &mut String, c: char)
    ensures
        final(s)@ == old(s)@.push(c),
;

/// Whether the character is one of the 128 of ASCII.
pub open spec fn is_ascii(c: char) -> bool {
    c <= '\u{7f}'
}

/// Whether the character is an ASCII letter.
pub open spec fn is_ascii_letter(c: char) -> bool {
    'a' <= c <= 'z' || 'A' <= c <= 'Z'
}

/// Whether the character is ASCII white space: tab, line feed, vertical tab,
/// form feed, carriage return or space.
pub open spec fn is_ascii_space(c: char) -> bool {
    '\u{9}' <= c <= '\u{d}' || c == ' '
}

/// Whether the character is a decimal digit of ASCII.
pub open spec fn is_digit(c: char) -> bool {
    '0' <= c <= '9'
}

/// Whether the character is alphabetic: for ASCII the letters, beyond ASCII
/// what Unicode says.
pub open spec fn alphabetic(c: char) -> bool {
    if is_ascii(c) {
        is_ascii_letter(c)
    } else {
        unicode_alphabetic(c)
    }
}

/// Whether the character is white space: for ASCII the six characters of
/// [`is_ascii_space`], beyond ASCII what Unicode says.
pub open spec fn whitespace(c: char) -> bool {
    if is_ascii(c) {
        is_ascii_space(c)
    } else {
        unicode_whitespace(c)
    }
}

/// The lower-case form of an ASCII letter; any other character unchanged.
pub open spec fn ascii_lower(c: char) -> char {
    if 'A' <= c <= 'Z' {
        ((c as u8) + 32) as char
    } else {
        c
    }
}

/// The upper-case form of an ASCII letter; any other character unchanged.
pub open spec fn ascii_upper(c: char) -> char {
    if 'a' <= c <= 'z' {
        ((c as u8) - 32) as char
    } else {
        c
    }
}

/// Whether every character of the text is one of ASCII.
pub open spec fn all_ascii(s: Seq<char>) -> bool {
    forall|i: int| 0 <= i < s.len() ==> is_ascii(#[trigger] s[i])
}

/// The lower-case form of a text: for a text of ASCII each letter in lower
/// case, for any other text what Unicode says.
pub open spec fn lowercase(s: Seq<char>) -> Seq<char> {
    if all_ascii(s) {
        s.map_values(|c: char| ascii_lower(c))
    } else {
        unicode_lowercase(s)
    }
}

/// Whether a character is alphabetic.
pub(crate) fn char_is_alphabetic(c: char) -> (r: bool)
    ensures
        r == alphabetic(c),
{
    if c <= '\u{7f}' {
        ('a' <= c && c <= 'z') || ('A' <= c && c <= 'Z')
    } else {
        c.is_alphabetic()
    }
}

/// Whether a character is white space.
pub(crate) fn char_is_whitespace(c: char) -> (r: bool)
    ensures
        r == whitespace(c),
{
    if c <= '\u{7f}' {
        ('\u{9}' <= c && c <= '\u{d}') || c == ' '
    } else {
        c.is_whitespace()
    }
}

/// The lower-case form of an ASCII letter; any other character unchanged.
pub(crate) fn char_ascii_lower(c: char) -> (r: char)
    ensures
        r == ascii_lower(c),
{
    if 'A' <= c && c <= 'Z' {
        ((c as u8) + 32) as char
    } else {
        c
    }
}

/// The upper-case form of an ASCII letter; any other character unchanged.
pub(crate) fn char_ascii_upper(c: char) -> (r: char)
    ensures
        r == ascii_upper(c),
{
    if 'a' <= c && c <= 'z' {
        ((c as u8) - 32) as char
    } else {
        c
    }
}

/// The characters of a text.
pub(crate) fn chars_of(s: &str) -> (chars: Vec<char>)
    ensures
        chars@ == s@,
{
    let mut chars: Vec<char> = Vec::new();
    for c in it: s.chars()
        invariant
            it.seq() == s@,
            chars@ == s@.subrange(0, it.index() as int),
    {
        chars.push(c);
        assert(chars@ =~= s@.subrange(0, it.index() + 1));
    }
    assert(chars@ =~= s@);
    chars
}

/// The text made of the given characters.
pub(crate) fn string_of(chars: &Vec<char>) -> (s: String)
    ensures
        s@ == chars@,
{
    let mut s = String::new();
    let mut i: usize = 0;
    while i < chars.len()
        invariant
            i <= chars.len(),
            s@ == chars@.subrange(0, i as int),
        decreases chars.len() - i,
    {
        s.push(chars[i]);
        i += 1;
        assert(s@ =~= chars@.subrange(0, i as int));
    }
    assert(s@ =~= chars@);
    s
}

/// Whether the characters spell the given text.
pub(crate) fn spells(chars: &Vec<char>, text: &str) -> (r: bool)
    ensures
        r == (chars@ == text@),
{
    let n = text.unicode_len();
    if chars.len() != n {
        return false;
    }
    let mut i: usize = 0;
    while i < n
        invariant
            n == text@.len(),
            n == chars@.len(),
            i <= n,
            chars@.subrange(0, i as int) == text@.subrange(0, i as int),
        decreases n - i,
    {
        if chars[i] != text.get_char(i) {
            return false;
        }
        i += 1;
        assert(chars@.subrange(0, i as int) =~= chars@.subrange(0, i - 1).push(chars@[i - 1]));
        assert(text@.subrange(0, i as int) =~= text@.subrange(0, i - 1).push(text@[i - 1]));
    }
    assert(chars@ =~= chars@.subrange(0, n as int));
    assert(text@ =~= text@.subrange(0, n as int));
    true
}

/// The lower-case form of a text.
pub(crate) fn lowered(chars: &Vec<char>) -> (lower: Vec<char>)
    ensures
        lower@ == lowercase(chars@),
{
    let mut ascii = true;
    let mut i: usize = 0;
    while i < chars.len()
        invariant
            i <= chars.len(),
            ascii == all_ascii(chars@.subrange(0, i as int)),
        decreases chars.len() - i,
    {
        if chars[i] > '\u{7f}' {
            ascii = false;
        }
        i += 1;
        proof {
            let before = chars@.subrange(0, i - 1);
            let now = chars@.subrange(0, i as int);
            if all_ascii(now) {
                assert forall|j: int| 0 <= j < before.len() implies is_ascii(
                    #[trigger] before[j],
                ) by {
                    assert(before[j] == now[j]);
                }
                assert(is_ascii(now[i - 1]));
            }
            if all_ascii(before) && is_ascii(chars@[i - 1]) {
                assert forall|j: int| 0 <= j < now.len() implies is_ascii(#[trigger] now[j]) by {
                    if j < i - 1 {
                        assert(now[j] == before[j]);
                    }
                }
            }
        }
    }
    assert(chars@.subrange(0, i as int) =~= chars@);
    if ascii {
        let mut lower: Vec<char> = Vec::new();
        let mut k: usize = 0;
        while k < chars.len()
            invariant
                k <= chars.len(),
                lower@ == chars@.subrange(0, k as int).map_values(|c: char| ascii_lower(c)),
            decreases chars.len() - k,
        {
            lower.push(char_ascii_lower(chars[k]));
            k += 1;
            assert(lower@ =~= chars@.subrange(0, k as int).map_values(|c: char| ascii_lower(c)));
        }
        assert(chars@.subrange(0, k as int) =~= chars@);
        lower
    } else {
        let text = string_of(chars);
        let mapped = text.as_str().to_lowercase();
        chars_of(mapped.as_str())
    }
}

/// A text in upper case: each ASCII letter in upper case, every other
/// character unchanged.
pub open spec fn ascii_uppercase(s: Seq<char>) -> Seq<char> {
    s.map_values(|c: char| ascii_upper(c))
}

/// A text in lower case: each ASCII letter in lower case, every other
/// character unchanged.
pub open spec fn ascii_lowercase(s: Seq<char>) -> Seq<char> {
    s.map_values(|c: char| ascii_lower(c))
}

/// A run of spaces.
pub open spec fn spaces(n: nat) -> Seq<char> {
    Seq::new(n, |i: int| ' ')
}

/// Appends the characters of `more`.
pub(crate) fn push_all(out: &mut Vec<char>, more: &Vec<char>)
    ensures
        final(out)@ == old(out)@ + more@,
{
    let mut i: usize = 0;
    while i < more.len()
        invariant
            i <= more.len(),
            out@ == old(out)@ + more@.subrange(0, i as int),
        decreases more.len() - i,
    {
        out.push(more[i]);
        i += 1;
        assert(out@ =~= old(out)@ + more@.subrange(0, i as int));
    }
    assert(more@.subrange(0, i as int) =~= more@);
}

/// Appends the characters of `more` with each ASCII letter in upper case.
pub(crate) fn push_upper(out: &mut Vec<char>, more: &Vec<char>)
    ensures
        final(out)@ == old(out)@ + ascii_uppercase(more@),
{
    let mut i: usize = 0;
    while i < more.len()
        invariant
            i <= more.len(),
            out@ == old(out)@ + ascii_uppercase(more@.subrange(0, i as int)),
        decreases more.len() - i,
    {
        out.push(char_ascii_upper(more[i]));
        i += 1;
        assert(out@ =~= old(out)@ + ascii_uppercase(more@.subrange(0, i as int)));
    }
    assert(more@.subrange(0, i as int) =~= more@);
}

/// Appends the characters of `more` with each ASCII letter in lower case.
pub(crate) fn push_lower(out: &mut Vec<char>, more: &Vec<char>)
    ensures
        final(out)@ == old(out)@ + ascii_lowercase(more@),
{
    let mut i: usize = 0;
    while i < more.len()
        invariant
            i <= more.len(),
            out@ == old(out)@ + ascii_lowercase(more@.subrange(0, i as int)),
        decreases more.len() - i,
    {
        out.push(char_ascii_lower(more[i]));
        i += 1;
        assert(out@ =~= old(out)@ + ascii_lowercase(more@.subrange(0, i as int)));
    }
    assert(more@.subrange(0, i as int) =~= more@);
}

/// Appends `n` spaces.
pub(crate) fn push_spaces(out: &mut Vec<char>, n: usize)
    ensures
        final(out)@ == old(out)@ + spaces(n as nat),
{
    let mut i: usize = 0;
    while i < n
        invariant
            i <= n,
            out@ == old(out)@ + spaces(i as nat),
        decreases n - i,
    {
        out.push(' ');
        i += 1;
        assert(out@ =~= old(out)@ + spaces(i as nat));
    }
}

} // verus!
