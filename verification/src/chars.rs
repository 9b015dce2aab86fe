//! Classification of single characters: boundaries, the escape lead, and the
//! fixed correspondence between dependent and independent vowels.

use vstd::prelude::*;

verus! {

/// The character that introduces an escape sequence.
pub const ESCAPE: char = '\\';

/// ASCII punctuation: the four ranges `!`..=`/`, `:`..=`@`, `[`..=`` ` `` and `{`..=`~`.
pub open spec fn spec_is_ascii_punctuation(c: char) -> bool {
    ||| '!' <= c <= '/'
    ||| ':' <= c <= '@'
    ||| '[' <= c <= '`'
    ||| '{' <= c <= '~'
}

/// The code points that carry the Unicode `White_Space` property.
pub open spec fn spec_is_whitespace(c: char) -> bool {
    ||| '\u{9}' <= c <= '\u{d}'
    ||| c == ' '
    ||| c == '\u{85}'
    ||| c == '\u{a0}'
    ||| c == '\u{1680}'
    ||| '\u{2000}' <= c <= '\u{200a}'
    ||| c == '\u{2028}'
    ||| c == '\u{2029}'
    ||| c == '\u{202f}'
    ||| c == '\u{205f}'
    ||| c == '\u{3000}'
}

/// Punctuation in the wide sense: ASCII punctuation or white space.
pub open spec fn spec_is_punctuation(c: char) -> bool {
    spec_is_ascii_punctuation(c) || spec_is_whitespace(c)
}

/// A boundary ends a syllable and is copied to the output as it stands. Every
/// punctuation character is one, except the escape lead, which starts an escape
/// sequence instead.
pub open spec fn spec_is_boundary(c: char) -> bool {
    spec_is_punctuation(c) && c != ESCAPE
}

pub fn is_ascii_punctuation(c: char) -> (r: bool)
    ensures
        r == spec_is_ascii_punctuation(c),
{
    ('!' <= c && c <= '/') || (':' <= c && c <= '@') || ('[' <= c && c <= '`') || ('{' <= c && c
        <= '~')
}

pub fn is_whitespace(c: char) -> (r: bool)
    ensures
        r == spec_is_whitespace(c),
{
    ('\u{9}' <= c && c <= '\u{d}') || c == ' ' || c == '\u{85}' || c == '\u{a0}' || c
        == '\u{1680}' || ('\u{2000}' <= c && c <= '\u{200a}') || c == '\u{2028}' || c
        == '\u{2029}' || c == '\u{202f}' || c == '\u{205f}' || c == '\u{3000}'
}

pub fn is_punctuation(c: char) -> (r: bool)
    ensures
        r == spec_is_punctuation(c),
{
    is_ascii_punctuation(c) || is_whitespace(c)
}

pub fn is_boundary(c: char) -> (r: bool)
    ensures
        r == spec_is_boundary(c),
{
    is_punctuation(c) && c != ESCAPE
}

/// The independent vowel that a dependent vowel sign stands for, if it has one.
pub open spec fn spec_independent_vowel(sign: char) -> Option<char> {
    if sign == 'া' {
        Some('আ')
    } else if sign == 'ি' {
        Some('ই')
    } else if sign == 'ী' {
        Some('ঈ')
    } else if sign == 'ু' {
        Some('উ')
    } else if sign == 'ূ' {
        Some('ঊ')
    } else if sign == 'ৃ' {
        Some('ঋ')
    } else if sign == 'ে' {
        Some('এ')
    } else if sign == 'ৈ' {
        Some('ঐ')
    } else if sign == 'ো' {
        Some('ও')
    } else if sign == 'ৌ' {
        Some('ঔ')
    } else {
        None
    }
}

pub fn vowel_sign_to_independent_vowel(sign: char) -> (r: Option<char>)
    ensures
        r == spec_independent_vowel(sign),
{
    if sign == 'া' {
        Some('আ')
    } else if sign == 'ি' {
        Some('ই')
    } else if sign == 'ী' {
        Some('ঈ')
    } else if sign == 'ু' {
        Some('উ')
    } else if sign == 'ূ' {
        Some('ঊ')
    } else if sign == 'ৃ' {
        Some('ঋ')
    } else if sign == 'ে' {
        Some('এ')
    } else if sign == 'ৈ' {
        Some('ঐ')
    } else if sign == 'ো' {
        Some('ও')
    } else if sign == 'ৌ' {
        Some('ঔ')
    } else {
        None
    }
}

} // verus!
