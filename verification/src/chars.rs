//! Character classes of the identifier grammars.
//!
//! Every identifier shape recognised by this library is built from runs of
//! characters drawn from one of a few fixed alphabets: hexadecimal digits,
//! the base58 alphabet (which omits the visually ambiguous `0`, `O`, `I`
//! and `l`), the bech32 charset used by native-segwit addresses, and the
//! alphabet of ENS labels.  A *word character* is an ASCII letter or digit;
//! word boundaries are defined in terms of it.

use vstd::prelude::*;

verus! {

/// A word character: an ASCII letter or digit.  A match must not be
/// immediately preceded or followed by a word character.
pub open spec fn is_word_char(c: char) -> bool {
    ('0' <= c && c <= '9') || ('a' <= c && c <= 'z') || ('A' <= c && c <= 'Z')
}

pub fn word_char(c: char) -> (r: bool)
    ensures
        r == is_word_char(c),
{
    ('0' <= c && c <= '9') || ('a' <= c && c <= 'z') || ('A' <= c && c <= 'Z')
}

/// A hexadecimal digit, either case.
pub open spec fn is_hex_digit(c: char) -> bool {
    ('0' <= c && c <= '9') || ('a' <= c && c <= 'f') || ('A' <= c && c <= 'F')
}

/// A character of the base58 alphabet: ASCII alphanumerics without
/// `0`, `O`, `I` and `l`.
pub open spec fn is_base58_char(c: char) -> bool {
    ('1' <= c && c <= '9') || ('A' <= c && c <= 'H') || ('J' <= c && c <= 'N') || ('P' <= c
        && c <= 'Z') || ('a' <= c && c <= 'k') || ('m' <= c && c <= 'z')
}

/// A character accepted inside a bech32 address body: lower-case letters,
/// digits, and upper-case letters without `I` and `O`.
pub open spec fn is_bech32_char(c: char) -> bool {
    ('0' <= c && c <= '9') || ('a' <= c && c <= 'z') || ('A' <= c && c <= 'H') || ('J' <= c
        && c <= 'N') || ('P' <= c && c <= 'Z')
}

/// A character allowed inside an ENS label: alphanumeric or hyphen.
pub open spec fn is_ens_label_char(c: char) -> bool {
    is_word_char(c) || c == '-'
}

/// The character classes that identifier bodies are runs of.
#[derive(Clone, Copy)]
pub enum CharClass {
    Hex,
    Base58,
    Bech32,
    EnsLabel,
}

pub open spec fn in_class(cls: CharClass, c: char) -> bool {
    match cls {
        CharClass::Hex => is_hex_digit(c),
        CharClass::Base58 => is_base58_char(c),
        CharClass::Bech32 => is_bech32_char(c),
        CharClass::EnsLabel => is_ens_label_char(c),
    }
}

pub fn class_char(cls: CharClass, c: char) -> (r: bool)
    ensures
        r == in_class(cls, c),
{
    match cls {
        CharClass::Hex => ('0' <= c && c <= '9') || ('a' <= c && c <= 'f') || ('A' <= c
            && c <= 'F'),
        CharClass::Base58 => ('1' <= c && c <= '9') || ('A' <= c && c <= 'H') || ('J' <= c
            && c <= 'N') || ('P' <= c && c <= 'Z') || ('a' <= c && c <= 'k') || ('m' <= c
            && c <= 'z'),
        CharClass::Bech32 => ('0' <= c && c <= '9') || ('a' <= c && c <= 'z') || ('A' <= c
            && c <= 'H') || ('J' <= c && c <= 'N') || ('P' <= c && c <= 'Z'),
        CharClass::EnsLabel => word_char(c) || c == '-',
    }
}

} // verus!
