//! The pattern registry: one shape descriptor per identifier type.
//!
//! A shape describes an identifier grammar: an optional literal or
//! one-of-two-characters prefix, a character class, and run-length bounds.
//! `Full` shapes are a prefix followed by one bounded run; `Split` shapes
//! (the truncated display forms) are a prefix, a first run, an ellipsis,
//! and a second run.  Every shape is matched only between word boundaries.
//! The ENS pattern has its own matcher and does not appear here.

use vstd::prelude::*;

use crate::chars::CharClass;

verus! {

/// The fixed lead-in of a shape.
#[derive(Clone, Copy)]
pub enum Prefix {
    /// No lead-in: the run itself starts the match.
    NoPrefix,
    /// The literal `0x`.
    ZeroX,
    /// The literal `bc1`.
    BcOne,
    /// A single `1` or `3`, the lead of a Bitcoin legacy address.
    LegacyLead,
}

/// One identifier grammar.
#[derive(Clone, Copy)]
pub enum Shape {
    /// Prefix, then a run of `min..=max` class characters, word-bounded.
    Full { prefix: Prefix, class: CharClass, min: usize, max: usize },
    /// Prefix, a run of `min1..=max1` class characters, an ellipsis
    /// (`...` or the single horizontal-ellipsis character), and a run of
    /// `min2..=max2` class characters, word-bounded.
    Split {
        prefix: Prefix,
        class: CharClass,
        min1: usize,
        max1: usize,
        min2: usize,
        max2: usize,
    },
}

/// A full Ethereum address: `0x` and 40 hex digits.
#[verifier::allow_in_spec]
pub fn full_address_shape() -> Shape
    returns
        (Shape::Full { prefix: Prefix::ZeroX, class: CharClass::Hex, min: 40, max: 40 }),
{
    Shape::Full { prefix: Prefix::ZeroX, class: CharClass::Hex, min: 40, max: 40 }
}

/// A truncated Ethereum address: `0x`, 4 to 12 hex digits, an ellipsis,
/// and 4 to 12 hex digits.
#[verifier::allow_in_spec]
pub fn truncated_shape() -> Shape
    returns
        (Shape::Split {
            prefix: Prefix::ZeroX,
            class: CharClass::Hex,
            min1: 4,
            max1: 12,
            min2: 4,
            max2: 12,
        }),
{
    Shape::Split { prefix: Prefix::ZeroX, class: CharClass::Hex, min1: 4, max1: 12, min2: 4, max2: 12 }
}

/// An Ethereum transaction hash: `0x` and 64 hex digits.
#[verifier::allow_in_spec]
pub fn eth_tx_hash_shape() -> Shape
    returns
        (Shape::Full { prefix: Prefix::ZeroX, class: CharClass::Hex, min: 64, max: 64 }),
{
    Shape::Full { prefix: Prefix::ZeroX, class: CharClass::Hex, min: 64, max: 64 }
}

/// A truncated Ethereum transaction hash: same shape as a truncated
/// address.
#[verifier::allow_in_spec]
pub fn eth_tx_truncated_shape() -> Shape
    returns
        (Shape::Split {
            prefix: Prefix::ZeroX,
            class: CharClass::Hex,
            min1: 4,
            max1: 12,
            min2: 4,
            max2: 12,
        }),
{
    Shape::Split { prefix: Prefix::ZeroX, class: CharClass::Hex, min1: 4, max1: 12, min2: 4, max2: 12 }
}

/// A Bitcoin transaction hash: 64 bare hex digits.
#[verifier::allow_in_spec]
pub fn btc_tx_hash_shape() -> Shape
    returns
        (Shape::Full { prefix: Prefix::NoPrefix, class: CharClass::Hex, min: 64, max: 64 }),
{
    Shape::Full { prefix: Prefix::NoPrefix, class: CharClass::Hex, min: 64, max: 64 }
}

/// A truncated Bitcoin transaction hash: bare hex runs joined by an
/// ellipsis.
#[verifier::allow_in_spec]
pub fn btc_tx_truncated_shape() -> Shape
    returns
        (Shape::Split {
            prefix: Prefix::NoPrefix,
            class: CharClass::Hex,
            min1: 4,
            max1: 12,
            min2: 4,
            max2: 12,
        }),
{
    Shape::Split {
        prefix: Prefix::NoPrefix,
        class: CharClass::Hex,
        min1: 4,
        max1: 12,
        min2: 4,
        max2: 12,
    }
}

/// A Bitcoin legacy address: `1` or `3`, then 25 to 34 base58 characters.
#[verifier::allow_in_spec]
pub fn btc_legacy_shape() -> Shape
    returns
        (Shape::Full { prefix: Prefix::LegacyLead, class: CharClass::Base58, min: 25, max: 34 }),
{
    Shape::Full { prefix: Prefix::LegacyLead, class: CharClass::Base58, min: 25, max: 34 }
}

/// A Bitcoin bech32 address: `bc1`, then 39 to 59 bech32 characters.
#[verifier::allow_in_spec]
pub fn btc_bech32_shape() -> Shape
    returns
        (Shape::Full { prefix: Prefix::BcOne, class: CharClass::Bech32, min: 39, max: 59 }),
{
    Shape::Full { prefix: Prefix::BcOne, class: CharClass::Bech32, min: 39, max: 59 }
}

/// A truncated Bitcoin legacy address.
#[verifier::allow_in_spec]
pub fn btc_truncated_legacy_shape() -> Shape
    returns
        (Shape::Split {
            prefix: Prefix::LegacyLead,
            class: CharClass::Base58,
            min1: 2,
            max1: 20,
            min2: 2,
            max2: 20,
        }),
{
    Shape::Split {
        prefix: Prefix::LegacyLead,
        class: CharClass::Base58,
        min1: 2,
        max1: 20,
        min2: 2,
        max2: 20,
    }
}

/// A truncated Bitcoin bech32 address.
#[verifier::allow_in_spec]
pub fn btc_truncated_bech32_shape() -> Shape
    returns
        (Shape::Split {
            prefix: Prefix::BcOne,
            class: CharClass::Bech32,
            min1: 2,
            max1: 40,
            min2: 2,
            max2: 40,
        }),
{
    Shape::Split {
        prefix: Prefix::BcOne,
        class: CharClass::Bech32,
        min1: 2,
        max1: 40,
        min2: 2,
        max2: 40,
    }
}

/// A Solana address: 32 to 44 base58 characters.
#[verifier::allow_in_spec]
pub fn sol_shape() -> Shape
    returns
        (Shape::Full { prefix: Prefix::NoPrefix, class: CharClass::Base58, min: 32, max: 44 }),
{
    Shape::Full { prefix: Prefix::NoPrefix, class: CharClass::Base58, min: 32, max: 44 }
}

/// A truncated Solana address.
#[verifier::allow_in_spec]
pub fn sol_truncated_shape() -> Shape
    returns
        (Shape::Split {
            prefix: Prefix::NoPrefix,
            class: CharClass::Base58,
            min1: 3,
            max1: 10,
            min2: 3,
            max2: 10,
        }),
{
    Shape::Split {
        prefix: Prefix::NoPrefix,
        class: CharClass::Base58,
        min1: 3,
        max1: 10,
        min2: 3,
        max2: 10,
    }
}

/// A Solana transaction signature: 86 to 88 base58 characters.
#[verifier::allow_in_spec]
pub fn sol_tx_sig_shape() -> Shape
    returns
        (Shape::Full { prefix: Prefix::NoPrefix, class: CharClass::Base58, min: 86, max: 88 }),
{
    Shape::Full { prefix: Prefix::NoPrefix, class: CharClass::Base58, min: 86, max: 88 }
}

/// A truncated Solana transaction signature.
#[verifier::allow_in_spec]
pub fn sol_tx_truncated_shape() -> Shape
    returns
        (Shape::Split {
            prefix: Prefix::NoPrefix,
            class: CharClass::Base58,
            min1: 4,
            max1: 12,
            min2: 4,
            max2: 12,
        }),
{
    Shape::Split {
        prefix: Prefix::NoPrefix,
        class: CharClass::Base58,
        min1: 4,
        max1: 12,
        min2: 4,
        max2: 12,
    }
}

} // verus!
