//! A verified tag/value wire-format codec and validator for a
//! financial messaging protocol: decoding a delimited text stream into
//! typed fields, encoding structured fields into a compliant wire
//! message with synthesized header and trailer fields, and validating
//! a field set against per-message-type rules.
use vstd::prelude::*;

pub mod decode;
pub mod dict;
pub mod encode;
pub mod fields;
pub mod text;
pub mod timefmt;
pub mod validate;

verus! {

/// The single control character that canonically separates tag=value
/// segments on the wire.
pub open spec fn soh() -> char {
    '\x01'
}

/// Returns the canonical segment delimiter.
pub fn soh_char() -> (c: char)
    ensures
        c == soh(),
{
    '\x01'
}

} // verus!
