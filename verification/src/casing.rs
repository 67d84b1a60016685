//! Identifier-casing transforms, provided by the `heck` crate.
//!
//! The exact character-level output of a case conversion is not restated
//! here; each conversion's result is given a name (an uninterpreted spec
//! function of the input characters), and the rest of the crate reasons
//! over those names.

use vstd::prelude::*;

verus! {

/// The UpperCamelCase form of a string, as `heck` computes it.
pub uninterp spec fn pascal_of(s: Seq<char>) -> Seq<char>;

/// The snake_case form of a string, as `heck` computes it.
pub uninterp spec fn snake_of(s: Seq<char>) -> Seq<char>;

/// The SHOUTY_SNAKE_CASE form of a string, as `heck` computes it.
pub uninterp spec fn shouty_snake_of(s: Seq<char>) -> Seq<char>;

/// Relies on heck's `ToPascalCase::to_pascal_case`: a pure, deterministic
/// function of the input characters (no locale, no environment).
#[verifier::external_body]
pub(crate) fn to_pascal_case(s: &str) -> (r: String)
    ensures
        r@ == pascal_of(s@),
{
    heck::ToPascalCase::to_pascal_case(s)
}

/// Relies on heck's `ToSnakeCase::to_snake_case`: a pure, deterministic
/// function of the input characters.
#[verifier::external_body]
pub(crate) fn to_snake_case(s: &str) -> (r: String)
    ensures
        r@ == snake_of(s@),
{
    heck::ToSnakeCase::to_snake_case(s)
}

/// Relies on heck's `ToShoutySnakeCase::to_shouty_snake_case`: a pure,
/// deterministic function of the input characters.
#[verifier::external_body]
pub(crate) fn to_shouty_snake_case(s: &str) -> (r: String)
    ensures
        r@ == shouty_snake_of(s@),
{
    heck::ToShoutySnakeCase::to_shouty_snake_case(s)
}

} // verus!
