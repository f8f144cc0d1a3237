//! Identifier case conversion, done by the Inflector crate. The results are
//! named by uninterpreted functions: they depend on the input characters
//! alone, which is all the generator's determinism needs.

use vstd::prelude::*;

verus! {

/// The snake-case form of `s`, as Inflector's `to_snake_case` computes it.
pub uninterp spec fn snake_of(s: Seq<char>) -> Seq<char>;

/// The class-case form of `s`, as Inflector's `to_class_case` computes it.
pub uninterp spec fn class_of(s: Seq<char>) -> Seq<char>;

/// Relies on Inflector's `to_snake_case`: lower-cases and underscore-separates
/// the words of `s`; the result is a function of the characters of `s` alone.
#[verifier::external_body]
pub fn to_snake_case(s: &str) -> (r: String)
    ensures
        r@ == snake_of(s@),
{
    inflector::cases::snakecase::to_snake_case(s)
}

/// Relies on Inflector's `to_class_case`: upper-camel-cases the words of `s`
/// and singularizes the last one; the result is a function of the characters
/// of `s` alone.
#[verifier::external_body]
pub fn to_class_case(s: &str) -> (r: String)
    ensures
        r@ == class_of(s@),
{
    inflector::cases::classcase::to_class_case(s)
}

} // verus!
