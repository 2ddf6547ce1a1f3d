//! Categories defined by the general category of a character.

use finl_unicode::categories::CharacterCategories;
use vstd::prelude::*;

verus! {

/// General category `Lu`, as `finl_unicode` reports it.
pub uninterp spec fn is_letter_uppercase(c: char) -> bool;

/// General category `Ll`, as `finl_unicode` reports it.
pub uninterp spec fn is_letter_lowercase(c: char) -> bool;

/// General category `Sm`, as `finl_unicode` reports it.
pub uninterp spec fn is_symbol_math(c: char) -> bool;

/// General category `Sc`, as `finl_unicode` reports it.
pub uninterp spec fn is_symbol_currency(c: char) -> bool;

/// A general category in `P`, as `finl_unicode` reports it.
pub uninterp spec fn is_punctuation(c: char) -> bool;

/// General category `Nd`, as `finl_unicode` reports it.
pub uninterp spec fn is_number_decimal(c: char) -> bool;

/// A general category in `L`, as `finl_unicode` reports it.
pub uninterp spec fn is_letter(c: char) -> bool;

/// A general category in `N`, as `finl_unicode` reports it.
pub uninterp spec fn is_number(c: char) -> bool;

/// A general category in `S`, as `finl_unicode` reports it.
pub uninterp spec fn is_symbol(c: char) -> bool;

/// `CharacterCategories::is_letter_uppercase` of `finl_unicode`: a table lookup on `c`.
#[verifier::external_body]
fn letter_uppercase(c: char) -> (r: bool)
    ensures
        r == is_letter_uppercase(c),
{
    c.is_letter_uppercase()
}

/// `CharacterCategories::is_letter_lowercase` of `finl_unicode`: a table lookup on `c`.
#[verifier::external_body]
fn letter_lowercase(c: char) -> (r: bool)
    ensures
        r == is_letter_lowercase(c),
{
    c.is_letter_lowercase()
}

/// `CharacterCategories::is_symbol_math` of `finl_unicode`: a table lookup on `c`.
#[verifier::external_body]
fn symbol_math(c: char) -> (r: bool)
    ensures
        r == is_symbol_math(c),
{
    c.is_symbol_math()
}

/// `CharacterCategories::is_symbol_currency` of `finl_unicode`: a table lookup on `c`.
#[verifier::external_body]
fn symbol_currency(c: char) -> (r: bool)
    ensures
        r == is_symbol_currency(c),
{
    c.is_symbol_currency()
}

/// `CharacterCategories::is_punctuation` of `finl_unicode`: a table lookup on `c`.
#[verifier::external_body]
fn punctuation(c: char) -> (r: bool)
    ensures
        r == is_punctuation(c),
{
    c.is_punctuation()
}

/// `CharacterCategories::is_number_decimal` of `finl_unicode`: a table lookup on `c`.
#[verifier::external_body]
fn number_decimal(c: char) -> (r: bool)
    ensures
        r == is_number_decimal(c),
{
    c.is_number_decimal()
}

/// `CharacterCategories::is_letter` of `finl_unicode`: a table lookup on `c`.
#[verifier::external_body]
fn letter(c: char) -> (r: bool)
    ensures
        r == is_letter(c),
{
    c.is_letter()
}

/// `CharacterCategories::is_number` of `finl_unicode`: a table lookup on `c`.
#[verifier::external_body]
fn number(c: char) -> (r: bool)
    ensures
        r == is_number(c),
{
    c.is_number()
}

/// `CharacterCategories::is_symbol` of `finl_unicode`: a table lookup on `c`.
#[verifier::external_body]
fn symbol(c: char) -> (r: bool)
    ensures
        r == is_symbol(c),
{
    c.is_symbol()
}

/// A property of characters that a category can be defined by.
#[derive(Debug, Clone, Copy, PartialEq, Eq)]
pub enum PropertyType {
    UppercaseLetters,
    LowercaseLetters,
    MathSymbols,
    CurrencySymbols,
    Punctuation,
    DecimalNumbers,
    AllLetters,
    AllNumbers,
    AllSymbols,
}

impl PropertyType {
    /// Whether `c` has the property.
    pub open spec fn spec_matches(&self, c: char) -> bool {
        match self {
            PropertyType::UppercaseLetters => is_letter_uppercase(c),
            PropertyType::LowercaseLetters => is_letter_lowercase(c),
            PropertyType::MathSymbols => is_symbol_math(c),
            PropertyType::CurrencySymbols => is_symbol_currency(c),
            PropertyType::Punctuation => is_punctuation(c),
            PropertyType::DecimalNumbers => is_number_decimal(c),
            PropertyType::AllLetters => is_letter(c),
            PropertyType::AllNumbers => is_number(c),
            PropertyType::AllSymbols => is_symbol(c),
        }
    }

    /// Whether `c` has the property.
    pub fn matches(&self, c: char) -> (r: bool)
        ensures
            r == self.spec_matches(c),
    {
        match self {
            PropertyType::UppercaseLetters => letter_uppercase(c),
            PropertyType::LowercaseLetters => letter_lowercase(c),
            PropertyType::MathSymbols => symbol_math(c),
            PropertyType::CurrencySymbols => symbol_currency(c),
            PropertyType::Punctuation => punctuation(c),
            PropertyType::DecimalNumbers => number_decimal(c),
            PropertyType::AllLetters => letter(c),
            PropertyType::AllNumbers => number(c),
            PropertyType::AllSymbols => symbol(c),
        }
    }
}

} // verus!
