//! Scalars as tokens: what `quote` writes for an integer, a `bool`, a `char`
//! and a string slice.

use vstd::prelude::*;
use proc_macro2::TokenStream;
use crate::stream::tokens;
use crate::token::{Spacing, Token};

verus! {

/// The integer types that have a literal of their own.
#[derive(Clone, Copy, Debug, PartialEq, Eq, Structural)]
pub enum IntKind {
    U8,
    U16,
    U32,
    U64,
    U128,
    I8,
    I16,
    I32,
    I64,
    I128,
}

/// The suffix that names the type behind the digits of a literal.
pub open spec fn suffix(kind: IntKind) -> Seq<char> {
    match kind {
        IntKind::U8 => seq!['u', '8'],
        IntKind::U16 => seq!['u', '1', '6'],
        IntKind::U32 => seq!['u', '3', '2'],
        IntKind::U64 => seq!['u', '6', '4'],
        IntKind::U128 => seq!['u', '1', '2', '8'],
        IntKind::I8 => seq!['i', '8'],
        IntKind::I16 => seq!['i', '1', '6'],
        IntKind::I32 => seq!['i', '3', '2'],
        IntKind::I64 => seq!['i', '6', '4'],
        IntKind::I128 => seq!['i', '1', '2', '8'],
    }
}

/// The character of one decimal digit.
pub open spec fn digit(d: int) -> char {
    if d == 0 {
        '0'
    } else if d == 1 {
        '1'
    } else if d == 2 {
        '2'
    } else if d == 3 {
        '3'
    } else if d == 4 {
        '4'
    } else if d == 5 {
        '5'
    } else if d == 6 {
        '6'
    } else if d == 7 {
        '7'
    } else if d == 8 {
        '8'
    } else {
        '9'
    }
}

/// A natural number in decimal, without leading zeros.
pub open spec fn decimal(n: nat) -> Seq<char>
    decreases n,
{
    if n < 10 {
        seq![digit(n as int)]
    } else {
        decimal(n / 10).push(digit((n % 10) as int))
    }
}

/// An integer as tokens: one literal of digits and suffix, behind a `-` of
/// its own where the value is negative.
pub open spec fn int_literal(kind: IntKind, value: int) -> Seq<Token> {
    if value < 0 {
        seq![
            Token::Punct('-', Spacing::Alone),
            Token::Literal(decimal((-value) as nat) + suffix(kind)),
        ]
    } else {
        seq![Token::Literal(decimal(value as nat) + suffix(kind))]
    }
}

/// A `bool` as tokens: the word `true` or `false`.
pub open spec fn bool_literal(value: bool) -> Seq<Token> {
    if value {
        seq![Token::Ident(seq!['t', 'r', 'u', 'e'])]
    } else {
        seq![Token::Ident(seq!['f', 'a', 'l', 's', 'e'])]
    }
}

/// The source text of the string literal that `Literal::string` makes of a
/// text: the text between double quotes, with its escapes.
pub uninterp spec fn string_literal_text(text: Seq<char>) -> Seq<char>;

/// The source text of the character literal that `Literal::character` makes
/// of a character: the character between single quotes, escaped where needed.
pub uninterp spec fn char_literal_text(c: char) -> Seq<char>;

/// `ToTokens::to_tokens` of `u8`: appends `Literal::u8_suffixed`, the value
/// in decimal followed by `u8`.
#[verifier::external_body]
pub(crate) fn push_u8(stream: &mut TokenStream, value: u8)
    ensures
        tokens(*final(stream)) == tokens(*old(stream)) + int_literal(IntKind::U8, value as int),
{
    quote::ToTokens::to_tokens(&value, stream);
}

/// `ToTokens::to_tokens` of `u16`: appends `Literal::u16_suffixed`, the value
/// in decimal followed by `u16`.
#[verifier::external_body]
pub(crate) fn push_u16(stream: &mut TokenStream, value: u16)
    ensures
        tokens(*final(stream)) == tokens(*old(stream)) + int_literal(IntKind::U16, value as int),
{
    quote::ToTokens::to_tokens(&value, stream);
}

/// `ToTokens::to_tokens` of `u32`: appends `Literal::u32_suffixed`, the value
/// in decimal followed by `u32`.
#[verifier::external_body]
pub(crate) fn push_u32(stream: &mut TokenStream, value: u32)
    ensures
        tokens(*final(stream)) == tokens(*old(stream)) + int_literal(IntKind::U32, value as int),
{
    quote::ToTokens::to_tokens(&value, stream);
}

/// `ToTokens::to_tokens` of `u64`: appends `Literal::u64_suffixed`, the value
/// in decimal followed by `u64`.
#[verifier::external_body]
pub(crate) fn push_u64(stream: &mut TokenStream, value: u64)
    ensures
        tokens(*final(stream)) == tokens(*old(stream)) + int_literal(IntKind::U64, value as int),
{
    quote::ToTokens::to_tokens(&value, stream);
}

/// `ToTokens::to_tokens` of `u128`: appends `Literal::u128_suffixed`, the
/// value in decimal followed by `u128`.
#[verifier::external_body]
pub(crate) fn push_u128(stream: &mut TokenStream, value: u128)
    ensures
        tokens(*final(stream)) == tokens(*old(stream)) + int_literal(IntKind::U128, value as int),
{
    quote::ToTokens::to_tokens(&value, stream);
}

/// `ToTokens::to_tokens` of `i8`: appends `Literal::i8_suffixed`, the value in
/// decimal followed by `i8`. The stream splits the sign off a negative
/// literal, as a `-` token of its own in front of it.
#[verifier::external_body]
pub(crate) fn push_i8(stream: &mut TokenStream, value: i8)
    ensures
        tokens(*final(stream)) == tokens(*old(stream)) + int_literal(IntKind::I8, value as int),
{
    quote::ToTokens::to_tokens(&value, stream);
}

/// `ToTokens::to_tokens` of `i16`: appends `Literal::i16_suffixed`, the value
/// in decimal followed by `i16`. The stream splits the sign off a negative
/// literal, as a `-` token of its own in front of it.
#[verifier::external_body]
pub(crate) fn push_i16(stream: &mut TokenStream, value: i16)
    ensures
        tokens(*final(stream)) == tokens(*old(stream)) + int_literal(IntKind::I16, value as int),
{
    quote::ToTokens::to_tokens(&value, stream);
}

/// `ToTokens::to_tokens` of `i32`: appends `Literal::i32_suffixed`, the value
/// in decimal followed by `i32`. The stream splits the sign off a negative
/// literal, as a `-` token of its own in front of it.
#[verifier::external_body]
pub(crate) fn push_i32(stream: &mut TokenStream, value: i32)
    ensures
        tokens(*final(stream)) == tokens(*old(stream)) + int_literal(IntKind::I32, value as int),
{
    quote::ToTokens::to_tokens(&value, stream);
}

/// `ToTokens::to_tokens` of `i64`: appends `Literal::i64_suffixed`, the value
/// in decimal followed by `i64`. The stream splits the sign off a negative
/// literal, as a `-` token of its own in front of it.
#[verifier::external_body]
pub(crate) fn push_i64(stream: &mut TokenStream, value: i64)
    ensures
        tokens(*final(stream)) == tokens(*old(stream)) + int_literal(IntKind::I64, value as int),
{
    quote::ToTokens::to_tokens(&value, stream);
}

/// `ToTokens::to_tokens` of `i128`: appends `Literal::i128_suffixed`, the
/// value in decimal followed by `i128`. The stream splits the sign off a
/// negative literal, as a `-` token of its own in front of it.
#[verifier::external_body]
pub(crate) fn push_i128(stream: &mut TokenStream, value: i128)
    ensures
        tokens(*final(stream)) == tokens(*old(stream)) + int_literal(IntKind::I128, value as int),
{
    quote::ToTokens::to_tokens(&value, stream);
}

/// `ToTokens::to_tokens` of `bool`: appends the identifier `true` or `false`.
#[verifier::external_body]
pub(crate) fn push_bool(stream: &mut TokenStream, value: bool)
    ensures
        tokens(*final(stream)) == tokens(*old(stream)) + bool_literal(value),
{
    quote::ToTokens::to_tokens(&value, stream);
}

/// `ToTokens::to_tokens` of `char`: appends `Literal::character` of the value.
#[verifier::external_body]
pub(crate) fn push_char(stream: &mut TokenStream, value: char)
    ensures
        tokens(*final(stream)) == tokens(*old(stream)).push(
            Token::Literal(char_literal_text(value)),
        ),
{
    quote::ToTokens::to_tokens(&value, stream);
}

/// `ToTokens::to_tokens` of `str`: appends `Literal::string` of the value.
#[verifier::external_body]
pub(crate) fn push_str(stream: &mut TokenStream, value: &str)
    ensures
        tokens(*final(stream)) == tokens(*old(stream)).push(
            Token::Literal(string_literal_text(value@)),
        ),
{
    quote::ToTokens::to_tokens(value, stream);
}

} // verus!
