//! Scalars can be read back from their tokens: the value and its exact type.

use vstd::prelude::*;
use crate::ident::ascii_digit;
use crate::literal::{bool_literal, decimal, int_literal, suffix, IntKind};
use crate::order::{comma_free, lemma_tokens_comma_free};
use crate::token::{Spacing, Token};

verus! {

/// The number that a decimal digit stands for.
pub open spec fn digit_value(c: char) -> nat {
    (c as int - '0' as int) as nat
}

/// The number that a sequence of decimal digits stands for.
pub open spec fn digits_value(digits: Seq<char>) -> nat
    decreases digits.len(),
{
    if digits.len() == 0 {
        0
    } else {
        digits_value(digits.drop_last()) * 10 + digit_value(digits.last())
    }
}

/// How many decimal digits a text starts with.
pub open spec fn leading_digits(text: Seq<char>) -> nat
    decreases text.len(),
{
    if text.len() == 0 || !ascii_digit(text[0]) {
        0
    } else {
        1 + leading_digits(text.drop_first())
    }
}

/// The integer type that a suffix names.
pub open spec fn kind_of_suffix(text: Seq<char>) -> Option<IntKind> {
    if text == suffix(IntKind::U8) {
        Some(IntKind::U8)
    } else if text == suffix(IntKind::U16) {
        Some(IntKind::U16)
    } else if text == suffix(IntKind::U32) {
        Some(IntKind::U32)
    } else if text == suffix(IntKind::U64) {
        Some(IntKind::U64)
    } else if text == suffix(IntKind::U128) {
        Some(IntKind::U128)
    } else if text == suffix(IntKind::I8) {
        Some(IntKind::I8)
    } else if text == suffix(IntKind::I16) {
        Some(IntKind::I16)
    } else if text == suffix(IntKind::I32) {
        Some(IntKind::I32)
    } else if text == suffix(IntKind::I64) {
        Some(IntKind::I64)
    } else if text == suffix(IntKind::I128) {
        Some(IntKind::I128)
    } else {
        None
    }
}

/// The type and the magnitude that the text of an integer literal states:
/// its leading digits, and the type that the rest names.
pub open spec fn read_literal(text: Seq<char>) -> Option<(IntKind, nat)> {
    let count = leading_digits(text) as int;
    if count == 0 {
        None
    } else {
        match kind_of_suffix(text.skip(count)) {
            Some(kind) => Some((kind, digits_value(text.take(count)))),
            None => None,
        }
    }
}

/// The type and the value that the tokens of an integer state: one literal,
/// or a `-` and one literal.
pub open spec fn read_int(tokens: Seq<Token>) -> Option<(IntKind, int)> {
    if tokens.len() == 1 {
        match tokens[0] {
            Token::Literal(text) => match read_literal(text) {
                Some((kind, magnitude)) => Some((kind, magnitude as int)),
                None => None,
            },
            _ => None,
        }
    } else if tokens.len() == 2 && tokens[0] == Token::Punct('-', Spacing::Alone) {
        match tokens[1] {
            Token::Literal(text) => match read_literal(text) {
                Some((kind, magnitude)) => Some((kind, -(magnitude as int))),
                None => None,
            },
            _ => None,
        }
    } else {
        None
    }
}

/// The value that the tokens of a `bool` state.
pub open spec fn read_bool(tokens: Seq<Token>) -> Option<bool> {
    if tokens == bool_literal(true) {
        Some(true)
    } else if tokens == bool_literal(false) {
        Some(false)
    } else {
        None
    }
}

/// A number in decimal is made of digits, at least one, and they state the number.
pub proof fn lemma_decimal(n: nat)
    ensures
        decimal(n).len() > 0,
        forall|i: int| 0 <= i < decimal(n).len() ==> ascii_digit(#[trigger] decimal(n)[i]),
        digits_value(decimal(n)) == n,
    decreases n,
{
    if n < 10 {
        assert(decimal(n).drop_last() == Seq::<char>::empty());
        assert(digits_value(decimal(n).drop_last()) == 0);
    } else {
        lemma_decimal(n / 10);
        assert(decimal(n).drop_last() == decimal(n / 10));
    }
}

/// Digits in front of a text that does not go on with a digit are its leading digits.
pub proof fn lemma_leading_digits(digits: Seq<char>, rest: Seq<char>)
    requires
        forall|i: int| 0 <= i < digits.len() ==> ascii_digit(#[trigger] digits[i]),
        rest.len() == 0 || !ascii_digit(rest[0]),
    ensures
        leading_digits(digits + rest) == digits.len(),
    decreases digits.len(),
{
    if digits.len() == 0 {
        assert(digits + rest == rest);
    } else {
        let shorter = digits.drop_first();
        assert forall|i: int| 0 <= i < shorter.len() implies ascii_digit(#[trigger] shorter[i]) by {
            assert(shorter[i] == digits[i + 1]);
        }
        lemma_leading_digits(shorter, rest);
        assert((digits + rest).drop_first() == shorter + rest);
    }
}

/// Every suffix names its own type, and none starts with a digit.
pub proof fn lemma_suffix(kind: IntKind)
    ensures
        kind_of_suffix(suffix(kind)) == Some(kind),
        suffix(kind).len() > 0,
        !ascii_digit(suffix(kind)[0]),
{
}

/// The text of a literal states the magnitude and the type that it was made of.
pub proof fn lemma_literal_round_trip(kind: IntKind, magnitude: nat)
    ensures
        read_literal(decimal(magnitude) + suffix(kind)) == Some((kind, magnitude)),
{
    let digits = decimal(magnitude);
    let text = digits + suffix(kind);
    lemma_decimal(magnitude);
    lemma_suffix(kind);
    lemma_leading_digits(digits, suffix(kind));
    assert(text.skip(digits.len() as int) == suffix(kind));
    assert(text.take(digits.len() as int) == digits);
}

/// Reading the tokens of an integer gives back its value and its exact type.
pub proof fn lemma_int_round_trip(kind: IntKind, value: int)
    ensures
        read_int(int_literal(kind, value)) == Some((kind, value)),
{
    if value < 0 {
        lemma_literal_round_trip(kind, (-value) as nat);
    } else {
        lemma_literal_round_trip(kind, value as nat);
    }
}

/// Reading the tokens of a `bool` gives back its value.
pub proof fn lemma_bool_round_trip(value: bool)
    ensures
        read_bool(bool_literal(value)) == Some(value),
{
    assert(bool_literal(true) != bool_literal(false)) by {
        assert(bool_literal(true)[0] == Token::Ident(seq!['t', 'r', 'u', 'e']));
        assert(bool_literal(false)[0] == Token::Ident(seq!['f', 'a', 'l', 's', 'e']));
        assert(seq!['t', 'r', 'u', 'e'].len() != seq!['f', 'a', 'l', 's', 'e'].len());
    }
}

/// The tokens of a scalar hold no comma: those of an integer, of a `bool`,
/// and the one literal of a `char` or of a string slice.
pub proof fn lemma_scalars_are_comma_free(kind: IntKind, value: int, truth: bool, text: Seq<char>)
    ensures
        comma_free(int_literal(kind, value)),
        comma_free(bool_literal(truth)),
        comma_free(seq![Token::Literal(text)]),
{
    lemma_tokens_comma_free(int_literal(kind, value));
    lemma_tokens_comma_free(bool_literal(truth));
    lemma_tokens_comma_free(seq![Token::Literal(text)]);
}

} // verus!
