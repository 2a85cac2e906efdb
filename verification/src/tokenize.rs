//! The capability itself, and the scalars that have it.

use vstd::prelude::*;
use proc_macro2::TokenStream;
use crate::literal::{
    bool_literal, char_literal_text, int_literal, push_bool, push_char, push_i128, push_i16,
    push_i32, push_i64, push_i8, push_str, push_u128, push_u16, push_u32, push_u64, push_u8,
    string_literal_text, IntKind,
};
use crate::stream::{new_stream, tokens};
use crate::token::Token;

verus! {

/// An item which can be turned into the tokens that construct it again.
///
/// Boxes, vectors and slices are rebuilt by value: the tokens say what they
/// hold, not where it was stored.
pub trait SelfRustTokenize {
    /// The tokens that build this value again. An implementation states them
    /// here; one written without a proof leaves them unsaid.
    open spec fn expression(&self) -> Seq<Token> {
        vstd::pervasive::arbitrary()
    }

    /// Returns the tokens used to construct self.
    fn to_tokens(&self) -> (stream: TokenStream)
        ensures
            tokens(stream) == self.expression(),
    {
        let mut ts = new_stream();
        self.append_to_token_stream(&mut ts);
        ts
    }

    /// Writes the tokens used to construct self behind those that the stream holds.
    fn append_to_token_stream(&self, token_stream: &mut TokenStream)
        ensures
            tokens(*final(token_stream)) == tokens(*old(token_stream)) + self.expression(),
    ;
}

impl SelfRustTokenize for u8 {
    open spec fn expression(&self) -> Seq<Token> {
        int_literal(IntKind::U8, *self as int)
    }

    fn append_to_token_stream(&self, token_stream: &mut TokenStream) {
        push_u8(token_stream, *self)
    }
}

impl SelfRustTokenize for u16 {
    open spec fn expression(&self) -> Seq<Token> {
        int_literal(IntKind::U16, *self as int)
    }

    fn append_to_token_stream(&self, token_stream: &mut TokenStream) {
        push_u16(token_stream, *self)
    }
}

impl SelfRustTokenize for u32 {
    open spec fn expression(&self) -> Seq<Token> {
        int_literal(IntKind::U32, *self as int)
    }

    fn append_to_token_stream(&self, token_stream: &mut TokenStream) {
        push_u32(token_stream, *self)
    }
}

impl SelfRustTokenize for u64 {
    open spec fn expression(&self) -> Seq<Token> {
        int_literal(IntKind::U64, *self as int)
    }

    fn append_to_token_stream(&self, token_stream: &mut TokenStream) {
        push_u64(token_stream, *self)
    }
}

impl SelfRustTokenize for u128 {
    open spec fn expression(&self) -> Seq<Token> {
        int_literal(IntKind::U128, *self as int)
    }

    fn append_to_token_stream(&self, token_stream: &mut TokenStream) {
        push_u128(token_stream, *self)
    }
}

impl SelfRustTokenize for i8 {
    open spec fn expression(&self) -> Seq<Token> {
        int_literal(IntKind::I8, *self as int)
    }

    fn append_to_token_stream(&self, token_stream: &mut TokenStream) {
        push_i8(token_stream, *self)
    }
}

impl SelfRustTokenize for i16 {
    open spec fn expression(&self) -> Seq<Token> {
        int_literal(IntKind::I16, *self as int)
    }

    fn append_to_token_stream(&self, token_stream: &mut TokenStream) {
        push_i16(token_stream, *self)
    }
}

impl SelfRustTokenize for i32 {
    open spec fn expression(&self) -> Seq<Token> {
        int_literal(IntKind::I32, *self as int)
    }

    fn append_to_token_stream(&self, token_stream: &mut TokenStream) {
        push_i32(token_stream, *self)
    }
}

impl SelfRustTokenize for i64 {
    open spec fn expression(&self) -> Seq<Token> {
        int_literal(IntKind::I64, *self as int)
    }

    fn append_to_token_stream(&self, token_stream: &mut TokenStream) {
        push_i64(token_stream, *self)
    }
}

impl SelfRustTokenize for i128 {
    open spec fn expression(&self) -> Seq<Token> {
        int_literal(IntKind::I128, *self as int)
    }

    fn append_to_token_stream(&self, token_stream: &mut TokenStream) {
        push_i128(token_stream, *self)
    }
}

impl SelfRustTokenize for char {
    open spec fn expression(&self) -> Seq<Token> {
        seq![Token::Literal(char_literal_text(*self))]
    }

    fn append_to_token_stream(&self, token_stream: &mut TokenStream) {
        push_char(token_stream, *self)
    }
}

impl SelfRustTokenize for bool {
    open spec fn expression(&self) -> Seq<Token> {
        bool_literal(*self)
    }

    fn append_to_token_stream(&self, token_stream: &mut TokenStream) {
        push_bool(token_stream, *self)
    }
}

impl SelfRustTokenize for &'static str {
    open spec fn expression(&self) -> Seq<Token> {
        seq![Token::Literal(string_literal_text(self@))]
    }

    fn append_to_token_stream(&self, token_stream: &mut TokenStream) {
        push_str(token_stream, *self)
    }
}

} // verus!
