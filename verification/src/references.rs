//! The capability for references: the borrow is written, then the value.

use vstd::prelude::*;
use proc_macro2::TokenStream;
use crate::containers::{append_bracket_list, borrowed_list, bracket_list};
use crate::order::{comma_free, lemma_concat_comma_free, lemma_tokens_comma_free};
use crate::stream::{push_ident, push_punct};
use crate::token::{Spacing, Token};
use crate::tokenize::SelfRustTokenize;

verus! {

/// The tokens of `&`.
pub open spec fn shared_borrow() -> Seq<Token> {
    seq![Token::Punct('&', Spacing::Alone)]
}

/// The tokens of `&mut`.
pub open spec fn mutable_borrow() -> Seq<Token> {
    seq![Token::Punct('&', Spacing::Alone), Token::Ident("mut"@)]
}

impl<'a, T: SelfRustTokenize> SelfRustTokenize for &'a T {
    open spec fn expression(&self) -> Seq<Token> {
        shared_borrow() + (**self).expression()
    }

    fn append_to_token_stream(&self, token_stream: &mut TokenStream) {
        push_punct(token_stream, '&', Spacing::Alone);
        (*self).append_to_token_stream(token_stream);
    }
}

impl<'a, T: SelfRustTokenize> SelfRustTokenize for &'a mut T {
    open spec fn expression(&self) -> Seq<Token> {
        mutable_borrow() + (**self).expression()
    }

    fn append_to_token_stream(&self, token_stream: &mut TokenStream) {
        push_punct(token_stream, '&', Spacing::Alone);
        proof {
            reveal_strlit("mut");
        }
        push_ident(token_stream, "mut");
        (**self).append_to_token_stream(token_stream);
    }
}

impl<'a, T: SelfRustTokenize> SelfRustTokenize for &'a [T] {
    open spec fn expression(&self) -> Seq<Token> {
        borrowed_list(self@)
    }

    fn append_to_token_stream(&self, token_stream: &mut TokenStream) {
        push_punct(token_stream, '&', Spacing::Alone);
        append_bracket_list(*self, token_stream);
    }
}

impl<'a, T: SelfRustTokenize> SelfRustTokenize for &'a mut [T] {
    open spec fn expression(&self) -> Seq<Token> {
        mutable_borrow() + bracket_list(self@)
    }

    fn append_to_token_stream(&self, token_stream: &mut TokenStream) {
        push_punct(token_stream, '&', Spacing::Alone);
        proof {
            reveal_strlit("mut");
        }
        push_ident(token_stream, "mut");
        append_bracket_list(&**self, token_stream);
    }
}

/// A borrow writes no comma in front of the value that it borrows.
pub proof fn lemma_borrows_are_comma_free(inner: Seq<Token>)
    requires
        comma_free(inner),
    ensures
        comma_free(shared_borrow() + inner),
        comma_free(mutable_borrow() + inner),
{
    lemma_tokens_comma_free(shared_borrow());
    lemma_tokens_comma_free(mutable_borrow());
    lemma_concat_comma_free(shared_borrow(), inner);
    lemma_concat_comma_free(mutable_borrow(), inner);
}

} // verus!
