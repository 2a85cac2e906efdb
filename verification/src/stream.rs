//! The token stream of `proc_macro2`, and what each call does to the tokens it holds.
//!
//! The contracts follow `proc_macro2`'s own implementation of the stream,
//! which is the one at work wherever no compiler runs the code as a macro.

use vstd::prelude::*;
use proc_macro2::TokenStream;
use crate::ident::is_identifier;
use crate::token::{Delimiter, Spacing, Token};

verus! {

/// `proc_macro2::TokenStream`, an opaque value: what it holds is known only
/// through `tokens`.
#[verifier::external_type_specification]
#[verifier::external_body]
pub struct ExTokenStream(proc_macro2::TokenStream);

/// The token trees that a stream holds, first to last, each with what is
/// inside it. Spans are left out.
pub uninterp spec fn tokens(stream: TokenStream) -> Seq<Token>;

/// The characters that a punctuation token can be made of.
pub open spec fn is_punct_char(ch: char) -> bool {
    ch == '!' || ch == '#' || ch == '$' || ch == '%' || ch == '&' || ch == '\'' || ch == '*'
        || ch == '+' || ch == ',' || ch == '-' || ch == '.' || ch == '/' || ch == ':' || ch == ';'
        || ch == '<' || ch == '=' || ch == '>' || ch == '?' || ch == '@' || ch == '^' || ch == '|'
        || ch == '~'
}

/// `TokenStream::new`: a stream that holds no token.
#[verifier::external_body]
pub(crate) fn new_stream() -> (stream: TokenStream)
    ensures
        tokens(stream) == Seq::<Token>::empty(),
{
    TokenStream::new()
}

/// `Punct::new`, handed to `TokenStreamExt::append`: the stream gains one
/// punctuation token at its end. `Punct::new` panics on a character outside
/// its list, which `is_punct_char` repeats.
#[verifier::external_body]
pub(crate) fn push_punct(stream: &mut TokenStream, ch: char, spacing: Spacing)
    requires
        is_punct_char(ch),
    ensures
        tokens(*final(stream)) == tokens(*old(stream)).push(Token::Punct(ch, spacing)),
{
    let spacing = match spacing {
        Spacing::Alone => proc_macro2::Spacing::Alone,
        Spacing::Joint => proc_macro2::Spacing::Joint,
    };
    quote::TokenStreamExt::append(stream, proc_macro2::Punct::new(ch, spacing));
}

/// `Ident::new` at the call site's span, handed to `TokenStreamExt::append`:
/// the stream gains one identifier token at its end. `Ident::new` panics on a
/// name that is empty, does not open with `_` or an `XID_Start` character, or
/// goes on with anything but `XID_Continue` characters.
#[verifier::external_body]
pub(crate) fn push_ident(stream: &mut TokenStream, name: &str)
    requires
        is_identifier(name@),
    ensures
        tokens(*final(stream)) == tokens(*old(stream)).push(Token::Ident(name@)),
{
    let ident = proc_macro2::Ident::new(name, proc_macro2::Span::call_site());
    quote::TokenStreamExt::append(stream, ident);
}

/// `Group::new`, handed to `TokenStreamExt::append`: the stream gains one
/// group at its end, which holds the tokens of `inner` between the delimiters.
#[verifier::external_body]
pub(crate) fn push_group(stream: &mut TokenStream, delimiter: Delimiter, inner: TokenStream)
    ensures
        tokens(*final(stream)) == tokens(*old(stream)).push(
            Token::Group(delimiter, tokens(inner)),
        ),
{
    let delimiter = match delimiter {
        Delimiter::Parenthesis => proc_macro2::Delimiter::Parenthesis,
        Delimiter::Brace => proc_macro2::Delimiter::Brace,
        Delimiter::Bracket => proc_macro2::Delimiter::Bracket,
    };
    quote::TokenStreamExt::append(stream, proc_macro2::Group::new(delimiter, inner));
}

/// `Extend::extend`, fed the token trees of a whole stream: they follow those
/// already there, in their order.
#[verifier::external_body]
pub(crate) fn extend_stream(stream: &mut TokenStream, other: TokenStream)
    ensures
        tokens(*final(stream)) == tokens(*old(stream)) + tokens(other),
{
    stream.extend(other);
}

} // verus!
