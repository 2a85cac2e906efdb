//! The capability for tuples of up to twelve values: every value is followed
//! by a comma, so that a tuple of one is no parenthesised expression.

use vstd::prelude::*;
use proc_macro2::TokenStream;
use crate::order::{
    all_comma_free, closed_items, comma_free, lemma_group_comma_free, lemma_terminated_read_back,
    open_item,
};
use crate::stream::{new_stream, push_group, push_punct, tokens};
use crate::token::{
    comma, group, lemma_terminated_empty, lemma_terminated_push, terminated, Delimiter, Spacing,
    Token,
};
use crate::tokenize::SelfRustTokenize;

verus! {

/// The tokens of a tuple whose values have the given tokens.
pub open spec fn tuple_tokens(values: Seq<Seq<Token>>) -> Seq<Token> {
    group(Delimiter::Parenthesis, terminated(values))
}

/// A tuple keeps the order and the number of its values: reading what stands
/// between its parentheses gives the tokens of every value back, the first
/// value first, where no value writes a comma at its outermost level. The
/// tuple itself writes none there.
pub proof fn lemma_tuple_keeps_its_values(values: Seq<Seq<Token>>)
    requires
        all_comma_free(values),
    ensures
        tuple_tokens(values) == seq![Token::Group(Delimiter::Parenthesis, terminated(values))],
        closed_items(terminated(values)) == values,
        open_item(terminated(values)) == Seq::<Token>::empty(),
        comma_free(tuple_tokens(values)),
{
    lemma_terminated_read_back(values);
    lemma_group_comma_free(Delimiter::Parenthesis, terminated(values));
}

/// Starts the inside of a tuple: no value is written yet.
fn start_tuple() -> (start: (TokenStream, Ghost<Seq<Seq<Token>>>))
    ensures
        start.1@ == Seq::<Seq<Token>>::empty(),
        tokens(start.0) == terminated(start.1@),
{
    proof {
        lemma_terminated_empty();
    }
    (new_stream(), Ghost(Seq::empty()))
}

/// Writes one value of a tuple and the comma behind it, and says which
/// values are written by now.
fn append_value<T: SelfRustTokenize>(
    value: &T,
    inner_token_stream: &mut TokenStream,
    Ghost(written): Ghost<Seq<Seq<Token>>>,
) -> (now: Ghost<Seq<Seq<Token>>>)
    requires
        tokens(*old(inner_token_stream)) == terminated(written),
    ensures
        now@ == written.push(value.expression()),
        tokens(*final(inner_token_stream)) == terminated(now@),
{
    value.append_to_token_stream(inner_token_stream);
    push_punct(inner_token_stream, ',', Spacing::Alone);
    proof {
        lemma_terminated_push(written, value.expression());
        assert(tokens(*inner_token_stream) == terminated(written) + value.expression().push(
            comma(),
        ));
    }
    Ghost(written.push(value.expression()))
}

impl<A: SelfRustTokenize> SelfRustTokenize for (A,) {
    open spec fn expression(&self) -> Seq<Token> {
        tuple_tokens(seq![self.0.expression()])
    }

    fn append_to_token_stream(&self, token_stream: &mut TokenStream) {
        let (mut inner_token_stream, written) = start_tuple();
        let written = append_value(&self.0, &mut inner_token_stream, written);
        assert(written@ =~= seq![self.0.expression()]);
        push_group(token_stream, Delimiter::Parenthesis, inner_token_stream);
    }
}

impl<A: SelfRustTokenize, B: SelfRustTokenize> SelfRustTokenize for (A, B) {
    open spec fn expression(&self) -> Seq<Token> {
        tuple_tokens(seq![self.0.expression(), self.1.expression()])
    }

    fn append_to_token_stream(&self, token_stream: &mut TokenStream) {
        let (mut inner_token_stream, written) = start_tuple();
        let written = append_value(&self.0, &mut inner_token_stream, written);
        let written = append_value(&self.1, &mut inner_token_stream, written);
        assert(written@ =~= seq![self.0.expression(), self.1.expression()]);
        push_group(token_stream, Delimiter::Parenthesis, inner_token_stream);
    }
}

impl<A: SelfRustTokenize, B: SelfRustTokenize, C: SelfRustTokenize> SelfRustTokenize for (A, B, C) {
    open spec fn expression(&self) -> Seq<Token> {
        tuple_tokens(
            seq![
                self.0.expression(),
                self.1.expression(),
                self.2.expression(),
            ],
        )
    }

    fn append_to_token_stream(&self, token_stream: &mut TokenStream) {
        let (mut inner_token_stream, written) = start_tuple();
        let written = append_value(&self.0, &mut inner_token_stream, written);
        let written = append_value(&self.1, &mut inner_token_stream, written);
        let written = append_value(&self.2, &mut inner_token_stream, written);
        assert(written@ =~= seq![
            self.0.expression(),
            self.1.expression(),
            self.2.expression(),
        ]);
        push_group(token_stream, Delimiter::Parenthesis, inner_token_stream);
    }
}

impl<
    A: SelfRustTokenize,
    B: SelfRustTokenize,
    C: SelfRustTokenize,
    D: SelfRustTokenize,
> SelfRustTokenize for (A, B, C, D) {
    open spec fn expression(&self) -> Seq<Token> {
        tuple_tokens(
            seq![
                self.0.expression(),
                self.1.expression(),
                self.2.expression(),
                self.3.expression(),
            ],
        )
    }

    fn append_to_token_stream(&self, token_stream: &mut TokenStream) {
        let (mut inner_token_stream, written) = start_tuple();
        let written = append_value(&self.0, &mut inner_token_stream, written);
        let written = append_value(&self.1, &mut inner_token_stream, written);
        let written = append_value(&self.2, &mut inner_token_stream, written);
        let written = append_value(&self.3, &mut inner_token_stream, written);
        assert(written@ =~= seq![
            self.0.expression(),
            self.1.expression(),
            self.2.expression(),
            self.3.expression(),
        ]);
        push_group(token_stream, Delimiter::Parenthesis, inner_token_stream);
    }
}

impl<
    A: SelfRustTokenize,
    B: SelfRustTokenize,
    C: SelfRustTokenize,
    D: SelfRustTokenize,
    E: SelfRustTokenize,
> SelfRustTokenize for (A, B, C, D, E) {
    open spec fn expression(&self) -> Seq<Token> {
        tuple_tokens(
            seq![
                self.0.expression(),
                self.1.expression(),
                self.2.expression(),
                self.3.expression(),
                self.4.expression(),
            ],
        )
    }

    fn append_to_token_stream(&self, token_stream: &mut TokenStream) {
        let (mut inner_token_stream, written) = start_tuple();
        let written = append_value(&self.0, &mut inner_token_stream, written);
        let written = append_value(&self.1, &mut inner_token_stream, written);
        let written = append_value(&self.2, &mut inner_token_stream, written);
        let written = append_value(&self.3, &mut inner_token_stream, written);
        let written = append_value(&self.4, &mut inner_token_stream, written);
        assert(written@ =~= seq![
            self.0.expression(),
            self.1.expression(),
            self.2.expression(),
            self.3.expression(),
            self.4.expression(),
        ]);
        push_group(token_stream, Delimiter::Parenthesis, inner_token_stream);
    }
}

impl<
    A: SelfRustTokenize,
    B: SelfRustTokenize,
    C: SelfRustTokenize,
    D: SelfRustTokenize,
    E: SelfRustTokenize,
    F: SelfRustTokenize,
> SelfRustTokenize for (A, B, C, D, E, F) {
    open spec fn expression(&self) -> Seq<Token> {
        tuple_tokens(
            seq![
                self.0.expression(),
                self.1.expression(),
                self.2.expression(),
                self.3.expression(),
                self.4.expression(),
                self.5.expression(),
            ],
        )
    }

    fn append_to_token_stream(&self, token_stream: &mut TokenStream) {
        let (mut inner_token_stream, written) = start_tuple();
        let written = append_value(&self.0, &mut inner_token_stream, written);
        let written = append_value(&self.1, &mut inner_token_stream, written);
        let written = append_value(&self.2, &mut inner_token_stream, written);
        let written = append_value(&self.3, &mut inner_token_stream, written);
        let written = append_value(&self.4, &mut inner_token_stream, written);
        let written = append_value(&self.5, &mut inner_token_stream, written);
        assert(written@ =~= seq![
            self.0.expression(),
            self.1.expression(),
            self.2.expression(),
            self.3.expression(),
            self.4.expression(),
            self.5.expression(),
        ]);
        push_group(token_stream, Delimiter::Parenthesis, inner_token_stream);
    }
}

impl<
    A: SelfRustTokenize,
    B: SelfRustTokenize,
    C: SelfRustTokenize,
    D: SelfRustTokenize,
    E: SelfRustTokenize,
    F: SelfRustTokenize,
    G: SelfRustTokenize,
> SelfRustTokenize for (A, B, C, D, E, F, G) {
    open spec fn expression(&self) -> Seq<Token> {
        tuple_tokens(
            seq![
                self.0.expression(),
                self.1.expression(),
                self.2.expression(),
                self.3.expression(),
                self.4.expression(),
                self.5.expression(),
                self.6.expression(),
            ],
        )
    }

    fn append_to_token_stream(&self, token_stream: &mut TokenStream) {
        let (mut inner_token_stream, written) = start_tuple();
        let written = append_value(&self.0, &mut inner_token_stream, written);
        let written = append_value(&self.1, &mut inner_token_stream, written);
        let written = append_value(&self.2, &mut inner_token_stream, written);
        let written = append_value(&self.3, &mut inner_token_stream, written);
        let written = append_value(&self.4, &mut inner_token_stream, written);
        let written = append_value(&self.5, &mut inner_token_stream, written);
        let written = append_value(&self.6, &mut inner_token_stream, written);
        assert(written@ =~= seq![
            self.0.expression(),
            self.1.expression(),
            self.2.expression(),
            self.3.expression(),
            self.4.expression(),
            self.5.expression(),
            self.6.expression(),
        ]);
        push_group(token_stream, Delimiter::Parenthesis, inner_token_stream);
    }
}

impl<
    A: SelfRustTokenize,
    B: SelfRustTokenize,
    C: SelfRustTokenize,
    D: SelfRustTokenize,
    E: SelfRustTokenize,
    F: SelfRustTokenize,
    G: SelfRustTokenize,
    H: SelfRustTokenize,
> SelfRustTokenize for (A, B, C, D, E, F, G, H) {
    open spec fn expression(&self) -> Seq<Token> {
        tuple_tokens(
            seq![
                self.0.expression(),
                self.1.expression(),
                self.2.expression(),
                self.3.expression(),
                self.4.expression(),
                self.5.expression(),
                self.6.expression(),
                self.7.expression(),
            ],
        )
    }

    fn append_to_token_stream(&self, token_stream: &mut TokenStream) {
        let (mut inner_token_stream, written) = start_tuple();
        let written = append_value(&self.0, &mut inner_token_stream, written);
        let written = append_value(&self.1, &mut inner_token_stream, written);
        let written = append_value(&self.2, &mut inner_token_stream, written);
        let written = append_value(&self.3, &mut inner_token_stream, written);
        let written = append_value(&self.4, &mut inner_token_stream, written);
        let written = append_value(&self.5, &mut inner_token_stream, written);
        let written = append_value(&self.6, &mut inner_token_stream, written);
        let written = append_value(&self.7, &mut inner_token_stream, written);
        assert(written@ =~= seq![
            self.0.expression(),
            self.1.expression(),
            self.2.expression(),
            self.3.expression(),
            self.4.expression(),
            self.5.expression(),
            self.6.expression(),
            self.7.expression(),
        ]);
        push_group(token_stream, Delimiter::Parenthesis, inner_token_stream);
    }
}

impl<
    A: SelfRustTokenize,
    B: SelfRustTokenize,
    C: SelfRustTokenize,
    D: SelfRustTokenize,
    E: SelfRustTokenize,
    F: SelfRustTokenize,
    G: SelfRustTokenize,
    H: SelfRustTokenize,
    I: SelfRustTokenize,
> SelfRustTokenize for (A, B, C, D, E, F, G, H, I) {
    open spec fn expression(&self) -> Seq<Token> {
        tuple_tokens(
            seq![
                self.0.expression(),
                self.1.expression(),
                self.2.expression(),
                self.3.expression(),
                self.4.expression(),
                self.5.expression(),
                self.6.expression(),
                self.7.expression(),
                self.8.expression(),
            ],
        )
    }

    fn append_to_token_stream(&self, token_stream: &mut TokenStream) {
        let (mut inner_token_stream, written) = start_tuple();
        let written = append_value(&self.0, &mut inner_token_stream, written);
        let written = append_value(&self.1, &mut inner_token_stream, written);
        let written = append_value(&self.2, &mut inner_token_stream, written);
        let written = append_value(&self.3, &mut inner_token_stream, written);
        let written = append_value(&self.4, &mut inner_token_stream, written);
        let written = append_value(&self.5, &mut inner_token_stream, written);
        let written = append_value(&self.6, &mut inner_token_stream, written);
        let written = append_value(&self.7, &mut inner_token_stream, written);
        let written = append_value(&self.8, &mut inner_token_stream, written);
        assert(written@ =~= seq![
            self.0.expression(),
            self.1.expression(),
            self.2.expression(),
            self.3.expression(),
            self.4.expression(),
            self.5.expression(),
            self.6.expression(),
            self.7.expression(),
            self.8.expression(),
        ]);
        push_group(token_stream, Delimiter::Parenthesis, inner_token_stream);
    }
}

impl<
    A: SelfRustTokenize,
    B: SelfRustTokenize,
    C: SelfRustTokenize,
    D: SelfRustTokenize,
    E: SelfRustTokenize,
    F: SelfRustTokenize,
    G: SelfRustTokenize,
    H: SelfRustTokenize,
    I: SelfRustTokenize,
    J: SelfRustTokenize,
> SelfRustTokenize for (A, B, C, D, E, F, G, H, I, J) {
    open spec fn expression(&self) -> Seq<Token> {
        tuple_tokens(
            seq![
                self.0.expression(),
                self.1.expression(),
                self.2.expression(),
                self.3.expression(),
                self.4.expression(),
                self.5.expression(),
                self.6.expression(),
                self.7.expression(),
                self.8.expression(),
                self.9.expression(),
            ],
        )
    }

    fn append_to_token_stream(&self, token_stream: &mut TokenStream) {
        let (mut inner_token_stream, written) = start_tuple();
        let written = append_value(&self.0, &mut inner_token_stream, written);
        let written = append_value(&self.1, &mut inner_token_stream, written);
        let written = append_value(&self.2, &mut inner_token_stream, written);
        let written = append_value(&self.3, &mut inner_token_stream, written);
        let written = append_value(&self.4, &mut inner_token_stream, written);
        let written = append_value(&self.5, &mut inner_token_stream, written);
        let written = append_value(&self.6, &mut inner_token_stream, written);
        let written = append_value(&self.7, &mut inner_token_stream, written);
        let written = append_value(&self.8, &mut inner_token_stream, written);
        let written = append_value(&self.9, &mut inner_token_stream, written);
        assert(written@ =~= seq![
            self.0.expression(),
            self.1.expression(),
            self.2.expression(),
            self.3.expression(),
            self.4.expression(),
            self.5.expression(),
            self.6.expression(),
            self.7.expression(),
            self.8.expression(),
            self.9.expression(),
        ]);
        push_group(token_stream, Delimiter::Parenthesis, inner_token_stream);
    }
}

impl<
    A: SelfRustTokenize,
    B: SelfRustTokenize,
    C: SelfRustTokenize,
    D: SelfRustTokenize,
    E: SelfRustTokenize,
    F: SelfRustTokenize,
    G: SelfRustTokenize,
    H: SelfRustTokenize,
    I: SelfRustTokenize,
    J: SelfRustTokenize,
    K: SelfRustTokenize,
> SelfRustTokenize for (A, B, C, D, E, F, G, H, I, J, K) {
    open spec fn expression(&self) -> Seq<Token> {
        tuple_tokens(
            seq![
                self.0.expression(),
                self.1.expression(),
                self.2.expression(),
                self.3.expression(),
                self.4.expression(),
                self.5.expression(),
                self.6.expression(),
                self.7.expression(),
                self.8.expression(),
                self.9.expression(),
                self.10.expression(),
            ],
        )
    }

    fn append_to_token_stream(&self, token_stream: &mut TokenStream) {
        let (mut inner_token_stream, written) = start_tuple();
        let written = append_value(&self.0, &mut inner_token_stream, written);
        let written = append_value(&self.1, &mut inner_token_stream, written);
        let written = append_value(&self.2, &mut inner_token_stream, written);
        let written = append_value(&self.3, &mut inner_token_stream, written);
        let written = append_value(&self.4, &mut inner_token_stream, written);
        let written = append_value(&self.5, &mut inner_token_stream, written);
        let written = append_value(&self.6, &mut inner_token_stream, written);
        let written = append_value(&self.7, &mut inner_token_stream, written);
        let written = append_value(&self.8, &mut inner_token_stream, written);
        let written = append_value(&self.9, &mut inner_token_stream, written);
        let written = append_value(&self.10, &mut inner_token_stream, written);
        assert(written@ =~= seq![
            self.0.expression(),
            self.1.expression(),
            self.2.expression(),
            self.3.expression(),
            self.4.expression(),
            self.5.expression(),
            self.6.expression(),
            self.7.expression(),
            self.8.expression(),
            self.9.expression(),
            self.10.expression(),
        ]);
        push_group(token_stream, Delimiter::Parenthesis, inner_token_stream);
    }
}

impl<
    A: SelfRustTokenize,
    B: SelfRustTokenize,
    C: SelfRustTokenize,
    D: SelfRustTokenize,
    E: SelfRustTokenize,
    F: SelfRustTokenize,
    G: SelfRustTokenize,
    H: SelfRustTokenize,
    I: SelfRustTokenize,
    J: SelfRustTokenize,
    K: SelfRustTokenize,
    L: SelfRustTokenize,
> SelfRustTokenize for (A, B, C, D, E, F, G, H, I, J, K, L) {
    open spec fn expression(&self) -> Seq<Token> {
        tuple_tokens(
            seq![
                self.0.expression(),
                self.1.expression(),
                self.2.expression(),
                self.3.expression(),
                self.4.expression(),
                self.5.expression(),
                self.6.expression(),
                self.7.expression(),
                self.8.expression(),
                self.9.expression(),
                self.10.expression(),
                self.11.expression(),
            ],
        )
    }

    fn append_to_token_stream(&self, token_stream: &mut TokenStream) {
        let (mut inner_token_stream, written) = start_tuple();
        let written = append_value(&self.0, &mut inner_token_stream, written);
        let written = append_value(&self.1, &mut inner_token_stream, written);
        let written = append_value(&self.2, &mut inner_token_stream, written);
        let written = append_value(&self.3, &mut inner_token_stream, written);
        let written = append_value(&self.4, &mut inner_token_stream, written);
        let written = append_value(&self.5, &mut inner_token_stream, written);
        let written = append_value(&self.6, &mut inner_token_stream, written);
        let written = append_value(&self.7, &mut inner_token_stream, written);
        let written = append_value(&self.8, &mut inner_token_stream, written);
        let written = append_value(&self.9, &mut inner_token_stream, written);
        let written = append_value(&self.10, &mut inner_token_stream, written);
        let written = append_value(&self.11, &mut inner_token_stream, written);
        assert(written@ =~= seq![
            self.0.expression(),
            self.1.expression(),
            self.2.expression(),
            self.3.expression(),
            self.4.expression(),
            self.5.expression(),
            self.6.expression(),
            self.7.expression(),
            self.8.expression(),
            self.9.expression(),
            self.10.expression(),
            self.11.expression(),
        ]);
        push_group(token_stream, Delimiter::Parenthesis, inner_token_stream);
    }
}

} // verus!
