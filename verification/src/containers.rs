//! The capability for the types that hold other values: boxes, options,
//! strings, vectors, arrays and slices.

use vstd::prelude::*;
use proc_macro2::TokenStream;
use crate::literal::{push_str, string_literal_text};
use crate::order::{
    all_comma_free, closed_items, comma_free, item_start, lemma_concat_comma_free,
    lemma_group_comma_free, lemma_item_position, lemma_path_comma_free,
    lemma_separated_read_back, lemma_tokens_comma_free, open_item,
};
use crate::path::{append_path, segment_names};
use crate::stream::{new_stream, push_group, push_punct, tokens};
use crate::token::{
    comma, group, lemma_terminated_empty, lemma_terminated_push, path_tokens, separated,
    terminated, Delimiter, Spacing, Token,
};
use crate::tokenize::SelfRustTokenize;

verus! {

/// The tokens of each item, in the items' order.
pub open spec fn expressions<T: SelfRustTokenize>(items: Seq<T>) -> Seq<Seq<Token>> {
    items.map_values(|item: T| item.expression())
}

/// A bracketed list: the items' tokens with a comma between neighbours.
pub open spec fn bracket_list<T: SelfRustTokenize>(items: Seq<T>) -> Seq<Token> {
    group(Delimiter::Bracket, separated(expressions(items)))
}

/// The tokens of `Box::new(..)` around a value's tokens.
pub open spec fn boxed(inner: Seq<Token>) -> Seq<Token> {
    path_tokens(seq!["Box"@, "new"@], false) + group(Delimiter::Parenthesis, inner)
}

/// The tokens of `Some(..)` around a value's tokens.
pub open spec fn present(inner: Seq<Token>) -> Seq<Token> {
    path_tokens(seq!["Some"@], false) + group(Delimiter::Parenthesis, inner)
}

/// The tokens of `None`.
pub open spec fn absent() -> Seq<Token> {
    path_tokens(seq!["None"@], false)
}

/// The tokens of `String::from("..")` for a text.
pub open spec fn owned_string(text: Seq<char>) -> Seq<Token> {
    path_tokens(seq!["String"@, "from"@], false) + group(
        Delimiter::Parenthesis,
        seq![Token::Literal(string_literal_text(text))],
    )
}

/// The tokens of `::std::marker::PhantomData::default()`.
pub open spec fn phantom() -> Seq<Token> {
    path_tokens(seq!["std"@, "marker"@, "PhantomData"@, "default"@], true) + group(
        Delimiter::Parenthesis,
        Seq::empty(),
    )
}

/// The tokens of `vec![..]` around the items' tokens.
pub open spec fn vec_macro<T: SelfRustTokenize>(items: Seq<T>) -> Seq<Token> {
    path_tokens(seq!["vec"@], false).push(Token::Punct('!', Spacing::Alone)) + bracket_list(items)
}

/// The tokens of `::smallvec::smallvec![..]` around the items' tokens.
pub open spec fn smallvec_macro<T: SelfRustTokenize>(items: Seq<T>) -> Seq<Token> {
    path_tokens(seq!["smallvec"@, "smallvec"@], true).push(Token::Punct('!', Spacing::Alone))
        + bracket_list(items)
}

/// The tokens of `&[..]` around the items' tokens.
pub open spec fn borrowed_list<T: SelfRustTokenize>(items: Seq<T>) -> Seq<Token> {
    seq![Token::Punct('&', Spacing::Alone)] + bracket_list(items)
}

/// Writes the items one after the other, with a comma behind each but the last.
pub(crate) fn list_stream<T: SelfRustTokenize>(items: &[T]) -> (stream: TokenStream)
    ensures
        tokens(stream) == separated(expressions(items@)),
{
    let mut inner_token_stream = new_stream();
    let ghost all = expressions(items@);
    let len = items.len();
    proof {
        lemma_terminated_empty();
        assert(all.take(0) == Seq::<Seq<Token>>::empty());
    }
    for idx in 0..len
        invariant
            len == items@.len(),
            all == expressions(items@),
            tokens(inner_token_stream) == if idx < len {
                terminated(all.take(idx as int))
            } else {
                separated(all)
            },
    {
        items[idx].append_to_token_stream(&mut inner_token_stream);
        if idx != len - 1 {
            push_punct(&mut inner_token_stream, ',', Spacing::Alone);
            proof {
                lemma_terminated_push(all.take(idx as int), all[idx as int]);
                assert(all.take(idx + 1) == all.take(idx as int).push(all[idx as int]));
                assert(tokens(inner_token_stream) == terminated(all.take(idx as int))
                    + all[idx as int].push(comma()));
            }
        } else {
            proof {
                assert(all.drop_last() == all.take(idx as int));
                assert(all.last() == all[idx as int]);
            }
        }
    }
    inner_token_stream
}

/// Writes `[..]` around the items.
pub(crate) fn append_bracket_list<T: SelfRustTokenize>(items: &[T], token_stream: &mut TokenStream)
    ensures
        tokens(*final(token_stream)) == tokens(*old(token_stream)) + bracket_list(items@),
{
    let inner_token_stream = list_stream(items);
    push_group(token_stream, Delimiter::Bracket, inner_token_stream);
}

// The box is rebuilt around its value: where the value was stored is not written.
impl<T: SelfRustTokenize> SelfRustTokenize for Box<T> {
    open spec fn expression(&self) -> Seq<Token> {
        boxed((**self).expression())
    }

    fn append_to_token_stream(&self, token_stream: &mut TokenStream) {
        let segments = ["Box", "new"];
        proof {
            reveal_strlit("Box");
            reveal_strlit("new");
            assert(segment_names(segments@) == seq!["Box"@, "new"@]);
        }
        append_path(segments.as_slice(), token_stream, false);
        push_group(token_stream, Delimiter::Parenthesis, (**self).to_tokens());
    }
}

impl<T> SelfRustTokenize for std::marker::PhantomData<T> {
    open spec fn expression(&self) -> Seq<Token> {
        phantom()
    }

    fn append_to_token_stream(&self, token_stream: &mut TokenStream) {
        let segments = ["std", "marker", "PhantomData", "default"];
        proof {
            reveal_strlit("std");
            reveal_strlit("marker");
            reveal_strlit("PhantomData");
            reveal_strlit("default");
            assert(segment_names(segments@) == seq![
                "std"@,
                "marker"@,
                "PhantomData"@,
                "default"@,
            ]);
        }
        append_path(segments.as_slice(), token_stream, true);
        push_group(token_stream, Delimiter::Parenthesis, new_stream());
    }
}

impl<T: SelfRustTokenize> SelfRustTokenize for Vec<T> {
    open spec fn expression(&self) -> Seq<Token> {
        vec_macro(self@)
    }

    fn append_to_token_stream(&self, token_stream: &mut TokenStream) {
        let segments = ["vec"];
        proof {
            reveal_strlit("vec");
            assert(segment_names(segments@) == seq!["vec"@]);
        }
        append_path(segments.as_slice(), token_stream, false);
        push_punct(token_stream, '!', Spacing::Alone);
        append_bracket_list(self.as_slice(), token_stream);
    }
}

impl<T: SelfRustTokenize> SelfRustTokenize for Option<T> {
    open spec fn expression(&self) -> Seq<Token> {
        match self {
            Some(value) => present(value.expression()),
            None => absent(),
        }
    }

    fn append_to_token_stream(&self, token_stream: &mut TokenStream) {
        match self {
            Some(value) => {
                let segments = ["Some"];
                proof {
                    reveal_strlit("Some");
                    assert(segment_names(segments@) == seq!["Some"@]);
                }
                append_path(segments.as_slice(), token_stream, false);
                push_group(token_stream, Delimiter::Parenthesis, value.to_tokens());
            },
            None => {
                let segments = ["None"];
                proof {
                    reveal_strlit("None");
                    assert(segment_names(segments@) == seq!["None"@]);
                }
                append_path(segments.as_slice(), token_stream, false);
            },
        }
    }
}

impl SelfRustTokenize for String {
    open spec fn expression(&self) -> Seq<Token> {
        owned_string(self@)
    }

    fn append_to_token_stream(&self, token_stream: &mut TokenStream) {
        let segments = ["String", "from"];
        proof {
            reveal_strlit("String");
            reveal_strlit("from");
            assert(segment_names(segments@) == seq!["String"@, "from"@]);
        }
        append_path(segments.as_slice(), token_stream, false);
        let mut stream = new_stream();
        push_str(&mut stream, self.as_str());
        push_group(token_stream, Delimiter::Parenthesis, stream);
    }
}

impl<T: SelfRustTokenize, const N: usize> SelfRustTokenize for [T; N] {
    open spec fn expression(&self) -> Seq<Token> {
        bracket_list(self@)
    }

    fn append_to_token_stream(&self, token_stream: &mut TokenStream) {
        append_bracket_list(self.as_slice(), token_stream);
    }
}

impl<T: SelfRustTokenize> SelfRustTokenize for [T] {
    open spec fn expression(&self) -> Seq<Token> {
        borrowed_list(self@)
    }

    fn append_to_token_stream(&self, token_stream: &mut TokenStream) {
        push_punct(token_stream, '&', Spacing::Alone);
        append_bracket_list(self, token_stream);
    }
}

impl SelfRustTokenize for () {
    open spec fn expression(&self) -> Seq<Token> {
        group(Delimiter::Parenthesis, Seq::empty())
    }

    fn append_to_token_stream(&self, token_stream: &mut TokenStream) {
        push_group(token_stream, Delimiter::Parenthesis, new_stream());
    }
}

/// The items of an inline small vector, as its slice hands them out.
pub struct SmallVecItems<'a, T>(pub &'a [T]);

impl<'a, T: SelfRustTokenize> SelfRustTokenize for SmallVecItems<'a, T> {
    open spec fn expression(&self) -> Seq<Token> {
        smallvec_macro(self.0@)
    }

    fn append_to_token_stream(&self, token_stream: &mut TokenStream) {
        let segments = ["smallvec", "smallvec"];
        proof {
            reveal_strlit("smallvec");
            assert(segment_names(segments@) == seq!["smallvec"@, "smallvec"@]);
        }
        append_path(segments.as_slice(), token_stream, true);
        push_punct(token_stream, '!', Spacing::Alone);
        append_bracket_list(self.0, token_stream);
    }
}

/// What a box, an option, a string, a marker or a list writes holds no comma
/// at its outermost level, whatever it holds itself: the commas of a list
/// stand inside its brackets.
pub proof fn lemma_containers_are_comma_free<T: SelfRustTokenize>(
    items: Seq<T>,
    inner: Seq<Token>,
    text: Seq<char>,
)
    ensures
        comma_free(boxed(inner)),
        comma_free(present(inner)),
        comma_free(absent()),
        comma_free(owned_string(text)),
        comma_free(phantom()),
        comma_free(bracket_list(items)),
        comma_free(vec_macro(items)),
        comma_free(smallvec_macro(items)),
        comma_free(borrowed_list(items)),
{
    let list = separated(expressions(items));
    lemma_group_comma_free(Delimiter::Parenthesis, inner);
    lemma_group_comma_free(Delimiter::Parenthesis, Seq::empty());
    lemma_group_comma_free(
        Delimiter::Parenthesis,
        seq![Token::Literal(string_literal_text(text))],
    );
    lemma_group_comma_free(Delimiter::Bracket, list);

    lemma_path_comma_free(seq!["Box"@, "new"@], false);
    lemma_concat_comma_free(
        path_tokens(seq!["Box"@, "new"@], false),
        group(Delimiter::Parenthesis, inner),
    );
    lemma_path_comma_free(seq!["Some"@], false);
    lemma_concat_comma_free(
        path_tokens(seq!["Some"@], false),
        group(Delimiter::Parenthesis, inner),
    );
    lemma_path_comma_free(seq!["None"@], false);
    lemma_path_comma_free(seq!["String"@, "from"@], false);
    lemma_concat_comma_free(
        path_tokens(seq!["String"@, "from"@], false),
        group(Delimiter::Parenthesis, seq![Token::Literal(string_literal_text(text))]),
    );
    lemma_path_comma_free(seq!["std"@, "marker"@, "PhantomData"@, "default"@], true);
    lemma_concat_comma_free(
        path_tokens(seq!["std"@, "marker"@, "PhantomData"@, "default"@], true),
        group(Delimiter::Parenthesis, Seq::empty()),
    );

    let bang = seq![Token::Punct('!', Spacing::Alone)];
    lemma_tokens_comma_free(bang);
    let vec_path = path_tokens(seq!["vec"@], false);
    lemma_path_comma_free(seq!["vec"@], false);
    lemma_concat_comma_free(vec_path, bang);
    assert(vec_path.push(Token::Punct('!', Spacing::Alone)) == vec_path + bang);
    lemma_concat_comma_free(vec_path + bang, bracket_list(items));
    let small_path = path_tokens(seq!["smallvec"@, "smallvec"@], true);
    lemma_path_comma_free(seq!["smallvec"@, "smallvec"@], true);
    lemma_concat_comma_free(small_path, bang);
    assert(small_path.push(Token::Punct('!', Spacing::Alone)) == small_path + bang);
    lemma_concat_comma_free(small_path + bang, bracket_list(items));

    let borrow = seq![Token::Punct('&', Spacing::Alone)];
    lemma_tokens_comma_free(borrow);
    lemma_concat_comma_free(borrow, bracket_list(items));
}

/// A list keeps the order and the number of its items: reading what stands
/// between its brackets gives the tokens of every item back, the first item
/// first, where no item writes a comma at its outermost level.
pub proof fn lemma_list_keeps_its_items<T: SelfRustTokenize>(items: Seq<T>)
    requires
        items.len() > 0,
        all_comma_free(expressions(items)),
    ensures
        bracket_list(items) == seq![
            Token::Group(Delimiter::Bracket, separated(expressions(items))),
        ],
        closed_items(separated(expressions(items))).push(
            open_item(separated(expressions(items))),
        ) == expressions(items),
        expressions(items).len() == items.len(),
        forall|i: int|
            0 <= i < items.len() ==> (#[trigger] expressions(items)[i]) == items[i].expression(),
{
    lemma_separated_read_back(expressions(items));
}

/// Between the brackets of a list every item stands whole at its own place,
/// which is that of its position in the list: behind the items in front of
/// it and in front of those behind it. This holds whatever the items write.
pub proof fn lemma_list_item_position<T: SelfRustTokenize>(items: Seq<T>, index: int)
    requires
        0 <= index < items.len(),
    ensures
        separated(expressions(items)).subrange(
            item_start(expressions(items), index),
            item_start(expressions(items), index) + items[index].expression().len(),
        ) == items[index].expression(),
        item_start(expressions(items), index + 1) > item_start(expressions(items), index),
{
    lemma_item_position(expressions(items), index);
}

/// An array writes exactly as many items as its type says.
pub proof fn lemma_array_keeps_its_size<T: SelfRustTokenize, const N: usize>(array: [T; N])
    ensures
        array.expression() == bracket_list(array@),
        expressions(array@).len() == N,
{
}

} // verus!
