//! The model of token trees that contracts are stated over.

use vstd::prelude::*;

verus! {

/// Whether a punctuation character is glued to the punctuation that follows it.
#[derive(Clone, Copy, Debug, PartialEq, Eq, Structural)]
pub enum Spacing {
    Alone,
    Joint,
}

/// The brackets around a group of tokens.
#[derive(Clone, Copy, Debug, PartialEq, Eq, Structural)]
pub enum Delimiter {
    Parenthesis,
    Brace,
    Bracket,
}

/// One token tree. A literal is held as its source text, an identifier as its name.
pub enum Token {
    Ident(Seq<char>),
    Punct(char, Spacing),
    Literal(Seq<char>),
    Group(Delimiter, Seq<Token>),
}

/// The separator between the items of a list.
pub open spec fn comma() -> Token {
    Token::Punct(',', Spacing::Alone)
}

/// The two tokens of `::`.
pub open spec fn path_separator() -> Seq<Token> {
    seq![Token::Punct(':', Spacing::Joint), Token::Punct(':', Spacing::Alone)]
}

/// One segment of a path, after its `::` where it has one.
pub open spec fn segment_tokens(name: Seq<char>, separated: bool) -> Seq<Token> {
    if separated {
        path_separator().push(Token::Ident(name))
    } else {
        seq![Token::Ident(name)]
    }
}

/// The tokens of each segment of a path: `::` stands in front of every
/// segment but the first, and in front of the first where `leading_colons` is set.
pub open spec fn path_parts(segments: Seq<Seq<char>>, leading_colons: bool) -> Seq<Seq<Token>> {
    Seq::new(segments.len(), |i: int| segment_tokens(segments[i], leading_colons || i != 0))
}

/// A path: its segments in order with `::` between them, and in front where
/// `leading_colons` is set.
pub open spec fn path_tokens(segments: Seq<Seq<char>>, leading_colons: bool) -> Seq<Token> {
    path_parts(segments, leading_colons).flatten()
}

/// Every item followed by a comma, the last one too.
pub open spec fn terminated(items: Seq<Seq<Token>>) -> Seq<Token> {
    items.map_values(|item: Seq<Token>| item.push(comma())).flatten()
}

/// A list without items has no tokens.
pub proof fn lemma_terminated_empty()
    ensures
        terminated(Seq::empty()) == Seq::<Token>::empty(),
{
    let none = Seq::<Seq<Token>>::empty();
    assert(none.map_values(|item: Seq<Token>| item.push(comma())) == none);
}

/// A list that ends in a comma grows by an item and its comma.
pub proof fn lemma_terminated_push(items: Seq<Seq<Token>>, item: Seq<Token>)
    ensures
        terminated(items.push(item)) == terminated(items) + item.push(comma()),
{
    let with_commas = items.map_values(|item: Seq<Token>| item.push(comma()));
    assert(items.push(item).map_values(|item: Seq<Token>| item.push(comma())) == with_commas.push(
        item.push(comma()),
    ));
    with_commas.lemma_flatten_push(item.push(comma()));
}

/// The items with a comma between neighbours and none at the end.
pub open spec fn separated(items: Seq<Seq<Token>>) -> Seq<Token> {
    if items.len() == 0 {
        Seq::empty()
    } else {
        terminated(items.drop_last()) + items.last()
    }
}

/// One named argument: `name: value,`.
pub open spec fn named_argument(name: Seq<char>, value: Seq<Token>) -> Seq<Token> {
    seq![Token::Ident(name), Token::Punct(':', Spacing::Alone)] + value.push(comma())
}

/// The named arguments of a constructor, in the order given.
pub open spec fn named_arguments(entries: Seq<(Seq<char>, Seq<Token>)>) -> Seq<Token> {
    entries.map_values(|entry: (Seq<char>, Seq<Token>)| named_argument(entry.0, entry.1)).flatten()
}

/// A group as a one-token sequence.
pub open spec fn group(delimiter: Delimiter, inner: Seq<Token>) -> Seq<Token> {
    seq![Token::Group(delimiter, inner)]
}

/// A constructor without fields: its path.
pub open spec fn unit_constructor(segments: Seq<Seq<char>>, leading_colons: bool) -> Seq<Token> {
    path_tokens(segments, leading_colons)
}

/// A constructor with positional fields: its path, then the values in
/// parentheses, each followed by a comma.
pub open spec fn unnamed_constructor(
    segments: Seq<Seq<char>>,
    leading_colons: bool,
    values: Seq<Seq<Token>>,
) -> Seq<Token> {
    path_tokens(segments, leading_colons) + group(Delimiter::Parenthesis, terminated(values))
}

/// A constructor with named fields: its path, then `name: value,` for each
/// field in braces.
pub open spec fn named_constructor(
    segments: Seq<Seq<char>>,
    leading_colons: bool,
    entries: Seq<(Seq<char>, Seq<Token>)>,
) -> Seq<Token> {
    path_tokens(segments, leading_colons) + group(Delimiter::Brace, named_arguments(entries))
}

} // verus!
