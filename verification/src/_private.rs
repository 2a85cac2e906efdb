//! What a derived implementation calls: a constructor's path and its fields.

use vstd::prelude::*;
use proc_macro2::TokenStream;
use crate::ident::{all_identifiers, is_identifier};
use crate::path::{append_path, segment_names};
use crate::stream::{extend_stream, new_stream, push_group, push_ident, push_punct, tokens};
use crate::token::{
    comma, lemma_terminated_empty, lemma_terminated_push, named_argument, named_constructor,
    terminated, unit_constructor, unnamed_constructor, Delimiter, Spacing, Token,
};

verus! {

/// The name and the tokens of each named field handed over.
pub open spec fn named_entries(items: Seq<(&str, TokenStream)>) -> Seq<(Seq<char>, Seq<Token>)> {
    items.map_values(|item: (&str, TokenStream)| (item.0@, tokens(item.1)))
}

/// The names of the named fields handed over.
pub open spec fn entry_names(items: Seq<(&str, TokenStream)>) -> Seq<Seq<char>> {
    items.map_values(|item: (&str, TokenStream)| item.0@)
}

/// The tokens of each stream handed over.
pub open spec fn stream_values(items: Seq<TokenStream>) -> Seq<Seq<Token>> {
    items.map_values(|item: TokenStream| tokens(item))
}

/// Writes the constructor of a value with named fields: the path, then in
/// braces `name: value,` for every field, in the order of `items`.
pub fn add_named_constructor_body(
    ts: &mut TokenStream,
    segments: &[&str],
    items: Vec<(&str, TokenStream)>,
)
    requires
        all_identifiers(segment_names(segments@)),
        all_identifiers(entry_names(items@)),
    ensures
        tokens(*final(ts)) == tokens(*old(ts)) + named_constructor(
            segment_names(segments@),
            false,
            named_entries(items@),
        ),
{
    append_path(segments, ts, false);

    let mut arguments = new_stream();
    let ghost entries = named_entries(items@);
    let ghost parts = entries.map_values(
        |entry: (Seq<char>, Seq<Token>)| named_argument(entry.0, entry.1),
    );
    for entry in it: items
        invariant
            it.seq() == items@,
            entries == named_entries(items@),
            all_identifiers(entry_names(items@)),
            parts == entries.map_values(
                |entry: (Seq<char>, Seq<Token>)| named_argument(entry.0, entry.1),
            ),
            tokens(arguments) == parts.take(it.index() as int).flatten(),
    {
        let ghost idx = it.index() as int;
        let (name, item) = entry;
        assert(is_identifier(entry_names(items@)[idx]));
        push_ident(&mut arguments, name);
        push_punct(&mut arguments, ':', Spacing::Alone);
        extend_stream(&mut arguments, item);
        push_punct(&mut arguments, ',', Spacing::Alone);
        proof {
            let before = parts.take(idx);
            assert(parts.take(idx + 1) == before.push(parts[idx]));
            before.lemma_flatten_push(parts[idx]);
            assert(tokens(arguments) == before.flatten() + parts[idx]);
        }
    }
    proof {
        assert(parts.take(parts.len() as int) == parts);
    }
    push_group(ts, Delimiter::Brace, arguments);
}

/// Writes the constructor of a value with positional fields: the path, then
/// in parentheses every value followed by a comma, in the order of `items`.
pub fn add_unnamed_constructor_body(ts: &mut TokenStream, segments: &[&str], items: Vec<TokenStream>)
    requires
        all_identifiers(segment_names(segments@)),
    ensures
        tokens(*final(ts)) == tokens(*old(ts)) + unnamed_constructor(
            segment_names(segments@),
            false,
            stream_values(items@),
        ),
{
    append_path(segments, ts, false);

    let mut arguments = new_stream();
    let ghost values = stream_values(items@);
    proof {
        lemma_terminated_empty();
        assert(values.take(0) == Seq::<Seq<Token>>::empty());
    }
    for item in it: items
        invariant
            it.seq() == items@,
            values == stream_values(items@),
            tokens(arguments) == terminated(values.take(it.index() as int)),
    {
        let ghost idx = it.index() as int;
        extend_stream(&mut arguments, item);
        push_punct(&mut arguments, ',', Spacing::Alone);
        proof {
            lemma_terminated_push(values.take(idx), values[idx]);
            assert(values.take(idx + 1) == values.take(idx).push(values[idx]));
            assert(tokens(arguments) == terminated(values.take(idx)) + values[idx].push(comma()));
        }
    }
    proof {
        assert(values.take(values.len() as int) == values);
    }
    push_group(ts, Delimiter::Parenthesis, arguments);
}

/// Writes the constructor of a value without fields: the path alone.
pub fn add_unit_constructor_body(ts: &mut TokenStream, segments: &[&str])
    requires
        all_identifiers(segment_names(segments@)),
    ensures
        tokens(*final(ts)) == tokens(*old(ts)) + unit_constructor(segment_names(segments@), false),
{
    append_path(segments, ts, false);
}

} // verus!
