//! Lists keep the order and the number of their items: the items can be read
//! back from the tokens.

use vstd::prelude::*;
use vstd::seq_lib::lemma_flatten_concat;
use crate::token::{
    comma, group, lemma_terminated_empty, lemma_terminated_push, named_argument,
    named_arguments, path_parts, path_tokens, separated, terminated, Delimiter, Spacing, Token,
};

verus! {

/// The items that a sequence of tokens holds in front of its last comma: a
/// comma at the outermost level ends an item.
pub open spec fn closed_items(tokens: Seq<Token>) -> Seq<Seq<Token>>
    decreases tokens.len(),
{
    if tokens.len() == 0 {
        Seq::empty()
    } else if tokens.last() == comma() {
        closed_items(tokens.drop_last()).push(open_item(tokens.drop_last()))
    } else {
        closed_items(tokens.drop_last())
    }
}

/// The tokens behind the last comma of a sequence: the item that no comma
/// has ended yet.
pub open spec fn open_item(tokens: Seq<Token>) -> Seq<Token>
    decreases tokens.len(),
{
    if tokens.len() == 0 || tokens.last() == comma() {
        Seq::empty()
    } else {
        open_item(tokens.drop_last()).push(tokens.last())
    }
}

/// An item that holds no comma at its outermost level.
pub open spec fn comma_free(item: Seq<Token>) -> bool {
    !item.contains(comma())
}

/// Every item of the sequence is free of commas.
pub open spec fn all_comma_free(items: Seq<Seq<Token>>) -> bool {
    forall|i: int| 0 <= i < items.len() ==> comma_free(#[trigger] items[i])
}

/// Tokens without a comma, written behind others, go to the item that is open.
pub proof fn lemma_read_item(before: Seq<Token>, item: Seq<Token>)
    requires
        comma_free(item),
    ensures
        closed_items(before + item) == closed_items(before),
        open_item(before + item) == open_item(before) + item,
    decreases item.len(),
{
    if item.len() > 0 {
        let init = item.drop_last();
        assert(comma_free(init)) by {
            if init.contains(comma()) {
                let i = choose|i: int| 0 <= i < init.len() && init[i] == comma();
                assert(item[i] == comma());
            }
        }
        assert(item.last() != comma()) by {
            assert(item[item.len() - 1] == item.last());
        }
        lemma_read_item(before, init);
        assert((before + item).drop_last() == before + init);
    }
}

/// Reading a list whose items all end in a comma gives the items back, in
/// their order and number, where no item holds a comma of its own.
pub proof fn lemma_terminated_read_back(items: Seq<Seq<Token>>)
    requires
        all_comma_free(items),
    ensures
        closed_items(terminated(items)) == items,
        open_item(terminated(items)) == Seq::<Token>::empty(),
    decreases items.len(),
{
    if items.len() == 0 {
        lemma_terminated_empty();
    } else {
        let init = items.drop_last();
        let last = items.last();
        let body = terminated(init) + last;
        assert(items == init.push(last));
        lemma_terminated_push(init, last);
        assert(terminated(items) == body.push(comma()));
        lemma_terminated_read_back(init);
        lemma_read_item(terminated(init), last);
        assert(body.push(comma()).drop_last() == body);
    }
}

/// Reading a list with commas between its items gives the items back: all
/// but the last as ended items, the last as the one still open.
pub proof fn lemma_separated_read_back(items: Seq<Seq<Token>>)
    requires
        items.len() > 0,
        all_comma_free(items),
    ensures
        closed_items(separated(items)).push(open_item(separated(items))) == items,
{
    let init = items.drop_last();
    lemma_terminated_read_back(init);
    lemma_read_item(terminated(init), items.last());
}

/// A list of two parts is the first part's list followed by the second's:
/// no item moves, none is lost and none is added.
pub proof fn lemma_terminated_concat(front: Seq<Seq<Token>>, back: Seq<Seq<Token>>)
    ensures
        terminated(front + back) == terminated(front) + terminated(back),
{
    let f = |item: Seq<Token>| item.push(comma());
    assert((front + back).map_values(f) == front.map_values(f) + back.map_values(f));
    lemma_flatten_concat(front.map_values(f), back.map_values(f));
}

/// Where the item at `index` starts in a list: behind the items in front of
/// it and the comma of each.
pub open spec fn item_start(items: Seq<Seq<Token>>, index: int) -> int {
    terminated(items.take(index)).len() as int
}

/// Every item of a list stands in it whole, at its own place: behind all
/// items in front of it, and in front of all items behind it. This holds of
/// every list, with a comma behind the last item or without.
pub proof fn lemma_item_position(items: Seq<Seq<Token>>, index: int)
    requires
        0 <= index < items.len(),
    ensures
        item_start(items, index + 1) == item_start(items, index) + items[index].len() + 1,
        terminated(items).subrange(
            item_start(items, index),
            item_start(items, index) + items[index].len(),
        ) == items[index],
        separated(items).subrange(
            item_start(items, index),
            item_start(items, index) + items[index].len(),
        ) == items[index],
{
    let front = items.take(index);
    let item = items[index];
    let start = item_start(items, index);
    assert(items.take(index + 1) == front.push(item));
    lemma_terminated_push(front, item);
    let upto = terminated(front) + item.push(comma());
    assert(upto.subrange(start, start + item.len()) == item);

    let back = items.skip(index + 1);
    assert(items == items.take(index + 1) + back);
    lemma_terminated_concat(items.take(index + 1), back);
    assert(terminated(items).subrange(start, start + item.len()) == item) by {
        assert(terminated(items) == upto + terminated(back));
    }

    if index == items.len() - 1 {
        assert(items.drop_last() == front);
        assert(items.last() == item);
        assert((terminated(front) + item).subrange(start, start + item.len()) == item);
    } else {
        let init = items.drop_last();
        let rest = init.skip(index + 1);
        assert(init == items.take(index + 1) + rest);
        lemma_terminated_concat(items.take(index + 1), rest);
        assert(separated(items) == (upto + terminated(rest)) + items.last());
    }
}

/// A field's name and the colon behind it, in front of its value.
pub open spec fn labelled(entry: (Seq<char>, Seq<Token>)) -> Seq<Token> {
    seq![Token::Ident(entry.0), Token::Punct(':', Spacing::Alone)] + entry.1
}

/// Named arguments are a list of labelled values, each ended by a comma.
pub proof fn lemma_named_arguments_are_terminated(entries: Seq<(Seq<char>, Seq<Token>)>)
    ensures
        named_arguments(entries) == terminated(
            entries.map_values(|entry: (Seq<char>, Seq<Token>)| labelled(entry)),
        ),
{
    let parts = entries.map_values(
        |entry: (Seq<char>, Seq<Token>)| named_argument(entry.0, entry.1),
    );
    let labels = entries.map_values(|entry: (Seq<char>, Seq<Token>)| labelled(entry));
    assert(parts =~= labels.map_values(|item: Seq<Token>| item.push(comma())));
}

/// Reading named arguments gives every field back with its name in front,
/// in the order of declaration, where no value holds a comma of its own.
pub proof fn lemma_named_arguments_read_back(entries: Seq<(Seq<char>, Seq<Token>)>)
    requires
        forall|i: int| 0 <= i < entries.len() ==> comma_free((#[trigger] entries[i]).1),
    ensures
        closed_items(named_arguments(entries)) == entries.map_values(
            |entry: (Seq<char>, Seq<Token>)| labelled(entry),
        ),
        open_item(named_arguments(entries)) == Seq::<Token>::empty(),
{
    let labels = entries.map_values(|entry: (Seq<char>, Seq<Token>)| labelled(entry));
    lemma_named_arguments_are_terminated(entries);
    assert forall|i: int| 0 <= i < labels.len() implies comma_free(#[trigger] labels[i]) by {
        let label = seq![Token::Ident(entries[i].0), Token::Punct(':', Spacing::Alone)];
        lemma_tokens_comma_free(label);
        lemma_concat_comma_free(label, entries[i].1);
    }
    lemma_terminated_read_back(labels);
}

/// Tokens none of which is a comma are free of commas.
pub proof fn lemma_tokens_comma_free(tokens: Seq<Token>)
    requires
        forall|k: int| 0 <= k < tokens.len() ==> tokens[k] != comma(),
    ensures
        comma_free(tokens),
{
}

/// Two sequences without a comma make one without a comma.
pub proof fn lemma_concat_comma_free(front: Seq<Token>, back: Seq<Token>)
    requires
        comma_free(front),
        comma_free(back),
    ensures
        comma_free(front + back),
{
    if (front + back).contains(comma()) {
        let k = choose|k: int| 0 <= k < (front + back).len() && (front + back)[k] == comma();
        if k < front.len() {
            assert(front[k] == comma());
        } else {
            assert(back[k - front.len()] == comma());
        }
    }
}

/// Parts without a comma, written one after the other, hold no comma.
pub proof fn lemma_flatten_comma_free(parts: Seq<Seq<Token>>)
    requires
        all_comma_free(parts),
    ensures
        comma_free(parts.flatten()),
    decreases parts.len(),
{
    if parts.len() > 0 {
        let init = parts.drop_last();
        assert forall|i: int| 0 <= i < init.len() implies comma_free(#[trigger] init[i]) by {
            assert(init[i] == parts[i]);
        }
        lemma_flatten_comma_free(init);
        init.lemma_flatten_push(parts.last());
        assert(parts == init.push(parts.last()));
        lemma_concat_comma_free(init.flatten(), parts.last());
    }
}

/// A path holds no comma.
pub proof fn lemma_path_comma_free(segments: Seq<Seq<char>>, leading_colons: bool)
    ensures
        comma_free(path_tokens(segments, leading_colons)),
{
    let parts = path_parts(segments, leading_colons);
    assert forall|i: int| 0 <= i < parts.len() implies comma_free(#[trigger] parts[i]) by {
        lemma_tokens_comma_free(parts[i]);
    }
    lemma_flatten_comma_free(parts);
}

/// A group is one token, whatever stands between its delimiters: the commas
/// inside it are not at the outermost level.
pub proof fn lemma_group_comma_free(delimiter: Delimiter, inner: Seq<Token>)
    ensures
        comma_free(group(delimiter, inner)),
{
    lemma_tokens_comma_free(group(delimiter, inner));
}

} // verus!
