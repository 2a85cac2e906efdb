//! Paths such as `Box::new` or `::smallvec::smallvec`, written token by token.

use vstd::prelude::*;
use proc_macro2::TokenStream;
use crate::ident::{all_identifiers, is_identifier};
use crate::stream::{push_ident, push_punct, tokens};
use crate::token::{path_parts, path_tokens, Spacing};

verus! {

/// The names of the segments, as contracts see them.
pub open spec fn segment_names(segments: Seq<&str>) -> Seq<Seq<char>> {
    segments.map_values(|segment: &str| segment@)
}

/// Appends the segments with `::` between them, and in front of the first
/// where `leading_colons` is set.
pub(crate) fn append_path(segments: &[&str], token_stream: &mut TokenStream, leading_colons: bool)
    requires
        all_identifiers(segment_names(segments@)),
    ensures
        tokens(*final(token_stream)) == tokens(*old(token_stream)) + path_tokens(
            segment_names(segments@),
            leading_colons,
        ),
{
    let ghost names = segment_names(segments@);
    let ghost parts = path_parts(names, leading_colons);
    for idx in 0..segments.len()
        invariant
            names == segment_names(segments@),
            all_identifiers(names),
            parts == path_parts(names, leading_colons),
            tokens(*token_stream) == tokens(*old(token_stream)) + parts.take(idx as int).flatten(),
    {
        if leading_colons || idx != 0 {
            push_punct(token_stream, ':', Spacing::Joint);
            push_punct(token_stream, ':', Spacing::Alone);
        }
        assert(is_identifier(names[idx as int]));
        push_ident(token_stream, segments[idx]);
        proof {
            let before = parts.take(idx as int);
            assert(parts.take(idx + 1) == before.push(parts[idx as int]));
            before.lemma_flatten_push(parts[idx as int]);
            assert(tokens(*token_stream) == tokens(*old(token_stream)) + (before.flatten()
                + parts[idx as int]));
        }
    }
    proof {
        assert(parts.take(segments.len() as int) == parts);
    }
}

} // verus!
