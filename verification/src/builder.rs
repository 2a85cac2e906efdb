//! From a shape, a strategy and the tokens of each field to the tokens of
//! the whole value.

use vstd::prelude::*;
use proc_macro2::TokenStream;
use crate::_private::{
    add_named_constructor_body, add_unit_constructor_body, add_unnamed_constructor_body,
    entry_names, named_entries, stream_values,
};
use crate::ident::{all_identifiers, is_ident, is_identifier};
use crate::order::{
    all_comma_free, closed_items, comma_free, item_start, labelled, lemma_item_position,
    lemma_named_arguments_are_terminated, lemma_named_arguments_read_back,
    lemma_terminated_read_back,
};
use crate::path::segment_names;
use crate::resolve::{lemma_forward_names_a_field, lookup, resolve_model};
use crate::shape::{
    field_models, AttributeModel, ConfigErrorModel, ConstructorPath, Field, FieldModel, Member,
    MemberModel, PathModel, Shape, ShapeModel, Strategy, StrategyModel,
};
use crate::stream::{extend_stream, push_punct, tokens};
use crate::token::{
    group, named_arguments, named_constructor, path_parts, path_separator, path_tokens,
    terminated, unit_constructor, unnamed_constructor, Delimiter, Spacing, Token,
};

verus! {

/// Why a value has no tokens.
#[derive(Debug, PartialEq, Eq)]
pub enum DeriveError {
    /// The strategy is `Suppress`: the type is not meant to be rebuilt.
    Suppressed,
    /// The number of field values is not the number of fields of the shape.
    FieldCount { expected: usize, found: usize },
    /// The strategy forwards to a field that the shape does not have.
    MissingMember(Member),
    /// The path is empty, or a segment of it or the name of a named field is
    /// no identifier.
    InvalidName,
}

/// A `DeriveError`, as contracts see it.
pub enum DeriveErrorModel {
    Suppressed,
    FieldCount { expected: nat, found: nat },
    MissingMember(MemberModel),
    InvalidName,
}

impl View for DeriveError {
    type V = DeriveErrorModel;

    open spec fn view(&self) -> DeriveErrorModel {
        match self {
            DeriveError::Suppressed => DeriveErrorModel::Suppressed,
            DeriveError::FieldCount { expected, found } => DeriveErrorModel::FieldCount {
                expected: *expected as nat,
                found: *found as nat,
            },
            DeriveError::MissingMember(member) => DeriveErrorModel::MissingMember(member@),
            DeriveError::InvalidName => DeriveErrorModel::InvalidName,
        }
    }
}

/// A field that goes by a name which is an identifier.
pub open spec fn named_by_identifier(field: FieldModel) -> bool {
    field.identity matches MemberModel::Named(name) && is_identifier(name)
}

/// A shape whose constructor can be written: its path has a segment, every
/// segment is an identifier, and so is the name of every field that is
/// written by name.
pub open spec fn valid_names(shape: ShapeModel) -> bool {
    &&& shape.path().segments.len() > 0
    &&& all_identifiers(shape.path().segments)
    &&& shape is Named ==> forall|i: int|
        0 <= i < shape.fields().len() ==> named_by_identifier(#[trigger] shape.fields()[i])
}

/// The name of a named field.
pub open spec fn field_name(field: FieldModel) -> Seq<char> {
    match field.identity {
        MemberModel::Named(name) => name,
        MemberModel::Unnamed(_) => Seq::empty(),
    }
}

/// Each field's name beside its value, in the order of declaration.
pub open spec fn named_values(fields: Seq<FieldModel>, values: Seq<Seq<Token>>) -> Seq<
    (Seq<char>, Seq<Token>),
> {
    Seq::new(fields.len(), |i: int| (field_name(fields[i]), values[i]))
}

/// The constructor of a shape around the values of its fields.
pub open spec fn constructor(shape: ShapeModel, values: Seq<Seq<Token>>) -> Seq<Token> {
    match shape {
        ShapeModel::Named { path, fields } => named_constructor(
            path.segments,
            path.leading_colons,
            named_values(fields, values),
        ),
        ShapeModel::Unnamed { path, .. } => unnamed_constructor(
            path.segments,
            path.leading_colons,
            values,
        ),
        ShapeModel::Unit { path } => unit_constructor(path.segments, path.leading_colons),
    }
}

/// The error for values that are not as many as the fields of the shape.
pub open spec fn wrong_field_count(shape: ShapeModel, values: Seq<Seq<Token>>) -> DeriveErrorModel {
    DeriveErrorModel::FieldCount { expected: shape.fields().len(), found: values.len() }
}

/// The tokens of a value, from its shape, the strategy and the tokens of
/// each of its fields.
///
/// `Suppress` fails whatever the shape and the values are. Otherwise there
/// must be one value for each field. A forwarded field's tokens stand for the
/// whole value, with no path and no group around them and none of the other
/// fields. By default the constructor is written around all of them.
pub open spec fn derive_model(
    shape: ShapeModel,
    strategy: StrategyModel,
    values: Seq<Seq<Token>>,
) -> Result<Seq<Token>, DeriveErrorModel> {
    match strategy {
        StrategyModel::Suppress => Err(DeriveErrorModel::Suppressed),
        StrategyModel::ForwardField(member) => if values.len() != shape.fields().len() {
            Err(wrong_field_count(shape, values))
        } else {
            match lookup(shape, member) {
                Some(position) => Ok(values[position as int]),
                None => Err(DeriveErrorModel::MissingMember(member)),
            }
        },
        StrategyModel::Default => if values.len() != shape.fields().len() {
            Err(wrong_field_count(shape, values))
        } else if !valid_names(shape) {
            Err(DeriveErrorModel::InvalidName)
        } else {
            Ok(constructor(shape, values))
        },
    }
}

/// A path from the root namespace is the same path behind a `::`.
pub proof fn lemma_leading_colons(segments: Seq<Seq<char>>)
    requires
        segments.len() > 0,
    ensures
        path_tokens(segments, true) == path_separator() + path_tokens(segments, false),
{
    let rooted = path_parts(segments, true);
    let plain = path_parts(segments, false);
    assert(rooted.drop_first() =~= plain.drop_first());
    assert(rooted.first() =~= path_separator() + plain.first());
    assert(rooted.flatten() =~= path_separator() + plain.flatten());
}

/// The segments of a path as string slices.
fn segment_slices(path: &ConstructorPath) -> (segments: Vec<&str>)
    ensures
        segment_names(segments@) == path@.segments,
{
    let mut segments: Vec<&str> = Vec::new();
    for idx in 0..path.segments.len()
        invariant
            segments@.len() == idx,
            forall|i: int| 0 <= i < idx ==> (#[trigger] segments@[i])@ == path.segments@[i]@,
    {
        segments.push(path.segments[idx].as_str());
    }
    assert(segment_names(segments@) == path@.segments);
    segments
}

/// Tells whether every name of the sequence is an identifier.
fn all_idents(names: &[&str]) -> (ok: bool)
    ensures
        ok == all_identifiers(segment_names(names@)),
{
    for idx in 0..names.len()
        invariant
            forall|i: int| 0 <= i < idx ==> is_identifier(#[trigger] segment_names(names@)[i]),
    {
        if !is_ident(names[idx]) {
            assert(!is_identifier(segment_names(names@)[idx as int]));
            return false;
        }
    }
    true
}

/// The names of the fields, where every field goes by a name that is an identifier.
fn field_names(fields: &[Field]) -> (names: Option<Vec<&str>>)
    ensures
        names matches Some(list) ==> {
            &&& list@.len() == fields@.len()
            &&& forall|i: int|
                0 <= i < fields@.len() ==> named_by_identifier(#[trigger] field_models(fields@)[i])
            &&& forall|i: int|
                0 <= i < fields@.len() ==> (#[trigger] list@[i])@ == field_name(
                    field_models(fields@)[i],
                )
        },
        names is None ==> exists|i: int|
            0 <= i < fields@.len() && !named_by_identifier(#[trigger] field_models(fields@)[i]),
{
    let mut names: Vec<&str> = Vec::new();
    let ghost all = field_models(fields@);
    for idx in 0..fields.len()
        invariant
            all == field_models(fields@),
            names@.len() == idx,
            forall|i: int| 0 <= i < idx ==> named_by_identifier(#[trigger] all[i]),
            forall|i: int| 0 <= i < idx ==> (#[trigger] names@[i])@ == field_name(all[i]),
    {
        assert(all[idx as int] == fields@[idx as int]@);
        match &fields[idx].identity {
            Member::Named(name) => {
                if !is_ident(name.as_str()) {
                    assert(!named_by_identifier(all[idx as int]));
                    return None;
                }
                names.push(name.as_str());
            },
            Member::Unnamed(_) => {
                assert(!named_by_identifier(all[idx as int]));
                return None;
            },
        }
    }
    Some(names)
}

/// Puts each name beside the value at the same position.
fn pair_up<'a>(names: Vec<&'a str>, values: Vec<TokenStream>) -> (items: Vec<
    (&'a str, TokenStream),
>)
    requires
        names@.len() == values@.len(),
    ensures
        items@.len() == names@.len(),
        forall|i: int|
            0 <= i < items@.len() ==> (#[trigger] items@[i]).0@ == names@[i]@ && items@[i].1
                == values@[i],
{
    let mut items: Vec<(&'a str, TokenStream)> = Vec::new();
    for value in it: values
        invariant
            it.seq() == values@,
            names@.len() == values@.len(),
            items@.len() == it.index(),
            forall|i: int|
                0 <= i < items@.len() ==> (#[trigger] items@[i]).0@ == names@[i]@ && items@[i].1
                    == values@[i],
    {
        let idx = items.len();
        items.push((names[idx], value));
    }
    items
}

/// Writes the `::` in front of a path that starts at the root namespace.
fn append_leading_colons(path: &ConstructorPath, token_stream: &mut TokenStream)
    requires
        path@.segments.len() > 0,
    ensures
        tokens(*final(token_stream)) + path_tokens(path@.segments, false) == tokens(
            *old(token_stream),
        ) + path_tokens(path@.segments, path@.leading_colons),
{
    if path.leading_colons {
        push_punct(token_stream, ':', Spacing::Joint);
        push_punct(token_stream, ':', Spacing::Alone);
        proof {
            lemma_leading_colons(path@.segments);
            assert(tokens(*token_stream) == tokens(*old(token_stream)) + path_separator());
            assert((tokens(*old(token_stream)) + path_separator()) + path_tokens(
                path@.segments,
                false,
            ) == tokens(*old(token_stream)) + (path_separator() + path_tokens(
                path@.segments,
                false,
            )));
        }
    }
}

impl Shape {
    /// The constructor's path.
    pub fn path(&self) -> (path: &ConstructorPath)
        ensures
            path@ == self@.path(),
    {
        match self {
            Shape::Named { path, .. } => path,
            Shape::Unnamed { path, .. } => path,
            Shape::Unit { path } => path,
        }
    }

    /// Tells whether the constructor of the shape can be written.
    pub fn has_valid_names(&self) -> (ok: bool)
        ensures
            ok == valid_names(self@),
    {
        let segments = segment_slices(self.path());
        assert(segment_names(segments@).len() == segments@.len());
        if segments.len() == 0 || !all_idents(segments.as_slice()) {
            return false;
        }
        match self {
            Shape::Named { fields, .. } => {
                assert(self@.fields() == field_models(fields@));
                match field_names(fields.as_slice()) {
                    Some(_) => true,
                    None => false,
                }
            },
            _ => true,
        }
    }
}

/// Writes the tokens of a value behind those that the stream holds, from the
/// value's shape, the strategy selected for it and the tokens of each of its
/// fields in the order of declaration. Where it fails the stream is left as
/// it was.
pub fn derive(
    shape: &Shape,
    strategy: &Strategy,
    fields: Vec<TokenStream>,
    token_stream: &mut TokenStream,
) -> (result: Result<(), DeriveError>)
    ensures
        match derive_model(shape@, strategy@, stream_values(fields@)) {
            Ok(expression) => result is Ok && tokens(*final(token_stream)) == tokens(
                *old(token_stream),
            ) + expression,
            Err(error) => result matches Err(reported) && reported@ == error && tokens(
                *final(token_stream),
            ) == tokens(*old(token_stream)),
        },
{
    if let Strategy::Suppress = strategy {
        return Err(DeriveError::Suppressed);
    }
    let declared = shape.fields();
    if fields.len() != declared.len() {
        return Err(DeriveError::FieldCount { expected: declared.len(), found: fields.len() });
    }
    let ghost values = stream_values(fields@);
    if let Strategy::ForwardField(member) = strategy {
        return match shape.position(member) {
            Some(position) => {
                let mut fields = fields;
                let value = fields.swap_remove(position);
                assert(tokens(value) == values[position as int]);
                extend_stream(token_stream, value);
                Ok(())
            },
            None => Err(DeriveError::MissingMember(member.duplicate())),
        };
    }
    if !shape.has_valid_names() {
        return Err(DeriveError::InvalidName);
    }
    let path = shape.path();
    let segments = segment_slices(path);
    let ghost rooted = path_tokens(path@.segments, path@.leading_colons);
    let ghost plain = path_tokens(path@.segments, false);
    match shape {
        Shape::Named { fields: named, .. } => {
            let names = match field_names(named.as_slice()) {
                Some(names) => names,
                None => {
                    return Err(DeriveError::InvalidName);
                },
            };
            let items = pair_up(names, fields);
            proof {
                assert(named_entries(items@) == named_values(shape@.fields(), values));
                assert forall|i: int| 0 <= i < items@.len() implies is_identifier(
                    #[trigger] entry_names(items@)[i],
                ) by {
                    assert(named_by_identifier(shape@.fields()[i]));
                }
            }
            append_leading_colons(path, token_stream);
            let ghost start = tokens(*token_stream);
            add_named_constructor_body(token_stream, segments.as_slice(), items);
            proof {
                let body = group(Delimiter::Brace, named_arguments(named_entries(items@)));
                assert(tokens(*token_stream) == (start + plain) + body);
                assert((tokens(*old(token_stream)) + rooted) + body == tokens(*old(token_stream))
                    + (rooted + body));
            }
        },
        Shape::Unnamed { .. } => {
            append_leading_colons(path, token_stream);
            let ghost start = tokens(*token_stream);
            add_unnamed_constructor_body(token_stream, segments.as_slice(), fields);
            proof {
                let body = group(Delimiter::Parenthesis, terminated(values));
                assert(tokens(*token_stream) == (start + plain) + body);
                assert((tokens(*old(token_stream)) + rooted) + body == tokens(*old(token_stream))
                    + (rooted + body));
            }
        },
        Shape::Unit { .. } => {
            append_leading_colons(path, token_stream);
            add_unit_constructor_body(token_stream, segments.as_slice());
        },
    }
    Ok(())
}

/// A suppressed type has no tokens, whatever its shape and whatever the
/// values of its fields are.
pub proof fn lemma_suppress_ignores_the_value(shape: ShapeModel, values: Seq<Seq<Token>>)
    ensures
        derive_model(shape, StrategyModel::Suppress, values) == Err::<
            Seq<Token>,
            DeriveErrorModel,
        >(DeriveErrorModel::Suppressed),
{
}

/// The tokens of a forwarding type are those of the one field that it
/// forwards to: no path, no group, and nothing of the other fields, whose
/// values may change without changing the result.
pub proof fn lemma_forward_is_transparent(
    shape: ShapeModel,
    member: MemberModel,
    position: nat,
    values: Seq<Seq<Token>>,
    others: Seq<Seq<Token>>,
)
    requires
        lookup(shape, member) == Some(position),
        values.len() == shape.fields().len(),
        others.len() == shape.fields().len(),
        others[position as int] == values[position as int],
    ensures
        derive_model(shape, StrategyModel::ForwardField(member), values) == Ok::<
            Seq<Token>,
            DeriveErrorModel,
        >(values[position as int]),
        derive_model(shape, StrategyModel::ForwardField(member), others) == derive_model(
            shape,
            StrategyModel::ForwardField(member),
            values,
        ),
{
}

/// A strategy that `resolve` selected to forward gives the tokens of its one
/// field for every value: it never fails for want of the member.
pub proof fn lemma_resolved_forward_derives(
    shape: ShapeModel,
    attributes: Seq<AttributeModel>,
    member: MemberModel,
    values: Seq<Seq<Token>>,
)
    requires
        resolve_model(shape, attributes) == Ok::<StrategyModel, ConfigErrorModel>(
            StrategyModel::ForwardField(member),
        ),
        values.len() == shape.fields().len(),
    ensures
        lookup(shape, member) matches Some(position) && derive_model(
            shape,
            StrategyModel::ForwardField(member),
            values,
        ) == Ok::<Seq<Token>, DeriveErrorModel>(values[position as int]),
{
    lemma_forward_names_a_field(shape, attributes, member);
}

/// The named fields of a constructor stand in the order of their
/// declaration: reading the braces gives each field's name and value back at
/// the field's own position, where no value holds a comma of its own.
pub proof fn lemma_named_fields_keep_declaration_order(
    path: PathModel,
    fields: Seq<FieldModel>,
    values: Seq<Seq<Token>>,
)
    requires
        valid_names(ShapeModel::Named { path, fields }),
        values.len() == fields.len(),
        all_comma_free(values),
    ensures
        derive_model(ShapeModel::Named { path, fields }, StrategyModel::Default, values) == Ok::<
            Seq<Token>,
            DeriveErrorModel,
        >(
            path_tokens(path.segments, path.leading_colons) + group(
                Delimiter::Brace,
                named_arguments(named_values(fields, values)),
            ),
        ),
        closed_items(named_arguments(named_values(fields, values))) == field_labels(
            fields,
            values,
        ),
{
    let entries = named_values(fields, values);
    assert forall|i: int| 0 <= i < entries.len() implies comma_free((#[trigger] entries[i]).1) by {
        assert(comma_free(values[i]));
    }
    lemma_named_arguments_read_back(entries);
    assert(entries.map_values(|entry: (Seq<char>, Seq<Token>)| labelled(entry)) == field_labels(
        fields,
        values,
    ));
}

/// The labels of the named fields of a shape: each field's name and colon
/// in front of its value, in the order of declaration.
pub open spec fn field_labels(fields: Seq<FieldModel>, values: Seq<Seq<Token>>) -> Seq<
    Seq<Token>,
> {
    Seq::new(fields.len(), |i: int| labelled((field_name(fields[i]), values[i])))
}

/// Between the braces of a constructor every named field stands whole at
/// its own place, which is that of its declaration: behind the fields
/// declared before it and in front of those declared after it. This holds
/// whatever the values are.
pub proof fn lemma_named_field_position(
    fields: Seq<FieldModel>,
    values: Seq<Seq<Token>>,
    index: int,
)
    requires
        0 <= index < fields.len(),
    ensures
        named_arguments(named_values(fields, values)).subrange(
            item_start(field_labels(fields, values), index),
            item_start(field_labels(fields, values), index) + field_labels(
                fields,
                values,
            )[index].len(),
        ) == labelled((field_name(fields[index]), values[index])),
        item_start(field_labels(fields, values), index + 1) > item_start(
            field_labels(fields, values),
            index,
        ),
{
    let entries = named_values(fields, values);
    let labels = field_labels(fields, values);
    lemma_named_arguments_are_terminated(entries);
    assert(entries.map_values(|entry: (Seq<char>, Seq<Token>)| labelled(entry)) == labels);
    lemma_item_position(labels, index);
}

/// The positional fields of a constructor stand in the order of their
/// declaration: reading the parentheses gives the values back, where no
/// value holds a comma of its own.
pub proof fn lemma_unnamed_fields_keep_declaration_order(
    path: PathModel,
    fields: Seq<FieldModel>,
    values: Seq<Seq<Token>>,
)
    requires
        valid_names(ShapeModel::Unnamed { path, fields }),
        values.len() == fields.len(),
        all_comma_free(values),
    ensures
        derive_model(ShapeModel::Unnamed { path, fields }, StrategyModel::Default, values) == Ok::<
            Seq<Token>,
            DeriveErrorModel,
        >(
            path_tokens(path.segments, path.leading_colons) + group(
                Delimiter::Parenthesis,
                terminated(values),
            ),
        ),
        closed_items(terminated(values)) == values,
{
    lemma_terminated_read_back(values);
}

} // verus!
