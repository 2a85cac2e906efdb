//! From the markers on a type to the strategy that makes its tokens.

use vstd::prelude::*;
use crate::shape::{
    attribute_models, field_models, Attribute, AttributeModel, ConfigError, ConfigErrorModel,
    Field, FieldModel, Member, MemberModel, Shape, ShapeModel, Strategy, StrategyModel,
};

verus! {

/// What the name of an attribute asks for.
#[derive(Clone, Copy, Debug, PartialEq, Eq, Structural)]
pub enum Marker {
    /// `panic_on_self_tokenize`: the item is not meant to be rebuilt.
    Suppress,
    /// `self_tokenize_field`: the attribute's argument names the field whose
    /// tokens stand for the whole value.
    ForwardField,
}

/// The marker that an attribute's name stands for, if it is one of the two.
pub open spec fn marker_of(name: Seq<char>) -> Option<Marker> {
    if name == "panic_on_self_tokenize"@ {
        Some(Marker::Suppress)
    } else if name == "self_tokenize_field"@ {
        Some(Marker::ForwardField)
    } else {
        None
    }
}

/// Tells which marker an attribute's name stands for. Any other attribute
/// is none of this library's.
pub fn marker(name: &str) -> (found: Option<Marker>)
    ensures
        found == marker_of(name@),
{
    if same_text(name, "panic_on_self_tokenize") {
        Some(Marker::Suppress)
    } else if same_text(name, "self_tokenize_field") {
        Some(Marker::ForwardField)
    } else {
        None
    }
}

/// A list of markers that holds `Suppress`.
pub open spec fn suppressed(attributes: Seq<AttributeModel>) -> bool {
    attributes.contains(AttributeModel::Suppress)
}

/// A list of fields one of which is marked `Suppress`.
pub open spec fn any_field_suppressed(fields: Seq<FieldModel>) -> bool {
    exists|i: int| 0 <= i < fields.len() && suppressed(#[trigger] fields[i].attributes)
}

/// The member of the first forward marker of a list, if it has one.
pub open spec fn first_forward(attributes: Seq<AttributeModel>) -> Option<MemberModel>
    decreases attributes.len(),
{
    if attributes.len() == 0 {
        None
    } else {
        match attributes[0] {
            AttributeModel::ForwardField(member) => Some(member),
            AttributeModel::Suppress => first_forward(attributes.drop_first()),
        }
    }
}

/// The position of the first field that has the given name, if one has it.
pub open spec fn position_of_name(fields: Seq<FieldModel>, name: Seq<char>) -> Option<nat>
    decreases fields.len(),
{
    if fields.len() == 0 {
        None
    } else if fields[0].identity == MemberModel::Named(name) {
        Some(0)
    } else {
        match position_of_name(fields.drop_first(), name) {
            Some(position) => Some((position + 1) as nat),
            None => None,
        }
    }
}

/// Where a shape holds a member: a name among named fields, a position among
/// positional ones. A unit holds none, and neither kind of shape holds a
/// member of the other kind.
pub open spec fn lookup(shape: ShapeModel, member: MemberModel) -> Option<nat> {
    match (shape, member) {
        (ShapeModel::Named { fields, .. }, MemberModel::Named(name)) => position_of_name(
            fields,
            name,
        ),
        (ShapeModel::Unnamed { fields, .. }, MemberModel::Unnamed(index)) => if index
            < fields.len() {
            Some(index)
        } else {
            None
        },
        _ => None,
    }
}

/// The strategy that the markers select.
///
/// `Suppress` on the type wins over everything else. Without it, the first
/// forward marker decides: its member must be a field of the shape, and the
/// strategy is to forward to that field, unless that field is itself marked
/// `Suppress`. Without a forward marker every field is written, so `Suppress`
/// on any of them suppresses the whole.
pub open spec fn resolve_model(shape: ShapeModel, attributes: Seq<AttributeModel>) -> Result<
    StrategyModel,
    ConfigErrorModel,
> {
    if suppressed(attributes) {
        Ok(StrategyModel::Suppress)
    } else {
        match first_forward(attributes) {
            Some(member) => match lookup(shape, member) {
                Some(position) => if suppressed(shape.fields()[position as int].attributes) {
                    Ok(StrategyModel::Suppress)
                } else {
                    Ok(StrategyModel::ForwardField(member))
                },
                None => Err(ConfigErrorModel::MissingMember(member)),
            },
            None => if any_field_suppressed(shape.fields()) {
                Ok(StrategyModel::Suppress)
            } else {
                Ok(StrategyModel::Default)
            },
        }
    }
}

/// A result of `resolve`, as contracts see it.
pub open spec fn resolution_model(result: Result<Strategy, ConfigError>) -> Result<
    StrategyModel,
    ConfigErrorModel,
> {
    match result {
        Ok(strategy) => Ok(strategy@),
        Err(error) => Err(error@),
    }
}

impl Member {
    /// A member equal to this one.
    pub fn duplicate(&self) -> (copy: Member)
        ensures
            copy@ == self@,
    {
        match self {
            Member::Named(name) => Member::Named(name.clone()),
            Member::Unnamed(index) => Member::Unnamed(*index),
        }
    }
}

impl Shape {
    /// The fields in the order of their declaration; none for a unit.
    pub fn fields(&self) -> (fields: &[Field])
        ensures
            field_models(fields@) == self@.fields(),
    {
        match self {
            Shape::Named { fields, .. } => fields.as_slice(),
            Shape::Unnamed { fields, .. } => fields.as_slice(),
            Shape::Unit { .. } => {
                let none: &[Field] = &[];
                assert(field_models(none@) == Seq::<FieldModel>::empty());
                none
            },
        }
    }

    /// The position of the field that a member refers to, if the shape has it.
    pub fn position(&self, member: &Member) -> (found: Option<usize>)
        ensures
            found matches Some(position) ==> position < self@.fields().len() && lookup(
                self@,
                member@,
            ) == Some(position as nat),
            found is None ==> lookup(self@, member@) is None,
    {
        match (self, member) {
            (Shape::Named { fields, .. }, Member::Named(name)) => named_position(
                fields.as_slice(),
                name.as_str(),
            ),
            (Shape::Unnamed { fields, .. }, Member::Unnamed(index)) => {
                if *index < fields.len() {
                    Some(*index)
                } else {
                    None
                }
            },
            _ => None,
        }
    }
}

/// The position of the first field that has the given name.
fn named_position(fields: &[Field], name: &str) -> (found: Option<usize>)
    ensures
        found matches Some(position) ==> position < fields@.len() && position_of_name(
            field_models(fields@),
            name@,
        ) == Some(position as nat),
        found is None ==> position_of_name(field_models(fields@), name@) is None,
{
    let ghost all = field_models(fields@);
    assert(all.skip(0) == all);
    for idx in 0..fields.len()
        invariant
            all == field_models(fields@),
            position_of_name(all, name@) == match position_of_name(all.skip(idx as int), name@) {
                Some(position) => Some((position + idx) as nat),
                None => None,
            },
    {
        let ghost rest = all.skip(idx as int);
        assert(rest[0] == fields@[idx as int]@);
        assert(rest.drop_first() == all.skip(idx + 1));
        let hit = match &fields[idx].identity {
            Member::Named(other) => same_text(other.as_str(), name),
            Member::Unnamed(_) => false,
        };
        if hit {
            return Some(idx);
        }
    }
    None
}

/// `==` on string slices: whether the two hold the same characters.
#[verifier::external_body]
pub(crate) fn same_text(left: &str, right: &str) -> (same: bool)
    ensures
        same == (left@ == right@),
{
    left == right
}

/// Tells whether a list of markers holds `Suppress`.
pub fn has_suppress(attributes: &[Attribute]) -> (found: bool)
    ensures
        found == suppressed(attribute_models(attributes@)),
{
    let ghost all = attribute_models(attributes@);
    for idx in 0..attributes.len()
        invariant
            all == attribute_models(attributes@),
            forall|i: int| 0 <= i < idx ==> all[i] != AttributeModel::Suppress,
    {
        assert(all[idx as int] == attributes@[idx as int]@);
        match &attributes[idx] {
            Attribute::Suppress => {
                return true;
            },
            Attribute::ForwardField(_) => {},
        }
    }
    false
}

/// The member of the first forward marker of a list, if it has one.
pub fn forwarded_member(attributes: &[Attribute]) -> (found: Option<&Member>)
    ensures
        found matches Some(member) ==> first_forward(attribute_models(attributes@)) == Some(
            member@,
        ),
        found is None ==> first_forward(attribute_models(attributes@)) is None,
{
    let ghost all = attribute_models(attributes@);
    assert(all.skip(0) == all);
    for idx in 0..attributes.len()
        invariant
            all == attribute_models(attributes@),
            first_forward(all) == first_forward(all.skip(idx as int)),
    {
        let ghost rest = all.skip(idx as int);
        assert(rest[0] == attributes@[idx as int]@);
        assert(rest.drop_first() == all.skip(idx + 1));
        match &attributes[idx] {
            Attribute::ForwardField(member) => {
                return Some(member);
            },
            Attribute::Suppress => {},
        }
    }
    None
}

/// Tells whether one of the fields is marked `Suppress`.
pub fn has_suppressed_field(fields: &[Field]) -> (found: bool)
    ensures
        found == any_field_suppressed(field_models(fields@)),
{
    let ghost all = field_models(fields@);
    for idx in 0..fields.len()
        invariant
            all == field_models(fields@),
            forall|i: int| 0 <= i < idx ==> !suppressed(#[trigger] all[i].attributes),
    {
        assert(all[idx as int] == fields@[idx as int]@);
        if has_suppress(fields[idx].attributes.as_slice()) {
            assert(suppressed(all[idx as int].attributes));
            return true;
        }
    }
    false
}

/// Selects the strategy for a shape from the markers on it and on its fields.
pub fn resolve(shape: &Shape, attributes: &[Attribute]) -> (result: Result<Strategy, ConfigError>)
    ensures
        resolution_model(result) == resolve_model(shape@, attribute_models(attributes@)),
{
    if has_suppress(attributes) {
        return Ok(Strategy::Suppress);
    }
    match forwarded_member(attributes) {
        Some(member) => match shape.position(member) {
            Some(position) => {
                let fields = shape.fields();
                assert(field_models(fields@)[position as int] == fields@[position as int]@);
                if has_suppress(fields[position].attributes.as_slice()) {
                    Ok(Strategy::Suppress)
                } else {
                    Ok(Strategy::ForwardField(member.duplicate()))
                }
            },
            None => Err(ConfigError::MissingMember(member.duplicate())),
        },
        None => {
            if has_suppressed_field(shape.fields()) {
                Ok(Strategy::Suppress)
            } else {
                Ok(Strategy::Default)
            }
        },
    }
}

/// `Suppress` on the type selects `Suppress`, whatever the shape is and
/// whatever other markers stand beside it: a forward marker does not count,
/// not even one that names a field which the shape lacks.
pub proof fn lemma_suppress_wins(shape: ShapeModel, attributes: Seq<AttributeModel>)
    requires
        suppressed(attributes),
    ensures
        resolve_model(shape, attributes) == Ok::<StrategyModel, ConfigErrorModel>(
            StrategyModel::Suppress,
        ),
{
}

/// A strategy that forwards names a field that the shape has, and one that
/// is not marked `Suppress`.
pub proof fn lemma_forward_names_a_field(
    shape: ShapeModel,
    attributes: Seq<AttributeModel>,
    member: MemberModel,
)
    requires
        resolve_model(shape, attributes) == Ok::<StrategyModel, ConfigErrorModel>(
            StrategyModel::ForwardField(member),
        ),
    ensures
        lookup(shape, member) matches Some(position) && position < shape.fields().len()
            && !suppressed(shape.fields()[position as int].attributes),
{
    lemma_lookup_in_bounds(shape, member);
}

/// A member that a shape holds is one of its fields.
pub proof fn lemma_lookup_in_bounds(shape: ShapeModel, member: MemberModel)
    ensures
        lookup(shape, member) matches Some(position) ==> position < shape.fields().len(),
{
    match (shape, member) {
        (ShapeModel::Named { fields, .. }, MemberModel::Named(name)) => {
            lemma_position_of_name(fields, name);
        },
        _ => {},
    }
}

/// The position of a name is that of the first field that has it.
pub proof fn lemma_position_of_name(fields: Seq<FieldModel>, name: Seq<char>)
    ensures
        match position_of_name(fields, name) {
            Some(position) => {
                &&& position < fields.len()
                &&& fields[position as int].identity == MemberModel::Named(name)
                &&& forall|i: int|
                    0 <= i < position ==> (#[trigger] fields[i]).identity != MemberModel::Named(
                        name,
                    )
            },
            None => forall|i: int|
                0 <= i < fields.len() ==> (#[trigger] fields[i]).identity != MemberModel::Named(
                    name,
                ),
        },
    decreases fields.len(),
{
    if fields.len() > 0 && fields[0].identity != MemberModel::Named(name) {
        let rest = fields.drop_first();
        lemma_position_of_name(rest, name);
        assert forall|i: int| 1 <= i < fields.len() implies fields[i] == rest[i - 1] by {}
        match position_of_name(rest, name) {
            Some(position) => {
                assert forall|i: int| 0 <= i < position + 1 implies (#[trigger] fields[i]).identity
                    != MemberModel::Named(name) by {
                    if i > 0 {
                        assert(fields[i] == rest[i - 1]);
                    }
                }
            },
            None => {
                assert forall|i: int| 0 <= i < fields.len() implies (#[trigger] fields[i]).identity
                    != MemberModel::Named(name) by {
                    if i > 0 {
                        assert(fields[i] == rest[i - 1]);
                    }
                }
            },
        }
    }
}

} // verus!
