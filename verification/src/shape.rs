//! The shape of a type as its constructor shows it, the markers attached to
//! it, and the strategy that the markers select.

use vstd::prelude::*;

verus! {

/// How a field is referred to: by its name, or by its position among
/// positional fields.
#[derive(Debug, PartialEq, Eq)]
pub enum Member {
    Named(String),
    Unnamed(usize),
}

/// A marker on a type or on a field.
#[derive(Debug, PartialEq, Eq)]
pub enum Attribute {
    /// The item is not meant to be rebuilt: asking for its tokens fails.
    Suppress,
    /// The tokens of the whole value are those of this one field.
    ForwardField(Member),
}

/// The path that names a constructor: a type, or a type and its variant.
#[derive(Debug, PartialEq, Eq)]
pub struct ConstructorPath {
    pub segments: Vec<String>,
    /// Whether the path starts at the root namespace, with `::` in front.
    pub leading_colons: bool,
}

/// One field of a constructor.
#[derive(Debug, PartialEq, Eq)]
pub struct Field {
    pub identity: Member,
    /// The field's type as it was declared.
    pub declared_type: String,
    pub attributes: Vec<Attribute>,
}

/// The fields that a constructor takes, in the order of their declaration.
#[derive(Debug, PartialEq, Eq)]
pub enum Shape {
    Named { path: ConstructorPath, fields: Vec<Field> },
    Unnamed { path: ConstructorPath, fields: Vec<Field> },
    Unit { path: ConstructorPath },
}

/// How the tokens of a value are made.
#[derive(Debug, PartialEq, Eq)]
pub enum Strategy {
    /// The constructor's path and every field.
    Default,
    /// No tokens: asking for them fails.
    Suppress,
    /// The tokens of one field, and nothing around them.
    ForwardField(Member),
}

/// Why no strategy could be selected.
#[derive(Debug, PartialEq, Eq)]
pub enum ConfigError {
    /// A forward marker names a field that the shape does not have.
    MissingMember(Member),
}

/// A `Member`, as contracts see it.
pub enum MemberModel {
    Named(Seq<char>),
    Unnamed(nat),
}

/// An `Attribute`, as contracts see it.
pub enum AttributeModel {
    Suppress,
    ForwardField(MemberModel),
}

/// A `ConstructorPath`, as contracts see it.
pub struct PathModel {
    pub segments: Seq<Seq<char>>,
    pub leading_colons: bool,
}

/// A `Field`, as contracts see it.
pub struct FieldModel {
    pub identity: MemberModel,
    pub declared_type: Seq<char>,
    pub attributes: Seq<AttributeModel>,
}

/// A `Shape`, as contracts see it.
pub enum ShapeModel {
    Named { path: PathModel, fields: Seq<FieldModel> },
    Unnamed { path: PathModel, fields: Seq<FieldModel> },
    Unit { path: PathModel },
}

/// A `Strategy`, as contracts see it.
pub enum StrategyModel {
    Default,
    Suppress,
    ForwardField(MemberModel),
}

/// A `ConfigError`, as contracts see it.
pub enum ConfigErrorModel {
    MissingMember(MemberModel),
}

impl View for Member {
    type V = MemberModel;

    open spec fn view(&self) -> MemberModel {
        match self {
            Member::Named(name) => MemberModel::Named(name@),
            Member::Unnamed(index) => MemberModel::Unnamed(*index as nat),
        }
    }
}

impl View for Attribute {
    type V = AttributeModel;

    open spec fn view(&self) -> AttributeModel {
        match self {
            Attribute::Suppress => AttributeModel::Suppress,
            Attribute::ForwardField(member) => AttributeModel::ForwardField(member@),
        }
    }
}

/// The markers of a list, as contracts see them.
pub open spec fn attribute_models(attributes: Seq<Attribute>) -> Seq<AttributeModel> {
    attributes.map_values(|attribute: Attribute| attribute@)
}

impl View for ConstructorPath {
    type V = PathModel;

    open spec fn view(&self) -> PathModel {
        PathModel {
            segments: self.segments@.map_values(|segment: String| segment@),
            leading_colons: self.leading_colons,
        }
    }
}

impl View for Field {
    type V = FieldModel;

    open spec fn view(&self) -> FieldModel {
        FieldModel {
            identity: self.identity@,
            declared_type: self.declared_type@,
            attributes: attribute_models(self.attributes@),
        }
    }
}

/// The fields of a list, as contracts see them.
pub open spec fn field_models(fields: Seq<Field>) -> Seq<FieldModel> {
    fields.map_values(|field: Field| field@)
}

impl View for Shape {
    type V = ShapeModel;

    open spec fn view(&self) -> ShapeModel {
        match self {
            Shape::Named { path, fields } => ShapeModel::Named {
                path: path@,
                fields: field_models(fields@),
            },
            Shape::Unnamed { path, fields } => ShapeModel::Unnamed {
                path: path@,
                fields: field_models(fields@),
            },
            Shape::Unit { path } => ShapeModel::Unit { path: path@ },
        }
    }
}

impl View for Strategy {
    type V = StrategyModel;

    open spec fn view(&self) -> StrategyModel {
        match self {
            Strategy::Default => StrategyModel::Default,
            Strategy::Suppress => StrategyModel::Suppress,
            Strategy::ForwardField(member) => StrategyModel::ForwardField(member@),
        }
    }
}

impl View for ConfigError {
    type V = ConfigErrorModel;

    open spec fn view(&self) -> ConfigErrorModel {
        match self {
            ConfigError::MissingMember(member) => ConfigErrorModel::MissingMember(member@),
        }
    }
}

impl ShapeModel {
    /// The constructor's path.
    pub open spec fn path(self) -> PathModel {
        match self {
            ShapeModel::Named { path, .. } => path,
            ShapeModel::Unnamed { path, .. } => path,
            ShapeModel::Unit { path } => path,
        }
    }

    /// The fields in the order of their declaration; none for a unit.
    pub open spec fn fields(self) -> Seq<FieldModel> {
        match self {
            ShapeModel::Named { fields, .. } => fields,
            ShapeModel::Unnamed { fields, .. } => fields,
            ShapeModel::Unit { .. } => Seq::empty(),
        }
    }
}

} // verus!
