//! The shape of the type-system documents that the registry is built from.

use vstd::prelude::*;
use crate::common::{WithLocation, WithSpan};
use crate::lang_types::seq_view;

verus! {

/// A reference to a type by its name.
#[derive(Debug, PartialEq, Eq)]
pub struct NamedTypeAnnotation<T>(pub WithSpan<T>);

/// A list of some type.
#[derive(Debug, PartialEq, Eq)]
pub struct ListTypeAnnotation<T>(pub TypeAnnotation<T>);

/// What stands under a non-null marker.
#[derive(Debug, PartialEq, Eq)]
pub enum NonNullTypeAnnotation<T> {
    Named(NamedTypeAnnotation<T>),
    List(ListTypeAnnotation<T>),
}

/// A type as a field or an argument writes it.
#[derive(Debug, PartialEq, Eq)]
pub enum TypeAnnotation<T> {
    Named(NamedTypeAnnotation<T>),
    List(Box<ListTypeAnnotation<T>>),
    NonNull(Box<NonNullTypeAnnotation<T>>),
}

/// The annotation with each name replaced by its view.
pub open spec fn type_annotation_view<T: View>(t: TypeAnnotation<T>) -> TypeAnnotation<T::V>
    decreases t,
{
    match t {
        TypeAnnotation::Named(n) => TypeAnnotation::Named(NamedTypeAnnotation(n.0@)),
        TypeAnnotation::List(l) => TypeAnnotation::List(
            Box::new(ListTypeAnnotation(type_annotation_view(l.0))),
        ),
        TypeAnnotation::NonNull(nn) => TypeAnnotation::NonNull(
            Box::new(
                match *nn {
                    NonNullTypeAnnotation::Named(n) => NonNullTypeAnnotation::Named(
                        NamedTypeAnnotation(n.0@),
                    ),
                    NonNullTypeAnnotation::List(l) => NonNullTypeAnnotation::List(
                        ListTypeAnnotation(type_annotation_view(l.0)),
                    ),
                },
            ),
        ),
    }
}

impl<T: View> View for TypeAnnotation<T> {
    type V = TypeAnnotation<T::V>;

    open spec fn view(&self) -> TypeAnnotation<T::V> {
        type_annotation_view(*self)
    }
}

/// The name that an annotation comes down to, under all its lists and
/// non-null markers.
pub open spec fn innermost<T>(t: TypeAnnotation<T>) -> T
    decreases t,
{
    match t {
        TypeAnnotation::Named(n) => n.0.item,
        TypeAnnotation::List(l) => innermost(l.0),
        TypeAnnotation::NonNull(nn) => match *nn {
            NonNullTypeAnnotation::Named(n) => n.0.item,
            NonNullTypeAnnotation::List(l) => innermost(l.0),
        },
    }
}

impl<T> ListTypeAnnotation<T> {
    /// The name that the elements of the list come down to.
    pub fn inner(&self) -> (name: &T)
        ensures
            *name == innermost(self.0),
    {
        self.0.inner()
    }
}

impl<T> TypeAnnotation<T> {
    /// The name that the annotation comes down to, under all its lists
    /// and non-null markers.
    pub fn inner(&self) -> (name: &T)
        ensures
            *name == innermost(*self),
        decreases self,
    {
        match self {
            TypeAnnotation::Named(n) => &n.0.item,
            TypeAnnotation::List(l) => l.0.inner(),
            TypeAnnotation::NonNull(nn) => match &**nn {
                NonNullTypeAnnotation::Named(n) => &n.0.item,
                NonNullTypeAnnotation::List(l) => l.0.inner(),
            },
        }
    }

    /// The name under the non-null marker, where the annotation is a
    /// non-null named type.
    pub open spec fn spec_inner_non_null_named_type(&self) -> Option<NamedTypeAnnotation<T>> {
        match *self {
            TypeAnnotation::NonNull(nn) => match *nn {
                NonNullTypeAnnotation::Named(n) => Some(n),
                NonNullTypeAnnotation::List(_) => None,
            },
            _ => None,
        }
    }

    pub fn inner_non_null_named_type(&self) -> (named: Option<&NamedTypeAnnotation<T>>)
        ensures
            named == match self.spec_inner_non_null_named_type() {
                Some(n) => Some(&n),
                None => None,
            },
    {
        match self {
            TypeAnnotation::NonNull(nn) => match &**nn {
                NonNullTypeAnnotation::Named(n) => Some(n),
                NonNullTypeAnnotation::List(_) => None,
            },
            _ => None,
        }
    }
}

/// A constant as a directive's argument or a default value writes it.
#[derive(Debug, PartialEq, Eq)]
pub enum ConstantValue {
    Int(i64),
    Boolean(bool),
    String(String),
    Null,
    Enum(String),
    List(Vec<WithLocation<ConstantValue>>),
    Object(Vec<NameValuePair>),
}

/// One named argument of a directive, or one entry of a constant object.
#[derive(Debug, PartialEq, Eq)]
pub struct NameValuePair {
    pub name: WithLocation<String>,
    pub value: WithLocation<ConstantValue>,
}

/// A directive attached to a definition. The registry carries directives
/// along and never looks inside them.
#[derive(Debug, PartialEq, Eq)]
pub struct GraphQLDirective {
    pub name: WithSpan<String>,
    pub arguments: Vec<NameValuePair>,
}

/// An argument of a field, or a field of an input object.
#[derive(Debug, PartialEq, Eq)]
pub struct GraphQLInputValueDefinition {
    pub description: Option<WithSpan<String>>,
    pub name: WithLocation<String>,
    pub type_: TypeAnnotation<String>,
    pub default_value: Option<WithLocation<ConstantValue>>,
    pub directives: Vec<GraphQLDirective>,
}

/// A field as an object or an interface declares it.
#[derive(Debug, PartialEq, Eq)]
pub struct GraphQLOutputFieldDefinition {
    pub description: Option<WithSpan<String>>,
    pub name: WithLocation<String>,
    pub type_: TypeAnnotation<String>,
    pub arguments: Vec<WithLocation<GraphQLInputValueDefinition>>,
    pub directives: Vec<GraphQLDirective>,
}

/// The view of an optional description.
pub open spec fn description_view(d: Option<WithSpan<String>>) -> Option<WithSpan<Seq<char>>> {
    match d {
        Some(text) => Some(text@),
        None => None,
    }
}

/// The text of an optional description, without its span.
pub open spec fn description_text(d: Option<WithSpan<Seq<char>>>) -> Option<Seq<char>> {
    match d {
        Some(text) => Some(text.item),
        None => None,
    }
}

/// What a declared field stands for in contracts. Arguments and directives
/// are carried as they are.
pub struct OutputFieldView {
    pub description: Option<WithSpan<Seq<char>>>,
    pub name: WithLocation<Seq<char>>,
    pub type_: TypeAnnotation<Seq<char>>,
    pub arguments: Seq<WithLocation<GraphQLInputValueDefinition>>,
    pub directives: Seq<GraphQLDirective>,
}

impl View for GraphQLOutputFieldDefinition {
    type V = OutputFieldView;

    open spec fn view(&self) -> OutputFieldView {
        OutputFieldView {
            description: description_view(self.description),
            name: self.name@,
            type_: self.type_@,
            arguments: self.arguments@,
            directives: self.directives@,
        }
    }
}

/// The declared field that a field of an input object is read as: the
/// same description, name, type and directives, and no arguments.
pub open spec fn input_value_as_field(v: GraphQLInputValueDefinition) -> OutputFieldView {
    OutputFieldView {
        description: description_view(v.description),
        name: v.name@,
        type_: v.type_@,
        arguments: Seq::empty(),
        directives: v.directives@,
    }
}

/// `type Name implements A & B @directive { fields }`
#[derive(Debug, PartialEq, Eq)]
pub struct GraphQLObjectTypeDefinition {
    pub description: Option<WithSpan<String>>,
    pub name: WithLocation<String>,
    pub interfaces: Vec<WithLocation<String>>,
    pub directives: Vec<GraphQLDirective>,
    pub fields: Vec<WithLocation<GraphQLOutputFieldDefinition>>,
}

/// `interface Name implements A & B @directive { fields }`
#[derive(Debug, PartialEq, Eq)]
pub struct GraphQLInterfaceTypeDefinition {
    pub description: Option<WithSpan<String>>,
    pub name: WithLocation<String>,
    pub interfaces: Vec<WithLocation<String>>,
    pub directives: Vec<GraphQLDirective>,
    pub fields: Vec<WithLocation<GraphQLOutputFieldDefinition>>,
}

/// `input Name @directive { fields }`
#[derive(Debug, PartialEq, Eq)]
pub struct GraphQLInputObjectTypeDefinition {
    pub description: Option<WithSpan<String>>,
    pub name: WithLocation<String>,
    pub directives: Vec<GraphQLDirective>,
    pub fields: Vec<WithLocation<GraphQLInputValueDefinition>>,
}

/// `scalar Name @directive`
#[derive(Debug, PartialEq, Eq)]
pub struct GraphQLScalarTypeDefinition {
    pub description: Option<WithSpan<String>>,
    pub name: WithLocation<String>,
    pub directives: Vec<GraphQLDirective>,
}

/// One value of an enum.
#[derive(Debug, PartialEq, Eq)]
pub struct GraphQLEnumValueDefinition {
    pub description: Option<WithSpan<String>>,
    pub value: WithLocation<String>,
    pub directives: Vec<GraphQLDirective>,
}

/// `enum Name @directive { values }`
#[derive(Debug, PartialEq, Eq)]
pub struct GraphQLEnumDefinition {
    pub description: Option<WithSpan<String>>,
    pub name: WithLocation<String>,
    pub directives: Vec<GraphQLDirective>,
    pub enum_value_definitions: Vec<WithLocation<GraphQLEnumValueDefinition>>,
}

/// `union Name @directive = A | B`
#[derive(Debug, PartialEq, Eq)]
pub struct GraphQLUnionTypeDefinition {
    pub description: Option<WithSpan<String>>,
    pub name: WithLocation<String>,
    pub directives: Vec<GraphQLDirective>,
    pub union_member_types: Vec<WithLocation<String>>,
}

/// `directive @name(arguments) repeatable on LOCATIONS`
#[derive(Debug, PartialEq, Eq)]
pub struct GraphQLDirectiveDefinition {
    pub description: Option<WithSpan<String>>,
    pub name: WithLocation<String>,
    pub arguments: Vec<WithLocation<GraphQLInputValueDefinition>>,
    pub repeatable: bool,
    pub locations: Vec<WithSpan<String>>,
}

/// One definition of a type-system document.
#[derive(Debug, PartialEq, Eq)]
pub enum GraphQLTypeSystemDefinition {
    ObjectTypeDefinition(GraphQLObjectTypeDefinition),
    ScalarTypeDefinition(GraphQLScalarTypeDefinition),
    InterfaceTypeDefinition(GraphQLInterfaceTypeDefinition),
    InputObjectTypeDefinition(GraphQLInputObjectTypeDefinition),
    DirectiveDefinition(GraphQLDirectiveDefinition),
    EnumDefinition(GraphQLEnumDefinition),
    UnionTypeDefinition(GraphQLUnionTypeDefinition),
}

/// A type-system document: definitions in the order they were written.
#[derive(Debug, PartialEq, Eq)]
pub struct GraphQLTypeSystemDocument(pub Vec<GraphQLTypeSystemDefinition>);

/// `extend type Name implements A @directive { fields }`
#[derive(Debug, PartialEq, Eq)]
pub struct GraphQLObjectTypeExtension {
    pub name: WithLocation<String>,
    pub interfaces: Vec<WithLocation<String>>,
    pub directives: Vec<GraphQLDirective>,
    pub fields: Vec<WithLocation<GraphQLOutputFieldDefinition>>,
}

/// One extension of a type that a document defined before.
#[derive(Debug, PartialEq, Eq)]
pub enum GraphQLTypeSystemExtension {
    ObjectTypeExtension(GraphQLObjectTypeExtension),
}

/// One item of an extension document.
#[derive(Debug, PartialEq, Eq)]
pub enum GraphQLTypeSystemExtensionOrDefinition {
    Definition(GraphQLTypeSystemDefinition),
    Extension(GraphQLTypeSystemExtension),
}

/// An extension document: definitions and extensions in the order they
/// were written.
#[derive(Debug, PartialEq, Eq)]
pub struct GraphQLTypeSystemExtensionDocument(pub Vec<GraphQLTypeSystemExtensionOrDefinition>);

/// What the definition of an object, an interface, an input object or a
/// union stands for in contracts.
pub struct ObjectDefinitionView {
    pub description: Option<WithSpan<Seq<char>>>,
    pub name: WithLocation<Seq<char>>,
    pub interfaces: Seq<WithLocation<Seq<char>>>,
    pub directives: Seq<GraphQLDirective>,
    pub fields: Seq<WithLocation<OutputFieldView>>,
}

/// What the definition of a scalar or an enum stands for in contracts.
pub struct ScalarDefinitionView {
    pub description: Option<WithSpan<Seq<char>>>,
    pub name: WithLocation<Seq<char>>,
    pub directives: Seq<GraphQLDirective>,
}

impl View for GraphQLObjectTypeDefinition {
    type V = ObjectDefinitionView;

    open spec fn view(&self) -> ObjectDefinitionView {
        ObjectDefinitionView {
            description: description_view(self.description),
            name: self.name@,
            interfaces: seq_view(self.interfaces@),
            directives: self.directives@,
            fields: seq_view(self.fields@),
        }
    }
}

impl View for GraphQLInterfaceTypeDefinition {
    type V = ObjectDefinitionView;

    open spec fn view(&self) -> ObjectDefinitionView {
        ObjectDefinitionView {
            description: description_view(self.description),
            name: self.name@,
            interfaces: seq_view(self.interfaces@),
            directives: self.directives@,
            fields: seq_view(self.fields@),
        }
    }
}

impl View for GraphQLInputObjectTypeDefinition {
    type V = ObjectDefinitionView;

    open spec fn view(&self) -> ObjectDefinitionView {
        ObjectDefinitionView {
            description: description_view(self.description),
            name: self.name@,
            interfaces: Seq::empty(),
            directives: self.directives@,
            fields: Seq::new(
                self.fields@.len(),
                |i: int|
                    WithLocation {
                        location: self.fields@[i].location,
                        item: input_value_as_field(self.fields@[i].item),
                    },
            ),
        }
    }
}

impl View for GraphQLUnionTypeDefinition {
    type V = ObjectDefinitionView;

    open spec fn view(&self) -> ObjectDefinitionView {
        ObjectDefinitionView {
            description: description_view(self.description),
            name: self.name@,
            interfaces: Seq::empty(),
            directives: self.directives@,
            fields: Seq::empty(),
        }
    }
}

impl View for GraphQLScalarTypeDefinition {
    type V = ScalarDefinitionView;

    open spec fn view(&self) -> ScalarDefinitionView {
        ScalarDefinitionView {
            description: description_view(self.description),
            name: self.name@,
            directives: self.directives@,
        }
    }
}

impl View for GraphQLEnumDefinition {
    type V = ScalarDefinitionView;

    open spec fn view(&self) -> ScalarDefinitionView {
        ScalarDefinitionView {
            description: description_view(self.description),
            name: self.name@,
            directives: self.directives@,
        }
    }
}

/// What a definition asks of the registry: an object to register, with or
/// without the right to an identifier field; a scalar to register; or
/// nothing.
pub enum TypeDefinitionView {
    Object { definition: ObjectDefinitionView, may_have_id_field: bool },
    Scalar(ScalarDefinitionView),
    Ignored,
}

impl View for GraphQLTypeSystemDefinition {
    type V = TypeDefinitionView;

    open spec fn view(&self) -> TypeDefinitionView {
        match *self {
            GraphQLTypeSystemDefinition::ObjectTypeDefinition(d) => TypeDefinitionView::Object {
                definition: d@,
                may_have_id_field: true,
            },
            GraphQLTypeSystemDefinition::InterfaceTypeDefinition(d) => TypeDefinitionView::Object {
                definition: d@,
                may_have_id_field: true,
            },
            GraphQLTypeSystemDefinition::InputObjectTypeDefinition(d) => {
                TypeDefinitionView::Object { definition: d@, may_have_id_field: false }
            },
            GraphQLTypeSystemDefinition::UnionTypeDefinition(d) => TypeDefinitionView::Object {
                definition: d@,
                may_have_id_field: true,
            },
            GraphQLTypeSystemDefinition::ScalarTypeDefinition(d) => TypeDefinitionView::Scalar(d@),
            GraphQLTypeSystemDefinition::EnumDefinition(d) => TypeDefinitionView::Scalar(d@),
            GraphQLTypeSystemDefinition::DirectiveDefinition(_) => TypeDefinitionView::Ignored,
        }
    }
}

impl View for GraphQLTypeSystemDocument {
    type V = Seq<TypeDefinitionView>;

    open spec fn view(&self) -> Seq<TypeDefinitionView> {
        seq_view(self.0@)
    }
}

/// What an extension of an object stands for in contracts.
pub struct ObjectExtensionView {
    pub name: WithLocation<Seq<char>>,
    pub interfaces: Seq<WithLocation<Seq<char>>>,
    pub directives: Seq<GraphQLDirective>,
    pub fields: Seq<WithLocation<OutputFieldView>>,
}

impl View for GraphQLObjectTypeExtension {
    type V = ObjectExtensionView;

    open spec fn view(&self) -> ObjectExtensionView {
        ObjectExtensionView {
            name: self.name@,
            interfaces: seq_view(self.interfaces@),
            directives: self.directives@,
            fields: seq_view(self.fields@),
        }
    }
}

impl View for GraphQLTypeSystemExtension {
    type V = ObjectExtensionView;

    open spec fn view(&self) -> ObjectExtensionView {
        match *self {
            GraphQLTypeSystemExtension::ObjectTypeExtension(extension) => extension@,
        }
    }
}

/// What one item of an extension document stands for in contracts.
pub enum ExtensionOrDefinitionView {
    Definition(TypeDefinitionView),
    Extension(ObjectExtensionView),
}

impl View for GraphQLTypeSystemExtensionOrDefinition {
    type V = ExtensionOrDefinitionView;

    open spec fn view(&self) -> ExtensionOrDefinitionView {
        match *self {
            GraphQLTypeSystemExtensionOrDefinition::Definition(definition) => {
                ExtensionOrDefinitionView::Definition(definition@)
            },
            GraphQLTypeSystemExtensionOrDefinition::Extension(extension) => {
                ExtensionOrDefinitionView::Extension(extension@)
            },
        }
    }
}

impl View for GraphQLTypeSystemExtensionDocument {
    type V = Seq<ExtensionOrDefinitionView>;

    open spec fn view(&self) -> Seq<ExtensionOrDefinitionView> {
        seq_view(self.0@)
    }
}

} // verus!
