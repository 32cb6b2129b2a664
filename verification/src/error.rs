//! The errors that building the registry can end in.

use vstd::prelude::*;
use crate::common::{WithLocation, WithSpan};
use crate::lang_types::seq_view;

verus! {

/// One entry of a field map: the field that a value is read from, and the
/// argument, with the path below it, that the value is written to.
#[derive(Clone, Debug, PartialEq, Eq)]
pub struct FieldMapItem {
    pub from: String,
    /// What stands before the first dot of the target.
    pub to_argument_name: WithSpan<String>,
    /// What stands after the first dot of the target, split at the dots.
    pub to_field_names: Vec<WithSpan<String>>,
}

/// What a [`FieldMapItem`] stands for in contracts.
pub struct FieldMapItemView {
    pub from: Seq<char>,
    pub to_argument_name: WithSpan<Seq<char>>,
    pub to_field_names: Seq<WithSpan<Seq<char>>>,
}

impl View for FieldMapItem {
    type V = FieldMapItemView;

    open spec fn view(&self) -> FieldMapItemView {
        FieldMapItemView {
            from: self.from@,
            to_argument_name: self.to_argument_name@,
            to_field_names: seq_view(self.to_field_names@),
        }
    }
}

/// Why a definition or an extension was refused.
#[derive(Debug, PartialEq, Eq)]
pub enum ProcessTypeDefinitionError {
    /// A type of this name is registered already.
    DuplicateTypeDefinition { type_definition_type: &'static str, name: String },
    /// The type declares two fields of this name.
    DuplicateField { field_name: String, parent_type: String },
    MutationFieldIsDuplicate { field_name: String, parent_type: String },
    /// A type was named as implemented and never defined.
    IsographObjectTypeNameNotDefined { name: String },
    /// A type was named as implemented and is a scalar.
    IsographObjectTypeNameIsScalar { name: String, implementing_object: String },
    /// The type declares the field that only the registry may add.
    TypenameCannotBeDefined { parent_type: String },
    /// The identifier field is not of the non-null identifier type.
    IdFieldMustBeNonNullIdType { parent_type: String, strong_field_name: &'static str },
    InvalidPrimaryDirectiveArgumentCount,
    MissingPathArg,
    MissingFieldMapArg,
    PathValueShouldBeString,
    InvalidFieldMap,
    InvalidField,
    InvalidMutationField,
    NotAllToFieldsUsed { unused_field_map_items: Vec<FieldMapItem> },
    FieldMapToCannotJustBeADot,
    PrimaryDirectiveArgumentDoesNotExistOnField {
        primary_type_name: String,
        mutation_object_name: String,
        mutation_field_name: String,
        field_name: String,
    },
    PrimaryDirectiveCannotRemapObject { primary_type_name: String, field_name: String },
    PrimaryDirectiveFieldNotFound { primary_type_name: String, field_name: String },
    /// The extension does not fit the type that it names.
    TypeExtensionMismatch {
        name: String,
        is_type: &'static str,
        extended_as_type: &'static str,
    },
}

/// What a [`ProcessTypeDefinitionError`] stands for in contracts.
pub enum ErrorView {
    DuplicateTypeDefinition { type_definition_type: Seq<char>, name: Seq<char> },
    DuplicateField { field_name: Seq<char>, parent_type: Seq<char> },
    MutationFieldIsDuplicate { field_name: Seq<char>, parent_type: Seq<char> },
    IsographObjectTypeNameNotDefined { name: Seq<char> },
    IsographObjectTypeNameIsScalar { name: Seq<char>, implementing_object: Seq<char> },
    TypenameCannotBeDefined { parent_type: Seq<char> },
    IdFieldMustBeNonNullIdType { parent_type: Seq<char>, strong_field_name: Seq<char> },
    InvalidPrimaryDirectiveArgumentCount,
    MissingPathArg,
    MissingFieldMapArg,
    PathValueShouldBeString,
    InvalidFieldMap,
    InvalidField,
    InvalidMutationField,
    NotAllToFieldsUsed { unused_field_map_items: Seq<FieldMapItemView> },
    FieldMapToCannotJustBeADot,
    PrimaryDirectiveArgumentDoesNotExistOnField {
        primary_type_name: Seq<char>,
        mutation_object_name: Seq<char>,
        mutation_field_name: Seq<char>,
        field_name: Seq<char>,
    },
    PrimaryDirectiveCannotRemapObject { primary_type_name: Seq<char>, field_name: Seq<char> },
    PrimaryDirectiveFieldNotFound { primary_type_name: Seq<char>, field_name: Seq<char> },
    TypeExtensionMismatch {
        name: Seq<char>,
        is_type: Seq<char>,
        extended_as_type: Seq<char>,
    },
}

impl View for ProcessTypeDefinitionError {
    type V = ErrorView;

    open spec fn view(&self) -> ErrorView {
        match *self {
            ProcessTypeDefinitionError::DuplicateTypeDefinition {
                type_definition_type,
                name,
            } => ErrorView::DuplicateTypeDefinition {
                type_definition_type: type_definition_type@,
                name: name@,
            },
            ProcessTypeDefinitionError::DuplicateField {
                field_name,
                parent_type,
            } => ErrorView::DuplicateField { field_name: field_name@, parent_type: parent_type@ },
            ProcessTypeDefinitionError::MutationFieldIsDuplicate {
                field_name,
                parent_type,
            } => ErrorView::MutationFieldIsDuplicate {
                field_name: field_name@,
                parent_type: parent_type@,
            },
            ProcessTypeDefinitionError::IsographObjectTypeNameNotDefined {
                name,
            } => ErrorView::IsographObjectTypeNameNotDefined { name: name@ },
            ProcessTypeDefinitionError::IsographObjectTypeNameIsScalar {
                name,
                implementing_object,
            } => ErrorView::IsographObjectTypeNameIsScalar {
                name: name@,
                implementing_object: implementing_object@,
            },
            ProcessTypeDefinitionError::TypenameCannotBeDefined {
                parent_type,
            } => ErrorView::TypenameCannotBeDefined { parent_type: parent_type@ },
            ProcessTypeDefinitionError::IdFieldMustBeNonNullIdType {
                parent_type,
                strong_field_name,
            } => ErrorView::IdFieldMustBeNonNullIdType {
                parent_type: parent_type@,
                strong_field_name: strong_field_name@,
            },
            ProcessTypeDefinitionError::InvalidPrimaryDirectiveArgumentCount => {
                ErrorView::InvalidPrimaryDirectiveArgumentCount
            },
            ProcessTypeDefinitionError::MissingPathArg => ErrorView::MissingPathArg,
            ProcessTypeDefinitionError::MissingFieldMapArg => ErrorView::MissingFieldMapArg,
            ProcessTypeDefinitionError::PathValueShouldBeString => {
                ErrorView::PathValueShouldBeString
            },
            ProcessTypeDefinitionError::InvalidFieldMap => ErrorView::InvalidFieldMap,
            ProcessTypeDefinitionError::InvalidField => ErrorView::InvalidField,
            ProcessTypeDefinitionError::InvalidMutationField => ErrorView::InvalidMutationField,
            ProcessTypeDefinitionError::NotAllToFieldsUsed {
                unused_field_map_items,
            } => ErrorView::NotAllToFieldsUsed {
                unused_field_map_items: seq_view(unused_field_map_items@),
            },
            ProcessTypeDefinitionError::FieldMapToCannotJustBeADot => {
                ErrorView::FieldMapToCannotJustBeADot
            },
            ProcessTypeDefinitionError::PrimaryDirectiveArgumentDoesNotExistOnField {
                primary_type_name,
                mutation_object_name,
                mutation_field_name,
                field_name,
            } => ErrorView::PrimaryDirectiveArgumentDoesNotExistOnField {
                primary_type_name: primary_type_name@,
                mutation_object_name: mutation_object_name@,
                mutation_field_name: mutation_field_name@,
                field_name: field_name@,
            },
            ProcessTypeDefinitionError::PrimaryDirectiveCannotRemapObject {
                primary_type_name,
                field_name,
            } => ErrorView::PrimaryDirectiveCannotRemapObject {
                primary_type_name: primary_type_name@,
                field_name: field_name@,
            },
            ProcessTypeDefinitionError::PrimaryDirectiveFieldNotFound {
                primary_type_name,
                field_name,
            } => ErrorView::PrimaryDirectiveFieldNotFound {
                primary_type_name: primary_type_name@,
                field_name: field_name@,
            },
            ProcessTypeDefinitionError::TypeExtensionMismatch {
                name,
                is_type,
                extended_as_type,
            } => ErrorView::TypeExtensionMismatch {
                name: name@,
                is_type: is_type@,
                extended_as_type: extended_as_type@,
            },
        }
    }
}

/// The names of the first `n` targets, each in single quotes, with a
/// comma and a space between them.
pub open spec fn quoted_targets(items: Seq<FieldMapItemView>, n: int) -> Seq<char>
    decreases n,
{
    if n <= 0 {
        Seq::empty()
    } else if n == 1 {
        "'"@ + items[0].to_argument_name.item + "'"@
    } else {
        quoted_targets(items, n - 1) + ", "@ + "'"@ + items[n - 1].to_argument_name.item + "'"@
    }
}

impl ErrorView {
    /// What the error says to the user.
    pub open spec fn message(self) -> Seq<char> {
        match self {
            ErrorView::DuplicateTypeDefinition { type_definition_type, name } => {
                "Duplicate type definition ("@ + type_definition_type + ") named \""@ + name
                    + "\""@
            },
            ErrorView::DuplicateField { field_name, parent_type } => {
                "Duplicate field named \""@ + field_name + "\" on type \""@ + parent_type + "\""@
            },
            ErrorView::MutationFieldIsDuplicate { field_name, parent_type } => {
                "Due to a mutation, Isograph attempted to create a field named \""@ + field_name
                    + "\" on type \""@ + parent_type
                    + "\", but a field with that name already exists."@
            },
            ErrorView::IsographObjectTypeNameNotDefined { name } => {
                "Type \""@ + name + "\" is never defined."@
            },
            ErrorView::IsographObjectTypeNameIsScalar { name, implementing_object } => {
                "\""@ + implementing_object + "\" attempted to implement \""@ + name
                    + "\". However, \""@ + name
                    + "\" is a scalar, but only other object types can be implemented."@
            },
            ErrorView::TypenameCannotBeDefined { parent_type } => {
                "You cannot manually defined the \"typename\" field, which is defined in \""@
                    + parent_type + "\"."@
            },
            ErrorView::IdFieldMustBeNonNullIdType { parent_type, strong_field_name } => {
                "The "@ + strong_field_name + " field on \""@ + parent_type
                    + "\" must have type \"ID!\"."@
            },
            ErrorView::InvalidPrimaryDirectiveArgumentCount => {
                "The @exposeField directive should have three arguments"@
            },
            ErrorView::MissingPathArg => "The @exposeField directive requires a path argument"@,
            ErrorView::MissingFieldMapArg => {
                "The @exposeField directive requires a field_map argument"@
            },
            ErrorView::PathValueShouldBeString => {
                "The @exposeField directive path argument value should be a string"@
            },
            ErrorView::InvalidFieldMap => "Invalid field_map in @exposeField directive"@,
            ErrorView::InvalidField => "Invalid field in @exposeField directive"@,
            ErrorView::InvalidMutationField => "Invalid mutation field"@,
            ErrorView::NotAllToFieldsUsed { unused_field_map_items } => {
                "Not all fields specified as 'to' fields in the @exposeField directive field_map were found on the mutation field. Unused fields: "@
                    + quoted_targets(unused_field_map_items, unused_field_map_items.len() as int)
            },
            ErrorView::FieldMapToCannotJustBeADot => {
                "In a @exposeField directive's field_map, the to field cannot be just a dot."@
            },
            ErrorView::PrimaryDirectiveArgumentDoesNotExistOnField {
                primary_type_name,
                mutation_object_name,
                mutation_field_name,
                field_name,
            } => {
                "Error when processing @exposeField directive on type `"@ + primary_type_name
                    + "`. The field `"@ + mutation_object_name + "."@ + mutation_field_name
                    + "` does not have argument `"@ + field_name
                    + "`, or it was previously processed by another field_map item."@
            },
            ErrorView::PrimaryDirectiveCannotRemapObject { primary_type_name, field_name } => {
                "Error when processing @exposeField directive on type `"@ + primary_type_name
                    + "`. The field `"@ + field_name
                    + "` is an object, and cannot be remapped. Remap scalars only."@
            },
            ErrorView::PrimaryDirectiveFieldNotFound { primary_type_name, field_name } => {
                "Error when processing @exposeField directive on type `"@ + primary_type_name
                    + "`. The field `"@ + field_name + "` is not found."@
            },
            ErrorView::TypeExtensionMismatch { name, is_type, extended_as_type } => {
                "The type `"@ + name + "` is "@ + is_type + ", but it is being extended as "@
                    + extended_as_type + "."@
            },
        }
    }
}

/// The names of the targets, each in single quotes, with a comma and a
/// space between them.
pub fn quote_targets(items: &Vec<FieldMapItem>) -> (text: String)
    ensures
        text@ == quoted_targets(seq_view(items@), items@.len() as int),
{
    let ghost views = seq_view(items@);
    let mut text = String::new();
    let mut i: usize = 0;
    while i < items.len()
        invariant
            0 <= i <= items@.len(),
            views == seq_view(items@),
            text@ == quoted_targets(views, i as int),
        decreases items@.len() - i,
    {
        assert(views[i as int] == items@[i as int]@);
        if i > 0 {
            text.append(", ");
        }
        text.append("'");
        text.append(items[i].to_argument_name.item.as_str());
        text.append("'");
        i += 1;
        assert(text@ =~= quoted_targets(views, i as int));
    }
    text
}

impl ProcessTypeDefinitionError {
    /// What the error says to the user.
    pub fn message(&self) -> (text: String)
        ensures
            text@ == self@.message(),
    {
        match self {
            ProcessTypeDefinitionError::DuplicateTypeDefinition { type_definition_type, name } => {
                let mut text = String::from_str("Duplicate type definition (");
                text.append(type_definition_type);
                text.append(") named \"");
                text.append(name.as_str());
                text.append("\"");
                text
            },
            ProcessTypeDefinitionError::DuplicateField { field_name, parent_type } => {
                let mut text = String::from_str("Duplicate field named \"");
                text.append(field_name.as_str());
                text.append("\" on type \"");
                text.append(parent_type.as_str());
                text.append("\"");
                text
            },
            ProcessTypeDefinitionError::MutationFieldIsDuplicate { field_name, parent_type } => {
                let mut text = String::from_str(
                    "Due to a mutation, Isograph attempted to create a field named \"",
                );
                text.append(field_name.as_str());
                text.append("\" on type \"");
                text.append(parent_type.as_str());
                text.append("\", but a field with that name already exists.");
                text
            },
            ProcessTypeDefinitionError::IsographObjectTypeNameNotDefined { name } => {
                let mut text = String::from_str("Type \"");
                text.append(name.as_str());
                text.append("\" is never defined.");
                text
            },
            ProcessTypeDefinitionError::IsographObjectTypeNameIsScalar {
                name,
                implementing_object,
            } => {
                let mut text = String::from_str("\"");
                text.append(implementing_object.as_str());
                text.append("\" attempted to implement \"");
                text.append(name.as_str());
                text.append("\". However, \"");
                text.append(name.as_str());
                text.append("\" is a scalar, but only other object types can be implemented.");
                text
            },
            ProcessTypeDefinitionError::TypenameCannotBeDefined { parent_type } => {
                let mut text = String::from_str(
                    "You cannot manually defined the \"typename\" field, which is defined in \"",
                );
                text.append(parent_type.as_str());
                text.append("\".");
                text
            },
            ProcessTypeDefinitionError::IdFieldMustBeNonNullIdType {
                parent_type,
                strong_field_name,
            } => {
                let mut text = String::from_str("The ");
                text.append(strong_field_name);
                text.append(" field on \"");
                text.append(parent_type.as_str());
                text.append("\" must have type \"ID!\".");
                text
            },
            ProcessTypeDefinitionError::InvalidPrimaryDirectiveArgumentCount => String::from_str(
                "The @exposeField directive should have three arguments",
            ),
            ProcessTypeDefinitionError::MissingPathArg => String::from_str(
                "The @exposeField directive requires a path argument",
            ),
            ProcessTypeDefinitionError::MissingFieldMapArg => String::from_str(
                "The @exposeField directive requires a field_map argument",
            ),
            ProcessTypeDefinitionError::PathValueShouldBeString => String::from_str(
                "The @exposeField directive path argument value should be a string",
            ),
            ProcessTypeDefinitionError::InvalidFieldMap => String::from_str(
                "Invalid field_map in @exposeField directive",
            ),
            ProcessTypeDefinitionError::InvalidField => String::from_str(
                "Invalid field in @exposeField directive",
            ),
            ProcessTypeDefinitionError::InvalidMutationField => String::from_str(
                "Invalid mutation field",
            ),
            ProcessTypeDefinitionError::NotAllToFieldsUsed { unused_field_map_items } => {
                let mut text = String::from_str(
                    "Not all fields specified as 'to' fields in the @exposeField directive field_map were found on the mutation field. Unused fields: ",
                );
                let targets = quote_targets(unused_field_map_items);
                text.append(targets.as_str());
                text
            },
            ProcessTypeDefinitionError::FieldMapToCannotJustBeADot => String::from_str(
                "In a @exposeField directive's field_map, the to field cannot be just a dot.",
            ),
            ProcessTypeDefinitionError::PrimaryDirectiveArgumentDoesNotExistOnField {
                primary_type_name,
                mutation_object_name,
                mutation_field_name,
                field_name,
            } => {
                let mut text = String::from_str(
                    "Error when processing @exposeField directive on type `",
                );
                text.append(primary_type_name.as_str());
                text.append("`. The field `");
                text.append(mutation_object_name.as_str());
                text.append(".");
                text.append(mutation_field_name.as_str());
                text.append("` does not have argument `");
                text.append(field_name.as_str());
                text.append("`, or it was previously processed by another field_map item.");
                text
            },
            ProcessTypeDefinitionError::PrimaryDirectiveCannotRemapObject {
                primary_type_name,
                field_name,
            } => {
                let mut text = String::from_str(
                    "Error when processing @exposeField directive on type `",
                );
                text.append(primary_type_name.as_str());
                text.append("`. The field `");
                text.append(field_name.as_str());
                text.append("` is an object, and cannot be remapped. Remap scalars only.");
                text
            },
            ProcessTypeDefinitionError::PrimaryDirectiveFieldNotFound {
                primary_type_name,
                field_name,
            } => {
                let mut text = String::from_str(
                    "Error when processing @exposeField directive on type `",
                );
                text.append(primary_type_name.as_str());
                text.append("`. The field `");
                text.append(field_name.as_str());
                text.append("` is not found.");
                text
            },
            ProcessTypeDefinitionError::TypeExtensionMismatch {
                name,
                is_type,
                extended_as_type,
            } => {
                let mut text = String::from_str("The type `");
                text.append(name.as_str());
                text.append("` is ");
                text.append(is_type);
                text.append(", but it is being extended as ");
                text.append(extended_as_type);
                text.append(".");
                text
            },
        }
    }
}

/// An error with the place in the source that it is about.
pub type LocatedError = WithLocation<ErrorView>;

} // verus!
