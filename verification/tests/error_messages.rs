use isograph_schema::common::{Span, WithSpan};
use isograph_schema::error::{quote_targets, FieldMapItem, ProcessTypeDefinitionError};
use isograph_schema::peekable_lexer::{IsographLangTokenKind, LowLevelParseError};

fn item(target: &str) -> FieldMapItem {
    FieldMapItem {
        from: "from".to_string(),
        to_argument_name: WithSpan { item: target.to_string(), span: Span { start: 0, end: 1 } },
        to_field_names: vec![],
    }
}

#[test]
fn the_errors_of_the_registry_read_as_sentences() {
    assert_eq!(
        ProcessTypeDefinitionError::DuplicateTypeDefinition {
            type_definition_type: "object",
            name: "User".to_string(),
        }
        .message(),
        "Duplicate type definition (object) named \"User\""
    );
    assert_eq!(
        ProcessTypeDefinitionError::DuplicateField {
            field_name: "name".to_string(),
            parent_type: "User".to_string(),
        }
        .message(),
        "Duplicate field named \"name\" on type \"User\""
    );
    assert_eq!(
        ProcessTypeDefinitionError::MutationFieldIsDuplicate {
            field_name: "set".to_string(),
            parent_type: "User".to_string(),
        }
        .message(),
        "Due to a mutation, Isograph attempted to create a field named \"set\" on type \"User\", but a field with that name already exists."
    );
    assert_eq!(
        ProcessTypeDefinitionError::IsographObjectTypeNameNotDefined { name: "Ghost".to_string() }
            .message(),
        "Type \"Ghost\" is never defined."
    );
    assert_eq!(
        ProcessTypeDefinitionError::IsographObjectTypeNameIsScalar {
            name: "Date".to_string(),
            implementing_object: "User".to_string(),
        }
        .message(),
        "\"User\" attempted to implement \"Date\". However, \"Date\" is a scalar, but only other object types can be implemented."
    );
    assert_eq!(
        ProcessTypeDefinitionError::TypenameCannotBeDefined { parent_type: "User".to_string() }
            .message(),
        "You cannot manually defined the \"typename\" field, which is defined in \"User\"."
    );
    assert_eq!(
        ProcessTypeDefinitionError::IdFieldMustBeNonNullIdType {
            parent_type: "User".to_string(),
            strong_field_name: "id",
        }
        .message(),
        "The id field on \"User\" must have type \"ID!\"."
    );
    assert_eq!(
        ProcessTypeDefinitionError::TypeExtensionMismatch {
            name: "Date".to_string(),
            is_type: "a scalar",
            extended_as_type: "an object",
        }
        .message(),
        "The type `Date` is a scalar, but it is being extended as an object."
    );
}

#[test]
fn the_errors_of_directives_read_as_sentences() {
    assert_eq!(
        ProcessTypeDefinitionError::InvalidPrimaryDirectiveArgumentCount.message(),
        "The @exposeField directive should have three arguments"
    );
    assert_eq!(
        ProcessTypeDefinitionError::MissingPathArg.message(),
        "The @exposeField directive requires a path argument"
    );
    assert_eq!(
        ProcessTypeDefinitionError::MissingFieldMapArg.message(),
        "The @exposeField directive requires a field_map argument"
    );
    assert_eq!(
        ProcessTypeDefinitionError::PathValueShouldBeString.message(),
        "The @exposeField directive path argument value should be a string"
    );
    assert_eq!(
        ProcessTypeDefinitionError::InvalidFieldMap.message(),
        "Invalid field_map in @exposeField directive"
    );
    assert_eq!(
        ProcessTypeDefinitionError::InvalidField.message(),
        "Invalid field in @exposeField directive"
    );
    assert_eq!(
        ProcessTypeDefinitionError::InvalidMutationField.message(),
        "Invalid mutation field"
    );
    assert_eq!(
        ProcessTypeDefinitionError::FieldMapToCannotJustBeADot.message(),
        "In a @exposeField directive's field_map, the to field cannot be just a dot."
    );
    assert_eq!(
        ProcessTypeDefinitionError::NotAllToFieldsUsed {
            unused_field_map_items: vec![item("a"), item("bc"), item("d")],
        }
        .message(),
        "Not all fields specified as 'to' fields in the @exposeField directive field_map were found on the mutation field. Unused fields: 'a', 'bc', 'd'"
    );
    assert_eq!(
        ProcessTypeDefinitionError::PrimaryDirectiveArgumentDoesNotExistOnField {
            primary_type_name: "User".to_string(),
            mutation_object_name: "Mutation".to_string(),
            mutation_field_name: "rename".to_string(),
            field_name: "name".to_string(),
        }
        .message(),
        "Error when processing @exposeField directive on type `User`. The field `Mutation.rename` does not have argument `name`, or it was previously processed by another field_map item."
    );
    assert_eq!(
        ProcessTypeDefinitionError::PrimaryDirectiveCannotRemapObject {
            primary_type_name: "User".to_string(),
            field_name: "friend".to_string(),
        }
        .message(),
        "Error when processing @exposeField directive on type `User`. The field `friend` is an object, and cannot be remapped. Remap scalars only."
    );
    assert_eq!(
        ProcessTypeDefinitionError::PrimaryDirectiveFieldNotFound {
            primary_type_name: "User".to_string(),
            field_name: "friend".to_string(),
        }
        .message(),
        "Error when processing @exposeField directive on type `User`. The field `friend` is not found."
    );
}

#[test]
fn targets_are_quoted_and_joined() {
    assert_eq!(quote_targets(&vec![]), "");
    assert_eq!(quote_targets(&vec![item("only")]), "'only'");
    assert_eq!(quote_targets(&vec![item("a"), item("b")]), "'a', 'b'");
}

#[test]
fn the_errors_of_the_lexer_read_as_sentences() {
    assert_eq!(
        LowLevelParseError::ParseTokenKindError {
            expected_kind: IsographLangTokenKind::OpenBrace,
            found_kind: IsographLangTokenKind::EndOfFile,
        }
        .message(),
        "Expected open brace ('{'), found end of file."
    );
    assert_eq!(
        LowLevelParseError::ParseMatchingIdentifierError {
            expected_identifier: "field",
            found_text: "pointer".to_string(),
        }
        .message(),
        "Expected field, found \"pointer\""
    );
    assert_eq!(IsographLangTokenKind::Identifier.description(), "non-variable identifier (e.g. 'x' or 'Foo')");
    assert_eq!(IsographLangTokenKind::StringLiteral.description(), "string literal (e.g. '\"...\"')");
}
