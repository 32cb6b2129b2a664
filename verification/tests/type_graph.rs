use isograph_schema::common::{Location, Span, WithLocation, WithSpan};
use isograph_schema::error::ProcessTypeDefinitionError;
use isograph_schema::graphql_types::{
    ConstantValue, GraphQLDirective, GraphQLDirectiveDefinition, GraphQLEnumDefinition,
    GraphQLInputObjectTypeDefinition, GraphQLInputValueDefinition,
    GraphQLInterfaceTypeDefinition, GraphQLObjectTypeDefinition, GraphQLObjectTypeExtension,
    GraphQLOutputFieldDefinition, GraphQLScalarTypeDefinition, GraphQLTypeSystemDefinition,
    GraphQLTypeSystemDocument, GraphQLTypeSystemExtension, GraphQLTypeSystemExtensionDocument,
    GraphQLTypeSystemExtensionOrDefinition, GraphQLUnionTypeDefinition, ListTypeAnnotation,
    NameValuePair, NamedTypeAnnotation, NonNullTypeAnnotation, TypeAnnotation,
};
use isograph_schema::lang_types::{
    DefinedField, DefinedTypeId, ObjectId, ResolverFieldId, ScalarId, ServerFieldId,
    ServerIdFieldId,
};
use isograph_schema::process_type_definition::{
    count_field_demand, get_field_objects_ids_and_names, get_resolvers_for_schema_object, get_typename_type,
    is_id_type, set_and_validate_id_field, IsographObjectTypeDefinition,
    ProcessGraphQLDocumentOutcome, ProcessObjectTypeDefinitionOutcome, TypeRefinementMap,
};
use isograph_schema::schema::{
    ConfigOptions, OptionalValidationLevel, ResolverActionKind, ResolverVariant, SchemaData,
    SchemaObject, SchemaScalar, UnvalidatedSchema, ValidRefinement,
};

fn at(n: u32) -> Location {
    Location::Embedded { text_source: 7, span: Span { start: n, end: n + 1 } }
}

fn name(text: &str, n: u32) -> WithLocation<String> {
    WithLocation { location: at(n), item: text.to_string() }
}

fn named(text: &str) -> TypeAnnotation<String> {
    TypeAnnotation::Named(NamedTypeAnnotation(WithSpan {
        item: text.to_string(),
        span: Span { start: 0, end: 0 },
    }))
}

fn non_null(text: &str) -> TypeAnnotation<String> {
    TypeAnnotation::NonNull(Box::new(NonNullTypeAnnotation::Named(NamedTypeAnnotation(
        WithSpan { item: text.to_string(), span: Span { start: 0, end: 0 } },
    ))))
}

fn non_null_list(text: &str) -> TypeAnnotation<String> {
    TypeAnnotation::NonNull(Box::new(NonNullTypeAnnotation::List(ListTypeAnnotation(named(
        text,
    )))))
}

fn field(text: &str, type_: TypeAnnotation<String>, n: u32) -> WithLocation<GraphQLOutputFieldDefinition> {
    WithLocation {
        location: at(n),
        item: GraphQLOutputFieldDefinition {
            description: None,
            name: name(text, n + 100),
            type_,
            arguments: vec![],
            directives: vec![],
        },
    }
}

fn directive(text: &str) -> GraphQLDirective {
    GraphQLDirective {
        name: WithSpan { item: text.to_string(), span: Span { start: 1, end: 2 } },
        arguments: vec![NameValuePair {
            name: name("reason", 3),
            value: WithLocation { location: at(4), item: ConstantValue::Boolean(true) },
        }],
    }
}

fn object(
    text: &str,
    n: u32,
    interfaces: &[&str],
    fields: Vec<WithLocation<GraphQLOutputFieldDefinition>>,
) -> GraphQLTypeSystemDefinition {
    GraphQLTypeSystemDefinition::ObjectTypeDefinition(GraphQLObjectTypeDefinition {
        description: None,
        name: name(text, n),
        interfaces: interfaces.iter().map(|i| name(i, n + 50)).collect(),
        directives: vec![],
        fields,
    })
}

fn interface(
    text: &str,
    n: u32,
    fields: Vec<WithLocation<GraphQLOutputFieldDefinition>>,
) -> GraphQLTypeSystemDefinition {
    GraphQLTypeSystemDefinition::InterfaceTypeDefinition(GraphQLInterfaceTypeDefinition {
        description: None,
        name: name(text, n),
        interfaces: vec![],
        directives: vec![],
        fields,
    })
}

fn scalar(text: &str, n: u32) -> GraphQLTypeSystemDefinition {
    GraphQLTypeSystemDefinition::ScalarTypeDefinition(GraphQLScalarTypeDefinition {
        description: None,
        name: name(text, n),
        directives: vec![],
    })
}

fn fatal() -> ConfigOptions {
    ConfigOptions { on_invalid_id_type: OptionalValidationLevel::Error }
}

fn lenient() -> ConfigOptions {
    ConfigOptions { on_invalid_id_type: OptionalValidationLevel::Warn }
}

fn document(definitions: Vec<GraphQLTypeSystemDefinition>) -> GraphQLTypeSystemDocument {
    GraphQLTypeSystemDocument(definitions)
}

fn object_id(schema: &UnvalidatedSchema, text: &str) -> ObjectId {
    match schema.schema_data.lookup(text) {
        Some(DefinedTypeId::Object(id)) => id,
        other => panic!("{} does not resolve to an object: {:?}", text, other),
    }
}

fn extension(
    text: &str,
    n: u32,
    directives: Vec<GraphQLDirective>,
) -> GraphQLTypeSystemExtension {
    GraphQLTypeSystemExtension::ObjectTypeExtension(GraphQLObjectTypeExtension {
        name: name(text, n),
        interfaces: vec![],
        directives,
        fields: vec![],
    })
}

// ----- names are unique -----

#[test]
fn two_objects_of_one_name_are_refused() {
    let mut schema = UnvalidatedSchema::new();
    let result = schema.process_graphql_type_system_document(
        document(vec![
            object("User", 1, &[], vec![field("first", named("String"), 10)]),
            object("User", 2, &[], vec![field("second", named("String"), 20)]),
        ]),
        fatal(),
    );
    let error = result.unwrap_err();
    assert_eq!(error.location, at(2));
    assert_eq!(
        error.item,
        ProcessTypeDefinitionError::DuplicateTypeDefinition {
            type_definition_type: "object",
            name: "User".to_string(),
        }
    );
    assert_eq!(schema.schema_data.objects.len(), 1);
    assert_eq!(schema.schema_data.lookup("User"), Some(DefinedTypeId::Object(ObjectId(0))));
    let user = schema.schema_data.object(ObjectId(0));
    assert_eq!(user.name, name("User", 1));
    assert_eq!(user.server_fields, vec![ServerFieldId(0), ServerFieldId(1)]);
    assert_eq!(schema.fields.len(), 2);
    assert_eq!(schema.fields[0].name.item, "first");
}

#[test]
fn a_scalar_and_an_object_of_one_name_are_refused() {
    let mut schema = UnvalidatedSchema::new();
    let error = schema
        .process_graphql_type_system_document(
            document(vec![scalar("Date", 1), object("Date", 2, &[], vec![])]),
            fatal(),
        )
        .unwrap_err();
    assert_eq!(error.location, at(2));
    assert_eq!(
        error.item,
        ProcessTypeDefinitionError::DuplicateTypeDefinition {
            type_definition_type: "object",
            name: "Date".to_string(),
        }
    );
    assert_eq!(schema.schema_data.lookup("Date"), Some(DefinedTypeId::Scalar(ScalarId(0))));
    assert!(schema.schema_data.objects.is_empty());
    assert!(schema.fields.is_empty());
}

#[test]
fn an_object_and_a_scalar_of_one_name_are_refused() {
    let mut schema = UnvalidatedSchema::new();
    let error = schema
        .process_graphql_type_system_document(
            document(vec![object("Date", 1, &[], vec![]), scalar("Date", 2)]),
            fatal(),
        )
        .unwrap_err();
    assert_eq!(error.location, at(2));
    assert_eq!(
        error.item,
        ProcessTypeDefinitionError::DuplicateTypeDefinition {
            type_definition_type: "scalar",
            name: "Date".to_string(),
        }
    );
    assert_eq!(schema.schema_data.lookup("Date"), Some(DefinedTypeId::Object(ObjectId(0))));
    assert!(schema.schema_data.scalars.is_empty());
}

#[test]
fn a_name_stays_taken_across_documents() {
    let mut schema = UnvalidatedSchema::new();
    schema
        .process_graphql_type_system_document(document(vec![scalar("Date", 1)]), fatal())
        .unwrap();
    let error = schema
        .process_graphql_type_system_document(
            document(vec![
                GraphQLTypeSystemDefinition::EnumDefinition(GraphQLEnumDefinition {
                    description: None,
                    name: name("Date", 9),
                    directives: vec![],
                    enum_value_definitions: vec![],
                }),
            ]),
            fatal(),
        )
        .unwrap_err();
    assert_eq!(error.location, at(9));
    assert_eq!(
        error.item,
        ProcessTypeDefinitionError::DuplicateTypeDefinition {
            type_definition_type: "scalar",
            name: "Date".to_string(),
        }
    );
    assert_eq!(schema.schema_data.scalars.len(), 1);
}

// ----- the field that every object gets -----

#[test]
fn every_object_ends_in_the_typename_field() {
    let mut schema = UnvalidatedSchema::new();
    schema
        .process_graphql_type_system_document(
            document(vec![
                object("User", 1, &[], vec![field("name", named("String"), 10)]),
                interface("Node", 2, vec![]),
                GraphQLTypeSystemDefinition::UnionTypeDefinition(GraphQLUnionTypeDefinition {
                    description: None,
                    name: name("Either", 3),
                    directives: vec![],
                    union_member_types: vec![name("User", 4)],
                }),
            ]),
            fatal(),
        )
        .unwrap();
    assert_eq!(schema.schema_data.objects.len(), 3);
    for object in &schema.schema_data.objects {
        let last = *object.server_fields.last().unwrap();
        let record = &schema.fields[last.0];
        assert_eq!(record.name.item, "typename");
        assert_eq!(record.name.location, Location::Generated);
        assert_eq!(record.associated_data, non_null("String"));
        assert_eq!(record.parent_type_id, object.id);
        assert_eq!(record.id, last);
        assert!(record.arguments.is_empty());
        assert_eq!(record.description, None);
        assert!(object.server_fields.iter().all(|f| f.0 <= last.0));
        assert_eq!(
            object.encountered_fields.get("typename"),
            Some(&DefinedField::ServerField(last))
        );
    }
    assert_eq!(
        schema.schema_data.object(ObjectId(0)).server_fields,
        vec![ServerFieldId(0), ServerFieldId(1)]
    );
    assert_eq!(schema.schema_data.object(ObjectId(1)).server_fields, vec![ServerFieldId(2)]);
    assert_eq!(schema.schema_data.object(ObjectId(2)).server_fields, vec![ServerFieldId(3)]);
}

#[test]
fn a_declared_typename_is_refused() {
    let mut schema = UnvalidatedSchema::new();
    let error = schema
        .process_graphql_type_system_document(
            document(vec![object(
                "User",
                1,
                &[],
                vec![field("name", named("String"), 10), field("typename", non_null("String"), 20)],
            )]),
            fatal(),
        )
        .unwrap_err();
    assert_eq!(error.location, Location::Generated);
    assert_eq!(
        error.item,
        ProcessTypeDefinitionError::TypenameCannotBeDefined { parent_type: "User".to_string() }
    );
    assert!(schema.schema_data.objects.is_empty());
    assert!(schema.fields.is_empty());
    assert_eq!(schema.schema_data.lookup("User"), None);
}

#[test]
fn a_declared_typename_is_refused_on_an_input_object() {
    let mut schema = UnvalidatedSchema::new();
    let error = schema
        .process_graphql_type_system_document(
            document(vec![GraphQLTypeSystemDefinition::InputObjectTypeDefinition(
                GraphQLInputObjectTypeDefinition {
                    description: None,
                    name: name("Filter", 1),
                    directives: vec![],
                    fields: vec![WithLocation {
                        location: at(5),
                        item: GraphQLInputValueDefinition {
                            description: None,
                            name: name("typename", 6),
                            type_: named("String"),
                            default_value: None,
                            directives: vec![],
                        },
                    }],
                },
            )]),
            fatal(),
        )
        .unwrap_err();
    assert_eq!(
        error.item,
        ProcessTypeDefinitionError::TypenameCannotBeDefined { parent_type: "Filter".to_string() }
    );
}

#[test]
fn a_field_declared_twice_is_refused() {
    let mut schema = UnvalidatedSchema::new();
    let error = schema
        .process_graphql_type_system_document(
            document(vec![object(
                "User",
                1,
                &[],
                vec![
                    field("name", named("String"), 10),
                    field("age", named("Int"), 20),
                    field("name", named("Int"), 30),
                ],
            )]),
            fatal(),
        )
        .unwrap_err();
    assert_eq!(error.location, at(130));
    assert_eq!(
        error.item,
        ProcessTypeDefinitionError::DuplicateField {
            field_name: "name".to_string(),
            parent_type: "User".to_string(),
        }
    );
    assert!(schema.schema_data.objects.is_empty());
    assert!(schema.fields.is_empty());
}

#[test]
fn the_first_error_among_the_fields_decides() {
    let mut schema = UnvalidatedSchema::new();
    let error = schema
        .process_graphql_type_system_document(
            document(vec![object(
                "User",
                1,
                &[],
                vec![
                    field("typename", named("String"), 10),
                    field("id", named("String"), 20),
                    field("typename", named("String"), 30),
                ],
            )]),
            fatal(),
        )
        .unwrap_err();
    assert_eq!(error.location, at(20));
    assert_eq!(
        error.item,
        ProcessTypeDefinitionError::IdFieldMustBeNonNullIdType {
            parent_type: "User".to_string(),
            strong_field_name: "id",
        }
    );
}

// ----- the identifier field and the field for refetching -----

#[test]
fn an_identifier_field_brings_a_refetch_field() {
    let mut schema = UnvalidatedSchema::new();
    schema
        .process_graphql_type_system_document(
            document(vec![object(
                "User",
                1,
                &[],
                vec![field("name", named("String"), 10), field("id", non_null("ID"), 20)],
            )]),
            fatal(),
        )
        .unwrap();
    let user = schema.schema_data.object(ObjectId(0));
    assert_eq!(user.id_field, Some(ServerIdFieldId(1)));
    assert_eq!(schema.fields[1].name.item, "id");
    assert_eq!(
        user.server_fields,
        vec![ServerFieldId(0), ServerFieldId(1), ServerFieldId(2)]
    );
    assert_eq!(user.resolvers, vec![ResolverFieldId(0)]);
    assert_eq!(schema.resolvers.len(), 1);
    let refetch = &schema.resolvers[0];
    assert_eq!(refetch.name, "refetch");
    assert_eq!(refetch.id, ResolverFieldId(0));
    assert_eq!(refetch.variant, ResolverVariant::RefetchField);
    assert_eq!(refetch.action_kind, ResolverActionKind::RefetchField);
    assert_eq!(refetch.parent_object_id, ObjectId(0));
    assert_eq!(refetch.description.as_deref(), Some("A refetch field for this object."));
    assert_eq!(refetch.type_and_field.parent_type, "User");
    assert_eq!(refetch.type_and_field.field_name, "refetch");
    let selections = refetch.selection_set.as_ref().unwrap();
    assert_eq!(selections.len(), 1);
    assert_eq!(selections[0].item.name.item, "id");
    assert_eq!(selections[0].item.name.location, Location::Generated);
    assert_eq!(selections[0].item.reader_alias, None);
    assert_eq!(selections[0].item.normalization_alias, None);
    assert_eq!(
        user.encountered_fields.get("refetch"),
        Some(&DefinedField::ResolverField(ResolverFieldId(0)))
    );
    assert_eq!(
        user.encountered_fields.get("id"),
        Some(&DefinedField::ServerField(ServerFieldId(1)))
    );
    assert_eq!(
        user.encountered_fields.get("name"),
        Some(&DefinedField::ServerField(ServerFieldId(0)))
    );
    assert_eq!(user.encountered_fields.len(), 4);
}

#[test]
fn an_object_without_identifier_field_has_no_refetch_field() {
    let mut schema = UnvalidatedSchema::new();
    schema
        .process_graphql_type_system_document(
            document(vec![object("User", 1, &[], vec![field("name", named("String"), 10)])]),
            fatal(),
        )
        .unwrap();
    let user = schema.schema_data.object(ObjectId(0));
    assert_eq!(user.id_field, None);
    assert!(user.resolvers.is_empty());
    assert!(schema.resolvers.is_empty());
    assert_eq!(user.encountered_fields.get("refetch"), None);
    assert_eq!(user.encountered_fields.len(), 2);
}

#[test]
fn an_input_object_has_no_identifier_field() {
    let mut schema = UnvalidatedSchema::new();
    schema
        .process_graphql_type_system_document(
            document(vec![GraphQLTypeSystemDefinition::InputObjectTypeDefinition(
                GraphQLInputObjectTypeDefinition {
                    description: Some(WithSpan {
                        item: "A filter.".to_string(),
                        span: Span { start: 0, end: 9 },
                    }),
                    name: name("Filter", 1),
                    directives: vec![directive("oneOf")],
                    fields: vec![WithLocation {
                        location: at(5),
                        item: GraphQLInputValueDefinition {
                            description: None,
                            name: name("id", 6),
                            type_: named("String"),
                            default_value: None,
                            directives: vec![],
                        },
                    }],
                },
            )]),
            fatal(),
        )
        .unwrap();
    let filter = schema.schema_data.object(ObjectId(0));
    assert_eq!(filter.id_field, None);
    assert!(filter.resolvers.is_empty());
    assert!(schema.resolvers.is_empty());
    assert_eq!(filter.description.as_deref(), Some("A filter."));
    assert_eq!(filter.directives, vec![directive("oneOf")]);
    assert_eq!(filter.server_fields, vec![ServerFieldId(0), ServerFieldId(1)]);
    assert_eq!(schema.fields[0].name, name("id", 6));
    assert_eq!(schema.fields[0].associated_data, named("String"));
    assert!(schema.fields[0].arguments.is_empty());
}

#[test]
fn a_declared_refetch_beside_an_identifier_field_is_refused() {
    let mut schema = UnvalidatedSchema::new();
    let error = schema
        .process_graphql_type_system_document(
            document(vec![object(
                "User",
                1,
                &[],
                vec![field("refetch", named("String"), 10), field("id", non_null("ID"), 20)],
            )]),
            fatal(),
        )
        .unwrap_err();
    assert_eq!(error.location, at(1));
    assert_eq!(
        error.item,
        ProcessTypeDefinitionError::DuplicateField {
            field_name: "refetch".to_string(),
            parent_type: "User".to_string(),
        }
    );
    assert!(schema.schema_data.objects.is_empty());
    assert!(schema.fields.is_empty());
    assert!(schema.resolvers.is_empty());
}

#[test]
fn a_declared_refetch_without_identifier_field_is_a_field() {
    let mut schema = UnvalidatedSchema::new();
    schema
        .process_graphql_type_system_document(
            document(vec![object("User", 1, &[], vec![field("refetch", named("String"), 10)])]),
            fatal(),
        )
        .unwrap();
    let user = schema.schema_data.object(ObjectId(0));
    assert_eq!(
        user.encountered_fields.get("refetch"),
        Some(&DefinedField::ServerField(ServerFieldId(0)))
    );
    assert!(user.resolvers.is_empty());
}

// ----- the strictness of the rule on identifier fields -----

#[test]
fn an_identifier_field_of_another_type_is_fatal_where_the_options_say_so() {
    let mut schema = UnvalidatedSchema::new();
    let error = schema
        .process_graphql_type_system_document(
            document(vec![object("User", 1, &[], vec![field("id", named("String"), 10)])]),
            fatal(),
        )
        .unwrap_err();
    assert_eq!(error.location, at(10));
    assert_eq!(
        error.item,
        ProcessTypeDefinitionError::IdFieldMustBeNonNullIdType {
            parent_type: "User".to_string(),
            strong_field_name: "id",
        }
    );
    assert!(schema.schema_data.objects.is_empty());
    assert_eq!(schema.schema_data.lookup("User"), None);
}

#[test]
fn an_identifier_field_of_another_type_is_accepted_where_the_options_say_so() {
    for level in [OptionalValidationLevel::Warn, OptionalValidationLevel::Ignore] {
        let mut schema = UnvalidatedSchema::new();
        schema
            .process_graphql_type_system_document(
                document(vec![object("User", 1, &[], vec![field("id", named("String"), 10)])]),
                ConfigOptions { on_invalid_id_type: level },
            )
            .unwrap();
        let user = schema.schema_data.object(ObjectId(0));
        assert_eq!(user.id_field, Some(ServerIdFieldId(0)));
        assert_eq!(user.resolvers, vec![ResolverFieldId(0)]);
        assert_eq!(schema.resolvers[0].name, "refetch");
    }
}

#[test]
fn only_the_non_null_identifier_type_passes_the_check() {
    assert!(is_id_type(&non_null("ID")));
    assert!(!is_id_type(&named("ID")));
    assert!(!is_id_type(&non_null("String")));
    assert!(!is_id_type(&non_null_list("ID")));
    assert!(!is_id_type(&TypeAnnotation::List(Box::new(ListTypeAnnotation(non_null("ID"))))));
    for wrong in [named("ID"), non_null("Id"), non_null_list("ID")] {
        let mut schema = UnvalidatedSchema::new();
        let error = schema
            .process_graphql_type_system_document(
                document(vec![interface("Node", 1, vec![field("id", wrong, 10)])]),
                fatal(),
            )
            .unwrap_err();
        assert_eq!(
            error.item,
            ProcessTypeDefinitionError::IdFieldMustBeNonNullIdType {
                parent_type: "Node".to_string(),
                strong_field_name: "id",
            }
        );
    }
}

#[test]
fn set_and_validate_id_field_fills_the_slot_either_way() {
    let declared = field("id", named("String"), 10);
    let mut slot = None;
    let result = set_and_validate_id_field(&mut slot, 41, &declared, "User", fatal());
    assert_eq!(slot, Some(ServerIdFieldId(41)));
    let error = result.unwrap_err();
    assert_eq!(error.location, at(10));
    let mut slot = None;
    assert_eq!(set_and_validate_id_field(&mut slot, 42, &declared, "User", lenient()), Ok(()));
    assert_eq!(slot, Some(ServerIdFieldId(42)));
    let declared = field("id", non_null("ID"), 10);
    let mut slot = None;
    assert_eq!(set_and_validate_id_field(&mut slot, 43, &declared, "User", fatal()), Ok(()));
    assert_eq!(slot, Some(ServerIdFieldId(43)));
}

// ----- edges from subtypes to supertypes -----

#[test]
fn a_supertype_may_be_defined_after_its_subtype() {
    let mut forward = UnvalidatedSchema::new();
    forward
        .process_graphql_type_system_document(
            document(vec![
                object("User", 1, &["Node"], vec![field("id", non_null("ID"), 10)]),
                interface("Node", 2, vec![field("id", non_null("ID"), 20)]),
            ]),
            fatal(),
        )
        .unwrap();
    let mut backward = UnvalidatedSchema::new();
    backward
        .process_graphql_type_system_document(
            document(vec![
                interface("Node", 2, vec![field("id", non_null("ID"), 20)]),
                object("User", 1, &["Node"], vec![field("id", non_null("ID"), 10)]),
            ]),
            fatal(),
        )
        .unwrap();
    for schema in [&forward, &backward] {
        let user = object_id(schema, "User");
        let node = schema.schema_data.object(object_id(schema, "Node"));
        assert_eq!(node.valid_refinements, vec![ValidRefinement { target: user }]);
        assert!(schema.schema_data.object(user).valid_refinements.is_empty());
    }
    assert_eq!(object_id(&forward, "User"), ObjectId(0));
    assert_eq!(object_id(&forward, "Node"), ObjectId(1));
    assert_eq!(object_id(&backward, "User"), ObjectId(1));
    assert_eq!(object_id(&backward, "Node"), ObjectId(0));
}

#[test]
fn edges_are_resolved_in_the_order_of_the_definitions() {
    let mut schema = UnvalidatedSchema::new();
    schema
        .process_graphql_type_system_document(
            document(vec![
                object("Cat", 1, &["Animal", "Pet"], vec![]),
                interface("Pet", 2, vec![]),
                object("Dog", 3, &["Pet", "Animal", "Pet"], vec![]),
                interface("Animal", 4, vec![]),
            ]),
            fatal(),
        )
        .unwrap();
    let cat = ValidRefinement { target: ObjectId(0) };
    let dog = ValidRefinement { target: ObjectId(2) };
    assert_eq!(schema.schema_data.object(ObjectId(3)).valid_refinements, vec![cat, dog]);
    assert_eq!(schema.schema_data.object(ObjectId(1)).valid_refinements, vec![cat, dog, dog]);
}

#[test]
fn a_supertype_that_is_never_defined_is_refused() {
    let mut schema = UnvalidatedSchema::new();
    let error = schema
        .process_graphql_type_system_document(
            document(vec![object("User", 1, &["Ghost"], vec![])]),
            fatal(),
        )
        .unwrap_err();
    assert_eq!(error.location, at(1));
    assert_eq!(
        error.item,
        ProcessTypeDefinitionError::IsographObjectTypeNameNotDefined {
            name: "Ghost".to_string(),
        }
    );
    assert_eq!(schema.schema_data.lookup("User"), Some(DefinedTypeId::Object(ObjectId(0))));
    assert!(schema.schema_data.object(ObjectId(0)).valid_refinements.is_empty());
}

#[test]
fn a_supertype_that_is_a_scalar_is_refused() {
    let mut schema = UnvalidatedSchema::new();
    let error = schema
        .process_graphql_type_system_document(
            document(vec![
                object("User", 1, &["StringLikeScalar"], vec![]),
                scalar("StringLikeScalar", 2),
            ]),
            fatal(),
        )
        .unwrap_err();
    assert_eq!(error.location, at(2));
    assert_eq!(
        error.item,
        ProcessTypeDefinitionError::IsographObjectTypeNameIsScalar {
            name: "StringLikeScalar".to_string(),
            implementing_object: "User".to_string(),
        }
    );
}

#[test]
fn the_entries_before_an_unresolved_supertype_are_resolved() {
    let mut schema = UnvalidatedSchema::new();
    let error = schema
        .process_graphql_type_system_document(
            document(vec![
                interface("Node", 1, vec![]),
                object("User", 2, &["Node", "Ghost"], vec![]),
                object("Page", 3, &["Ghost", "Node"], vec![]),
            ]),
            fatal(),
        )
        .unwrap_err();
    assert_eq!(error.location, at(2));
    assert_eq!(
        error.item,
        ProcessTypeDefinitionError::IsographObjectTypeNameNotDefined {
            name: "Ghost".to_string(),
        }
    );
    assert_eq!(
        schema.schema_data.object(ObjectId(0)).valid_refinements,
        vec![ValidRefinement { target: ObjectId(1) }, ValidRefinement { target: ObjectId(2) }]
    );
}

#[test]
fn the_refinement_map_keeps_one_entry_for_each_supertype() {
    let mut map = TypeRefinementMap::new();
    assert!(map.entries.is_empty());
    let first = WithLocation { location: at(1), item: ObjectId(4) };
    let second = WithLocation { location: at(2), item: ObjectId(5) };
    map.add("Node".to_string(), first);
    map.add("Pet".to_string(), first);
    map.add("Node".to_string(), second);
    map.add("Node".to_string(), first);
    assert_eq!(map.entries.len(), 2);
    assert_eq!(map.entries[0].supertype, "Node");
    assert_eq!(map.entries[0].subtypes, vec![first, second, first]);
    assert_eq!(map.entries[1].supertype, "Pet");
    assert_eq!(map.entries[1].subtypes, vec![first]);
}

// ----- roots -----

#[test]
fn the_roots_are_known_by_their_names() {
    let mut schema = UnvalidatedSchema::new();
    let outcome = schema
        .process_graphql_type_system_document(
            document(vec![
                object("User", 1, &[], vec![]),
                object("Mutation", 2, &[], vec![]),
                object("Query", 3, &[], vec![]),
            ]),
            fatal(),
        )
        .unwrap();
    assert_eq!(outcome, ProcessGraphQLDocumentOutcome { mutation_id: Some(ObjectId(1)) });
    assert_eq!(schema.query_type_id, Some(ObjectId(2)));
    let outcome = schema
        .process_graphql_type_system_document(
            document(vec![object("Page", 4, &[], vec![]), scalar("Mutation2", 5)]),
            fatal(),
        )
        .unwrap();
    assert_eq!(outcome, ProcessGraphQLDocumentOutcome { mutation_id: None });
    assert_eq!(schema.query_type_id, Some(ObjectId(2)));
}

#[test]
fn registering_one_object_reports_its_handle() {
    let mut schema = UnvalidatedSchema::new();
    let mut map = TypeRefinementMap::new();
    let definition = IsographObjectTypeDefinition {
        description: None,
        name: name("Mutation", 1),
        interfaces: vec![name("Root", 2)],
        directives: vec![],
        fields: vec![field("id", non_null("ID"), 10)],
    };
    let outcome = schema
        .process_object_type_definition(definition, &mut map, true, fatal())
        .unwrap();
    assert_eq!(
        outcome,
        ProcessObjectTypeDefinitionOutcome {
            object_id: ObjectId(0),
            mutation_object_id: Some(ObjectId(0)),
        }
    );
    assert_eq!(map.entries.len(), 1);
    assert_eq!(map.entries[0].supertype, "Root");
    assert_eq!(
        map.entries[0].subtypes,
        vec![WithLocation { location: at(1), item: ObjectId(0) }]
    );
    assert_eq!(schema.query_type_id, None);
    let error = schema.resolve_type_refinements(map).unwrap_err();
    assert_eq!(
        error.item,
        ProcessTypeDefinitionError::IsographObjectTypeNameNotDefined { name: "Root".to_string() }
    );
}

// ----- other kinds of definition -----

#[test]
fn enums_are_scalars_and_directive_definitions_are_passed_over() {
    let mut schema = UnvalidatedSchema::new();
    schema
        .process_graphql_type_system_document(
            document(vec![
                GraphQLTypeSystemDefinition::DirectiveDefinition(GraphQLDirectiveDefinition {
                    description: None,
                    name: name("Colour", 1),
                    arguments: vec![],
                    repeatable: false,
                    locations: vec![],
                }),
                GraphQLTypeSystemDefinition::EnumDefinition(GraphQLEnumDefinition {
                    description: Some(WithSpan {
                        item: "A colour.".to_string(),
                        span: Span { start: 3, end: 12 },
                    }),
                    name: name("Colour", 2),
                    directives: vec![],
                    enum_value_definitions: vec![],
                }),
                scalar("Date", 3),
            ]),
            fatal(),
        )
        .unwrap();
    assert_eq!(schema.schema_data.scalars.len(), 2);
    let colour = schema.schema_data.scalar(ScalarId(0));
    assert_eq!(colour.name, name("Colour", 2));
    assert_eq!(colour.id, ScalarId(0));
    assert_eq!(colour.javascript_name, "string");
    assert_eq!(
        colour.description,
        Some(WithSpan { item: "A colour.".to_string(), span: Span { start: 3, end: 12 } })
    );
    assert_eq!(schema.schema_data.lookup("Colour"), Some(DefinedTypeId::Scalar(ScalarId(0))));
    assert_eq!(schema.schema_data.lookup("Date"), Some(DefinedTypeId::Scalar(ScalarId(1))));
    assert_eq!(schema.schema_data.lookup("Missing"), None);
    assert!(schema.schema_data.objects.is_empty());
}

#[test]
fn field_handles_count_up_across_objects() {
    let mut schema = UnvalidatedSchema::new();
    schema
        .process_graphql_type_system_document(
            document(vec![
                object("A", 1, &[], vec![field("x", named("Int"), 10), field("y", named("Int"), 20)]),
                object("B", 2, &[], vec![field("id", non_null("ID"), 30)]),
                object("C", 3, &[], vec![field("id", non_null("ID"), 40), field("z", named("Int"), 50)]),
            ]),
            fatal(),
        )
        .unwrap();
    assert_eq!(schema.fields.len(), 8);
    for (index, record) in schema.fields.iter().enumerate() {
        assert_eq!(record.id, ServerFieldId(index));
    }
    let names: Vec<&str> = schema.fields.iter().map(|f| f.name.item.as_str()).collect();
    assert_eq!(names, vec!["x", "y", "typename", "id", "typename", "id", "z", "typename"]);
    let parents: Vec<usize> = schema.fields.iter().map(|f| f.parent_type_id.0).collect();
    assert_eq!(parents, vec![0, 0, 0, 1, 1, 2, 2, 2]);
    assert_eq!(schema.schema_data.object(ObjectId(1)).id_field, Some(ServerIdFieldId(3)));
    assert_eq!(schema.schema_data.object(ObjectId(2)).id_field, Some(ServerIdFieldId(5)));
    assert_eq!(schema.schema_data.object(ObjectId(1)).resolvers, vec![ResolverFieldId(0)]);
    assert_eq!(schema.schema_data.object(ObjectId(2)).resolvers, vec![ResolverFieldId(1)]);
    assert_eq!(schema.resolvers[1].parent_object_id, ObjectId(2));
    assert_eq!(schema.resolvers[1].type_and_field.parent_type, "C");
}

#[test]
fn the_fields_of_one_object_are_built_off_to_the_side() {
    let outcome = get_field_objects_ids_and_names(
        vec![field("name", named("String"), 10), field("id", non_null("ID"), 20)],
        5,
        ObjectId(3),
        "User",
        true,
        fatal(),
    )
    .unwrap();
    assert_eq!(
        outcome.server_fields,
        vec![ServerFieldId(5), ServerFieldId(6), ServerFieldId(7)]
    );
    assert_eq!(outcome.id_field, Some(ServerIdFieldId(6)));
    assert_eq!(outcome.unvalidated_schema_fields.len(), 3);
    assert_eq!(outcome.unvalidated_schema_fields[0].name, name("name", 110));
    assert_eq!(outcome.unvalidated_schema_fields[0].parent_type_id, ObjectId(3));
    assert_eq!(outcome.unvalidated_schema_fields[2].name.item, "typename");
    assert_eq!(outcome.unvalidated_schema_fields[2].id, ServerFieldId(7));
    assert_eq!(
        outcome.encountered_fields.get("typename"),
        Some(&DefinedField::ServerField(ServerFieldId(7)))
    );
    let without = get_field_objects_ids_and_names(
        vec![field("id", named("Int"), 20)],
        0,
        ObjectId(0),
        "Filter",
        false,
        fatal(),
    )
    .unwrap();
    assert_eq!(without.id_field, None);
    let empty =
        get_field_objects_ids_and_names(vec![], 9, ObjectId(0), "Empty", true, fatal()).unwrap();
    assert_eq!(empty.server_fields, vec![ServerFieldId(9)]);
    assert_eq!(empty.encountered_fields.len(), 1);
}

#[test]
fn the_refetch_field_is_added_only_with_an_identifier_field() {
    let mut resolvers = Vec::new();
    let mut index = get_field_objects_ids_and_names(vec![], 0, ObjectId(0), "User", true, fatal())
        .unwrap()
        .encountered_fields;
    let parent = name("User", 1);
    let ids =
        get_resolvers_for_schema_object(&None, &mut index, &mut resolvers, ObjectId(0), &parent)
            .unwrap();
    assert!(ids.is_empty());
    assert!(resolvers.is_empty());
    assert_eq!(index.len(), 1);
    let ids = get_resolvers_for_schema_object(
        &Some(ServerIdFieldId(0)),
        &mut index,
        &mut resolvers,
        ObjectId(0),
        &parent,
    )
    .unwrap();
    assert_eq!(ids, vec![ResolverFieldId(0)]);
    assert_eq!(resolvers.len(), 1);
    assert_eq!(index.get("refetch"), Some(&DefinedField::ResolverField(ResolverFieldId(0))));
    let error = get_resolvers_for_schema_object(
        &Some(ServerIdFieldId(0)),
        &mut index,
        &mut resolvers,
        ObjectId(0),
        &parent,
    )
    .unwrap_err();
    assert_eq!(error.location, at(1));
    assert_eq!(resolvers.len(), 1);
    assert_eq!(index.len(), 2);
}

#[test]
fn the_typename_type_is_the_non_null_named_type() {
    assert_eq!(get_typename_type("String".to_string()), non_null("String"));
    assert_eq!(non_null("String").inner_non_null_named_type().unwrap().0.item, "String");
    assert_eq!(named("String").inner_non_null_named_type(), None);
    assert_eq!(non_null_list("String").inner_non_null_named_type(), None);
}

// ----- extensions -----

#[test]
fn an_extension_appends_its_directives() {
    let mut schema = UnvalidatedSchema::new();
    schema
        .process_graphql_type_system_document(
            document(vec![
                GraphQLTypeSystemDefinition::ObjectTypeDefinition(GraphQLObjectTypeDefinition {
                    description: None,
                    name: name("User", 1),
                    interfaces: vec![],
                    directives: vec![directive("first")],
                    fields: vec![field("id", non_null("ID"), 10)],
                }),
                object("Page", 2, &[], vec![]),
            ]),
            fatal(),
        )
        .unwrap();
    schema
        .process_graphql_type_system_extension(extension(
            "User",
            5,
            vec![directive("second"), directive("third")],
        ))
        .unwrap();
    let user = schema.schema_data.object(ObjectId(0));
    assert_eq!(
        user.directives,
        vec![directive("first"), directive("second"), directive("third")]
    );
    assert_eq!(user.server_fields, vec![ServerFieldId(0), ServerFieldId(1)]);
    assert_eq!(user.id_field, Some(ServerIdFieldId(0)));
    assert!(schema.schema_data.object(ObjectId(1)).directives.is_empty());
    assert_eq!(schema.schema_data.objects.len(), 2);
    assert_eq!(schema.fields.len(), 3);
}

#[test]
fn an_extension_of_an_unknown_type_is_refused() {
    let mut schema = UnvalidatedSchema::new();
    let error = schema
        .process_graphql_type_system_extension(extension("Ghost", 5, vec![directive("x")]))
        .unwrap_err();
    assert_eq!(error.location, at(5));
    assert_eq!(
        error.item,
        ProcessTypeDefinitionError::TypeExtensionMismatch {
            name: "Ghost".to_string(),
            is_type: "not defined",
            extended_as_type: "an object",
        }
    );
    assert!(schema.schema_data.objects.is_empty());
}

#[test]
fn an_extension_of_a_scalar_is_refused() {
    let mut schema = UnvalidatedSchema::new();
    schema
        .process_graphql_type_system_document(document(vec![scalar("Date", 1)]), fatal())
        .unwrap();
    let error = schema
        .process_graphql_type_system_extension(extension("Date", 5, vec![directive("x")]))
        .unwrap_err();
    assert_eq!(error.location, at(5));
    assert_eq!(
        error.item,
        ProcessTypeDefinitionError::TypeExtensionMismatch {
            name: "Date".to_string(),
            is_type: "a scalar",
            extended_as_type: "an object",
        }
    );
}

#[test]
fn an_extension_with_fields_or_supertypes_is_refused() {
    let mut schema = UnvalidatedSchema::new();
    schema
        .process_graphql_type_system_document(
            document(vec![object("User", 1, &[], vec![])]),
            fatal(),
        )
        .unwrap();
    let error = schema
        .process_graphql_type_system_extension(GraphQLTypeSystemExtension::ObjectTypeExtension(
            GraphQLObjectTypeExtension {
                name: name("User", 5),
                interfaces: vec![name("Node", 6)],
                directives: vec![directive("x")],
                fields: vec![field("age", named("Int"), 7)],
            },
        ))
        .unwrap_err();
    assert_eq!(error.location, at(5));
    assert_eq!(
        error.item,
        ProcessTypeDefinitionError::TypeExtensionMismatch {
            name: "User".to_string(),
            is_type: "an object",
            extended_as_type: "an object with fields",
        }
    );
    let error = schema
        .process_graphql_type_system_extension(GraphQLTypeSystemExtension::ObjectTypeExtension(
            GraphQLObjectTypeExtension {
                name: name("User", 5),
                interfaces: vec![name("Node", 6)],
                directives: vec![directive("x")],
                fields: vec![],
            },
        ))
        .unwrap_err();
    assert_eq!(
        error.item,
        ProcessTypeDefinitionError::TypeExtensionMismatch {
            name: "User".to_string(),
            is_type: "an object",
            extended_as_type: "an object with interfaces",
        }
    );
    assert!(schema.schema_data.object(ObjectId(0)).directives.is_empty());
}

#[test]
fn an_extension_document_registers_its_definitions_first() {
    let mut schema = UnvalidatedSchema::new();
    let outcome = schema
        .process_graphql_type_extension_document(
            GraphQLTypeSystemExtensionDocument(vec![
                GraphQLTypeSystemExtensionOrDefinition::Extension(extension(
                    "Mutation",
                    1,
                    vec![directive("late")],
                )),
                GraphQLTypeSystemExtensionOrDefinition::Definition(object(
                    "User",
                    2,
                    &["Node"],
                    vec![],
                )),
                GraphQLTypeSystemExtensionOrDefinition::Definition(object("Mutation", 3, &[], vec![])),
                GraphQLTypeSystemExtensionOrDefinition::Extension(extension(
                    "User",
                    4,
                    vec![directive("later")],
                )),
                GraphQLTypeSystemExtensionOrDefinition::Definition(interface("Node", 5, vec![])),
            ]),
            fatal(),
        )
        .unwrap();
    assert_eq!(outcome, ProcessGraphQLDocumentOutcome { mutation_id: Some(ObjectId(1)) });
    assert_eq!(schema.schema_data.object(ObjectId(1)).directives, vec![directive("late")]);
    assert_eq!(schema.schema_data.object(ObjectId(0)).directives, vec![directive("later")]);
    assert_eq!(
        schema.schema_data.object(ObjectId(2)).valid_refinements,
        vec![ValidRefinement { target: ObjectId(0) }]
    );
}

#[test]
fn an_extension_document_stops_at_the_first_error() {
    let mut schema = UnvalidatedSchema::new();
    let error = schema
        .process_graphql_type_extension_document(
            GraphQLTypeSystemExtensionDocument(vec![
                GraphQLTypeSystemExtensionOrDefinition::Definition(object("User", 1, &[], vec![])),
                GraphQLTypeSystemExtensionOrDefinition::Extension(extension(
                    "User",
                    2,
                    vec![directive("kept")],
                )),
                GraphQLTypeSystemExtensionOrDefinition::Extension(extension("Ghost", 3, vec![])),
                GraphQLTypeSystemExtensionOrDefinition::Extension(extension(
                    "User",
                    4,
                    vec![directive("lost")],
                )),
            ]),
            fatal(),
        )
        .unwrap_err();
    assert_eq!(error.location, at(3));
    assert_eq!(schema.schema_data.object(ObjectId(0)).directives, vec![directive("kept")]);
    let mut schema = UnvalidatedSchema::new();
    let error = schema
        .process_graphql_type_extension_document(
            GraphQLTypeSystemExtensionDocument(vec![
                GraphQLTypeSystemExtensionOrDefinition::Extension(extension("User", 2, vec![])),
                GraphQLTypeSystemExtensionOrDefinition::Definition(object("User", 1, &["Ghost"], vec![])),
            ]),
            fatal(),
        )
        .unwrap_err();
    assert_eq!(
        error.item,
        ProcessTypeDefinitionError::IsographObjectTypeNameNotDefined { name: "Ghost".to_string() }
    );
}

#[test]
fn a_new_registry_is_empty() {
    let schema = UnvalidatedSchema::new();
    assert!(schema.fields.is_empty());
    assert!(schema.resolvers.is_empty());
    assert!(schema.schema_data.objects.is_empty());
    assert!(schema.schema_data.scalars.is_empty());
    assert_eq!(schema.schema_data.defined_types.len(), 0);
    assert_eq!(schema.query_type_id, None);
    assert_eq!(schema.schema_data.lookup("String"), None);
}

// ----- the operations of the registry -----

#[test]
fn the_registry_hands_out_handles_in_order() {
    let mut schema = UnvalidatedSchema::new();
    let data: &mut SchemaData = &mut schema.schema_data;
    let date = |n: u32, id: usize| SchemaScalar {
        description: None,
        name: name(if n == 2 { "Time" } else { "Date" }, n),
        id: ScalarId(id),
        javascript_name: "string".to_string(),
    };
    assert_eq!(data.register_scalar(date(1, 17)), Ok(ScalarId(0)));
    assert_eq!(data.register_scalar(date(2, 17)), Ok(ScalarId(1)));
    let error = data.register_scalar(date(3, 17)).unwrap_err();
    assert_eq!(error.location, at(3));
    assert_eq!(
        error.item,
        ProcessTypeDefinitionError::DuplicateTypeDefinition {
            type_definition_type: "scalar",
            name: "Date".to_string(),
        }
    );
    assert_eq!(data.scalars.len(), 2);
    assert_eq!(data.scalar(ScalarId(0)).id, ScalarId(0));
    assert_eq!(data.scalar(ScalarId(1)).id, ScalarId(1));
    assert_eq!(data.scalar(ScalarId(1)).name, name("Time", 2));
    assert_eq!(data.lookup("Time"), Some(DefinedTypeId::Scalar(ScalarId(1))));
    assert_eq!(data.defined_types.len(), 2);
}

#[test]
fn an_object_is_registered_under_the_next_handle() {
    let mut schema = UnvalidatedSchema::new();
    schema
        .process_graphql_type_system_document(
            document(vec![object("User", 1, &[], vec![]), scalar("Date", 2)]),
            fatal(),
        )
        .unwrap();
    let record = |text: &str, n: u32| SchemaObject {
        description: Some("An object.".to_string()),
        name: name(text, n),
        id: ObjectId(40),
        server_fields: vec![],
        resolvers: vec![],
        encountered_fields: get_field_objects_ids_and_names(
            vec![],
            0,
            ObjectId(0),
            text,
            true,
            fatal(),
        )
        .unwrap()
        .encountered_fields,
        valid_refinements: vec![],
        id_field: None,
        directives: vec![],
    };
    assert_eq!(schema.schema_data.register_object(record("Page", 3)), Ok(ObjectId(1)));
    assert_eq!(schema.schema_data.object(ObjectId(1)).id, ObjectId(1));
    assert_eq!(schema.schema_data.object(ObjectId(1)).name, name("Page", 3));
    assert_eq!(schema.schema_data.lookup("Page"), Some(DefinedTypeId::Object(ObjectId(1))));
    for taken in ["User", "Date", "Page"] {
        let error = schema.schema_data.register_object(record(taken, 4)).unwrap_err();
        assert_eq!(error.location, at(4));
        assert_eq!(
            error.item,
            ProcessTypeDefinitionError::DuplicateTypeDefinition {
                type_definition_type: "object",
                name: taken.to_string(),
            }
        );
    }
    assert_eq!(schema.schema_data.objects.len(), 2);
    assert_eq!(schema.schema_data.scalars.len(), 1);
}

#[test]
fn the_registry_has_room_for_what_a_handle_can_count() {
    let schema = UnvalidatedSchema::new();
    assert!(schema.has_room_for(&document(vec![])));
    assert!(schema.has_room_for(&document(vec![
        object("User", 1, &[], vec![field("id", non_null("ID"), 10)]),
        scalar("Date", 2),
    ])));
    assert!(schema.has_room_for_extensions(&GraphQLTypeSystemExtensionDocument(vec![
        GraphQLTypeSystemExtensionOrDefinition::Extension(extension("User", 1, vec![])),
        GraphQLTypeSystemExtensionOrDefinition::Definition(object("User", 2, &[], vec![])),
    ])));
    assert_eq!(
        count_field_demand(&object(
            "User",
            1,
            &["Node"],
            vec![field("id", non_null("ID"), 10), field("name", named("String"), 20)]
        )),
        Some(3)
    );
    assert_eq!(count_field_demand(&interface("Node", 1, vec![])), Some(1));
    assert_eq!(count_field_demand(&scalar("Date", 1)), Some(0));
    assert_eq!(
        count_field_demand(&GraphQLTypeSystemDefinition::UnionTypeDefinition(
            GraphQLUnionTypeDefinition {
                description: None,
                name: name("Either", 3),
                directives: vec![],
                union_member_types: vec![name("User", 4), name("Page", 5)],
            }
        )),
        Some(1)
    );
}
