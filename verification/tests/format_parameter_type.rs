use isograph_schema::common::{Location, Span, WithLocation, WithSpan};
use isograph_schema::format_parameter_type::{
    format_field_definition, format_parameter_type, format_readonly_array,
    format_server_field_type, format_type_annotation, indent, is_nullable, Schema,
};
use isograph_schema::graphql_types as graphql;
use isograph_schema::lang_types::{
    DefinedTypeId, ObjectId, ScalarId, ServerFieldId, TypeAnnotation, UnionTypeAnnotation,
    UnionVariant,
};
use isograph_schema::schema::{ConfigOptions, OptionalValidationLevel, UnvalidatedSchema};

fn name(text: &str) -> WithLocation<String> {
    WithLocation { location: Location::Generated, item: text.to_string() }
}

fn written(text: &str) -> graphql::TypeAnnotation<String> {
    graphql::TypeAnnotation::Named(graphql::NamedTypeAnnotation(WithSpan {
        item: text.to_string(),
        span: Span { start: 0, end: 0 },
    }))
}

fn input(text: &str, fields: &[(&str, &str)]) -> graphql::GraphQLTypeSystemDefinition {
    graphql::GraphQLTypeSystemDefinition::InputObjectTypeDefinition(
        graphql::GraphQLInputObjectTypeDefinition {
            description: None,
            name: name(text),
            directives: vec![],
            fields: fields
                .iter()
                .map(|(field, type_)| WithLocation {
                    location: Location::Generated,
                    item: graphql::GraphQLInputValueDefinition {
                        description: None,
                        name: name(field),
                        type_: written(type_),
                        default_value: None,
                        directives: vec![],
                    },
                })
                .collect(),
        },
    )
}

fn scalar(text: &str) -> graphql::GraphQLTypeSystemDefinition {
    graphql::GraphQLTypeSystemDefinition::ScalarTypeDefinition(
        graphql::GraphQLScalarTypeDefinition {
            description: None,
            name: name(text),
            directives: vec![],
        },
    )
}

const FLOAT: DefinedTypeId = DefinedTypeId::Scalar(ScalarId(0));
const POINT: DefinedTypeId = DefinedTypeId::Object(ObjectId(0));
const LINE: DefinedTypeId = DefinedTypeId::Object(ObjectId(1));

fn one(entity: DefinedTypeId) -> TypeAnnotation<DefinedTypeId> {
    TypeAnnotation::Scalar(entity)
}

fn union(variants: Vec<UnionVariant<DefinedTypeId>>, nullable: bool) -> TypeAnnotation<DefinedTypeId> {
    TypeAnnotation::Union(UnionTypeAnnotation { variants, nullable })
}

fn plural(elements: TypeAnnotation<DefinedTypeId>) -> TypeAnnotation<DefinedTypeId> {
    TypeAnnotation::Plural(Box::new(elements))
}

/// `scalar Float`, `input Point { x: Float!, y: Float }`,
/// `input Line { from: Point!, to: [Point] }`.
fn schema() -> Schema {
    let mut registry = UnvalidatedSchema::new();
    registry
        .process_graphql_type_system_document(
            graphql::GraphQLTypeSystemDocument(vec![
                scalar("Float"),
                input("Point", &[("x", "Float"), ("y", "Float")]),
                input("Line", &[("from", "Point"), ("to", "Point")]),
            ]),
            ConfigOptions { on_invalid_id_type: OptionalValidationLevel::Error },
        )
        .unwrap();
    Schema {
        server_field_data: registry,
        field_types: vec![
            one(FLOAT),
            union(vec![UnionVariant::Scalar(FLOAT)], true),
            one(FLOAT),
            one(POINT),
            union(vec![UnionVariant::Plural(one(POINT))], true),
            one(FLOAT),
        ],
    }
}

fn written_id(entity: DefinedTypeId) -> graphql::NamedTypeAnnotation<DefinedTypeId> {
    graphql::NamedTypeAnnotation(WithSpan { item: entity, span: Span { start: 0, end: 0 } })
}

const POINT_TEXT: &str =
    "{\n  readonly x: string,\n  readonly y?: (string | null),\n  readonly typename: string,\n}";

#[test]
fn indentation_is_two_spaces_for_each_level() {
    assert_eq!(indent(0), "");
    assert_eq!(indent(1), "  ");
    assert_eq!(indent(3), "      ");
    assert_eq!(indent(255).len(), 510);
    assert_eq!(format_readonly_array("number"), "ReadonlyArray<number>");
}

#[test]
fn a_scalar_is_its_host_type() {
    let schema = schema();
    assert_eq!(format_server_field_type(&schema, FLOAT, 0), Some("string".to_string()));
    assert_eq!(format_server_field_type(&schema, FLOAT, 255), Some("string".to_string()));
}

#[test]
fn an_object_is_a_block_of_its_fields() {
    let schema = schema();
    assert_eq!(format_server_field_type(&schema, POINT, 0), Some(POINT_TEXT.to_string()));
    assert_eq!(
        format_server_field_type(&schema, POINT, 2),
        Some(
            "{\n      readonly x: string,\n      readonly y?: (string | null),\n      readonly typename: string,\n    }"
                .to_string()
        )
    );
}

#[test]
fn nested_objects_are_indented_by_their_depth() {
    let schema = schema();
    let point_at_three = "{\n        readonly x: string,\n        readonly y?: (string | null),\n        readonly typename: string,\n      }";
    let point_at_four = "{\n          readonly x: string,\n          readonly y?: (string | null),\n          readonly typename: string,\n        }";
    assert_eq!(format_server_field_type(&schema, POINT, 3), Some(point_at_three.to_string()));
    assert_eq!(format_server_field_type(&schema, POINT, 4), Some(point_at_four.to_string()));
    let expected = format!(
        "{{\n  readonly from: {p},\n  readonly to?: (ReadonlyArray<{q}> | null),\n  readonly typename: string,\n}}",
        p = point_at_three,
        q = point_at_four
    );
    assert_eq!(format_server_field_type(&schema, LINE, 0), Some(expected));
}

#[test]
fn a_line_holds_the_name_and_the_type_of_a_field() {
    let schema = schema();
    assert_eq!(
        format_field_definition(&schema, ServerFieldId(0), 0),
        Some("readonly x: string,\n".to_string())
    );
    assert_eq!(
        format_field_definition(&schema, ServerFieldId(1), 2),
        Some("    readonly y?: (string | null),\n".to_string())
    );
    assert_eq!(format_field_definition(&schema, ServerFieldId(6), 0), None);
    assert_eq!(format_field_definition(&schema, ServerFieldId(0), 255), None);
}

#[test]
fn a_parameter_type_is_nullable_unless_written_otherwise() {
    let schema = schema();
    assert_eq!(
        format_parameter_type(&schema, graphql::TypeAnnotation::Named(written_id(FLOAT)), 0),
        Some("string | null | void".to_string())
    );
    assert_eq!(
        format_parameter_type(
            &schema,
            graphql::TypeAnnotation::List(Box::new(graphql::ListTypeAnnotation(
                graphql::TypeAnnotation::NonNull(Box::new(graphql::NonNullTypeAnnotation::Named(
                    written_id(FLOAT)
                )))
            ))),
            0
        ),
        Some("ReadonlyArray<string> | null".to_string())
    );
    assert_eq!(
        format_parameter_type(
            &schema,
            graphql::TypeAnnotation::NonNull(Box::new(graphql::NonNullTypeAnnotation::Named(
                written_id(POINT)
            ))),
            0
        ),
        Some(POINT_TEXT.to_string())
    );
    assert_eq!(
        format_parameter_type(
            &schema,
            graphql::TypeAnnotation::NonNull(Box::new(graphql::NonNullTypeAnnotation::List(
                graphql::ListTypeAnnotation(graphql::TypeAnnotation::Named(written_id(FLOAT)))
            ))),
            0
        ),
        Some("ReadonlyArray<string>".to_string())
    );
    assert_eq!(
        format_parameter_type(
            &schema,
            graphql::TypeAnnotation::Named(written_id(DefinedTypeId::Scalar(ScalarId(9)))),
            0
        ),
        None
    );
}

#[test]
fn a_resolved_type_is_written_by_its_shape() {
    let schema = schema();
    assert_eq!(format_type_annotation(&schema, &one(FLOAT), 0), Some("string".to_string()));
    assert_eq!(
        format_type_annotation(&schema, &union(vec![UnionVariant::Scalar(FLOAT)], false), 0),
        Some("string".to_string())
    );
    assert_eq!(
        format_type_annotation(&schema, &union(vec![UnionVariant::Scalar(FLOAT)], true), 0),
        Some("(string | null)".to_string())
    );
    assert_eq!(
        format_type_annotation(
            &schema,
            &union(
                vec![
                    UnionVariant::Scalar(FLOAT),
                    UnionVariant::Plural(one(FLOAT)),
                    UnionVariant::Scalar(FLOAT)
                ],
                false
            ),
            0
        ),
        Some("(string | ReadonlyArray<string> | string)".to_string())
    );
    assert_eq!(
        format_type_annotation(
            &schema,
            &union(vec![UnionVariant::Plural(plural(one(FLOAT)))], false),
            0
        ),
        Some("ReadonlyArray<string>".to_string())
    );
    assert_eq!(
        format_type_annotation(
            &schema,
            &union(vec![UnionVariant::Plural(plural(one(FLOAT)))], true),
            0
        ),
        Some("(ReadonlyArray<ReadonlyArray<string>> | null)".to_string())
    );
    assert_eq!(
        format_type_annotation(&schema, &plural(plural(one(FLOAT))), 0),
        Some("ReadonlyArray<string>".to_string())
    );
    assert_eq!(format_type_annotation(&schema, &union(vec![], true), 0), None);
    assert_eq!(format_type_annotation(&schema, &plural(union(vec![], false)), 0), None);
    assert_eq!(
        format_type_annotation(&schema, &one(DefinedTypeId::Object(ObjectId(7))), 0),
        None
    );
}

#[test]
fn only_a_union_may_be_null() {
    assert!(is_nullable(&union(vec![UnionVariant::Scalar(FLOAT)], true)));
    assert!(!is_nullable(&union(vec![UnionVariant::Scalar(FLOAT)], false)));
    assert!(!is_nullable(&plural(union(vec![UnionVariant::Scalar(FLOAT)], true))));
    assert!(!is_nullable(&one(FLOAT)));
}

#[test]
fn what_a_type_comes_down_to() {
    assert_eq!(one(FLOAT).inner(), Some(&FLOAT));
    assert_eq!(plural(plural(one(POINT))).inner(), Some(&POINT));
    assert_eq!(
        union(vec![UnionVariant::Plural(one(LINE)), UnionVariant::Scalar(FLOAT)], true).inner(),
        Some(&LINE)
    );
    assert_eq!(union(vec![], false).inner(), None);
    let list = graphql::ListTypeAnnotation(graphql::TypeAnnotation::NonNull(Box::new(
        graphql::NonNullTypeAnnotation::List(graphql::ListTypeAnnotation(
            graphql::TypeAnnotation::Named(written_id(POINT)),
        )),
    )));
    assert_eq!(list.inner(), &POINT);
}

#[test]
fn an_object_that_holds_itself_has_no_text() {
    let mut schema = schema();
    schema.field_types[0] = one(POINT);
    assert_eq!(format_server_field_type(&schema, POINT, 0), None);
    assert_eq!(format_server_field_type(&schema, LINE, 0), None);
    assert_eq!(format_server_field_type(&schema, FLOAT, 0), Some("string".to_string()));
}
