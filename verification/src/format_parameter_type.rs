//! The text of a parameter type in the host language, read off a finished
//! registry whose field types are resolved.

use vstd::prelude::*;
use crate::graphql_types::{NonNullTypeAnnotation, innermost};
use crate::lang_types::{
    DefinedTypeId, ServerFieldId, TypeAnnotation, UnionVariant, innermost_type, opt_view,
};
use crate::schema::{SchemaView, UnvalidatedSchema};

verus! {

/// A finished registry together with the resolved type of each of its
/// fields, by the handle of the field.
pub struct Schema {
    pub server_field_data: UnvalidatedSchema,
    pub field_types: Vec<TypeAnnotation<DefinedTypeId>>,
}

/// What a [`Schema`] stands for in contracts.
pub struct ResolvedSchemaView {
    pub registry: SchemaView,
    pub field_types: Seq<TypeAnnotation<DefinedTypeId>>,
}

impl View for Schema {
    type V = ResolvedSchemaView;

    open spec fn view(&self) -> ResolvedSchemaView {
        ResolvedSchemaView { registry: self.server_field_data@, field_types: self.field_types@ }
    }
}

/// Two spaces for each level.
pub open spec fn indentation(level: nat) -> Seq<char>
    decreases level,
{
    if level == 0 {
        Seq::empty()
    } else {
        indentation((level - 1) as nat) + "  "@
    }
}

/// The text of a list of `element`.
pub open spec fn readonly_array(element: Seq<char>) -> Seq<char> {
    "ReadonlyArray<"@ + element + ">"@
}

/// The text of a type of the registry at a level of indentation: for a
/// scalar, the host type that it maps to; for an object, a block with one
/// line for each of its fields, one level deeper. There is no text where
/// the handle leads nowhere, or where the levels run out.
pub open spec fn server_field_type_text(s: ResolvedSchemaView, entity: DefinedTypeId, level: int)
    -> Option<Seq<char>>
    decreases 256 - level, 3int, 0int,
{
    match entity {
        DefinedTypeId::Scalar(id) => if id.0 < s.registry.scalars.len() {
            Some(s.registry.scalars[id.0 as int].javascript_name)
        } else {
            None
        },
        DefinedTypeId::Object(id) => if id.0 < s.registry.objects.len() && 0 <= level < 255 {
            let fields = s.registry.objects[id.0 as int].server_fields;
            match field_definitions_text(s, fields, fields.len() as int, level + 1) {
                Some(body) => Some("{\n"@ + body + indentation(level as nat) + "}"@),
                None => None,
            }
        } else {
            None
        },
    }
}

/// The lines of the first `n` of `fields`, in order.
pub open spec fn field_definitions_text(
    s: ResolvedSchemaView,
    fields: Seq<ServerFieldId>,
    n: int,
    level: int,
) -> Option<Seq<char>>
    decreases 256 - level, 2int, n,
{
    if n <= 0 {
        Some(Seq::empty())
    } else {
        match (
            field_definitions_text(s, fields, n - 1, level),
            field_definition_text(s, fields[n - 1], level),
        ) {
            (Some(before), Some(line)) => Some(before + line),
            _ => None,
        }
    }
}

/// The line of one field: its name, a question mark if it may be null,
/// and its type, one level deeper.
pub open spec fn field_definition_text(s: ResolvedSchemaView, field: ServerFieldId, level: int)
    -> Option<Seq<char>>
    decreases 256 - level, 1int, 0int,
{
    if field.0 < s.registry.fields.len() && field.0 < s.field_types.len() && 0 <= level < 255 {
        let annotation = s.field_types[field.0 as int];
        match type_annotation_text(s, annotation, level + 1) {
            Some(text) => Some(
                indentation(level as nat) + "readonly "@
                    + s.registry.fields[field.0 as int].name.item + (if annotation.spec_is_nullable(
                ) {
                    "?"@
                } else {
                    Seq::empty()
                }) + ": "@ + text + ",\n"@,
            ),
            None => None,
        }
    } else {
        None
    }
}

/// The text of what a resolved type comes down to, one level deeper.
pub open spec fn innermost_text(
    s: ResolvedSchemaView,
    annotation: TypeAnnotation<DefinedTypeId>,
    level: int,
) -> Option<Seq<char>>
    decreases 256 - level, 0int, 0int,
{
    match innermost_type(annotation) {
        Some(entity) => if 0 <= level < 255 {
            server_field_type_text(s, entity, level + 1)
        } else {
            None
        },
        None => None,
    }
}

/// The text of one of the types of a union, one level deeper.
pub open spec fn variant_text(
    s: ResolvedSchemaView,
    variant: UnionVariant<DefinedTypeId>,
    level: int,
) -> Option<Seq<char>>
    decreases 256 - level, 0int, 0int,
{
    if 0 <= level < 255 {
        match variant {
            UnionVariant::Scalar(entity) => server_field_type_text(s, entity, level + 1),
            UnionVariant::Plural(annotation) => match type_annotation_text(
                s,
                annotation,
                level + 1,
            ) {
                Some(text) => Some(readonly_array(text)),
                None => None,
            },
        }
    } else {
        None
    }
}

/// The texts of the first `n` types of a union, with a bar between them.
pub open spec fn variants_text(
    s: ResolvedSchemaView,
    variants: Seq<UnionVariant<DefinedTypeId>>,
    n: int,
    level: int,
) -> Option<Seq<char>>
    decreases 256 - level, 1int, n,
{
    if n <= 0 {
        Some(Seq::empty())
    } else {
        match (variants_text(s, variants, n - 1, level), variant_text(s, variants[n - 1], level)) {
            (Some(before), Some(text)) => Some(
                before + (if n > 1 {
                    " | "@
                } else {
                    Seq::empty()
                }) + text,
            ),
            _ => None,
        }
    }
}

/// The text of a resolved type. A union of several types, or one that may
/// be null, stands in parentheses, with a bar between its types and null
/// last; a union of one type is that type. A list is a list of what its
/// elements come down to. A union of no types has no text.
pub open spec fn type_annotation_text(
    s: ResolvedSchemaView,
    annotation: TypeAnnotation<DefinedTypeId>,
    level: int,
) -> Option<Seq<char>>
    decreases 256 - level, 2int, 0int,
{
    match annotation {
        TypeAnnotation::Scalar(entity) => if 0 <= level < 255 {
            server_field_type_text(s, entity, level + 1)
        } else {
            None
        },
        TypeAnnotation::Union(union) => if union.variants@.len() == 0 {
            None
        } else if union.variants@.len() > 1 || union.nullable {
            match variants_text(s, union.variants@, union.variants@.len() as int, level) {
                Some(text) => Some(
                    "("@ + text + (if union.nullable {
                        " | null"@
                    } else {
                        Seq::empty()
                    }) + ")"@,
                ),
                None => None,
            }
        } else {
            match union.variants@[0] {
                UnionVariant::Scalar(entity) => if 0 <= level < 255 {
                    server_field_type_text(s, entity, level + 1)
                } else {
                    None
                },
                UnionVariant::Plural(elements) => match innermost_text(s, elements, level) {
                    Some(text) => Some(readonly_array(text)),
                    None => None,
                },
            }
        },
        TypeAnnotation::Plural(elements) => match innermost_text(s, *elements, level) {
            Some(text) => Some(readonly_array(text)),
            None => None,
        },
    }
}

/// The text of the type of a parameter, as it was written: what the type
/// comes down to, as a list if it was written as one, and with null and
/// void beside it unless it was written as not null.
pub open spec fn parameter_type_text(
    s: ResolvedSchemaView,
    type_: crate::graphql_types::TypeAnnotation<DefinedTypeId>,
    level: int,
) -> Option<Seq<char>> {
    match type_ {
        crate::graphql_types::TypeAnnotation::Named(named) => match server_field_type_text(
            s,
            named.0.item,
            level,
        ) {
            Some(text) => Some(text + " | null | void"@),
            None => None,
        },
        crate::graphql_types::TypeAnnotation::List(list) => match server_field_type_text(
            s,
            innermost(list.0),
            level,
        ) {
            Some(text) => Some(readonly_array(text) + " | null"@),
            None => None,
        },
        crate::graphql_types::TypeAnnotation::NonNull(non_null) => match *non_null {
            NonNullTypeAnnotation::Named(named) => server_field_type_text(s, named.0.item, level),
            NonNullTypeAnnotation::List(list) => match server_field_type_text(
                s,
                innermost(list.0),
                level,
            ) {
                Some(text) => Some(readonly_array(text)),
                None => None,
            },
        },
    }
}

/// Two spaces for each level.
pub fn indent(level: u8) -> (text: String)
    ensures
        text@ == indentation(level as nat),
{
    let mut text = String::new();
    let mut i: u8 = 0;
    while i < level
        invariant
            i <= level,
            text@ == indentation(i as nat),
        decreases level - i,
    {
        text.append("  ");
        i += 1;
    }
    text
}

/// The text of a list of `element`.
pub fn format_readonly_array(element: &str) -> (text: String)
    ensures
        text@ == readonly_array(element@),
{
    let mut text = String::from_str("ReadonlyArray<");
    text.append(element);
    text.append(">");
    text
}

/// The text of the type of a parameter. Nothing is returned where a
/// handle leads nowhere, where a union has no types, or where the levels
/// of indentation run out.
pub fn format_parameter_type(
    schema: &Schema,
    type_: crate::graphql_types::TypeAnnotation<DefinedTypeId>,
    indentation_level: u8,
) -> (text: Option<String>)
    ensures
        opt_view(text) == parameter_type_text(schema@, type_, indentation_level as int),
{
    match type_ {
        crate::graphql_types::TypeAnnotation::Named(named_inner_type) => {
            match format_server_field_type(schema, named_inner_type.0.item, indentation_level) {
                Some(mut text) => {
                    text.append(" | null | void");
                    Some(text)
                },
                None => None,
            }
        },
        crate::graphql_types::TypeAnnotation::List(list) => {
            match format_server_field_type(schema, *list.inner(), indentation_level) {
                Some(element) => {
                    let mut text = format_readonly_array(element.as_str());
                    text.append(" | null");
                    Some(text)
                },
                None => None,
            }
        },
        crate::graphql_types::TypeAnnotation::NonNull(non_null) => match *non_null {
            NonNullTypeAnnotation::Named(named_inner_type) => format_server_field_type(
                schema,
                named_inner_type.0.item,
                indentation_level,
            ),
            NonNullTypeAnnotation::List(list) => {
                match format_server_field_type(schema, *list.inner(), indentation_level) {
                    Some(element) => Some(format_readonly_array(element.as_str())),
                    None => None,
                }
            },
        },
    }
}

/// The text of a type of the registry: for a scalar, the host type that
/// it maps to; for an object, a block with one line for each of its
/// fields.
pub fn format_server_field_type(schema: &Schema, field: DefinedTypeId, indentation_level: u8)
    -> (text: Option<String>)
    ensures
        opt_view(text) == server_field_type_text(schema@, field, indentation_level as int),
    decreases 256 - indentation_level, 3int, 0int,
{
    match field {
        DefinedTypeId::Object(object_id) => {
            if object_id.0 >= schema.server_field_data.schema_data.objects.len()
                || indentation_level == 255 {
                return None;
            }
            let object = &schema.server_field_data.schema_data.objects[object_id.0];
            let ghost fields = object.server_fields@;
            assert(schema@.registry.objects[object_id.0 as int] == object@);
            let mut s = String::from_str("{\n");
            let mut body = String::new();
            let mut i: usize = 0;
            while i < object.server_fields.len()
                invariant
                    0 <= i <= fields.len(),
                    fields == object.server_fields@,
                    field == DefinedTypeId::Object(object_id),
                    object_id.0 < schema@.registry.objects.len(),
                    schema@.registry.objects[object_id.0 as int].server_fields == fields,
                    indentation_level < 255,
                    Some(body@) == field_definitions_text(
                        schema@,
                        fields,
                        i as int,
                        indentation_level + 1,
                    ),
                decreases fields.len() - i,
            {
                let field_type = match format_field_definition(
                    schema,
                    object.server_fields[i],
                    indentation_level + 1,
                ) {
                    Some(field_type) => field_type,
                    None => {
                        proof {
                            assert(field_definition_text(
                                schema@,
                                fields[i as int],
                                indentation_level + 1,
                            ) is None);
                            assert(field_definitions_text(
                                schema@,
                                fields,
                                i + 1,
                                indentation_level + 1,
                            ) is None);
                            lemma_lines_stay_missing(
                                schema@,
                                fields,
                                i + 1,
                                fields.len() as int,
                                indentation_level + 1,
                            );
                        }
                        return None;
                    },
                };
                body.append(field_type.as_str());
                i += 1;
            }
            s.append(body.as_str());
            s.append(indent(indentation_level).as_str());
            s.append("}");
            Some(s)
        },
        DefinedTypeId::Scalar(scalar_id) => {
            if scalar_id.0 >= schema.server_field_data.schema_data.scalars.len() {
                return None;
            }
            let scalar = &schema.server_field_data.schema_data.scalars[scalar_id.0];
            assert(schema@.registry.scalars[scalar_id.0 as int] == scalar@);
            Some(scalar.javascript_name.clone())
        },
    }
}

/// Once the lines of the first `n` fields have no text, the lines of the
/// first `m` have none, for any `m` that is no less.
pub proof fn lemma_lines_stay_missing(
    s: ResolvedSchemaView,
    fields: Seq<ServerFieldId>,
    n: int,
    m: int,
    level: int,
)
    requires
        0 <= n <= m,
        field_definitions_text(s, fields, n, level) is None,
    ensures
        field_definitions_text(s, fields, m, level) is None,
    decreases m - n,
{
    if n < m {
        lemma_lines_stay_missing(s, fields, n, m - 1, level);
    }
}

/// Once the first `n` types of a union have no text, the first `m` have
/// none, for any `m` that is no less.
pub proof fn lemma_variants_stay_missing(
    s: ResolvedSchemaView,
    variants: Seq<UnionVariant<DefinedTypeId>>,
    n: int,
    m: int,
    level: int,
)
    requires
        0 <= n <= m,
        variants_text(s, variants, n, level) is None,
    ensures
        variants_text(s, variants, m, level) is None,
    decreases m - n,
{
    if n < m {
        lemma_variants_stay_missing(s, variants, n, m - 1, level);
    }
}

/// The line of one field: its name, a question mark if it may be null,
/// and its type.
pub fn format_field_definition(schema: &Schema, server_field_id: ServerFieldId, indentation_level: u8)
    -> (text: Option<String>)
    ensures
        opt_view(text) == field_definition_text(
            schema@,
            server_field_id,
            indentation_level as int,
        ),
    decreases 256 - indentation_level, 1int, 0int,
{
    if server_field_id.0 >= schema.server_field_data.fields.len() || server_field_id.0
        >= schema.field_types.len() || indentation_level == 255 {
        return None;
    }
    let name = &schema.server_field_data.fields[server_field_id.0].name.item;
    assert(schema@.registry.fields[server_field_id.0 as int]
        == schema.server_field_data.fields@[server_field_id.0 as int]@);
    let selection_type = &schema.field_types[server_field_id.0];
    let is_optional = is_nullable(selection_type);
    let type_text = match format_type_annotation(schema, selection_type, indentation_level + 1) {
        Some(type_text) => type_text,
        None => {
            return None;
        },
    };
    let mut text = indent(indentation_level);
    text.append("readonly ");
    text.append(name.as_str());
    if is_optional {
        text.append("?");
    } else {
        assert(text@ + Seq::<char>::empty() =~= text@);
    }
    text.append(": ");
    text.append(type_text.as_str());
    text.append(",\n");
    Some(text)
}

/// Whether a value of the type may be null.
pub fn is_nullable<T>(type_annotation: &TypeAnnotation<T>) -> (nullable: bool)
    ensures
        nullable == type_annotation.spec_is_nullable(),
{
    match type_annotation {
        TypeAnnotation::Union(union) => union.nullable,
        TypeAnnotation::Plural(_) => false,
        TypeAnnotation::Scalar(_) => false,
    }
}

/// The text of what a resolved type comes down to, one level deeper.
pub fn format_innermost(
    schema: &Schema,
    type_annotation: &TypeAnnotation<DefinedTypeId>,
    indentation_level: u8,
) -> (text: Option<String>)
    ensures
        opt_view(text) == innermost_text(schema@, *type_annotation, indentation_level as int),
    decreases 256 - indentation_level, 0int, 0int,
{
    match type_annotation.inner() {
        Some(entity) => {
            if indentation_level == 255 {
                return None;
            }
            format_server_field_type(schema, *entity, indentation_level + 1)
        },
        None => None,
    }
}

/// The text of one of the types of a union, one level deeper.
pub fn format_variant(
    schema: &Schema,
    variant: &UnionVariant<DefinedTypeId>,
    indentation_level: u8,
) -> (text: Option<String>)
    ensures
        opt_view(text) == variant_text(schema@, *variant, indentation_level as int),
    decreases 256 - indentation_level, 0int, 0int,
{
    if indentation_level == 255 {
        return None;
    }
    match variant {
        UnionVariant::Scalar(scalar) => format_server_field_type(
            schema,
            *scalar,
            indentation_level + 1,
        ),
        UnionVariant::Plural(type_annotation) => {
            match format_type_annotation(schema, type_annotation, indentation_level + 1) {
                Some(element) => Some(format_readonly_array(element.as_str())),
                None => None,
            }
        },
    }
}

/// The text of a resolved type. A union of several types, or one that may
/// be null, stands in parentheses, with a bar between its types and null
/// last; a union of one type is that type. A list is a list of what its
/// elements come down to.
pub fn format_type_annotation(
    schema: &Schema,
    type_annotation: &TypeAnnotation<DefinedTypeId>,
    indentation_level: u8,
) -> (text: Option<String>)
    ensures
        opt_view(text) == type_annotation_text(
            schema@,
            *type_annotation,
            indentation_level as int,
        ),
    decreases 256 - indentation_level, 2int, 0int,
{
    match type_annotation {
        TypeAnnotation::Scalar(scalar) => {
            if indentation_level == 255 {
                return None;
            }
            format_server_field_type(schema, *scalar, indentation_level + 1)
        },
        TypeAnnotation::Union(union_type_annotation) => {
            if union_type_annotation.variants.len() == 0 {
                return None;
            }
            let ghost variants = union_type_annotation.variants@;
            if union_type_annotation.variants.len() > 1 || union_type_annotation.nullable {
                let mut s = String::from_str("(");
                let mut list = String::new();
                let mut index: usize = 0;
                while index < union_type_annotation.variants.len()
                    invariant
                        0 <= index <= variants.len(),
                        variants == union_type_annotation.variants@,
                        *type_annotation == TypeAnnotation::Union(*union_type_annotation),
                        variants.len() > 1 || union_type_annotation.nullable,
                        Some(list@) == variants_text(
                            schema@,
                            variants,
                            index as int,
                            indentation_level as int,
                        ),
                    decreases variants.len() - index,
                {
                    let variant_text = match format_variant(
                        schema,
                        &union_type_annotation.variants[index],
                        indentation_level,
                    ) {
                        Some(variant_text) => variant_text,
                        None => {
                            proof {
                                assert(variant_text(
                                    schema@,
                                    variants[index as int],
                                    indentation_level as int,
                                ) is None);
                                assert(variants_text(
                                    schema@,
                                    variants,
                                    index + 1,
                                    indentation_level as int,
                                ) is None);
                                lemma_variants_stay_missing(
                                    schema@,
                                    variants,
                                    index + 1,
                                    variants.len() as int,
                                    indentation_level as int,
                                );
                            }
                            return None;
                        },
                    };
                    if index != 0 {
                        list.append(" | ");
                    } else {
                        assert(list@ + Seq::<char>::empty() =~= list@);
                    }
                    list.append(variant_text.as_str());
                    index += 1;
                }
                s.append(list.as_str());
                if union_type_annotation.nullable {
                    s.append(" | null");
                } else {
                    assert(s@ + Seq::<char>::empty() =~= s@);
                }
                s.append(")");
                Some(s)
            } else {
                match &union_type_annotation.variants[0] {
                    UnionVariant::Scalar(scalar) => {
                        if indentation_level == 255 {
                            return None;
                        }
                        format_server_field_type(schema, *scalar, indentation_level + 1)
                    },
                    UnionVariant::Plural(type_annotation) => {
                        match format_innermost(schema, type_annotation, indentation_level) {
                            Some(element) => Some(format_readonly_array(element.as_str())),
                            None => None,
                        }
                    },
                }
            }
        },
        TypeAnnotation::Plural(type_annotation) => {
            match format_innermost(schema, type_annotation, indentation_level) {
                Some(element) => Some(format_readonly_array(element.as_str())),
                None => None,
            }
        },
    }
}

} // verus!
