//! What holds of building the registry, stated over the model that the
//! executable steps are proved to compute.

use vstd::prelude::*;
use crate::common::{Location, WithLocation};
use crate::error::ErrorView;
use crate::graphql_types::{ObjectDefinitionView, ObjectExtensionView, TypeDefinitionView};
use crate::invariants::{lemma_field_index_value, lemma_no_error_names_distinct, names_distinct};
use crate::lang_types::{DefinedField, DefinedTypeId, ObjectId, ServerIdFieldId};
use crate::model::{
    FieldDefinitions, FirstPass, PendingView, apply_extension, declares, duplicate_type_error,
    extension_mismatch, field_error, first_field_error, first_index_of, first_pass_start,
    lemma_field_index_names, lemma_first_index_of, process_document, refetch_resolver,
    register_definition, register_definitions, register_object,
};
use crate::schema::{
    ConfigOptions, ObjectView, SchemaView, id_field_name, is_non_null_id_type, is_refetch_resolver,
    lemma_reserved_names_differ, mutation_type_name, query_type_name, refetch_field_name,
    typename_field_name, typename_type,
};

verus! {

// ----- what holds of every well-formed registry -----

/// No two types of a well-formed registry have the same name, whether
/// they are objects or scalars.
pub proof fn lemma_type_names_are_unique(schema: SchemaView)
    requires
        schema.wf(),
    ensures
        forall|i: int, j: int|
            0 <= i < j < schema.objects.len() ==> (#[trigger] schema.objects[i]).name.item != (
            #[trigger] schema.objects[j]).name.item,
        forall|i: int, j: int|
            0 <= i < j < schema.scalars.len() ==> (#[trigger] schema.scalars[i]).name.item != (
            #[trigger] schema.scalars[j]).name.item,
        forall|i: int, j: int|
            0 <= i < schema.objects.len() && 0 <= j < schema.scalars.len() ==> (
            #[trigger] schema.objects[i]).name.item != (#[trigger] schema.scalars[j]).name.item,
{
    assert forall|i: int, j: int| 0 <= i < j < schema.objects.len() implies (
    #[trigger] schema.objects[i]).name.item != (#[trigger] schema.objects[j]).name.item by {
        let a = schema.objects[i];
        let b = schema.objects[j];
        assert(schema.lookup(a.name.item) == Some(DefinedTypeId::Object(a.id)));
        assert(schema.lookup(b.name.item) == Some(DefinedTypeId::Object(b.id)));
    }
    assert forall|i: int, j: int| 0 <= i < j < schema.scalars.len() implies (
    #[trigger] schema.scalars[i]).name.item != (#[trigger] schema.scalars[j]).name.item by {
        let a = schema.scalars[i];
        let b = schema.scalars[j];
        assert(schema.lookup(a.name.item) == Some(DefinedTypeId::Scalar(a.id)));
        assert(schema.lookup(b.name.item) == Some(DefinedTypeId::Scalar(b.id)));
    }
    assert forall|i: int, j: int|
        0 <= i < schema.objects.len() && 0 <= j < schema.scalars.len() implies (
    #[trigger] schema.objects[i]).name.item != (#[trigger] schema.scalars[j]).name.item by {
        let a = schema.objects[i];
        let b = schema.scalars[j];
        assert(schema.lookup(a.name.item) == Some(DefinedTypeId::Object(a.id)));
        assert(schema.lookup(b.name.item) == Some(DefinedTypeId::Scalar(b.id)));
    }
}

/// Within one object of a well-formed registry, no two fields have the
/// same name, whether the server provides them or a resolver computes
/// them.
pub proof fn lemma_field_names_are_unique(schema: SchemaView, i: int)
    requires
        schema.wf(),
        0 <= i < schema.objects.len(),
    ensures
        ({
            let o = schema.objects[i];
            &&& forall|j: int, k: int|
                0 <= j < k < o.server_fields.len() ==> schema.fields[(
                #[trigger] o.server_fields[j]).0 as int].name.item != schema.fields[(
                #[trigger] o.server_fields[k]).0 as int].name.item
            &&& forall|j: int, k: int|
                0 <= j < o.server_fields.len() && 0 <= k < o.resolvers.len() ==> schema.fields[(
                #[trigger] o.server_fields[j]).0 as int].name.item != schema.resolvers[(
                #[trigger] o.resolvers[k]).0 as int].name
            &&& forall|j: int, k: int|
                0 <= j < k < o.resolvers.len() && o.resolvers[j] != o.resolvers[k]
                    ==> schema.resolvers[(#[trigger] o.resolvers[j]).0 as int].name
                    != schema.resolvers[(#[trigger] o.resolvers[k]).0 as int].name
        }),
{
    let o = schema.objects[i];
    assert(schema.object_wf(o));
    assert forall|j: int, k: int| 0 <= j < k < o.server_fields.len() implies schema.fields[(
    #[trigger] o.server_fields[j]).0 as int].name.item != schema.fields[(
    #[trigger] o.server_fields[k]).0 as int].name.item by {
        assert(schema.owns_server_field(o, o.server_fields[j]));
        assert(schema.owns_server_field(o, o.server_fields[k]));
    }
    assert forall|j: int, k: int|
        0 <= j < o.server_fields.len() && 0 <= k < o.resolvers.len() implies schema.fields[(
    #[trigger] o.server_fields[j]).0 as int].name.item != schema.resolvers[(
    #[trigger] o.resolvers[k]).0 as int].name by {
        assert(schema.owns_server_field(o, o.server_fields[j]));
        assert(schema.owns_resolver(o, o.resolvers[k]));
    }
    assert forall|j: int, k: int|
        0 <= j < k < o.resolvers.len() && o.resolvers[j] != o.resolvers[k] implies schema.resolvers[(
    #[trigger] o.resolvers[j]).0 as int].name != schema.resolvers[(
    #[trigger] o.resolvers[k]).0 as int].name by {
        assert(schema.owns_resolver(o, o.resolvers[j]));
        assert(schema.owns_resolver(o, o.resolvers[k]));
    }
}

// ----- the field that every object gets -----

/// In a well-formed registry, the last field of every object is the field
/// that the registry adds: it has the reserved name and the non-null
/// string type, and the highest handle among the fields of the object.
pub proof fn lemma_last_field_is_typename(schema: SchemaView, i: int)
    requires
        schema.wf(),
        0 <= i < schema.objects.len(),
    ensures
        ({
            let o = schema.objects[i];
            let last = o.server_fields.last();
            &&& o.server_fields.len() > 0
            &&& last.0 < schema.fields.len()
            &&& schema.fields[last.0 as int].name.item == typename_field_name()
            &&& schema.fields[last.0 as int].associated_data == typename_type()
            &&& forall|k: int| 0 <= k < o.server_fields.len() ==> o.server_fields[k].0 <= last.0
        }),
{
    let o = schema.objects[i];
    assert(schema.object_wf(o));
    assert(schema.owns_server_field(o, o.server_fields[o.server_fields.len() - 1]));
}

/// Where no field from `from` on has an error, none of them has.
proof fn lemma_error_free_from(
    fields: FieldDefinitions,
    from: int,
    parent_name: Seq<char>,
    may_have_id_field: bool,
    options: ConfigOptions,
)
    requires
        0 <= from,
        forall|i: int|
            from <= i < fields.len() ==> field_error(
                fields,
                i,
                parent_name,
                may_have_id_field,
                options,
            ) is None,
    ensures
        first_field_error(fields, from, parent_name, may_have_id_field, options) is None,
    decreases fields.len() - from,
{
    if from < fields.len() {
        lemma_error_free_from(fields, from + 1, parent_name, may_have_id_field, options);
    }
}

/// The first field with an error decides: where field `k` has an error
/// and no field before it has one, that error is the error of the fields.
proof fn lemma_first_error_at(
    fields: FieldDefinitions,
    from: int,
    k: int,
    parent_name: Seq<char>,
    may_have_id_field: bool,
    options: ConfigOptions,
)
    requires
        0 <= from <= k < fields.len(),
        field_error(fields, k, parent_name, may_have_id_field, options) is Some,
        forall|i: int|
            from <= i < k ==> field_error(fields, i, parent_name, may_have_id_field, options)
                is None,
    ensures
        first_field_error(fields, from, parent_name, may_have_id_field, options) == field_error(
            fields,
            k,
            parent_name,
            may_have_id_field,
            options,
        ),
    decreases k - from,
{
    if from < k {
        lemma_first_error_at(fields, from + 1, k, parent_name, may_have_id_field, options);
    }
}

/// Where names are distinct, no name was declared before the field that
/// has it.
proof fn lemma_distinct_not_seen(fields: FieldDefinitions, i: int)
    requires
        names_distinct(fields),
        0 <= i < fields.len(),
    ensures
        first_index_of(fields, fields[i].item.name.item, i) is None,
        first_index_of(fields, fields[i].item.name.item, fields.len() as int) == Some(i),
{
    lemma_first_index_of(fields, fields[i].item.name.item, i);
    lemma_first_index_of(fields, fields[i].item.name.item, fields.len() as int);
    if let Some(j) = first_index_of(fields, fields[i].item.name.item, i) {
        assert(fields[j].item.name.item != fields[i].item.name.item);
    }
    let found = first_index_of(fields, fields[i].item.name.item, fields.len() as int);
    if let Some(j) = found {
        if j < i {
            assert(fields[j].item.name.item != fields[i].item.name.item);
        } else if i < j {
            assert(fields[i].item.name.item != fields[j].item.name.item);
        }
    }
}

/// The field that the registry adds cannot be declared: a definition with
/// a field of the reserved name is refused, whatever else it holds.
pub proof fn lemma_declared_typename_is_refused(
    schema: SchemaView,
    pending: PendingView,
    definition: ObjectDefinitionView,
    may_have_id_field: bool,
    options: ConfigOptions,
)
    requires
        declares(definition.fields, typename_field_name()),
    ensures
        ({
            let step = register_object(schema, pending, definition, may_have_id_field, options);
            &&& step.result is Err
            &&& step.schema == schema
            &&& step.pending == pending
        }),
{
}

/// The error for a declared field of the reserved name is the one for
/// that: where the name of the definition is free and no field has an
/// error of its own, a definition with a field of the reserved name is
/// refused with `TypenameCannotBeDefined`, at no place in the source.
pub proof fn lemma_declared_typename_error(
    schema: SchemaView,
    pending: PendingView,
    definition: ObjectDefinitionView,
    may_have_id_field: bool,
    options: ConfigOptions,
)
    requires
        declares(definition.fields, typename_field_name()),
        !schema.defined_types.contains_key(definition.name.item),
        first_field_error(
            definition.fields,
            0,
            definition.name.item,
            may_have_id_field,
            options,
        ) is None,
    ensures
        register_object(schema, pending, definition, may_have_id_field, options).result == Err::<
            crate::model::ProcessObjectTypeDefinitionOutcome,
            crate::error::LocatedError,
        >(
            WithLocation {
                location: Location::Generated,
                item: ErrorView::TypenameCannotBeDefined { parent_type: definition.name.item },
            },
        ),
{
}

// ----- the identifier field and the field for refetching -----

/// An object that is registered has an identifier field exactly if it may
/// have one and declares a field of that name; the identifier field is
/// then that field. With an identifier field the object has exactly one
/// computed field, the one for refetching, which selects the identifier
/// field and nothing else; without, it has no computed field, and its name
/// index leads to none.
pub proof fn lemma_id_field_and_refetch(
    schema: SchemaView,
    pending: PendingView,
    definition: ObjectDefinitionView,
    may_have_id_field: bool,
    options: ConfigOptions,
)
    requires
        register_object(schema, pending, definition, may_have_id_field, options).result is Ok,
    ensures
        ({
            let after = register_object(
                schema,
                pending,
                definition,
                may_have_id_field,
                options,
            ).schema;
            let o = after.objects.last();
            let fields = definition.fields;
            if may_have_id_field && declares(fields, id_field_name()) {
                let k = first_index_of(fields, id_field_name(), fields.len() as int)->Some_0;
                &&& 0 <= k < fields.len()
                &&& fields[k].item.name.item == id_field_name()
                &&& o.id_field == Some(ServerIdFieldId((schema.fields.len() + k) as usize))
                &&& o.resolvers.len() == 1
                &&& after.resolvers.len() == schema.resolvers.len() + 1
                &&& after.resolvers.last() == refetch_resolver(
                    schema.resolvers.len() as int,
                    o.id,
                    definition.name.item,
                )
                &&& is_refetch_resolver(after.resolvers.last(), o.id)
                &&& o.encountered_fields.contains_key(refetch_field_name())
                &&& o.encountered_fields[refetch_field_name()] == DefinedField::ResolverField(
                    o.resolvers[0],
                )
            } else {
                &&& o.id_field is None
                &&& o.resolvers.len() == 0
                &&& after.resolvers == schema.resolvers
                &&& o.encountered_fields.contains_key(refetch_field_name())
                    ==> o.encountered_fields[refetch_field_name()] is ServerField
            }
        }),
{
    let fields = definition.fields;
    let n = fields.len() as int;
    let next = schema.fields.len() as int;
    lemma_first_index_of(fields, id_field_name(), n);
    lemma_field_index_names(fields, next, n, refetch_field_name());
    lemma_reserved_names_differ();
    let after = register_object(schema, pending, definition, may_have_id_field, options).schema;
    if may_have_id_field && declares(fields, id_field_name()) {
        assert(after.resolvers =~= schema.resolvers.push(
            refetch_resolver(
                schema.resolvers.len() as int,
                ObjectId(schema.objects.len() as usize),
                definition.name.item,
            ),
        ));
    } else {
        assert(after.resolvers =~= schema.resolvers);
        let o = after.objects.last();
        if o.encountered_fields.contains_key(refetch_field_name()) {
            lemma_no_error_names_distinct(
                fields,
                definition.name.item,
                may_have_id_field,
                options,
            );
            lemma_first_index_of(fields, refetch_field_name(), n);
            let k = first_index_of(fields, refetch_field_name(), n)->Some_0;
            lemma_field_index_value(fields, next, n, k);
        }
    }
}

/// The options decide what becomes of an identifier field of another type
/// than the non-null identifier type. Take a definition that may have an
/// identifier field, whose name is free, whose fields have names of their
/// own and none of the reserved names, and whose field `k` has the name of
/// identifier fields and another type. Where the options make that fatal,
/// the definition is refused with `IdFieldMustBeNonNullIdType` at that
/// field. Otherwise it is registered, with field `k` as its identifier
/// field.
pub proof fn lemma_strictness_switch(
    schema: SchemaView,
    pending: PendingView,
    definition: ObjectDefinitionView,
    options: ConfigOptions,
    k: int,
)
    requires
        !schema.defined_types.contains_key(definition.name.item),
        names_distinct(definition.fields),
        !declares(definition.fields, typename_field_name()),
        !declares(definition.fields, refetch_field_name()),
        0 <= k < definition.fields.len(),
        definition.fields[k].item.name.item == id_field_name(),
        !is_non_null_id_type(definition.fields[k].item.type_),
    ensures
        ({
            let step = register_object(schema, pending, definition, true, options);
            if options.on_invalid_id_type.is_fatal() {
                &&& step.result == Err::<
                    crate::model::ProcessObjectTypeDefinitionOutcome,
                    crate::error::LocatedError,
                >(
                    WithLocation {
                        location: definition.fields[k].location,
                        item: ErrorView::IdFieldMustBeNonNullIdType {
                            parent_type: definition.name.item,
                            strong_field_name: id_field_name(),
                        },
                    },
                )
                &&& step.schema == schema
            } else {
                &&& step.result is Ok
                &&& step.schema.objects.last().id_field == Some(
                    ServerIdFieldId((schema.fields.len() + k) as usize),
                )
            }
        }),
{
    let fields = definition.fields;
    let n = fields.len() as int;
    let name = definition.name.item;
    let next = schema.fields.len() as int;
    assert forall|i: int| 0 <= i < n implies first_index_of(fields, fields[i].item.name.item, i)
        is None by {
        lemma_distinct_not_seen(fields, i);
    }
    lemma_distinct_not_seen(fields, k);
    lemma_field_index_names(fields, next, n, refetch_field_name());
    lemma_reserved_names_differ();
    if options.on_invalid_id_type.is_fatal() {
        assert forall|i: int| 0 <= i < k implies field_error(fields, i, name, true, options)
            is None by {
            if fields[i].item.name.item == id_field_name() {
                assert(fields[i].item.name.item != fields[k].item.name.item);
            }
        }
        lemma_first_error_at(fields, 0, k, name, true, options);
    } else {
        lemma_error_free_from(fields, 0, name, true, options);
    }
}

// ----- extensions -----

/// An extension that brings only directives to an object of the registry
/// succeeds: the directives follow, in order, those that the object had,
/// and nothing else changes.
pub proof fn lemma_extension_appends_directives(
    schema: SchemaView,
    extension: ObjectExtensionView,
    id: ObjectId,
)
    requires
        schema.wf(),
        schema.lookup(extension.name.item) == Some(DefinedTypeId::Object(id)),
        extension.fields.len() == 0,
        extension.interfaces.len() == 0,
    ensures
        ({
            let step = apply_extension(schema, extension);
            &&& step.error is None
            &&& step.schema.objects.len() == schema.objects.len()
            &&& id.0 < schema.objects.len()
            &&& step.schema.objects[id.0 as int] == (ObjectView {
                directives: schema.objects[id.0 as int].directives + extension.directives,
                ..schema.objects[id.0 as int]
            })
            &&& forall|k: int|
                0 <= k < extension.directives.len() ==> step.schema.objects[id.0 as int].directives[
                    schema.objects[id.0 as int].directives.len() + k] == extension.directives[k]
            &&& forall|i: int|
                0 <= i < schema.objects.len() && i != id.0 ==> step.schema.objects[i]
                    == schema.objects[i]
            &&& step.schema == (SchemaView { objects: step.schema.objects, ..schema })
        }),
{
    assert(schema.defined_types.contains_key(extension.name.item));
    assert(schema.is_object_named(id, extension.name.item));
}

/// An extension that names a type that was never defined is refused, with
/// an error at the place of that name, and changes nothing.
pub proof fn lemma_extension_of_unknown_type(schema: SchemaView, extension: ObjectExtensionView)
    requires
        schema.lookup(extension.name.item) is None,
    ensures
        apply_extension(schema, extension).schema == schema,
        apply_extension(schema, extension).error == Some(
            extension_mismatch(extension.name, "not defined"@, "an object"@),
        ),
        apply_extension(schema, extension).error->Some_0.location == extension.name.location,
{
}

// ----- names are unique -----

/// The name that a definition asks to register, if it asks for one.
pub open spec fn defined_name(definition: TypeDefinitionView) -> Option<WithLocation<Seq<char>>> {
    match definition {
        TypeDefinitionView::Object { definition, .. } => Some(definition.name),
        TypeDefinitionView::Scalar(definition) => Some(definition.name),
        TypeDefinitionView::Ignored => None,
    }
}

/// Whether a definition asks to register the name `name`.
pub open spec fn defines(definition: TypeDefinitionView, name: Seq<char>) -> bool {
    match defined_name(definition) {
        Some(located) => located.item == name,
        None => false,
    }
}

/// What a definition is called in the error for a name that is taken.
pub open spec fn defined_kind(definition: TypeDefinitionView) -> Seq<char> {
    match definition {
        TypeDefinitionView::Object { .. } => "object"@,
        _ => "scalar"@,
    }
}

/// Whether a name resolves in `before` and `after` alike, for every name
/// that resolves in `before`.
pub open spec fn keeps_names(before: SchemaView, after: SchemaView) -> bool {
    forall|name: Seq<char>| #[trigger]
        before.defined_types.contains_key(name) ==> after.defined_types.contains_key(name)
            && after.defined_types[name] == before.defined_types[name]
}

/// A definition whose name is registered already is refused with the
/// error for a duplicate, at the place of the name, and changes nothing.
/// A definition that is accepted registers its name and keeps every other.
pub proof fn lemma_register_definition_names(
    state: FirstPass,
    definition: TypeDefinitionView,
    options: ConfigOptions,
)
    requires
        state.error is None,
    ensures
        ({
            let next = register_definition(state, definition, options);
            &&& keeps_names(state.schema, next.schema)
            &&& match defined_name(definition) {
                Some(name) => {
                    &&& state.schema.defined_types.contains_key(name.item) ==> next.error == Some(
                        duplicate_type_error(defined_kind(definition), name),
                    ) && next.schema == state.schema
                    &&& next.error is None ==> next.schema.defined_types.contains_key(name.item)
                },
                None => next == state,
            }
            &&& next.error is Some ==> next.schema == state.schema
        }),
{
}

/// Once a name is registered, a later definition of that name ends the
/// first pass in an error.
proof fn lemma_taken_name_is_refused(
    state: FirstPass,
    definitions: Seq<TypeDefinitionView>,
    from: int,
    j: int,
    options: ConfigOptions,
)
    requires
        state.error is None,
        0 <= from <= j < definitions.len(),
        defined_name(definitions[j]) is Some,
        ({
            let name = defined_name(definitions[j])->Some_0.item;
            state.schema.defined_types.contains_key(name) || exists|i: int|
                from <= i < j && #[trigger] defines(definitions[i], name)
        }),
    ensures
        register_definitions(state, definitions, from, options).error is Some,
    decreases j - from,
{
    let name = defined_name(definitions[j])->Some_0;
    let next = register_definition(state, definitions[from], options);
    lemma_register_definition_names(state, definitions[from], options);
    if next.error is None {
        if from == j {
        } else {
            if state.schema.defined_types.contains_key(name.item) {
                assert(next.schema.defined_types.contains_key(name.item));
            } else {
                let i = choose|i: int|
                    from <= i < j && #[trigger] defines(definitions[i], name.item);
                if i == from {
                    assert(next.schema.defined_types.contains_key(name.item));
                } else {
                    assert(from + 1 <= i < j);
                }
            }
            lemma_taken_name_is_refused(next, definitions, from + 1, j, options);
        }
    }
}

/// Names are unique: a document that defines two types of one name, of
/// whatever kinds, is refused.
pub proof fn lemma_duplicate_type_is_refused(
    schema: SchemaView,
    definitions: Seq<TypeDefinitionView>,
    options: ConfigOptions,
    i: int,
    j: int,
)
    requires
        0 <= i < j < definitions.len(),
        defined_name(definitions[j]) is Some,
        defines(definitions[i], defined_name(definitions[j])->Some_0.item),
    ensures
        process_document(schema, definitions, options).result is Err,
{
    lemma_taken_name_is_refused(first_pass_start(schema), definitions, 0, j, options);
}

/// The first pass over a document is the first pass over its first `k`
/// definitions, followed, if none of them was refused, by the first pass
/// over the rest.
pub proof fn lemma_first_pass_split(
    state: FirstPass,
    definitions: Seq<TypeDefinitionView>,
    from: int,
    k: int,
    options: ConfigOptions,
)
    requires
        state.error is None,
        0 <= from <= k <= definitions.len(),
    ensures
        ({
            let head = register_definitions(state, definitions.take(k), from, options);
            register_definitions(state, definitions, from, options) == (if head.error is Some {
                head
            } else {
                register_definitions(head, definitions, k, options)
            })
        }),
    decreases k - from,
{
    let prefix = definitions.take(k);
    if from < k {
        assert(prefix[from] == definitions[from]);
        let next = register_definition(state, definitions[from], options);
        if next.error is None {
            lemma_first_pass_split(next, definitions, from + 1, k, options);
        }
    }
}

/// Where the second definition of a name is the first definition to be
/// refused, the document is refused with `DuplicateTypeDefinition` at the
/// place of the second name, and the registry is left as the definitions
/// before it made it: the name resolves to what the first definition
/// registered, and the second registered nothing.
pub proof fn lemma_duplicate_type_error(
    schema: SchemaView,
    definitions: Seq<TypeDefinitionView>,
    options: ConfigOptions,
    i: int,
    j: int,
)
    requires
        0 <= i < j < definitions.len(),
        defined_name(definitions[j]) is Some,
        defines(definitions[i], defined_name(definitions[j])->Some_0.item),
        register_definitions(first_pass_start(schema), definitions.take(j), 0, options).error
            is None,
    ensures
        ({
            let before = register_definitions(
                first_pass_start(schema),
                definitions.take(j),
                0,
                options,
            );
            let name = defined_name(definitions[j])->Some_0;
            let step = process_document(schema, definitions, options);
            &&& step.result == Err::<
                crate::model::ProcessGraphQLDocumentOutcome,
                crate::error::LocatedError,
            >(duplicate_type_error(defined_kind(definitions[j]), name))
            &&& step.schema == before.schema
            &&& before.schema.defined_types.contains_key(name.item)
        }),
{
    let start = first_pass_start(schema);
    let before = register_definitions(start, definitions.take(j), 0, options);
    let name = defined_name(definitions[j])->Some_0;
    lemma_first_pass_split(start, definitions, 0, j, options);
    lemma_first_pass_keeps_error_free(start, definitions.take(j), 0, options);
    lemma_registered_name_stays(start, definitions.take(j), 0, i, options);
    assert(definitions.take(j)[i] == definitions[i]);
    lemma_register_definition_names(before, definitions[j], options);
}

/// A first pass that starts without an error and ends without one never
/// held one.
proof fn lemma_first_pass_keeps_error_free(
    state: FirstPass,
    definitions: Seq<TypeDefinitionView>,
    from: int,
    options: ConfigOptions,
)
    requires
        state.error is None,
        0 <= from,
    ensures
        register_definitions(state, definitions, from, options).error is None ==> keeps_names(
            state.schema,
            register_definitions(state, definitions, from, options).schema,
        ),
    decreases definitions.len() - from,
{
    if from < definitions.len() {
        let next = register_definition(state, definitions[from], options);
        lemma_register_definition_names(state, definitions[from], options);
        if next.error is None {
            lemma_first_pass_keeps_error_free(next, definitions, from + 1, options);
            let last = register_definitions(next, definitions, from + 1, options);
            if last.error is None {
                assert forall|name: Seq<char>| #[trigger]
                    state.schema.defined_types.contains_key(
                        name,
                    ) implies last.schema.defined_types.contains_key(name)
                    && last.schema.defined_types[name] == state.schema.defined_types[name] by {
                    assert(next.schema.defined_types.contains_key(name));
                }
            }
        }
    }
}

/// After a first pass without an error, the name of every definition that
/// it went over resolves.
proof fn lemma_registered_name_stays(
    state: FirstPass,
    definitions: Seq<TypeDefinitionView>,
    from: int,
    i: int,
    options: ConfigOptions,
)
    requires
        state.error is None,
        0 <= from <= i < definitions.len(),
        register_definitions(state, definitions, from, options).error is None,
    ensures
        defined_name(definitions[i]) matches Some(name) ==> register_definitions(
            state,
            definitions,
            from,
            options,
        ).schema.defined_types.contains_key(name.item),
    decreases i - from,
{
    let next = register_definition(state, definitions[from], options);
    lemma_register_definition_names(state, definitions[from], options);
    if from == i {
        lemma_first_pass_keeps_error_free(next, definitions, from + 1, options);
        if let Some(name) = defined_name(definitions[i]) {
            assert(next.schema.defined_types.contains_key(name.item));
        }
    } else {
        lemma_registered_name_stays(next, definitions, from + 1, i, options);
    }
}

/// A call that fails commits nothing of the definition that it failed on:
/// where the first `k` definitions of a document are accepted and the next
/// one is refused, the document is refused with that error, and the
/// registry is left as the first `k` definitions made it.
pub proof fn lemma_first_refused_definition(
    schema: SchemaView,
    definitions: Seq<TypeDefinitionView>,
    options: ConfigOptions,
    k: int,
)
    requires
        0 <= k < definitions.len(),
        register_definitions(first_pass_start(schema), definitions.take(k), 0, options).error
            is None,
        register_definition(
            register_definitions(first_pass_start(schema), definitions.take(k), 0, options),
            definitions[k],
            options,
        ).error is Some,
    ensures
        ({
            let before = register_definitions(
                first_pass_start(schema),
                definitions.take(k),
                0,
                options,
            );
            let step = process_document(schema, definitions, options);
            &&& step.schema == before.schema
            &&& step.result is Err
            &&& Some(step.result->Err_0) == register_definition(
                before,
                definitions[k],
                options,
            ).error
        }),
{
    let start = first_pass_start(schema);
    let before = register_definitions(start, definitions.take(k), 0, options);
    lemma_first_pass_split(start, definitions, 0, k, options);
    lemma_register_definition_names(before, definitions[k], options);
}

// ----- roots -----

/// Whether a definition is an object under the name `name`.
pub open spec fn defines_object(definition: TypeDefinitionView, name: Seq<char>) -> bool {
    definition is Object && defines(definition, name)
}

/// Whether one of the definitions from `from` on is an object under the
/// name `name`.
pub open spec fn document_defines_object(
    definitions: Seq<TypeDefinitionView>,
    from: int,
    name: Seq<char>,
) -> bool {
    exists|d: int| from <= d < definitions.len() && defines_object(#[trigger] definitions[d], name)
}

/// What a first pass without an error knows of the root of mutations: the
/// handle of the object under that name, if one of the definitions is such
/// an object, and what it knew before otherwise.
proof fn lemma_first_pass_mutation_root(
    state: FirstPass,
    definitions: Seq<TypeDefinitionView>,
    from: int,
    options: ConfigOptions,
)
    requires
        state.error is None,
        0 <= from,
        register_definitions(state, definitions, from, options).error is None,
    ensures
        ({
            let last = register_definitions(state, definitions, from, options);
            if document_defines_object(definitions, from, mutation_type_name()) {
                last.mutation_id matches Some(id) && last.schema.lookup(mutation_type_name())
                    == Some(DefinedTypeId::Object(id))
            } else {
                last.mutation_id == state.mutation_id
            }
        }),
    decreases definitions.len() - from,
{
    let name = mutation_type_name();
    let last = register_definitions(state, definitions, from, options);
    if from < definitions.len() {
        let next = register_definition(state, definitions[from], options);
        lemma_register_definition_names(state, definitions[from], options);
        lemma_first_pass_mutation_root(next, definitions, from + 1, options);
        lemma_first_pass_keeps_error_free(next, definitions, from + 1, options);
        if defines_object(definitions[from], name) {
            assert(document_defines_object(definitions, from, name));
            let id = ObjectId(state.schema.objects.len() as usize);
            assert(next.mutation_id == Some(id));
            assert(next.schema.defined_types.contains_key(name));
            if document_defines_object(definitions, from + 1, name) {
                let d = choose|d: int|
                    from + 1 <= d < definitions.len() && defines_object(
                        #[trigger] definitions[d],
                        name,
                    );
                lemma_taken_name_is_refused(next, definitions, from + 1, d, options);
            }
        } else {
            assert(next.mutation_id == state.mutation_id);
            if document_defines_object(definitions, from, name) {
                let d = choose|d: int|
                    from <= d < definitions.len() && defines_object(
                        #[trigger] definitions[d],
                        name,
                    );
                assert(document_defines_object(definitions, from + 1, name));
            }
            if document_defines_object(definitions, from + 1, name) {
                let d = choose|d: int|
                    from + 1 <= d < definitions.len() && defines_object(
                        #[trigger] definitions[d],
                        name,
                    );
                assert(document_defines_object(definitions, from, name));
            }
        }
    }
}

/// The root of mutations is known by its name: a document that succeeds
/// returns a root of mutations exactly if it defines an object under that
/// name, and what it returns is the handle that the name resolves to.
pub proof fn lemma_mutation_root(
    schema: SchemaView,
    definitions: Seq<TypeDefinitionView>,
    options: ConfigOptions,
)
    requires
        process_document(schema, definitions, options).result is Ok,
    ensures
        ({
            let step = process_document(schema, definitions, options);
            let outcome = step.result->Ok_0;
            &&& outcome.mutation_id is Some <==> document_defines_object(
                definitions,
                0,
                mutation_type_name(),
            )
            &&& outcome.mutation_id matches Some(id) ==> step.schema.lookup(mutation_type_name())
                == Some(DefinedTypeId::Object(id))
        }),
{
    let start = first_pass_start(schema);
    let first = register_definitions(start, definitions, 0, options);
    lemma_first_pass_mutation_root(start, definitions, 0, options);
    crate::refinement_laws::lemma_second_pass_outcome(first.schema, first.pending, 0);
}

/// The root of queries is known by its name: in a well-formed registry it
/// is the object under that name, and there is none where the name
/// resolves to no object.
pub proof fn lemma_query_root(schema: SchemaView)
    requires
        schema.wf(),
    ensures
        match schema.lookup(query_type_name()) {
            Some(DefinedTypeId::Object(id)) => schema.query_type_id == Some(id),
            _ => schema.query_type_id is None,
        },
{
    match schema.lookup(query_type_name()) {
        Some(DefinedTypeId::Object(id)) => {
            assert(schema.defined_types.contains_key(query_type_name()));
            assert(schema.is_object_named(id, query_type_name()));
            assert(schema.objects[id.0 as int].id == id);
        },
        _ => {
            if let Some(id) = schema.query_type_id {
                let o = schema.objects[id.0 as int];
                assert(schema.lookup(o.name.item) == Some(DefinedTypeId::Object(o.id)));
            }
        },
    }
}

} // verus!
