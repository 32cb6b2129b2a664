//! What each step of building the registry does, as functions on views.
//! The executable steps are proved to compute exactly these.

use vstd::prelude::*;
use crate::common::{Location, Span, WithLocation, WithSpan};
use crate::error::{ErrorView, LocatedError};
use crate::graphql_types::{
    ExtensionOrDefinitionView, ObjectDefinitionView, ObjectExtensionView, OutputFieldView,
    ScalarDefinitionView, TypeDefinitionView, description_text,
};
use crate::lang_types::{
    DefinedField, DefinedTypeId, ObjectId, ResolverFieldId, ScalarFieldSelectionView, ScalarId,
    ServerFieldId, ServerIdFieldId,
};
use crate::schema::{
    ConfigOptions, ObjectView, ResolverActionKind, ResolverTypeAndFieldView, ResolverVariant,
    ResolverView, ScalarView, SchemaView, ServerFieldView, ValidRefinement, id_field_name,
    is_non_null_id_type, mutation_type_name, query_type_name, refetch_description,
    refetch_field_name, string_javascript_type, typename_field_name, typename_type,
};

verus! {

/// The fields of one definition, in the order of their declaration.
pub type FieldDefinitions = Seq<WithLocation<OutputFieldView>>;

// ----- the fields of one object -----

/// The first of the first `n` fields that has the name `name`.
pub open spec fn first_index_of(fields: FieldDefinitions, name: Seq<char>, n: int) -> Option<int>
    decreases n,
{
    if n <= 0 {
        None
    } else {
        match first_index_of(fields, name, n - 1) {
            Some(j) => Some(j),
            None => if fields[n - 1].item.name.item == name {
                Some(n - 1)
            } else {
                None
            },
        }
    }
}

/// Whether one of the fields has the name `name`.
pub open spec fn declares(fields: FieldDefinitions, name: Seq<char>) -> bool {
    first_index_of(fields, name, fields.len() as int) is Some
}

/// The first field of a name, where there is one, comes before `n` and has
/// that name, and no field before it has.
pub proof fn lemma_first_index_of(fields: FieldDefinitions, name: Seq<char>, n: int)
    ensures
        match first_index_of(fields, name, n) {
            Some(j) => {
                &&& 0 <= j < n
                &&& fields[j].item.name.item == name
                &&& first_index_of(fields, name, j) is None
            },
            None => forall|j: int| 0 <= j < n ==> (#[trigger] fields[j]).item.name.item != name,
        },
    decreases n,
{
    if n > 0 {
        lemma_first_index_of(fields, name, n - 1);
        if first_index_of(fields, name, n - 1) is None {
            assert(first_index_of(fields, name, n - 1) is None);
        }
    }
}

/// Whether field `i` breaks the rule on identifier fields: it may be one,
/// has the name of one, is not of the non-null identifier type, and the
/// options make that fatal.
pub open spec fn id_field_is_refused(
    fields: FieldDefinitions,
    i: int,
    may_have_id_field: bool,
    options: ConfigOptions,
) -> bool {
    &&& may_have_id_field
    &&& fields[i].item.name.item == id_field_name()
    &&& !is_non_null_id_type(fields[i].item.type_)
    &&& options.on_invalid_id_type.is_fatal()
}

/// The error that field `i` ends the call with, given the fields before
/// it: its name was declared before, or it breaks the rule on identifier
/// fields.
pub open spec fn field_error(
    fields: FieldDefinitions,
    i: int,
    parent_name: Seq<char>,
    may_have_id_field: bool,
    options: ConfigOptions,
) -> Option<LocatedError> {
    if first_index_of(fields, fields[i].item.name.item, i) is Some {
        Some(
            WithLocation {
                location: fields[i].item.name.location,
                item: ErrorView::DuplicateField {
                    field_name: fields[i].item.name.item,
                    parent_type: parent_name,
                },
            },
        )
    } else if id_field_is_refused(fields, i, may_have_id_field, options) {
        Some(
            WithLocation {
                location: fields[i].location,
                item: ErrorView::IdFieldMustBeNonNullIdType {
                    parent_type: parent_name,
                    strong_field_name: id_field_name(),
                },
            },
        )
    } else {
        None
    }
}

/// The error of the first field from `from` on that has one.
pub open spec fn first_field_error(
    fields: FieldDefinitions,
    from: int,
    parent_name: Seq<char>,
    may_have_id_field: bool,
    options: ConfigOptions,
) -> Option<LocatedError>
    decreases fields.len() - from,
{
    if from < 0 || from >= fields.len() {
        None
    } else {
        match field_error(fields, from, parent_name, may_have_id_field, options) {
            Some(e) => Some(e),
            None => first_field_error(fields, from + 1, parent_name, may_have_id_field, options),
        }
    }
}

/// The record of a declared field under the handle `id`.
pub open spec fn server_field_record(
    field: WithLocation<OutputFieldView>,
    id: int,
    parent: ObjectId,
) -> ServerFieldView {
    ServerFieldView {
        description: description_text(field.item.description),
        name: field.item.name,
        id: ServerFieldId(id as usize),
        associated_data: field.item.type_,
        parent_type_id: parent,
        arguments: field.item.arguments,
    }
}

/// The record of the field that the registry adds, under the handle `id`.
pub open spec fn typename_record(id: int, parent: ObjectId) -> ServerFieldView {
    ServerFieldView {
        description: None,
        name: WithLocation { location: Location::Generated, item: typename_field_name() },
        id: ServerFieldId(id as usize),
        associated_data: typename_type(),
        parent_type_id: parent,
        arguments: Seq::empty(),
    }
}

/// The name index of the first `n` fields, where handles start at
/// `next_field_id`.
pub open spec fn field_index(fields: FieldDefinitions, next_field_id: int, n: int) -> Map<
    Seq<char>,
    DefinedField,
>
    decreases n,
{
    if n <= 0 {
        Map::empty()
    } else {
        field_index(fields, next_field_id, n - 1).insert(
            fields[n - 1].item.name.item,
            DefinedField::ServerField(ServerFieldId((next_field_id + n - 1) as usize)),
        )
    }
}

/// A name is in the index of the first `n` fields exactly if one of them
/// has it.
pub proof fn lemma_field_index_names(
    fields: FieldDefinitions,
    next_field_id: int,
    n: int,
    name: Seq<char>,
)
    ensures
        field_index(fields, next_field_id, n).contains_key(name) <==> first_index_of(
            fields,
            name,
            n,
        ) is Some,
    decreases n,
{
    if n > 0 {
        lemma_field_index_names(fields, next_field_id, n - 1, name);
    }
}

/// The identifier field among the first `n` fields, if the object may have
/// one: the field with the name of identifier fields.
pub open spec fn id_field_of(
    fields: FieldDefinitions,
    next_field_id: int,
    may_have_id_field: bool,
    n: int,
) -> Option<ServerIdFieldId> {
    match first_index_of(fields, id_field_name(), n) {
        Some(j) => if may_have_id_field {
            Some(ServerIdFieldId((next_field_id + j) as usize))
        } else {
            None
        },
        None => None,
    }
}

/// What the fields of one object come to.
pub struct FieldsOutcomeView {
    /// The records of the fields, the added one last.
    pub unvalidated_schema_fields: Seq<ServerFieldView>,
    /// The handles of those records.
    pub server_fields: Seq<ServerFieldId>,
    /// What each field name resolves to.
    pub encountered_fields: Map<Seq<char>, DefinedField>,
    /// The identifier field, if there is one.
    pub id_field: Option<ServerIdFieldId>,
}

/// What the declared fields of an object come to. The first field with an
/// error ends the call with that error. Where no field has one, a declared
/// field with the name of the added field is the error. Otherwise every
/// field gets a record, in order, with handles counting up from
/// `next_field_id`, and the added field follows them.
pub open spec fn fields_outcome(
    fields: FieldDefinitions,
    next_field_id: int,
    parent: ObjectId,
    parent_name: Seq<char>,
    may_have_id_field: bool,
    options: ConfigOptions,
) -> Result<FieldsOutcomeView, LocatedError> {
    match first_field_error(fields, 0, parent_name, may_have_id_field, options) {
        Some(e) => Err(e),
        None => if declares(fields, typename_field_name()) {
            Err(
                WithLocation {
                    location: Location::Generated,
                    item: ErrorView::TypenameCannotBeDefined { parent_type: parent_name },
                },
            )
        } else {
            Ok(
                FieldsOutcomeView {
                    unvalidated_schema_fields: Seq::new(
                        fields.len() + 1,
                        |i: int|
                            if i < fields.len() {
                                server_field_record(fields[i], next_field_id + i, parent)
                            } else {
                                typename_record(next_field_id + i, parent)
                            },
                    ),
                    server_fields: Seq::new(
                        fields.len() + 1,
                        |i: int| ServerFieldId((next_field_id + i) as usize),
                    ),
                    encountered_fields: field_index(
                        fields,
                        next_field_id,
                        fields.len() as int,
                    ).insert(
                        typename_field_name(),
                        DefinedField::ServerField(
                            ServerFieldId((next_field_id + fields.len()) as usize),
                        ),
                    ),
                    id_field: id_field_of(
                        fields,
                        next_field_id,
                        may_have_id_field,
                        fields.len() as int,
                    ),
                },
            )
        },
    }
}

// ----- the computed field that the registry adds -----

/// The selection of the identifier field.
pub open spec fn id_selection() -> WithSpan<ScalarFieldSelectionView> {
    WithSpan {
        item: ScalarFieldSelectionView {
            name: WithLocation { location: Location::Generated, item: id_field_name() },
            reader_alias: None,
            normalization_alias: None,
        },
        span: Span::spec_todo_generated(),
    }
}

/// The record of the computed field that the registry adds to an object
/// with an identifier field.
pub open spec fn refetch_resolver(id: int, parent: ObjectId, parent_name: Seq<char>)
    -> ResolverView {
    ResolverView {
        description: Some(refetch_description()),
        name: refetch_field_name(),
        id: ResolverFieldId(id as usize),
        selection_set: Some(seq![id_selection()]),
        variant: ResolverVariant::RefetchField,
        type_and_field: ResolverTypeAndFieldView {
            parent_type: parent_name,
            field_name: refetch_field_name(),
        },
        parent_object_id: parent,
        action_kind: ResolverActionKind::RefetchField,
    }
}

/// What the computed fields of a new object come to.
pub struct ResolversOutcomeView {
    /// The new records.
    pub schema_resolvers: Seq<ResolverView>,
    /// The handles of those records.
    pub resolvers: Seq<ResolverFieldId>,
    /// The name index with the new names in it.
    pub encountered_fields: Map<Seq<char>, DefinedField>,
}

/// The computed fields that a new object starts with. Without an
/// identifier field there is none. With one, there is the field for
/// refetching, under the handle `next_resolver_id`, unless its name is
/// taken already, which is an error.
pub open spec fn resolvers_outcome(
    id_field: Option<ServerIdFieldId>,
    encountered_fields: Map<Seq<char>, DefinedField>,
    next_resolver_id: int,
    parent: ObjectId,
    parent_name: WithLocation<Seq<char>>,
) -> Result<ResolversOutcomeView, LocatedError> {
    if id_field is None {
        Ok(
            ResolversOutcomeView {
                schema_resolvers: Seq::empty(),
                resolvers: Seq::empty(),
                encountered_fields,
            },
        )
    } else if encountered_fields.contains_key(refetch_field_name()) {
        Err(
            WithLocation {
                location: parent_name.location,
                item: ErrorView::DuplicateField {
                    field_name: refetch_field_name(),
                    parent_type: parent_name.item,
                },
            },
        )
    } else {
        Ok(
            ResolversOutcomeView {
                schema_resolvers: seq![
                    refetch_resolver(next_resolver_id, parent, parent_name.item),
                ],
                resolvers: seq![ResolverFieldId(next_resolver_id as usize)],
                encountered_fields: encountered_fields.insert(
                    refetch_field_name(),
                    DefinedField::ResolverField(ResolverFieldId(next_resolver_id as usize)),
                ),
            },
        )
    }
}

// ----- the edges that wait for the second pass -----

/// The objects that named one supertype as implemented, in the order in
/// which they did.
pub struct PendingRefinementView {
    pub supertype: Seq<char>,
    pub subtypes: Seq<WithLocation<ObjectId>>,
}

/// The edges that wait, one entry for each supertype, in the order in
/// which the supertypes were first named.
pub type PendingView = Seq<PendingRefinementView>;

/// The first of the first `n` entries that is for the supertype `name`.
pub open spec fn entry_index(pending: PendingView, name: Seq<char>, n: int) -> Option<int>
    decreases n,
{
    if n <= 0 {
        None
    } else {
        match entry_index(pending, name, n - 1) {
            Some(j) => Some(j),
            None => if pending[n - 1].supertype == name {
                Some(n - 1)
            } else {
                None
            },
        }
    }
}

/// The first entry for a supertype, where there is one, comes before `n`
/// and is for that supertype; where there is none, no entry before `n` is.
pub proof fn lemma_entry_index(pending: PendingView, name: Seq<char>, n: int)
    ensures
        match entry_index(pending, name, n) {
            Some(j) => 0 <= j < n && pending[j].supertype == name,
            None => forall|j: int| 0 <= j < n ==> (#[trigger] pending[j]).supertype != name,
        },
    decreases n,
{
    if n > 0 {
        lemma_entry_index(pending, name, n - 1);
    }
}

/// An entry that was found among the first `n` is the one found among the
/// first `m`, for any `m` that is no less.
pub proof fn lemma_entry_index_stays(pending: PendingView, name: Seq<char>, n: int, m: int)
    requires
        n <= m,
        entry_index(pending, name, n) is Some,
    ensures
        entry_index(pending, name, m) == entry_index(pending, name, n),
    decreases m - n,
{
    if n < m {
        lemma_entry_index_stays(pending, name, n, m - 1);
    }
}

/// The edges with one more: `edge` comes last in the entry of the
/// supertype `name`, which is a new last entry if there was none.
pub open spec fn add_edge(pending: PendingView, name: Seq<char>, edge: WithLocation<ObjectId>)
    -> PendingView {
    match entry_index(pending, name, pending.len() as int) {
        Some(j) => pending.update(
            j,
            PendingRefinementView { supertype: name, subtypes: pending[j].subtypes.push(edge) },
        ),
        None => pending.push(PendingRefinementView { supertype: name, subtypes: seq![edge] }),
    }
}

/// The edges with `edge` added once for each of the first `n` names of
/// `interfaces`, in order.
pub open spec fn add_edges(
    pending: PendingView,
    interfaces: Seq<WithLocation<Seq<char>>>,
    n: int,
    edge: WithLocation<ObjectId>,
) -> PendingView
    decreases n,
{
    if n <= 0 {
        pending
    } else {
        add_edge(add_edges(pending, interfaces, n - 1, edge), interfaces[n - 1].item, edge)
    }
}

/// What holds of the edges that wait: no two entries are for the same
/// supertype, no entry is empty, and every edge starts at an object of the
/// registry.
pub open spec fn pending_wf(pending: PendingView, object_count: int) -> bool {
    &&& forall|i: int, j: int|
        0 <= i < j < pending.len() ==> (#[trigger] pending[i]).supertype != (
        #[trigger] pending[j]).supertype
    &&& forall|i: int| 0 <= i < pending.len() ==> (#[trigger] pending[i]).subtypes.len() > 0
    &&& forall|i: int, k: int|
        0 <= i < pending.len() && 0 <= k < pending[i].subtypes.len() ==> (
        #[trigger] pending[i].subtypes[k]).item.0 < object_count
}

// ----- one definition -----

/// What registering an object reports.
#[derive(Clone, Copy, Debug, PartialEq, Eq)]
pub struct ProcessObjectTypeDefinitionOutcome {
    /// The handle of the new object.
    pub object_id: ObjectId,
    /// The same handle, if the object is the root of mutations.
    pub mutation_object_id: Option<ObjectId>,
}

/// The registry and the waiting edges after one definition, and what the
/// call returned.
pub struct ObjectStep {
    pub schema: SchemaView,
    pub pending: PendingView,
    pub result: Result<ProcessObjectTypeDefinitionOutcome, LocatedError>,
}

/// The error for a name that is registered already.
pub open spec fn duplicate_type_error(kind: Seq<char>, name: WithLocation<Seq<char>>)
    -> LocatedError {
    WithLocation {
        location: name.location,
        item: ErrorView::DuplicateTypeDefinition { type_definition_type: kind, name: name.item },
    }
}

/// The record of a new object.
pub open spec fn object_record(
    definition: ObjectDefinitionView,
    id: ObjectId,
    fields: FieldsOutcomeView,
    resolvers: ResolversOutcomeView,
) -> ObjectView {
    ObjectView {
        description: description_text(definition.description),
        name: definition.name,
        id,
        server_fields: fields.server_fields,
        resolvers: resolvers.resolvers,
        encountered_fields: resolvers.encountered_fields,
        valid_refinements: Seq::empty(),
        id_field: fields.id_field,
        directives: definition.directives,
    }
}

/// What registering one object does. A name that is registered already,
/// an error among the fields, or a declared field that takes the name of
/// the computed field to add, ends the call with the registry and the
/// waiting edges as they were. Otherwise the object, its fields and its
/// computed field are appended, the name resolves to the object, an object
/// with the name of the root of queries becomes that root, and one edge
/// waits for each supertype that the definition names.
pub open spec fn register_object(
    schema: SchemaView,
    pending: PendingView,
    definition: ObjectDefinitionView,
    may_have_id_field: bool,
    options: ConfigOptions,
) -> ObjectStep {
    let id = ObjectId(schema.objects.len() as usize);
    if schema.defined_types.contains_key(definition.name.item) {
        ObjectStep {
            schema,
            pending,
            result: Err(duplicate_type_error("object"@, definition.name)),
        }
    } else {
        match fields_outcome(
            definition.fields,
            schema.fields.len() as int,
            id,
            definition.name.item,
            may_have_id_field,
            options,
        ) {
            Err(e) => ObjectStep { schema, pending, result: Err(e) },
            Ok(fields) => match resolvers_outcome(
                fields.id_field,
                fields.encountered_fields,
                schema.resolvers.len() as int,
                id,
                definition.name,
            ) {
                Err(e) => ObjectStep { schema, pending, result: Err(e) },
                Ok(resolvers) => ObjectStep {
                    schema: SchemaView {
                        fields: schema.fields + fields.unvalidated_schema_fields,
                        resolvers: schema.resolvers + resolvers.schema_resolvers,
                        objects: schema.objects.push(
                            object_record(definition, id, fields, resolvers),
                        ),
                        scalars: schema.scalars,
                        defined_types: schema.defined_types.insert(
                            definition.name.item,
                            DefinedTypeId::Object(id),
                        ),
                        query_type_id: if definition.name.item == query_type_name() {
                            Some(id)
                        } else {
                            schema.query_type_id
                        },
                    },
                    pending: add_edges(
                        pending,
                        definition.interfaces,
                        definition.interfaces.len() as int,
                        WithLocation { location: definition.name.location, item: id },
                    ),
                    result: Ok(
                        ProcessObjectTypeDefinitionOutcome {
                            object_id: id,
                            mutation_object_id: if definition.name.item == mutation_type_name() {
                                Some(id)
                            } else {
                                None
                            },
                        },
                    ),
                },
            },
        }
    }
}

/// The registry after a step that returns nothing, and the error if the
/// step ended in one.
pub struct SchemaStep {
    pub schema: SchemaView,
    pub error: Option<LocatedError>,
}

/// The record of a new scalar.
pub open spec fn scalar_record(definition: ScalarDefinitionView, id: ScalarId) -> ScalarView {
    ScalarView {
        description: definition.description,
        name: definition.name,
        id,
        javascript_name: string_javascript_type(),
    }
}

/// What registering one scalar does. A name that is registered already
/// ends the call with the registry as it was. Otherwise the scalar is
/// appended and the name resolves to it.
pub open spec fn register_scalar(schema: SchemaView, definition: ScalarDefinitionView)
    -> SchemaStep {
    let id = ScalarId(schema.scalars.len() as usize);
    if schema.defined_types.contains_key(definition.name.item) {
        SchemaStep { schema, error: Some(duplicate_type_error("scalar"@, definition.name)) }
    } else {
        SchemaStep {
            schema: SchemaView {
                scalars: schema.scalars.push(scalar_record(definition, id)),
                defined_types: schema.defined_types.insert(
                    definition.name.item,
                    DefinedTypeId::Scalar(id),
                ),
                ..schema
            },
            error: None,
        }
    }
}

// ----- the first pass -----

/// The registry, the waiting edges and the root of mutations found so far,
/// and the error if a definition was refused.
pub struct FirstPass {
    pub schema: SchemaView,
    pub pending: PendingView,
    pub mutation_id: Option<ObjectId>,
    pub error: Option<LocatedError>,
}

/// What one definition does to the state of the first pass.
pub open spec fn register_definition(
    state: FirstPass,
    definition: TypeDefinitionView,
    options: ConfigOptions,
) -> FirstPass {
    match definition {
        TypeDefinitionView::Object { definition, may_have_id_field } => {
            let step = register_object(
                state.schema,
                state.pending,
                definition,
                may_have_id_field,
                options,
            );
            match step.result {
                Ok(outcome) => FirstPass {
                    schema: step.schema,
                    pending: step.pending,
                    mutation_id: if outcome.mutation_object_id is Some {
                        outcome.mutation_object_id
                    } else {
                        state.mutation_id
                    },
                    error: None,
                },
                Err(e) => FirstPass { error: Some(e), ..state },
            }
        },
        TypeDefinitionView::Scalar(definition) => {
            let step = register_scalar(state.schema, definition);
            FirstPass { schema: step.schema, error: step.error, ..state }
        },
        TypeDefinitionView::Ignored => state,
    }
}

/// The first pass over the definitions from `from` on, in order, up to the
/// first that is refused.
pub open spec fn register_definitions(
    state: FirstPass,
    definitions: Seq<TypeDefinitionView>,
    from: int,
    options: ConfigOptions,
) -> FirstPass
    decreases definitions.len() - from,
{
    if from < 0 || from >= definitions.len() {
        state
    } else {
        let next = register_definition(state, definitions[from], options);
        if next.error is Some {
            next
        } else {
            register_definitions(next, definitions, from + 1, options)
        }
    }
}

// ----- the second pass -----

/// The edges of one entry as refinements, in order.
pub open spec fn refinements_of(subtypes: Seq<WithLocation<ObjectId>>) -> Seq<ValidRefinement> {
    Seq::new(subtypes.len(), |k: int| ValidRefinement { target: subtypes[k].item })
}

/// What resolving the edges to one supertype does. A supertype that was
/// never defined, or that is a scalar, is an error, and the registry stays
/// as it was. On an object, each edge becomes one more refinement of it, in
/// the order of the edges.
pub open spec fn resolve_entry(schema: SchemaView, entry: PendingRefinementView) -> SchemaStep {
    match schema.lookup(entry.supertype) {
        None => SchemaStep {
            schema,
            error: Some(
                WithLocation {
                    location: entry.subtypes[0].location,
                    item: ErrorView::IsographObjectTypeNameNotDefined { name: entry.supertype },
                },
            ),
        },
        Some(DefinedTypeId::Scalar(scalar_id)) => SchemaStep {
            schema,
            error: Some(
                WithLocation {
                    location: schema.scalars[scalar_id.0 as int].name.location,
                    item: ErrorView::IsographObjectTypeNameIsScalar {
                        name: entry.supertype,
                        implementing_object: schema.objects[entry.subtypes[0].item.0 as int].name.item,
                    },
                },
            ),
        },
        Some(DefinedTypeId::Object(object_id)) => {
            let supertype = schema.objects[object_id.0 as int];
            SchemaStep {
                schema: SchemaView {
                    objects: schema.objects.update(
                        object_id.0 as int,
                        ObjectView {
                            valid_refinements: supertype.valid_refinements + refinements_of(
                                entry.subtypes,
                            ),
                            ..supertype
                        },
                    ),
                    ..schema
                },
                error: None,
            }
        },
    }
}

/// The second pass over the entries from `from` on, in order, up to the
/// first that is an error.
pub open spec fn resolve_refinements(schema: SchemaView, pending: PendingView, from: int)
    -> SchemaStep
    decreases pending.len() - from,
{
    if from < 0 || from >= pending.len() {
        SchemaStep { schema, error: None }
    } else {
        let next = resolve_entry(schema, pending[from]);
        if next.error is Some {
            next
        } else {
            resolve_refinements(next.schema, pending, from + 1)
        }
    }
}

// ----- one document -----

/// What processing a document reports.
#[derive(Clone, Copy, Debug, PartialEq, Eq)]
pub struct ProcessGraphQLDocumentOutcome {
    /// The root of mutations, if the document defined it.
    pub mutation_id: Option<ObjectId>,
}

/// The registry after a document, and what the call returned.
pub struct DocumentStep {
    pub schema: SchemaView,
    pub result: Result<ProcessGraphQLDocumentOutcome, LocatedError>,
}

/// The state that the first pass over a document starts in.
pub open spec fn first_pass_start(schema: SchemaView) -> FirstPass {
    FirstPass { schema, pending: Seq::empty(), mutation_id: None, error: None }
}

/// What processing a document does: the first pass registers the
/// definitions in order and collects the edges; if none was refused, the
/// second pass resolves the edges. The first error ends the call; what was
/// registered before it stays.
pub open spec fn process_document(
    schema: SchemaView,
    definitions: Seq<TypeDefinitionView>,
    options: ConfigOptions,
) -> DocumentStep {
    let first = register_definitions(first_pass_start(schema), definitions, 0, options);
    match first.error {
        Some(e) => DocumentStep { schema: first.schema, result: Err(e) },
        None => {
            let second = resolve_refinements(first.schema, first.pending, 0);
            DocumentStep {
                schema: second.schema,
                result: match second.error {
                    Some(e) => Err(e),
                    None => Ok(ProcessGraphQLDocumentOutcome { mutation_id: first.mutation_id }),
                },
            }
        },
    }
}

// ----- extensions -----

/// The error for an extension that does not fit the type that it names.
pub open spec fn extension_mismatch(
    name: WithLocation<Seq<char>>,
    is_type: Seq<char>,
    extended_as_type: Seq<char>,
) -> LocatedError {
    WithLocation {
        location: name.location,
        item: ErrorView::TypeExtensionMismatch { name: name.item, is_type, extended_as_type },
    }
}

/// What one extension does. It must name an object of the registry and
/// bring nothing but directives: a name that was never defined, a scalar,
/// new fields or new supertypes are errors, and the registry stays as it
/// was. Otherwise the directives are appended to those of the object.
pub open spec fn apply_extension(schema: SchemaView, extension: ObjectExtensionView)
    -> SchemaStep {
    match schema.lookup(extension.name.item) {
        None => SchemaStep {
            schema,
            error: Some(extension_mismatch(extension.name, "not defined"@, "an object"@)),
        },
        Some(DefinedTypeId::Scalar(_)) => SchemaStep {
            schema,
            error: Some(extension_mismatch(extension.name, "a scalar"@, "an object"@)),
        },
        Some(DefinedTypeId::Object(object_id)) => if extension.fields.len() > 0 {
            SchemaStep {
                schema,
                error: Some(
                    extension_mismatch(extension.name, "an object"@, "an object with fields"@),
                ),
            }
        } else if extension.interfaces.len() > 0 {
            SchemaStep {
                schema,
                error: Some(
                    extension_mismatch(
                        extension.name,
                        "an object"@,
                        "an object with interfaces"@,
                    ),
                ),
            }
        } else {
            let object = schema.objects[object_id.0 as int];
            SchemaStep {
                schema: SchemaView {
                    objects: schema.objects.update(
                        object_id.0 as int,
                        ObjectView {
                            directives: object.directives + extension.directives,
                            ..object
                        },
                    ),
                    ..schema
                },
                error: None,
            }
        },
    }
}

/// The extensions from `from` on, in order, up to the first that is an
/// error.
pub open spec fn apply_extensions(
    schema: SchemaView,
    extensions: Seq<ObjectExtensionView>,
    from: int,
) -> SchemaStep
    decreases extensions.len() - from,
{
    if from < 0 || from >= extensions.len() {
        SchemaStep { schema, error: None }
    } else {
        let next = apply_extension(schema, extensions[from]);
        if next.error is Some {
            next
        } else {
            apply_extensions(next.schema, extensions, from + 1)
        }
    }
}

/// The definitions among the first `n` items, in order.
pub open spec fn definitions_of(items: Seq<ExtensionOrDefinitionView>, n: int) -> Seq<
    TypeDefinitionView,
>
    decreases n,
{
    if n <= 0 {
        Seq::empty()
    } else {
        match items[n - 1] {
            ExtensionOrDefinitionView::Definition(definition) => definitions_of(
                items,
                n - 1,
            ).push(definition),
            ExtensionOrDefinitionView::Extension(_) => definitions_of(items, n - 1),
        }
    }
}

/// The extensions among the first `n` items, in order.
pub open spec fn extensions_of(items: Seq<ExtensionOrDefinitionView>, n: int) -> Seq<
    ObjectExtensionView,
>
    decreases n,
{
    if n <= 0 {
        Seq::empty()
    } else {
        match items[n - 1] {
            ExtensionOrDefinitionView::Definition(_) => extensions_of(items, n - 1),
            ExtensionOrDefinitionView::Extension(extension) => extensions_of(items, n - 1).push(
                extension,
            ),
        }
    }
}

/// What processing an extension document does: its definitions are
/// processed as a document of their own; if that succeeds, its extensions
/// are applied in order. The first error ends the call; what was done
/// before it stays.
pub open spec fn process_extension_document(
    schema: SchemaView,
    items: Seq<ExtensionOrDefinitionView>,
    options: ConfigOptions,
) -> DocumentStep {
    let definitions = process_document(
        schema,
        definitions_of(items, items.len() as int),
        options,
    );
    match definitions.result {
        Err(_) => definitions,
        Ok(outcome) => {
            let extensions = apply_extensions(
                definitions.schema,
                extensions_of(items, items.len() as int),
                0,
            );
            DocumentStep {
                schema: extensions.schema,
                result: match extensions.error {
                    Some(e) => Err(e),
                    None => Ok(outcome),
                },
            }
        },
    }
}

// ----- room for handles -----

/// How many field records one definition asks for: one for each declared
/// field of an object, and one more for the object.
pub open spec fn definition_field_demand(definition: TypeDefinitionView) -> nat {
    match definition {
        TypeDefinitionView::Object { definition, .. } => definition.fields.len() + 1,
        _ => 0,
    }
}

/// How many field records the definitions from `from` on ask for.
pub open spec fn field_demand(definitions: Seq<TypeDefinitionView>, from: int) -> nat
    decreases definitions.len() - from,
{
    if from < 0 || from >= definitions.len() {
        0
    } else {
        definition_field_demand(definitions[from]) + field_demand(definitions, from + 1)
    }
}

/// One more definition at the end asks for its records beside those of
/// the others.
pub proof fn lemma_field_demand_push(
    definitions: Seq<TypeDefinitionView>,
    definition: TypeDefinitionView,
    from: int,
)
    requires
        0 <= from <= definitions.len(),
    ensures
        field_demand(definitions.push(definition), from) == field_demand(definitions, from)
            + definition_field_demand(definition),
    decreases definitions.len() - from,
{
    let longer = definitions.push(definition);
    if from < definitions.len() {
        lemma_field_demand_push(definitions, definition, from + 1);
        assert(longer[from] == definitions[from]);
    } else {
        assert(longer[from] == definition);
        assert(field_demand(longer, from + 1) == 0);
    }
}

/// The definitions among more items ask for no fewer records.
pub proof fn lemma_definitions_demand_grows(items: Seq<ExtensionOrDefinitionView>, n: int, m: int)
    requires
        0 <= n <= m,
    ensures
        field_demand(definitions_of(items, n), 0) <= field_demand(definitions_of(items, m), 0),
    decreases m - n,
{
    if n < m {
        lemma_definitions_demand_grows(items, n, m - 1);
        if let ExtensionOrDefinitionView::Definition(definition) = items[m - 1] {
            lemma_field_demand_push(definitions_of(items, m - 1), definition, 0);
        }
    }
}

} // verus!
