//! Building the registry from type-system documents: the first pass, which
//! registers every definition, the second pass, which resolves the edges
//! from subtypes to supertypes, and the extensions that follow.

use vstd::prelude::*;
use vstd::hash_map::StringHashMap;
use crate::common::{Location, Span, WithLocation, WithSpan};
use crate::error::{LocatedError, ProcessTypeDefinitionError};
use crate::graphql_types::{
    GraphQLDirective, GraphQLInputObjectTypeDefinition, GraphQLInputValueDefinition,
    GraphQLInterfaceTypeDefinition, GraphQLObjectTypeDefinition, GraphQLObjectTypeExtension,
    GraphQLOutputFieldDefinition, GraphQLScalarTypeDefinition, GraphQLTypeSystemDefinition,
    GraphQLTypeSystemDocument, GraphQLTypeSystemExtension, GraphQLTypeSystemExtensionDocument,
    GraphQLTypeSystemExtensionOrDefinition, GraphQLUnionTypeDefinition, NamedTypeAnnotation,
    NonNullTypeAnnotation, ObjectDefinitionView, TypeAnnotation, description_view,
    input_value_as_field,
};
use crate::invariants::{
    lemma_apply_extension_wf, lemma_register_object_pending_wf, lemma_register_object_wf,
    lemma_register_scalar_wf, lemma_resolve_entry_wf,
};
use crate::lang_types::{
    DefinedField, DefinedTypeId, ObjectId, ResolverFieldId, ScalarFieldSelection, ServerFieldId,
    ServerIdFieldId, error_view, lemma_seq_view_add, lemma_seq_view_push, result_view, seq_view,
};
use crate::model::{
    FieldsOutcomeView, FirstPass, PendingRefinementView, PendingView, add_edge, add_edges,
    apply_extension, apply_extensions, definition_field_demand, definitions_of, entry_index,
    extensions_of, field_demand, lemma_definitions_demand_grows, lemma_field_demand_push,
    field_error, field_index, fields_outcome, first_field_error, first_pass_start, id_field_of,
    lemma_entry_index_stays, lemma_field_index_names, pending_wf, process_document,
    process_extension_document, refetch_resolver, refinements_of, register_definition,
    register_definitions, register_object, register_scalar, resolve_entry, resolve_refinements,
    resolvers_outcome, server_field_record, typename_record,
};
use crate::schema::{
    ConfigOptions, ObjectView, OptionalValidationLevel, ResolverActionKind, ResolverTypeAndField,
    ResolverVariant, SchemaObject, SchemaResolver, SchemaScalar, SchemaServerField, SchemaView,
    UnvalidatedSchema, ValidRefinement, id_field_name, is_non_null_id_type, typename_field_name,
};

pub use crate::model::{ProcessGraphQLDocumentOutcome, ProcessObjectTypeDefinitionOutcome};

verus! {

/// What a step of building the registry returns.
pub type ProcessTypeDefinitionResult<T> = Result<T, WithLocation<ProcessTypeDefinitionError>>;

/// The non-null type under the name `string_type_for_typename`, as the
/// registry itself writes it.
pub fn get_typename_type(string_type_for_typename: String) -> (annotation: TypeAnnotation<String>)
    ensures
        annotation@ == TypeAnnotation::NonNull(
            Box::new(
                NonNullTypeAnnotation::Named(
                    NamedTypeAnnotation(
                        WithSpan {
                            item: string_type_for_typename@,
                            span: Span::spec_todo_generated(),
                        },
                    ),
                ),
            ),
        ),
{
    TypeAnnotation::NonNull(
        Box::new(
            NonNullTypeAnnotation::Named(
                NamedTypeAnnotation(WithSpan::new(string_type_for_typename, Span::todo_generated())),
            ),
        ),
    )
}

/// Whether a type is written as the identifier type, not null.
pub fn is_id_type(annotation: &TypeAnnotation<String>) -> (yes: bool)
    ensures
        yes == is_non_null_id_type(annotation@),
{
    match annotation.inner_non_null_named_type() {
        Some(named) => {
            let id_type = String::from_str("ID");
            named.0.item == id_type
        },
        None => false,
    }
}

/// Makes the field under the handle `current_field_id` the identifier
/// field, and checks its type. A type other than the non-null identifier
/// type is an error where the options make it fatal, and is accepted
/// otherwise.
pub fn set_and_validate_id_field(
    id_field: &mut Option<ServerIdFieldId>,
    current_field_id: usize,
    field: &WithLocation<GraphQLOutputFieldDefinition>,
    parent_type_name: &str,
    options: ConfigOptions,
) -> (result: ProcessTypeDefinitionResult<()>)
    ensures
        *final(id_field) == Some(ServerIdFieldId(current_field_id)),
        result is Err <==> !is_non_null_id_type(field.item.type_@)
            && options.on_invalid_id_type.is_fatal(),
        result matches Err(e) ==> e@ == (WithLocation {
            location: field.location,
            item: crate::error::ErrorView::IdFieldMustBeNonNullIdType {
                parent_type: parent_type_name@,
                strong_field_name: id_field_name(),
            },
        }),
{
    *id_field = Some(ServerIdFieldId(current_field_id));
    if is_id_type(&field.item.type_) {
        Ok(())
    } else {
        match options.on_invalid_id_type {
            OptionalValidationLevel::Error => Err(
                WithLocation::new(
                    ProcessTypeDefinitionError::IdFieldMustBeNonNullIdType {
                        strong_field_name: "id",
                        parent_type: parent_type_name.to_owned(),
                    },
                    field.location,
                ),
            ),
            _ => Ok(()),
        }
    }
}

/// What the fields of one object come to.
pub struct FieldObjectIdsEtc {
    /// The records of the fields, the added one last.
    pub unvalidated_schema_fields: Vec<SchemaServerField>,
    /// The handles of those records.
    pub server_fields: Vec<ServerFieldId>,
    /// What each field name resolves to.
    pub encountered_fields: StringHashMap<DefinedField>,
    /// The identifier field, if there is one.
    pub id_field: Option<ServerIdFieldId>,
}

impl View for FieldObjectIdsEtc {
    type V = FieldsOutcomeView;

    open spec fn view(&self) -> FieldsOutcomeView {
        FieldsOutcomeView {
            unvalidated_schema_fields: seq_view(self.unvalidated_schema_fields@),
            server_fields: self.server_fields@,
            encountered_fields: self.encountered_fields@,
            id_field: self.id_field,
        }
    }
}

/// Turns the declared fields of one object into records, with handles
/// counting up from `next_field_id`, adds the field that every object
/// gets, and finds the identifier field. The first field whose name was
/// declared before, or that breaks the rule on identifier fields, ends the
/// call with its error; so does, after them, a declared field with the
/// name of the added one.
pub fn get_field_objects_ids_and_names(
    new_fields: Vec<WithLocation<GraphQLOutputFieldDefinition>>,
    next_field_id: usize,
    parent_type_id: ObjectId,
    parent_type_name: &str,
    may_have_field_id: bool,
    options: ConfigOptions,
) -> (result: ProcessTypeDefinitionResult<FieldObjectIdsEtc>)
    requires
        next_field_id + new_fields@.len() + 1 <= usize::MAX,
    ensures
        result_view(result) == fields_outcome(
            seq_view(new_fields@),
            next_field_id as int,
            parent_type_id,
            parent_type_name@,
            may_have_field_id,
            options,
        ),
{
    let ghost fields = seq_view(new_fields@);
    let ghost declared = new_fields@;
    let ghost next = next_field_id as int;
    let new_field_count = new_fields.len();
    let mut encountered_fields: StringHashMap<DefinedField> = StringHashMap::with_capacity(
        new_field_count,
    );
    let mut unvalidated_fields: Vec<SchemaServerField> = Vec::with_capacity(new_field_count);
    let mut field_ids: Vec<ServerFieldId> = Vec::with_capacity(new_field_count);
    let mut id_field: Option<ServerIdFieldId> = None;
    let id_name = String::from_str("id");
    let mut current_field_index: usize = 0;
    for field in it: new_fields
        invariant
            it.seq() == declared,
            fields == seq_view(declared),
            next == next_field_id,
            id_name@ == id_field_name(),
            current_field_index == it.index(),
            next_field_id + declared.len() + 1 <= usize::MAX,
            first_field_error(fields, 0, parent_type_name@, may_have_field_id, options)
                == first_field_error(
                fields,
                current_field_index as int,
                parent_type_name@,
                may_have_field_id,
                options,
            ),
            encountered_fields@ == field_index(fields, next, current_field_index as int),
            seq_view(unvalidated_fields@) == Seq::new(
                current_field_index as nat,
                |i: int| server_field_record(fields[i], next + i, parent_type_id),
            ),
            field_ids@ == Seq::new(
                current_field_index as nat,
                |i: int| ServerFieldId((next + i) as usize),
            ),
            id_field == id_field_of(fields, next, may_have_field_id, current_field_index as int),
    {
        let ghost i = current_field_index as int;
        assert(fields[i] == field@);
        proof {
            lemma_field_index_names(fields, next, i, field.item.name.item@);
            lemma_field_index_names(fields, next, i, id_field_name());
        }
        if encountered_fields.contains_key(field.item.name.item.as_str()) {
            let location = field.item.name.location;
            let error = ProcessTypeDefinitionError::DuplicateField {
                field_name: field.item.name.item,
                parent_type: parent_type_name.to_owned(),
            };
            return Err(WithLocation::new(error, location));
        }
        let current_field_id = next_field_id + current_field_index;
        let is_id = may_have_field_id && field.item.name.item == id_name;
        if is_id {
            match set_and_validate_id_field(
                &mut id_field,
                current_field_id,
                &field,
                parent_type_name,
                options,
            ) {
                Err(e) => {
                    return Err(e);
                },
                Ok(()) => {},
            }
        }
        assert(field_error(fields, i, parent_type_name@, may_have_field_id, options) is None);
        let WithLocation { location: _, item } = field;
        let GraphQLOutputFieldDefinition { description, name, type_, arguments, directives: _ } =
            item;
        encountered_fields.insert(
            name.item.clone(),
            DefinedField::ServerField(ServerFieldId(current_field_id)),
        );
        let description = match description {
            Some(text) => Some(text.item),
            None => None,
        };
        let record = SchemaServerField {
            description,
            name,
            id: ServerFieldId(current_field_id),
            associated_data: type_,
            parent_type_id,
            arguments,
        };
        assert(record@ == server_field_record(fields[i], next + i, parent_type_id));
        proof {
            lemma_seq_view_push(unvalidated_fields@, record);
        }
        unvalidated_fields.push(record);
        field_ids.push(ServerFieldId(current_field_id));
        current_field_index += 1;
        assert(seq_view(unvalidated_fields@) =~= Seq::new(
            current_field_index as nat,
            |k: int| server_field_record(fields[k], next + k, parent_type_id),
        ));
        assert(field_ids@ =~= Seq::new(
            current_field_index as nat,
            |k: int| ServerFieldId((next + k) as usize),
        ));
    }
    assert(current_field_index == declared.len());
    proof {
        lemma_field_index_names(fields, next, fields.len() as int, typename_field_name());
    }

    // The field that every object gets.
    if encountered_fields.contains_key("typename") {
        return Err(
            WithLocation::new(
                ProcessTypeDefinitionError::TypenameCannotBeDefined {
                    parent_type: parent_type_name.to_owned(),
                },
                Location::generated(),
            ),
        );
    }
    let typename_field_id = ServerFieldId(next_field_id + current_field_index);
    let typename_name = WithLocation::new(String::from_str("typename"), Location::generated());
    let typename_type = get_typename_type(String::from_str("String"));
    let record = SchemaServerField {
        description: None,
        name: typename_name,
        id: typename_field_id,
        associated_data: typename_type,
        parent_type_id,
        arguments: Vec::new(),
    };
    assert(record@.arguments =~= Seq::empty());
    assert(record@ == typename_record(next + fields.len(), parent_type_id));
    proof {
        lemma_seq_view_push(unvalidated_fields@, record);
    }
    field_ids.push(typename_field_id);
    unvalidated_fields.push(record);
    encountered_fields.insert(
        String::from_str("typename"),
        DefinedField::ServerField(typename_field_id),
    );
    let outcome = FieldObjectIdsEtc {
        unvalidated_schema_fields: unvalidated_fields,
        server_fields: field_ids,
        encountered_fields,
        id_field,
    };
    proof {
        let expected = fields_outcome(
            fields,
            next,
            parent_type_id,
            parent_type_name@,
            may_have_field_id,
            options,
        );
        assert(expected is Ok);
        assert(outcome@.unvalidated_schema_fields =~= expected->Ok_0.unvalidated_schema_fields);
        assert(outcome@.server_fields =~= expected->Ok_0.server_fields);
    }
    Ok(outcome)
}

/// Adds to a new object the computed fields that are known before any
/// resolver is read: the field for refetching, if the object has an
/// identifier field, and nothing otherwise. The field takes its name in
/// the name index; a name that is taken already is an error, and then
/// nothing is changed.
pub fn get_resolvers_for_schema_object(
    id_field_id: &Option<ServerIdFieldId>,
    encountered_fields: &mut StringHashMap<DefinedField>,
    schema_resolvers: &mut Vec<SchemaResolver>,
    parent_object_id: ObjectId,
    type_definition_name: &WithLocation<String>,
) -> (result: ProcessTypeDefinitionResult<Vec<ResolverFieldId>>)
    ensures
        match resolvers_outcome(
            *id_field_id,
            old(encountered_fields)@,
            old(schema_resolvers)@.len() as int,
            parent_object_id,
            type_definition_name@,
        ) {
            Ok(outcome) => {
                &&& result matches Ok(ids)
                &&& ids@ == outcome.resolvers
                &&& final(encountered_fields)@ == outcome.encountered_fields
                &&& seq_view(final(schema_resolvers)@) == seq_view(old(schema_resolvers)@)
                    + outcome.schema_resolvers
            },
            Err(error) => {
                &&& result matches Err(e)
                &&& e@ == error
                &&& *final(encountered_fields) == *old(encountered_fields)
                &&& *final(schema_resolvers) == *old(schema_resolvers)
            },
        },
{
    if id_field_id.is_none() {
        assert(seq_view(schema_resolvers@) + Seq::empty() =~= seq_view(schema_resolvers@));
        return Ok(Vec::new());
    }
    if encountered_fields.contains_key("refetch") {
        return Err(
            WithLocation::new(
                ProcessTypeDefinitionError::DuplicateField {
                    field_name: String::from_str("refetch"),
                    parent_type: type_definition_name.item.clone(),
                },
                type_definition_name.location,
            ),
        );
    }
    let next_resolver_id = ResolverFieldId(schema_resolvers.len());
    let id_field_selection = WithSpan::new(
        ScalarFieldSelection {
            name: WithLocation::new(String::from_str("id"), Location::generated()),
            reader_alias: None,
            normalization_alias: None,
        },
        Span::todo_generated(),
    );
    let mut selection_set: Vec<WithSpan<ScalarFieldSelection>> = Vec::new();
    selection_set.push(id_field_selection);
    let resolver = SchemaResolver {
        description: Some(String::from_str("A refetch field for this object.")),
        name: String::from_str("refetch"),
        id: next_resolver_id,
        selection_set: Some(selection_set),
        variant: ResolverVariant::RefetchField,
        type_and_field: ResolverTypeAndField {
            parent_type: type_definition_name.item.clone(),
            field_name: String::from_str("refetch"),
        },
        parent_object_id,
        // Such a field cannot be fetched by itself, though reading it
        // fetches the object again.
        action_kind: ResolverActionKind::RefetchField,
    };
    proof {
        let expected = refetch_resolver(
            next_resolver_id.0 as int,
            parent_object_id,
            type_definition_name.item@,
        );
        assert(resolver@.selection_set->Some_0 =~= expected.selection_set->Some_0);
        assert(resolver@ == expected);
        lemma_seq_view_push(schema_resolvers@, resolver);
        assert(seq_view(schema_resolvers@).push(resolver@) =~= seq_view(schema_resolvers@)
            + seq![expected]);
    }
    schema_resolvers.push(resolver);
    encountered_fields.insert(
        String::from_str("refetch"),
        DefinedField::ResolverField(next_resolver_id),
    );
    let mut ids: Vec<ResolverFieldId> = Vec::new();
    ids.push(next_resolver_id);
    assert(ids@ =~= seq![next_resolver_id]);
    Ok(ids)
}

/// The definition of an object, as the registry reads the definitions of
/// objects, interfaces, input objects and unions alike.
#[derive(Debug, PartialEq, Eq)]
pub struct IsographObjectTypeDefinition {
    pub description: Option<WithSpan<String>>,
    pub name: WithLocation<String>,
    pub interfaces: Vec<WithLocation<String>>,
    pub directives: Vec<GraphQLDirective>,
    pub fields: Vec<WithLocation<GraphQLOutputFieldDefinition>>,
}

impl View for IsographObjectTypeDefinition {
    type V = ObjectDefinitionView;

    open spec fn view(&self) -> ObjectDefinitionView {
        ObjectDefinitionView {
            description: description_view(self.description),
            name: self.name@,
            interfaces: seq_view(self.interfaces@),
            directives: self.directives@,
            fields: seq_view(self.fields@),
        }
    }
}

impl IsographObjectTypeDefinition {
    /// An object definition, as it is.
    pub fn from_object_type_definition(definition: GraphQLObjectTypeDefinition) -> (object:
        IsographObjectTypeDefinition)
        ensures
            object@ == definition@,
    {
        IsographObjectTypeDefinition {
            description: definition.description,
            name: definition.name,
            interfaces: definition.interfaces,
            directives: definition.directives,
            fields: definition.fields,
        }
    }

    /// An interface, read as an object.
    pub fn from_interface_type_definition(definition: GraphQLInterfaceTypeDefinition) -> (object:
        IsographObjectTypeDefinition)
        ensures
            object@ == definition@,
    {
        IsographObjectTypeDefinition {
            description: definition.description,
            name: definition.name,
            interfaces: definition.interfaces,
            directives: definition.directives,
            fields: definition.fields,
        }
    }

    /// An input object, read as an object that implements nothing and
    /// whose fields take no arguments.
    pub fn from_input_object_type_definition(definition: GraphQLInputObjectTypeDefinition)
        -> (object: IsographObjectTypeDefinition)
        ensures
            object@ == definition@,
    {
        let GraphQLInputObjectTypeDefinition { description, name, directives, fields } =
            definition;
        let ghost declared = fields@;
        let mut output_fields: Vec<WithLocation<GraphQLOutputFieldDefinition>> = Vec::new();
        for field in it: fields
            invariant
                it.seq() == declared,
                seq_view(output_fields@) == Seq::new(
                    it.index() as nat,
                    |i: int|
                        WithLocation {
                            location: declared[i].location,
                            item: input_value_as_field(declared[i].item),
                        },
                ),
        {
            let WithLocation { location, item } = field;
            let GraphQLInputValueDefinition {
                description,
                name,
                type_,
                default_value: _,
                directives,
            } = item;
            let output = WithLocation::new(
                GraphQLOutputFieldDefinition {
                    description,
                    name,
                    type_,
                    arguments: Vec::new(),
                    directives,
                },
                location,
            );
            assert(output@.item.arguments =~= Seq::empty());
            proof {
                lemma_seq_view_push(output_fields@, output);
            }
            output_fields.push(output);
            assert(seq_view(output_fields@) =~= Seq::new(
                (it.index() + 1) as nat,
                |i: int|
                    WithLocation {
                        location: declared[i].location,
                        item: input_value_as_field(declared[i].item),
                    },
            ));
        }
        let object = IsographObjectTypeDefinition {
            description,
            name,
            interfaces: Vec::new(),
            directives,
            fields: output_fields,
        };
        assert(object@.interfaces =~= definition@.interfaces);
        assert(object@.fields =~= definition@.fields);
        object
    }

    /// A union, read as an object that implements nothing and has no
    /// fields of its own.
    pub fn from_union_type_definition(definition: GraphQLUnionTypeDefinition) -> (object:
        IsographObjectTypeDefinition)
        ensures
            object@ == definition@,
    {
        let object = IsographObjectTypeDefinition {
            description: definition.description,
            name: definition.name,
            interfaces: Vec::new(),
            directives: definition.directives,
            fields: Vec::new(),
        };
        assert(object@.interfaces =~= definition@.interfaces);
        assert(object@.fields =~= definition@.fields);
        object
    }
}

/// The objects that named one supertype as implemented.
#[derive(Debug, PartialEq, Eq)]
pub struct PendingRefinement {
    pub supertype: String,
    pub subtypes: Vec<WithLocation<ObjectId>>,
}

impl View for PendingRefinement {
    type V = PendingRefinementView;

    open spec fn view(&self) -> PendingRefinementView {
        PendingRefinementView { supertype: self.supertype@, subtypes: self.subtypes@ }
    }
}

/// The edges from subtypes to supertypes that the first pass collects and
/// the second pass resolves: one entry for each supertype, in the order in
/// which the supertypes were first named.
#[derive(Debug, PartialEq, Eq)]
pub struct TypeRefinementMap {
    pub entries: Vec<PendingRefinement>,
}

impl View for TypeRefinementMap {
    type V = PendingView;

    open spec fn view(&self) -> PendingView {
        seq_view(self.entries@)
    }
}

impl TypeRefinementMap {
    /// No edges.
    pub fn new() -> (map: TypeRefinementMap)
        ensures
            map@ == Seq::<PendingRefinementView>::empty(),
    {
        let map = TypeRefinementMap { entries: Vec::new() };
        assert(map@ =~= Seq::empty());
        map
    }

    /// Adds one edge: `subtype` comes last among the objects that named
    /// `supertype`.
    pub fn add(&mut self, supertype: String, subtype: WithLocation<ObjectId>)
        ensures
            final(self)@ == add_edge(old(self)@, supertype@, subtype),
    {
        let ghost pending = self@;
        let count = self.entries.len();
        let mut i: usize = 0;
        while i < count
            invariant
                0 <= i <= count,
                count == self.entries@.len(),
                *self == *old(self),
                pending == self@,
                entry_index(pending, supertype@, i as int) is None,
            decreases count - i,
        {
            if self.entries[i].supertype == supertype {
                assert(pending[i as int] == self.entries@[i as int]@);
                assert(entry_index(pending, supertype@, i + 1) == Some(i as int));
                proof {
                    lemma_entry_index_stays(pending, supertype@, i + 1, count as int);
                }
                let ghost before = self.entries@[i as int];
                self.entries[i].subtypes.push(subtype);
                assert(self@ =~= pending.update(
                    i as int,
                    PendingRefinementView {
                        supertype: supertype@,
                        subtypes: before.subtypes@.push(subtype),
                    },
                ));
                return ;
            }
            assert(pending[i as int] == self.entries@[i as int]@);
            i += 1;
        }
        let mut subtypes: Vec<WithLocation<ObjectId>> = Vec::new();
        subtypes.push(subtype);
        let entry = PendingRefinement { supertype, subtypes };
        assert(entry@.subtypes =~= seq![subtype]);
        proof {
            lemma_seq_view_push(self.entries@, entry);
        }
        self.entries.push(entry);
    }
}

/// How many field records a definition asks for, if a handle can count
/// them.
pub fn count_field_demand(definition: &GraphQLTypeSystemDefinition) -> (demand: Option<usize>)
    ensures
        match demand {
            Some(n) => n == definition_field_demand(definition@),
            None => definition_field_demand(definition@) > usize::MAX,
        },
{
    match definition {
        GraphQLTypeSystemDefinition::ObjectTypeDefinition(d) => {
            assert(d@.fields.len() == d.fields@.len());
            d.fields.len().checked_add(1)
        },
        GraphQLTypeSystemDefinition::InterfaceTypeDefinition(d) => {
            assert(d@.fields.len() == d.fields@.len());
            d.fields.len().checked_add(1)
        },
        GraphQLTypeSystemDefinition::InputObjectTypeDefinition(d) => {
            assert(d@.fields.len() == d.fields@.len());
            d.fields.len().checked_add(1)
        },
        GraphQLTypeSystemDefinition::UnionTypeDefinition(d) => {
            assert(d@.fields.len() == 0);
            Some(1)
        },
        GraphQLTypeSystemDefinition::ScalarTypeDefinition(_) => Some(0),
        GraphQLTypeSystemDefinition::EnumDefinition(_) => Some(0),
        GraphQLTypeSystemDefinition::DirectiveDefinition(_) => Some(0),
    }
}

impl UnvalidatedSchema {
    /// Registers one object. A name that is registered already, an error
    /// among the fields, or a declared field that takes the name of the
    /// computed field to add, ends the call with an error and changes
    /// nothing. Otherwise the object is registered with the handle that is
    /// returned, and one edge is added to `valid_type_refinement_map` for
    /// each supertype that the definition names.
    pub fn process_object_type_definition(
        &mut self,
        object_type_definition: IsographObjectTypeDefinition,
        valid_type_refinement_map: &mut TypeRefinementMap,
        may_have_id_field: bool,
        options: ConfigOptions,
    ) -> (result: ProcessTypeDefinitionResult<ProcessObjectTypeDefinitionOutcome>)
        requires
            old(self).fields@.len() + object_type_definition.fields@.len() + 1 <= usize::MAX,
        ensures
            ({
                let step = register_object(
                    old(self)@,
                    old(valid_type_refinement_map)@,
                    object_type_definition@,
                    may_have_id_field,
                    options,
                );
                &&& final(self)@ == step.schema
                &&& final(valid_type_refinement_map)@ == step.pending
                &&& error_view(result) == step.result
            }),
            result is Err ==> *final(self) == *old(self) && *final(valid_type_refinement_map)
                == *old(valid_type_refinement_map),
            old(self)@.wf() ==> final(self)@.wf(),
            pending_wf(old(valid_type_refinement_map)@, old(self)@.objects.len() as int)
                ==> pending_wf(
                final(valid_type_refinement_map)@,
                final(self)@.objects.len() as int,
            ),
    {
        let ghost schema = self@;
        let ghost pending = valid_type_refinement_map@;
        let ghost definition = object_type_definition@;
        let next_object_id = ObjectId(self.schema_data.objects.len());
        if self.schema_data.defined_types.contains_key(object_type_definition.name.item.as_str()) {
            let location = object_type_definition.name.location;
            return Err(
                WithLocation::new(
                    ProcessTypeDefinitionError::DuplicateTypeDefinition {
                        type_definition_type: "object",
                        name: object_type_definition.name.item,
                    },
                    location,
                ),
            );
        }
        let IsographObjectTypeDefinition { description, name, interfaces, directives, fields } =
            object_type_definition;
        let fields_etc = match get_field_objects_ids_and_names(
            fields,
            self.fields.len(),
            next_object_id,
            name.item.as_str(),
            may_have_id_field,
            options,
        ) {
            Ok(fields_etc) => fields_etc,
            Err(e) => {
                return Err(e);
            },
        };
        let ghost fields_view = fields_etc@;
        let FieldObjectIdsEtc {
            mut unvalidated_schema_fields,
            server_fields,
            mut encountered_fields,
            id_field,
        } = fields_etc;
        let object_resolvers = match get_resolvers_for_schema_object(
            &id_field,
            &mut encountered_fields,
            &mut self.resolvers,
            next_object_id,
            &name,
        ) {
            Ok(object_resolvers) => object_resolvers,
            Err(e) => {
                return Err(e);
            },
        };
        let ghost resolvers_view = resolvers_outcome(
            id_field,
            fields_view.encountered_fields,
            schema.resolvers.len() as int,
            next_object_id,
            name@,
        )->Ok_0;

        let is_query = name.item == String::from_str("Query");
        let is_mutation = name.item == String::from_str("Mutation");
        let location = name.location;
        let description = match description {
            Some(text) => Some(text.item),
            None => None,
        };
        let object = SchemaObject {
            description,
            name,
            id: next_object_id,
            server_fields,
            resolvers: object_resolvers,
            encountered_fields,
            valid_refinements: Vec::new(),
            id_field,
            directives,
        };
        assert(object@.valid_refinements =~= Seq::empty());
        assert(object@ == crate::model::object_record(
            definition,
            next_object_id,
            fields_view,
            resolvers_view,
        ));
        proof {
            lemma_seq_view_add(self.fields@, unvalidated_schema_fields@);
        }
        match self.schema_data.register_object(object) {
            Ok(_) => {},
            Err(e) => {
                // The name was free when the fields were built.
                return Err(e);
            },
        }
        if is_query {
            self.query_type_id = Some(next_object_id);
        }
        self.fields.append(&mut unvalidated_schema_fields);

        let ghost named = seq_view(interfaces@);
        let ghost edge = WithLocation { location, item: next_object_id };
        for interface in it: interfaces
            invariant
                seq_view(it.seq()) == named,
                edge == (WithLocation { location, item: next_object_id }),
                valid_type_refinement_map@ == add_edges(pending, named, it.index(), edge),
        {
            assert(named[it.index()] == interface@);
            valid_type_refinement_map.add(interface.item, WithLocation::new(next_object_id, location));
        }
        assert(named.len() == definition.interfaces.len());
        proof {
            self.lemma_bounded();
            if schema.wf() {
                lemma_register_object_wf(schema, pending, definition, may_have_id_field, options);
            }
            if pending_wf(pending, schema.objects.len() as int) {
                lemma_register_object_pending_wf(
                    schema,
                    pending,
                    definition,
                    may_have_id_field,
                    options,
                );
            }
        }
        Ok(
            ProcessObjectTypeDefinitionOutcome {
                object_id: next_object_id,
                mutation_object_id: if is_mutation {
                    Some(next_object_id)
                } else {
                    None
                },
            },
        )
    }

    /// Registers one scalar. A name that is registered already ends the
    /// call with an error and changes nothing.
    pub fn process_scalar_definition(&mut self, scalar_type_definition: GraphQLScalarTypeDefinition)
        -> (result: ProcessTypeDefinitionResult<()>)
        ensures
            ({
                let step = register_scalar(old(self)@, scalar_type_definition@);
                &&& final(self)@ == step.schema
                &&& error_view(result) == unit_result(step.error)
            }),
            result is Err ==> *final(self) == *old(self),
            old(self)@.wf() ==> final(self)@.wf(),
    {
        let ghost schema = self@;
        let scalar = SchemaScalar {
            description: scalar_type_definition.description,
            name: scalar_type_definition.name,
            id: crate::lang_types::ScalarId(self.schema_data.scalars.len()),
            javascript_name: String::from_str("string"),
        };
        match self.schema_data.register_scalar(scalar) {
            Ok(_) => {
                proof {
                    self.lemma_bounded();
                    if schema.wf() {
                        lemma_register_scalar_wf(schema, scalar_type_definition@);
                    }
                }
                Ok(())
            },
            Err(e) => Err(e),
        }
    }

    /// The second pass: resolves the edges that the first pass collected,
    /// entry by entry. A supertype that was never defined, or that is a
    /// scalar, ends the call with an error; the entries before it are
    /// resolved. On an object, each edge becomes one more refinement of it.
    pub fn resolve_type_refinements(&mut self, valid_type_refinement_map: TypeRefinementMap) -> (result:
        ProcessTypeDefinitionResult<()>)
        requires
            old(self)@.wf(),
            pending_wf(valid_type_refinement_map@, old(self)@.objects.len() as int),
        ensures
            ({
                let step = resolve_refinements(old(self)@, valid_type_refinement_map@, 0);
                &&& final(self)@ == step.schema
                &&& error_view(result) == unit_result(step.error)
            }),
            final(self)@.wf(),
    {
        let ghost start = self@;
        let ghost pending = valid_type_refinement_map@;
        for entry in it: valid_type_refinement_map.entries
            invariant
                seq_view(it.seq()) == pending,
                start == old(self)@,
                self@.wf(),
                pending_wf(pending, self@.objects.len() as int),
                resolve_refinements(start, pending, 0) == resolve_refinements(
                    self@,
                    pending,
                    it.index(),
                ),
        {
            let ghost before = self@;
            let ghost i = it.index();
            assert(0 <= i < pending.len());
            assert(pending[i] == entry@);
            proof {
                lemma_resolve_entry_wf(before, entry@);
            }
            assert(resolve_refinements(before, pending, i) == (if resolve_entry(
                before,
                pending[i],
            ).error is Some {
                resolve_entry(before, pending[i])
            } else {
                resolve_refinements(resolve_entry(before, pending[i]).schema, pending, i + 1)
            }));
            let PendingRefinement { supertype, subtypes } = entry;
            let first_location = subtypes[0].location;
            let first_id = subtypes[0].item;
            match self.schema_data.lookup(supertype.as_str()) {
                None => {
                    return Err(
                        WithLocation::new(
                            ProcessTypeDefinitionError::IsographObjectTypeNameNotDefined {
                                name: supertype,
                            },
                            first_location,
                        ),
                    );
                },
                Some(DefinedTypeId::Scalar(scalar_id)) => {
                    assert(before.defined_types.contains_key(supertype@));
                    assert(before.is_scalar_named(scalar_id, supertype@));
                    let location = self.schema_data.scalar(scalar_id).name.location;
                    let implementing_object = self.schema_data.object(first_id).name.item.clone();
                    return Err(
                        WithLocation::new(
                            ProcessTypeDefinitionError::IsographObjectTypeNameIsScalar {
                                name: supertype,
                                implementing_object,
                            },
                            location,
                        ),
                    );
                },
                Some(DefinedTypeId::Object(object_id)) => {
                    assert(before.defined_types.contains_key(supertype@));
                    assert(before.is_object_named(object_id, supertype@));
                    let ghost edges = subtypes@;
                    let ghost supertype_before = before.objects[object_id.0 as int];
                    assert(refinements_of(edges).take(0) =~= Seq::empty());
                    assert(supertype_before.valid_refinements + Seq::<ValidRefinement>::empty()
                        =~= supertype_before.valid_refinements);
                    assert(before.objects =~= before.objects.update(
                        object_id.0 as int,
                        supertype_before,
                    ));
                    for subtype in inner: subtypes
                        invariant
                            inner.seq() == edges,
                            object_id.0 < before.objects.len(),
                            self.schema_data.objects@.len() == before.objects.len(),
                            supertype_before == before.objects[object_id.0 as int],
                            self@ == (SchemaView {
                                objects: before.objects.update(
                                    object_id.0 as int,
                                    ObjectView {
                                        valid_refinements: supertype_before.valid_refinements
                                            + refinements_of(edges).take(inner.index()),
                                        ..supertype_before
                                    },
                                ),
                                ..before
                            }),
                    {
                        let ghost k = inner.index();
                        let ghost previous = self@;
                        let ghost objects_before = self.schema_data.objects@;
                        let ghost refinement = ValidRefinement { target: subtype.item };
                        assert(previous.objects[object_id.0 as int]
                            == objects_before[object_id.0 as int]@);
                        self.schema_data.objects[object_id.0].valid_refinements.push(
                            ValidRefinement { target: subtype.item },
                        );
                        assert(refinements_of(edges).take(k + 1) =~= refinements_of(edges).take(
                            k,
                        ).push(refinement));
                        let ghost expected = before.objects.update(
                            object_id.0 as int,
                            ObjectView {
                                valid_refinements: supertype_before.valid_refinements
                                    + refinements_of(edges).take(k + 1),
                                ..supertype_before
                            },
                        );
                        assert forall|i: int| 0 <= i < expected.len() implies (
                        #[trigger] self@.objects[i]) == expected[i] by {
                            assert(self@.objects[i] == self.schema_data.objects@[i]@);
                            assert(previous.objects[i] == objects_before[i]@);
                            if i == object_id.0 {
                                assert(self.schema_data.objects@[i]@.valid_refinements
                                    =~= supertype_before.valid_refinements + refinements_of(
                                    edges,
                                ).take(k + 1));
                            } else {
                                assert(self.schema_data.objects@[i] == objects_before[i]);
                            }
                        }
                        assert(self@.objects =~= expected);
                    }
                    assert(refinements_of(edges).take(edges.len() as int) =~= refinements_of(
                        edges,
                    ));
                },
            }
        }
        Ok(())
    }

    /// Whether the registry has handles left for the fields that a
    /// document asks for.
    pub fn has_room_for(&self, type_system_document: &GraphQLTypeSystemDocument) -> (room: bool)
        ensures
            room == (self@.fields.len() + field_demand(type_system_document@, 0) <= usize::MAX),
    {
        let ghost definitions = type_system_document@;
        let mut total: usize = self.fields.len();
        let mut i: usize = 0;
        while i < type_system_document.0.len()
            invariant
                0 <= i <= definitions.len(),
                definitions == type_system_document@,
                total + field_demand(definitions, i as int) == self@.fields.len() + field_demand(
                    definitions,
                    0,
                ),
            decreases definitions.len() - i,
        {
            assert(definitions[i as int] == type_system_document.0@[i as int]@);
            let demand = match count_field_demand(&type_system_document.0[i]) {
                Some(demand) => demand,
                None => {
                    return false;
                },
            };
            total = match total.checked_add(demand) {
                Some(total) => total,
                None => {
                    return false;
                },
            };
            i += 1;
        }
        true
    }

    /// Whether the registry has handles left for the fields that the
    /// definitions of an extension document ask for.
    pub fn has_room_for_extensions(&self, extension_document: &GraphQLTypeSystemExtensionDocument)
        -> (room: bool)
        ensures
            room == (self@.fields.len() + field_demand(
                definitions_of(extension_document@, extension_document@.len() as int),
                0,
            ) <= usize::MAX),
    {
        let ghost items = extension_document@;
        let mut total: usize = self.fields.len();
        let mut i: usize = 0;
        while i < extension_document.0.len()
            invariant
                0 <= i <= items.len(),
                items == extension_document@,
                total == self@.fields.len() + field_demand(definitions_of(items, i as int), 0),
            decreases items.len() - i,
        {
            assert(items[i as int] == extension_document.0@[i as int]@);
            proof {
                lemma_definitions_demand_grows(items, i + 1, items.len() as int);
            }
            match &extension_document.0[i] {
                GraphQLTypeSystemExtensionOrDefinition::Definition(definition) => {
                    proof {
                        lemma_field_demand_push(definitions_of(items, i as int), definition@, 0);
                    }
                    let demand = match count_field_demand(definition) {
                        Some(demand) => demand,
                        None => {
                            return false;
                        },
                    };
                    total = match total.checked_add(demand) {
                        Some(total) => total,
                        None => {
                            return false;
                        },
                    };
                },
                GraphQLTypeSystemExtensionOrDefinition::Extension(_) => {},
            }
            i += 1;
        }
        true
    }

    /// Processes one type-system document. The first pass registers the
    /// definitions in order: objects, interfaces, input objects and unions
    /// as objects, scalars and enums as scalars; directive definitions are
    /// passed over. If no definition was refused, the second pass resolves
    /// the edges from subtypes to supertypes. The first error ends the
    /// call; what was registered before it stays. A call that succeeds
    /// returns the root of mutations, if the document defined it.
    pub fn process_graphql_type_system_document(
        &mut self,
        type_system_document: GraphQLTypeSystemDocument,
        options: ConfigOptions,
    ) -> (result: ProcessTypeDefinitionResult<ProcessGraphQLDocumentOutcome>)
        requires
            old(self)@.wf(),
            old(self)@.fields.len() + field_demand(type_system_document@, 0) <= usize::MAX,
        ensures
            ({
                let step = process_document(old(self)@, type_system_document@, options);
                &&& final(self)@ == step.schema
                &&& error_view(result) == step.result
            }),
            final(self)@.wf(),
    {
        let ghost start = self@;
        let ghost definitions = type_system_document@;
        let mut valid_type_refinement_map = TypeRefinementMap::new();
        let mut mutation_type_id: Option<ObjectId> = None;
        for type_system_definition in it: type_system_document.0
            invariant
                seq_view(it.seq()) == definitions,
                start == old(self)@,
                self@.wf(),
                pending_wf(valid_type_refinement_map@, self@.objects.len() as int),
                self@.fields.len() + field_demand(definitions, it.index()) <= usize::MAX,
                register_definitions(first_pass_start(start), definitions, 0, options)
                    == register_definitions(
                    FirstPass {
                        schema: self@,
                        pending: valid_type_refinement_map@,
                        mutation_id: mutation_type_id,
                        error: None,
                    },
                    definitions,
                    it.index(),
                    options,
                ),
        {
            let ghost i = it.index();
            let ghost state = FirstPass {
                schema: self@,
                pending: valid_type_refinement_map@,
                mutation_id: mutation_type_id,
                error: None,
            };
            assert(0 <= i < definitions.len());
            assert(definitions[i] == type_system_definition@);
            assert(register_definitions(state, definitions, i, options) == (if register_definition(
                state,
                definitions[i],
                options,
            ).error is Some {
                register_definition(state, definitions[i], options)
            } else {
                register_definitions(
                    register_definition(state, definitions[i], options),
                    definitions,
                    i + 1,
                    options,
                )
            }));
            match type_system_definition {
                GraphQLTypeSystemDefinition::ObjectTypeDefinition(object_type_definition) => {
                    let outcome = match self.process_object_type_definition(
                        IsographObjectTypeDefinition::from_object_type_definition(
                            object_type_definition,
                        ),
                        &mut valid_type_refinement_map,
                        true,
                        options,
                    ) {
                        Ok(outcome) => outcome,
                        Err(e) => {
                            return Err(e);
                        },
                    };
                    if let Some(mutation_id) = outcome.mutation_object_id {
                        mutation_type_id = Some(mutation_id);
                    }
                },
                GraphQLTypeSystemDefinition::ScalarTypeDefinition(scalar_type_definition) => {
                    match self.process_scalar_definition(scalar_type_definition) {
                        Ok(()) => {},
                        Err(e) => {
                            return Err(e);
                        },
                    }
                },
                GraphQLTypeSystemDefinition::InterfaceTypeDefinition(interface_type_definition) => {
                    let outcome = match self.process_object_type_definition(
                        IsographObjectTypeDefinition::from_interface_type_definition(
                            interface_type_definition,
                        ),
                        &mut valid_type_refinement_map,
                        true,
                        options,
                    ) {
                        Ok(outcome) => outcome,
                        Err(e) => {
                            return Err(e);
                        },
                    };
                    if let Some(mutation_id) = outcome.mutation_object_id {
                        mutation_type_id = Some(mutation_id);
                    }
                },
                GraphQLTypeSystemDefinition::InputObjectTypeDefinition(
                    input_object_type_definition,
                ) => {
                    let outcome = match self.process_object_type_definition(
                        IsographObjectTypeDefinition::from_input_object_type_definition(
                            input_object_type_definition,
                        ),
                        &mut valid_type_refinement_map,
                        false,
                        options,
                    ) {
                        Ok(outcome) => outcome,
                        Err(e) => {
                            return Err(e);
                        },
                    };
                    if let Some(mutation_id) = outcome.mutation_object_id {
                        mutation_type_id = Some(mutation_id);
                    }
                },
                GraphQLTypeSystemDefinition::DirectiveDefinition(_) => {
                    // Directive definitions are passed over.
                },
                GraphQLTypeSystemDefinition::EnumDefinition(enum_definition) => {
                    match self.process_scalar_definition(
                        GraphQLScalarTypeDefinition {
                            description: enum_definition.description,
                            name: enum_definition.name,
                            directives: enum_definition.directives,
                        },
                    ) {
                        Ok(()) => {},
                        Err(e) => {
                            return Err(e);
                        },
                    }
                },
                GraphQLTypeSystemDefinition::UnionTypeDefinition(union_definition) => {
                    let outcome = match self.process_object_type_definition(
                        IsographObjectTypeDefinition::from_union_type_definition(union_definition),
                        &mut valid_type_refinement_map,
                        true,
                        options,
                    ) {
                        Ok(outcome) => outcome,
                        Err(e) => {
                            return Err(e);
                        },
                    };
                    if let Some(mutation_id) = outcome.mutation_object_id {
                        mutation_type_id = Some(mutation_id);
                    }
                },
            }
        }
        match self.resolve_type_refinements(valid_type_refinement_map) {
            Ok(()) => {},
            Err(e) => {
                return Err(e);
            },
        }
        Ok(ProcessGraphQLDocumentOutcome { mutation_id: mutation_type_id })
    }

    /// Applies one extension. It must name an object of the registry and
    /// bring nothing but directives, which are appended to those of the
    /// object. A name that was never defined, a scalar, new fields or new
    /// supertypes end the call with an error and change nothing.
    pub fn process_graphql_type_system_extension(&mut self, extension: GraphQLTypeSystemExtension)
        -> (result: ProcessTypeDefinitionResult<()>)
        requires
            old(self)@.wf(),
        ensures
            ({
                let step = apply_extension(old(self)@, extension@);
                &&& final(self)@ == step.schema
                &&& error_view(result) == unit_result(step.error)
            }),
            result is Err ==> *final(self) == *old(self),
            final(self)@.wf(),
    {
        let ghost before = self@;
        proof {
            lemma_apply_extension_wf(before, extension@);
        }
        match extension {
            GraphQLTypeSystemExtension::ObjectTypeExtension(object_extension) => {
                let GraphQLObjectTypeExtension { name, interfaces, mut directives, fields } =
                    object_extension;
                let location = name.location;
                match self.schema_data.lookup(name.item.as_str()) {
                    None => Err(
                        WithLocation::new(
                            ProcessTypeDefinitionError::TypeExtensionMismatch {
                                name: name.item,
                                is_type: "not defined",
                                extended_as_type: "an object",
                            },
                            location,
                        ),
                    ),
                    Some(DefinedTypeId::Scalar(_)) => Err(
                        WithLocation::new(
                            ProcessTypeDefinitionError::TypeExtensionMismatch {
                                name: name.item,
                                is_type: "a scalar",
                                extended_as_type: "an object",
                            },
                            location,
                        ),
                    ),
                    Some(DefinedTypeId::Object(object_id)) => {
                        assert(before.defined_types.contains_key(name.item@));
                        assert(before.is_object_named(object_id, name.item@));
                        if !fields.is_empty() {
                            return Err(
                                WithLocation::new(
                                    ProcessTypeDefinitionError::TypeExtensionMismatch {
                                        name: name.item,
                                        is_type: "an object",
                                        extended_as_type: "an object with fields",
                                    },
                                    location,
                                ),
                            );
                        }
                        if !interfaces.is_empty() {
                            return Err(
                                WithLocation::new(
                                    ProcessTypeDefinitionError::TypeExtensionMismatch {
                                        name: name.item,
                                        is_type: "an object",
                                        extended_as_type: "an object with interfaces",
                                    },
                                    location,
                                ),
                            );
                        }
                        let ghost objects_before = self.schema_data.objects@;
                        let ghost added = directives@;
                        assert(before.objects[object_id.0 as int]
                            == objects_before[object_id.0 as int]@);
                        self.schema_data.objects[object_id.0].directives.append(&mut directives);
                        let ghost object = before.objects[object_id.0 as int];
                        let ghost expected = before.objects.update(
                            object_id.0 as int,
                            ObjectView { directives: object.directives + added, ..object },
                        );
                        assert forall|i: int| 0 <= i < expected.len() implies (
                        #[trigger] self@.objects[i]) == expected[i] by {
                            assert(self@.objects[i] == self.schema_data.objects@[i]@);
                            assert(before.objects[i] == objects_before[i]@);
                            if i != object_id.0 {
                                assert(self.schema_data.objects@[i] == objects_before[i]);
                            }
                        }
                        assert(self@.objects =~= expected);
                        Ok(())
                    },
                }
            },
        }
    }

    /// Processes one extension document: its definitions are processed as
    /// a document of their own; if that succeeds, its extensions are
    /// applied in order. The first error ends the call; what was done
    /// before it stays. A call that succeeds returns the root of
    /// mutations, if the definitions held it.
    pub fn process_graphql_type_extension_document(
        &mut self,
        extension_document: GraphQLTypeSystemExtensionDocument,
        options: ConfigOptions,
    ) -> (result: ProcessTypeDefinitionResult<ProcessGraphQLDocumentOutcome>)
        requires
            old(self)@.wf(),
            old(self)@.fields.len() + field_demand(
                definitions_of(extension_document@, extension_document@.len() as int),
                0,
            ) <= usize::MAX,
        ensures
            ({
                let step = process_extension_document(old(self)@, extension_document@, options);
                &&& final(self)@ == step.schema
                &&& error_view(result) == step.result
            }),
            final(self)@.wf(),
    {
        let ghost items = extension_document@;
        let mut definitions: Vec<GraphQLTypeSystemDefinition> = Vec::new();
        let mut extensions: Vec<GraphQLTypeSystemExtension> = Vec::new();
        assert(seq_view(definitions@) =~= definitions_of(items, 0));
        assert(seq_view(extensions@) =~= extensions_of(items, 0));
        for extension_or_definition in it: extension_document.0
            invariant
                seq_view(it.seq()) == items,
                seq_view(definitions@) == definitions_of(items, it.index()),
                seq_view(extensions@) == extensions_of(items, it.index()),
        {
            assert(items[it.index()] == extension_or_definition@);
            match extension_or_definition {
                GraphQLTypeSystemExtensionOrDefinition::Definition(definition) => {
                    proof {
                        lemma_seq_view_push(definitions@, definition);
                    }
                    definitions.push(definition);
                },
                GraphQLTypeSystemExtensionOrDefinition::Extension(extension) => {
                    proof {
                        lemma_seq_view_push(extensions@, extension);
                    }
                    extensions.push(extension);
                },
            }
        }

        let outcome = match self.process_graphql_type_system_document(
            GraphQLTypeSystemDocument(definitions),
            options,
        ) {
            Ok(outcome) => outcome,
            Err(e) => {
                return Err(e);
            },
        };

        let ghost middle = self@;
        let ghost to_apply = seq_view(extensions@);
        for extension in it: extensions
            invariant
                seq_view(it.seq()) == to_apply,
                to_apply == extensions_of(items, items.len() as int),
                items == extension_document@,
                process_document(
                    old(self)@,
                    definitions_of(items, items.len() as int),
                    options,
                ) == (crate::model::DocumentStep { schema: middle, result: Ok(outcome) }),
                self@.wf(),
                apply_extensions(middle, to_apply, 0) == apply_extensions(
                    self@,
                    to_apply,
                    it.index(),
                ),
        {
            let ghost i = it.index();
            let ghost before = self@;
            assert(0 <= i < to_apply.len());
            assert(to_apply[i] == extension@);
            assert(apply_extensions(before, to_apply, i) == (if apply_extension(
                before,
                to_apply[i],
            ).error is Some {
                apply_extension(before, to_apply[i])
            } else {
                apply_extensions(apply_extension(before, to_apply[i]).schema, to_apply, i + 1)
            }));
            match self.process_graphql_type_system_extension(extension) {
                Ok(()) => {},
                Err(e) => {
                    return Err(e);
                },
            }
        }
        Ok(outcome)
    }
}

/// What a call that returns nothing returned, given the error that it
/// ended in, if any.
pub open spec fn unit_result(error: Option<LocatedError>) -> Result<(), LocatedError> {
    match error {
        Some(e) => Err(e),
        None => Ok(()),
    }
}

} // verus!
