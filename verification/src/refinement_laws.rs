//! What holds of the edges from subtypes to supertypes: which documents
//! the second pass accepts, and which refinements it leaves behind.

use vstd::prelude::*;
use crate::common::WithLocation;
use crate::error::ErrorView;
use crate::graphql_types::{ObjectDefinitionView, TypeDefinitionView};
use crate::invariants::{
    lemma_register_object_pending_wf, lemma_register_object_wf, lemma_register_scalar_wf,
    lemma_resolve_entry_wf,
};
use crate::lang_types::{DefinedTypeId, ObjectId};
use crate::laws::{keeps_names, lemma_register_definition_names};
use crate::model::{
    FirstPass, PendingRefinementView, PendingView, add_edge, add_edges, declares, entry_index,
    field_demand, first_field_error, first_pass_start, lemma_entry_index, lemma_field_index_names,
    pending_wf, process_document, register_definition, register_definitions, register_object,
    resolve_entry, resolve_refinements,
};
use crate::schema::{
    ConfigOptions, SchemaView, ValidRefinement, id_field_name, lemma_reserved_names_differ,
    refetch_field_name, typename_field_name,
};

verus! {

/// Whether edges wait for the supertype `name`.
pub open spec fn waits_for(pending: PendingView, name: Seq<char>) -> bool {
    exists|i: int| 0 <= i < pending.len() && (#[trigger] pending[i]).supertype == name
}

/// Whether `edge` waits for the supertype `name`.
pub open spec fn holds_edge(pending: PendingView, name: Seq<char>, edge: WithLocation<ObjectId>)
    -> bool {
    exists|i: int|
        0 <= i < pending.len() && (#[trigger] pending[i]).supertype == name
            && pending[i].subtypes.contains(edge)
}

/// Whether one of the first `n` of `interfaces` is the name `name`.
pub open spec fn names_interface(
    interfaces: Seq<WithLocation<Seq<char>>>,
    n: int,
    name: Seq<char>,
) -> bool {
    exists|t: int| 0 <= t < n && (#[trigger] interfaces[t]).item == name
}

/// Whether a name resolves to an object.
pub open spec fn is_object_name(schema: SchemaView, name: Seq<char>) -> bool {
    schema.lookup(name) matches Some(DefinedTypeId::Object(_))
}

/// One more edge waits for its supertype, beside all that waited before;
/// no other supertype is waited for.
pub proof fn lemma_add_edge(
    pending: PendingView,
    name: Seq<char>,
    edge: WithLocation<ObjectId>,
)
    ensures
        holds_edge(add_edge(pending, name, edge), name, edge),
        forall|other: Seq<char>, e: WithLocation<ObjectId>|
            holds_edge(pending, other, e) ==> #[trigger] holds_edge(
                add_edge(pending, name, edge),
                other,
                e,
            ),
        forall|other: Seq<char>| #[trigger]
            waits_for(add_edge(pending, name, edge), other) <==> (waits_for(pending, other)
                || other == name),
{
    let after = add_edge(pending, name, edge);
    lemma_entry_index(pending, name, pending.len() as int);
    match entry_index(pending, name, pending.len() as int) {
        Some(j) => {
            assert(after[j].subtypes[pending[j].subtypes.len() as int] == edge);
            assert(after[j].supertype == name);
            assert forall|other: Seq<char>, e: WithLocation<ObjectId>|
                holds_edge(pending, other, e) implies #[trigger] holds_edge(after, other, e) by {
                let i = choose|i: int|
                    0 <= i < pending.len() && (#[trigger] pending[i]).supertype == other
                        && pending[i].subtypes.contains(e);
                let k = choose|k: int| 0 <= k < pending[i].subtypes.len() && pending[i].subtypes[k] == e;
                assert(after[i].subtypes[k] == e);
                assert(after[i].supertype == other);
            }
            assert forall|other: Seq<char>| #[trigger]
                waits_for(after, other) <==> (waits_for(pending, other) || other == name) by {
                if waits_for(after, other) {
                    let i = choose|i: int|
                        0 <= i < after.len() && (#[trigger] after[i]).supertype == other;
                    assert(pending[i].supertype == other);
                }
                if waits_for(pending, other) {
                    let i = choose|i: int|
                        0 <= i < pending.len() && (#[trigger] pending[i]).supertype == other;
                    assert(after[i].supertype == other);
                }
            }
        },
        None => {
            let last = pending.len() as int;
            assert(after[last].subtypes[0] == edge);
            assert(after[last].supertype == name);
            assert forall|other: Seq<char>, e: WithLocation<ObjectId>|
                holds_edge(pending, other, e) implies #[trigger] holds_edge(after, other, e) by {
                let i = choose|i: int|
                    0 <= i < pending.len() && (#[trigger] pending[i]).supertype == other
                        && pending[i].subtypes.contains(e);
                assert(after[i] == pending[i]);
            }
            assert forall|other: Seq<char>| #[trigger]
                waits_for(after, other) <==> (waits_for(pending, other) || other == name) by {
                if waits_for(after, other) {
                    let i = choose|i: int|
                        0 <= i < after.len() && (#[trigger] after[i]).supertype == other;
                    if i < last {
                        assert(pending[i].supertype == other);
                    }
                }
                if waits_for(pending, other) {
                    let i = choose|i: int|
                        0 <= i < pending.len() && (#[trigger] pending[i]).supertype == other;
                    assert(after[i] == pending[i]);
                }
            }
        },
    }
}

/// After an object named its supertypes, its edge waits for each of them,
/// beside all that waited before; no other supertype is waited for.
pub proof fn lemma_add_edges(
    pending: PendingView,
    interfaces: Seq<WithLocation<Seq<char>>>,
    n: int,
    edge: WithLocation<ObjectId>,
)
    requires
        0 <= n <= interfaces.len(),
    ensures
        forall|t: int|
            0 <= t < n ==> holds_edge(
                add_edges(pending, interfaces, n, edge),
                (#[trigger] interfaces[t]).item,
                edge,
            ),
        forall|other: Seq<char>, e: WithLocation<ObjectId>|
            holds_edge(pending, other, e) ==> #[trigger] holds_edge(
                add_edges(pending, interfaces, n, edge),
                other,
                e,
            ),
        forall|other: Seq<char>| #[trigger]
            waits_for(add_edges(pending, interfaces, n, edge), other) <==> (waits_for(
                pending,
                other,
            ) || names_interface(interfaces, n, other)),
    decreases n,
{
    if n > 0 {
        let before = add_edges(pending, interfaces, n - 1, edge);
        let after = add_edges(pending, interfaces, n, edge);
        lemma_add_edges(pending, interfaces, n - 1, edge);
        lemma_add_edge(before, interfaces[n - 1].item, edge);
        assert forall|t: int| 0 <= t < n implies holds_edge(
            after,
            (#[trigger] interfaces[t]).item,
            edge,
        ) by {
            if t < n - 1 {
                assert(holds_edge(before, interfaces[t].item, edge));
            }
        }
        assert forall|other: Seq<char>, e: WithLocation<ObjectId>|
            holds_edge(pending, other, e) implies #[trigger] holds_edge(after, other, e) by {
            assert(holds_edge(before, other, e));
        }
        assert forall|other: Seq<char>| #[trigger]
            waits_for(after, other) <==> (waits_for(pending, other) || names_interface(
                interfaces,
                n,
                other,
            )) by {
            assert(waits_for(before, other) <==> (waits_for(pending, other) || names_interface(
                interfaces,
                n - 1,
                other,
            )));
            if names_interface(interfaces, n, other) {
                let t = choose|t: int| 0 <= t < n && (#[trigger] interfaces[t]).item == other;
                if t < n - 1 {
                    assert(names_interface(interfaces, n - 1, other));
                }
            }
            if names_interface(interfaces, n - 1, other) {
                let t = choose|t: int| 0 <= t < n - 1 && (#[trigger] interfaces[t]).item == other;
                assert(names_interface(interfaces, n, other));
            }
            if other == interfaces[n - 1].item {
                assert(names_interface(interfaces, n, other));
            }
        }
    } else {
        assert forall|other: Seq<char>| #[trigger]
            waits_for(add_edges(pending, interfaces, n, edge), other) <==> (waits_for(
                pending,
                other,
            ) || names_interface(interfaces, n, other)) by {}
    }
}

/// The second pass succeeds exactly if every supertype that is waited for
/// resolves to an object. Where it fails, the error is about a supertype
/// that was never defined, or about one that is a scalar.
pub proof fn lemma_second_pass_outcome(schema: SchemaView, pending: PendingView, from: int)
    requires
        0 <= from,
    ensures
        ({
            let step = resolve_refinements(schema, pending, from);
            &&& step.schema.defined_types == schema.defined_types
            &&& step.error is None <==> forall|i: int|
                from <= i < pending.len() ==> is_object_name(
                    schema,
                    (#[trigger] pending[i]).supertype,
                )
            &&& match step.error {
                Some(e) => match e.item {
                    ErrorView::IsographObjectTypeNameNotDefined { name } => {
                        &&& schema.lookup(name) is None
                        &&& exists|i: int|
                            from <= i < pending.len() && (#[trigger] pending[i]).supertype == name
                    },
                    ErrorView::IsographObjectTypeNameIsScalar { name, .. } => {
                        &&& schema.lookup(name) matches Some(DefinedTypeId::Scalar(_))
                        &&& exists|i: int|
                            from <= i < pending.len() && (#[trigger] pending[i]).supertype == name
                    },
                    _ => false,
                },
                None => true,
            }
        }),
    decreases pending.len() - from,
{
    if from < pending.len() {
        let next = resolve_entry(schema, pending[from]);
        if next.error is None {
            lemma_second_pass_outcome(next.schema, pending, from + 1);
            let step = resolve_refinements(next.schema, pending, from + 1);
            assert(forall|name: Seq<char>| next.schema.lookup(name) == schema.lookup(name));
            if step.error is None {
                assert forall|i: int| from <= i < pending.len() implies is_object_name(
                    schema,
                    (#[trigger] pending[i]).supertype,
                ) by {
                    if i > from {
                        assert(is_object_name(next.schema, pending[i].supertype));
                    }
                }
            } else {
                let e = step.error->Some_0;
                match e.item {
                    ErrorView::IsographObjectTypeNameNotDefined { name } => {
                        let i = choose|i: int|
                            from + 1 <= i < pending.len() && (#[trigger] pending[i]).supertype
                                == name;
                        assert(!is_object_name(schema, pending[i].supertype));
                    },
                    ErrorView::IsographObjectTypeNameIsScalar { name, .. } => {
                        let i = choose|i: int|
                            from + 1 <= i < pending.len() && (#[trigger] pending[i]).supertype
                                == name;
                        assert(!is_object_name(schema, pending[i].supertype));
                    },
                    _ => {},
                }
            }
        } else {
            assert(!is_object_name(schema, pending[from].supertype));
            assert(pending[from].supertype == pending[from].supertype);
        }
    }
}

/// Whether the object `subtype` is among the refinements of the object
/// that the name `supertype` resolves to.
pub open spec fn refines(schema: SchemaView, supertype: Seq<char>, subtype: ObjectId) -> bool {
    match schema.lookup(supertype) {
        Some(DefinedTypeId::Object(id)) => id.0 < schema.objects.len()
            && schema.objects[id.0 as int].valid_refinements.contains(
            ValidRefinement { target: subtype },
        ),
        _ => false,
    }
}

/// Resolving the edges to one supertype keeps every refinement that there
/// was, and where it succeeds, makes each of the edges one.
pub proof fn lemma_resolve_entry_edges(schema: SchemaView, entry: PendingRefinementView)
    requires
        schema.wf(),
    ensures
        forall|supertype: Seq<char>, subtype: ObjectId|
            refines(schema, supertype, subtype) ==> #[trigger] refines(
                resolve_entry(schema, entry).schema,
                supertype,
                subtype,
            ),
        resolve_entry(schema, entry).error is None ==> forall|k: int|
            0 <= k < entry.subtypes.len() ==> refines(
                resolve_entry(schema, entry).schema,
                entry.supertype,
                (#[trigger] entry.subtypes[k]).item,
            ),
{
    let after = resolve_entry(schema, entry).schema;
    if let Some(DefinedTypeId::Object(id)) = schema.lookup(entry.supertype) {
        assert(schema.defined_types.contains_key(entry.supertype));
        assert(schema.is_object_named(id, entry.supertype));
        let before = schema.objects[id.0 as int].valid_refinements;
        assert forall|supertype: Seq<char>, subtype: ObjectId|
            refines(schema, supertype, subtype) implies #[trigger] refines(
            after,
            supertype,
            subtype,
        ) by {
            let x = schema.lookup(supertype)->Some_0->Object_0;
            let refinement = ValidRefinement { target: subtype };
            let k = choose|k: int|
                0 <= k < schema.objects[x.0 as int].valid_refinements.len()
                    && schema.objects[x.0 as int].valid_refinements[k] == refinement;
            assert(after.objects[x.0 as int].valid_refinements[k] == refinement);
        }
        assert forall|k: int| 0 <= k < entry.subtypes.len() implies refines(
            after,
            entry.supertype,
            (#[trigger] entry.subtypes[k]).item,
        ) by {
            assert(after.objects[id.0 as int].valid_refinements[before.len() + k]
                == ValidRefinement { target: entry.subtypes[k].item });
        }
    }
}

/// A second pass that succeeds keeps every refinement that there was, and
/// makes every edge that waited a refinement.
pub proof fn lemma_second_pass_edges(schema: SchemaView, pending: PendingView, from: int)
    requires
        schema.wf(),
        pending_wf(pending, schema.objects.len() as int),
        0 <= from,
        resolve_refinements(schema, pending, from).error is None,
    ensures
        resolve_refinements(schema, pending, from).schema.wf(),
        forall|supertype: Seq<char>, subtype: ObjectId|
            refines(schema, supertype, subtype) ==> #[trigger] refines(
                resolve_refinements(schema, pending, from).schema,
                supertype,
                subtype,
            ),
        forall|supertype: Seq<char>, edge: WithLocation<ObjectId>|
            (exists|i: int|
                from <= i < pending.len() && (#[trigger] pending[i]).supertype == supertype
                    && pending[i].subtypes.contains(edge)) ==> #[trigger] refines(
                resolve_refinements(schema, pending, from).schema,
                supertype,
                edge.item,
            ),
    decreases pending.len() - from,
{
    if from < pending.len() {
        let next = resolve_entry(schema, pending[from]);
        let last = resolve_refinements(schema, pending, from).schema;
        lemma_resolve_entry_wf(schema, pending[from]);
        lemma_resolve_entry_edges(schema, pending[from]);
        lemma_second_pass_edges(next.schema, pending, from + 1);
        assert forall|supertype: Seq<char>, subtype: ObjectId|
            refines(schema, supertype, subtype) implies #[trigger] refines(
            last,
            supertype,
            subtype,
        ) by {
            assert(refines(next.schema, supertype, subtype));
        }
        assert forall|supertype: Seq<char>, edge: WithLocation<ObjectId>|
            (exists|i: int|
                from <= i < pending.len() && (#[trigger] pending[i]).supertype == supertype
                    && pending[i].subtypes.contains(edge)) implies #[trigger] refines(
            last,
            supertype,
            edge.item,
        ) by {
            let i = choose|i: int|
                from <= i < pending.len() && (#[trigger] pending[i]).supertype == supertype
                    && pending[i].subtypes.contains(edge);
            if i == from {
                let k = choose|k: int|
                    0 <= k < pending[i].subtypes.len() && pending[i].subtypes[k] == edge;
                assert(refines(next.schema, pending[from].supertype, pending[from].subtypes[k].item));
                assert(refines(last, supertype, edge.item));
            } else {
                assert(from + 1 <= i);
            }
        }
    }
}

/// Whether a definition names `name` as a supertype.
pub open spec fn names_supertype(definition: TypeDefinitionView, name: Seq<char>) -> bool {
    match definition {
        TypeDefinitionView::Object { definition, .. } => names_interface(
            definition.interfaces,
            definition.interfaces.len() as int,
            name,
        ),
        _ => false,
    }
}

/// Whether one of the definitions from `from` on names `name` as a
/// supertype.
pub open spec fn document_names_supertype(
    definitions: Seq<TypeDefinitionView>,
    from: int,
    name: Seq<char>,
) -> bool {
    exists|d: int| from <= d < definitions.len() && names_supertype(#[trigger] definitions[d], name)
}

/// What one accepted definition does to the edges that wait: the
/// supertypes that it names are waited for, beside those that were; no
/// edge is lost; and an object has its edge wait for each supertype that
/// it names.
pub proof fn lemma_definition_edges(
    state: FirstPass,
    definition: TypeDefinitionView,
    options: ConfigOptions,
)
    requires
        state.error is None,
        register_definition(state, definition, options).error is None,
    ensures
        ({
            let next = register_definition(state, definition, options);
            &&& forall|name: Seq<char>| #[trigger]
                waits_for(next.pending, name) <==> (waits_for(state.pending, name)
                    || names_supertype(definition, name))
            &&& forall|name: Seq<char>, edge: WithLocation<ObjectId>|
                holds_edge(state.pending, name, edge) ==> #[trigger] holds_edge(
                    next.pending,
                    name,
                    edge,
                )
            &&& definition matches TypeDefinitionView::Object { definition: object, .. } ==> {
                let id = ObjectId(state.schema.objects.len() as usize);
                &&& next.schema.lookup(object.name.item) == Some(DefinedTypeId::Object(id))
                &&& forall|t: int|
                    0 <= t < object.interfaces.len() ==> holds_edge(
                        next.pending,
                        (#[trigger] object.interfaces[t]).item,
                        WithLocation { location: object.name.location, item: id },
                    )
            }
        }),
{
    if let TypeDefinitionView::Object { definition: object, may_have_id_field } = definition {
        let id = ObjectId(state.schema.objects.len() as usize);
        lemma_add_edges(
            state.pending,
            object.interfaces,
            object.interfaces.len() as int,
            WithLocation { location: object.name.location, item: id },
        );
    }
}

/// What a first pass without an error does to the edges that wait: the
/// supertypes that the definitions name are waited for, beside those that
/// were; no edge and no name is lost.
pub proof fn lemma_first_pass_edges(
    state: FirstPass,
    definitions: Seq<TypeDefinitionView>,
    from: int,
    options: ConfigOptions,
)
    requires
        state.error is None,
        0 <= from,
        register_definitions(state, definitions, from, options).error is None,
    ensures
        ({
            let last = register_definitions(state, definitions, from, options);
            &&& keeps_names(state.schema, last.schema)
            &&& forall|name: Seq<char>| #[trigger]
                waits_for(last.pending, name) <==> (waits_for(state.pending, name)
                    || document_names_supertype(definitions, from, name))
            &&& forall|name: Seq<char>, edge: WithLocation<ObjectId>|
                holds_edge(state.pending, name, edge) ==> #[trigger] holds_edge(
                    last.pending,
                    name,
                    edge,
                )
        }),
    decreases definitions.len() - from,
{
    let last = register_definitions(state, definitions, from, options);
    if from < definitions.len() {
        let next = register_definition(state, definitions[from], options);
        lemma_register_definition_names(state, definitions[from], options);
        lemma_definition_edges(state, definitions[from], options);
        lemma_first_pass_edges(next, definitions, from + 1, options);
        assert forall|name: Seq<char>| #[trigger]
            state.schema.defined_types.contains_key(name) implies last.schema.defined_types.contains_key(
            name,
        ) && last.schema.defined_types[name] == state.schema.defined_types[name] by {
            assert(next.schema.defined_types.contains_key(name));
        }
        assert forall|name: Seq<char>| #[trigger]
            waits_for(last.pending, name) <==> (waits_for(state.pending, name)
                || document_names_supertype(definitions, from, name)) by {
            assert(waits_for(next.pending, name) <==> (waits_for(state.pending, name)
                || names_supertype(definitions[from], name)));
            assert(waits_for(last.pending, name) <==> (waits_for(next.pending, name)
                || document_names_supertype(definitions, from + 1, name)));
            if document_names_supertype(definitions, from, name) {
                let d = choose|d: int|
                    from <= d < definitions.len() && names_supertype(
                        #[trigger] definitions[d],
                        name,
                    );
                if d > from {
                    assert(document_names_supertype(definitions, from + 1, name));
                }
            }
            if document_names_supertype(definitions, from + 1, name) {
                let d = choose|d: int|
                    from + 1 <= d < definitions.len() && names_supertype(
                        #[trigger] definitions[d],
                        name,
                    );
                assert(document_names_supertype(definitions, from, name));
            }
            if names_supertype(definitions[from], name) {
                assert(document_names_supertype(definitions, from, name));
            }
        }
        assert forall|name: Seq<char>, edge: WithLocation<ObjectId>|
            holds_edge(state.pending, name, edge) implies #[trigger] holds_edge(
            last.pending,
            name,
            edge,
        ) by {
            assert(holds_edge(next.pending, name, edge));
        }
    } else {
        assert forall|name: Seq<char>| #[trigger]
            waits_for(last.pending, name) <==> (waits_for(state.pending, name)
                || document_names_supertype(definitions, from, name)) by {}
    }
}

/// A document whose definitions are all accepted succeeds exactly if
/// every supertype that one of them names resolves to an object once all
/// of them are registered. Where it fails, the error is
/// `IsographObjectTypeNameNotDefined` for a supertype that was named and
/// never defined, or `IsographObjectTypeNameIsScalar` for one that was
/// named and is a scalar.
pub proof fn lemma_unresolved_supertype_is_refused(
    schema: SchemaView,
    definitions: Seq<TypeDefinitionView>,
    options: ConfigOptions,
)
    requires
        register_definitions(first_pass_start(schema), definitions, 0, options).error is None,
    ensures
        ({
            let first = register_definitions(first_pass_start(schema), definitions, 0, options);
            let step = process_document(schema, definitions, options);
            &&& step.result is Ok <==> forall|name: Seq<char>| #[trigger]
                document_names_supertype(definitions, 0, name) ==> is_object_name(
                    first.schema,
                    name,
                )
            &&& match step.result {
                Err(e) => match e.item {
                    ErrorView::IsographObjectTypeNameNotDefined { name } => {
                        &&& document_names_supertype(definitions, 0, name)
                        &&& first.schema.lookup(name) is None
                    },
                    ErrorView::IsographObjectTypeNameIsScalar { name, .. } => {
                        &&& document_names_supertype(definitions, 0, name)
                        &&& first.schema.lookup(name) matches Some(DefinedTypeId::Scalar(_))
                    },
                    _ => false,
                },
                Ok(_) => true,
            }
        }),
{
    let start = first_pass_start(schema);
    let first = register_definitions(start, definitions, 0, options);
    let step = process_document(schema, definitions, options);
    lemma_first_pass_edges(start, definitions, 0, options);
    lemma_second_pass_outcome(first.schema, first.pending, 0);
    assert(forall|name: Seq<char>| !waits_for(start.pending, name));
    if step.result is Ok {
        assert forall|name: Seq<char>| #[trigger]
            document_names_supertype(definitions, 0, name) implies is_object_name(
            first.schema,
            name,
        ) by {
            assert(waits_for(first.pending, name));
            let i = choose|i: int|
                0 <= i < first.pending.len() && (#[trigger] first.pending[i]).supertype == name;
            assert(is_object_name(first.schema, first.pending[i].supertype));
        }
    } else {
        let e = step.result->Err_0;
        match e.item {
            ErrorView::IsographObjectTypeNameNotDefined { name } => {
                assert(waits_for(first.pending, name));
            },
            ErrorView::IsographObjectTypeNameIsScalar { name, .. } => {
                assert(waits_for(first.pending, name));
            },
            _ => {},
        }
    }
    if forall|name: Seq<char>| #[trigger]
        document_names_supertype(definitions, 0, name) ==> is_object_name(first.schema, name) {
        assert forall|i: int| 0 <= i < first.pending.len() implies is_object_name(
            first.schema,
            (#[trigger] first.pending[i]).supertype,
        ) by {
            assert(waits_for(first.pending, first.pending[i].supertype));
        }
    }
}

/// How many of the definitions from `from` on ask for an object.
pub open spec fn object_demand(definitions: Seq<TypeDefinitionView>, from: int) -> nat
    decreases definitions.len() - from,
{
    if from < 0 || from >= definitions.len() {
        0
    } else {
        (if definitions[from] is Object {
            1nat
        } else {
            0nat
        }) + object_demand(definitions, from + 1)
    }
}

/// How many of the definitions from `from` on ask for a scalar.
pub open spec fn scalar_demand(definitions: Seq<TypeDefinitionView>, from: int) -> nat
    decreases definitions.len() - from,
{
    if from < 0 || from >= definitions.len() {
        0
    } else {
        (if definitions[from] is Scalar {
            1nat
        } else {
            0nat
        }) + scalar_demand(definitions, from + 1)
    }
}

/// Whether the registry has handles left for the definitions from `from`
/// on.
pub open spec fn has_room(schema: SchemaView, definitions: Seq<TypeDefinitionView>, from: int)
    -> bool {
    &&& schema.fields.len() + field_demand(definitions, from) <= usize::MAX
    &&& schema.resolvers.len() + object_demand(definitions, from) <= usize::MAX
    &&& schema.objects.len() + object_demand(definitions, from) <= usize::MAX
    &&& schema.scalars.len() + scalar_demand(definitions, from) <= usize::MAX
}

/// The first pass keeps the registry and the waiting edges well formed.
pub proof fn lemma_first_pass_wf(
    state: FirstPass,
    definitions: Seq<TypeDefinitionView>,
    from: int,
    options: ConfigOptions,
)
    requires
        state.error is None,
        state.schema.wf(),
        pending_wf(state.pending, state.schema.objects.len() as int),
        0 <= from <= definitions.len(),
        has_room(state.schema, definitions, from),
    ensures
        ({
            let last = register_definitions(state, definitions, from, options);
            &&& last.schema.wf()
            &&& pending_wf(last.pending, last.schema.objects.len() as int)
        }),
    decreases definitions.len() - from,
{
    if from < definitions.len() {
        let next = register_definition(state, definitions[from], options);
        match definitions[from] {
            TypeDefinitionView::Object { definition, may_have_id_field } => {
                let step = register_object(
                    state.schema,
                    state.pending,
                    definition,
                    may_have_id_field,
                    options,
                );
                assert(step.schema.resolvers.len() <= state.schema.resolvers.len() + 1);
                lemma_register_object_wf(
                    state.schema,
                    state.pending,
                    definition,
                    may_have_id_field,
                    options,
                );
                lemma_register_object_pending_wf(
                    state.schema,
                    state.pending,
                    definition,
                    may_have_id_field,
                    options,
                );
            },
            TypeDefinitionView::Scalar(definition) => {
                lemma_register_scalar_wf(state.schema, definition);
            },
            TypeDefinitionView::Ignored => {},
        }
        if next.error is None {
            lemma_first_pass_wf(next, definitions, from + 1, options);
        }
    }
}

/// In a registry that was built from a document that succeeded, every
/// supertype that an object of the document named has that object among
/// its refinements: definition `d` is an object, `t` is one of the
/// supertypes that it names, and the name of the object resolves to an
/// object that this supertype can be narrowed to.
pub proof fn lemma_declared_edge_is_resolved(
    schema: SchemaView,
    definitions: Seq<TypeDefinitionView>,
    options: ConfigOptions,
    d: int,
    t: int,
)
    requires
        schema.wf(),
        has_room(schema, definitions, 0),
        process_document(schema, definitions, options).result is Ok,
        0 <= d < definitions.len(),
        definitions[d] is Object,
        0 <= t < definitions[d]->definition.interfaces.len(),
    ensures
        ({
            let last = process_document(schema, definitions, options).schema;
            let object = definitions[d]->definition;
            &&& last.wf()
            &&& last.lookup(object.name.item) matches Some(DefinedTypeId::Object(subtype))
            &&& refines(last, object.interfaces[t].item, subtype)
        }),
{
    let start = first_pass_start(schema);
    let first = register_definitions(start, definitions, 0, options);
    let object = definitions[d]->definition;
    let prefix = definitions.take(d);
    crate::laws::lemma_first_pass_split(start, definitions, 0, d, options);
    let before = register_definitions(start, prefix, 0, options);
    assert(before.error is None);
    let at = register_definition(before, definitions[d], options);
    assert(at.error is None);
    lemma_definition_edges(before, definitions[d], options);
    lemma_first_pass_edges(at, definitions, d + 1, options);
    let id = ObjectId(before.schema.objects.len() as usize);
    let edge = WithLocation { location: object.name.location, item: id };
    assert(holds_edge(at.pending, object.interfaces[t].item, edge));
    assert(holds_edge(first.pending, object.interfaces[t].item, edge));
    assert(at.schema.defined_types.contains_key(object.name.item));
    assert(first.schema.lookup(object.name.item) == Some(DefinedTypeId::Object(id)));

    assert(pending_wf(start.pending, schema.objects.len() as int));
    lemma_first_pass_wf(start, definitions, 0, options);
    lemma_second_pass_edges(first.schema, first.pending, 0);
    lemma_second_pass_outcome(first.schema, first.pending, 0);
}

/// Whether a definition is one that a registry accepts where its name is
/// free: no field has an error, no field takes a name that the registry
/// reserves for a field that it adds.
pub open spec fn is_acceptable(
    definition: ObjectDefinitionView,
    may_have_id_field: bool,
    options: ConfigOptions,
) -> bool {
    &&& first_field_error(
        definition.fields,
        0,
        definition.name.item,
        may_have_id_field,
        options,
    ) is None
    &&& !declares(definition.fields, typename_field_name())
    &&& !(may_have_id_field && declares(definition.fields, id_field_name()) && declares(
        definition.fields,
        refetch_field_name(),
    ))
}

/// Whether a registry accepts an object depends on the registry only for
/// the name: an object is registered exactly if its name is free and the
/// definition is acceptable.
pub proof fn lemma_object_is_accepted(
    schema: SchemaView,
    pending: PendingView,
    definition: ObjectDefinitionView,
    may_have_id_field: bool,
    options: ConfigOptions,
)
    ensures
        register_object(schema, pending, definition, may_have_id_field, options).result is Ok
            <==> !schema.defined_types.contains_key(definition.name.item) && is_acceptable(
            definition,
            may_have_id_field,
            options,
        ),
{
    lemma_field_index_names(
        definition.fields,
        schema.fields.len() as int,
        definition.fields.len() as int,
        refetch_field_name(),
    );
    lemma_reserved_names_differ();
}

/// The order of two definitions does not decide whether a supertype is
/// found: a document in which an object names a supertype that is defined
/// after it succeeds exactly if the document with the two definitions in
/// the other order does, and after either the supertype has the object
/// among its refinements.
pub proof fn lemma_forward_reference_independence(
    schema: SchemaView,
    subtype: ObjectDefinitionView,
    subtype_may_have_id_field: bool,
    supertype: ObjectDefinitionView,
    supertype_may_have_id_field: bool,
    options: ConfigOptions,
)
    requires
        schema.wf(),
        schema.fields.len() + subtype.fields.len() + supertype.fields.len() + 2 <= usize::MAX,
        schema.objects.len() + 2 <= usize::MAX,
        schema.resolvers.len() + 2 <= usize::MAX,
        names_interface(
            subtype.interfaces,
            subtype.interfaces.len() as int,
            supertype.name.item,
        ),
    ensures
        ({
            let first = TypeDefinitionView::Object {
                definition: subtype,
                may_have_id_field: subtype_may_have_id_field,
            };
            let second = TypeDefinitionView::Object {
                definition: supertype,
                may_have_id_field: supertype_may_have_id_field,
            };
            let forward = process_document(schema, seq![first, second], options);
            let backward = process_document(schema, seq![second, first], options);
            &&& forward.result is Ok <==> backward.result is Ok
            &&& forward.result is Ok ==> {
                &&& forward.schema.lookup(subtype.name.item) matches Some(
                    DefinedTypeId::Object(id),
                ) && refines(forward.schema, supertype.name.item, id)
                &&& backward.schema.lookup(subtype.name.item) matches Some(
                    DefinedTypeId::Object(id),
                ) && refines(backward.schema, supertype.name.item, id)
            }
        }),
{
    let first = TypeDefinitionView::Object {
        definition: subtype,
        may_have_id_field: subtype_may_have_id_field,
    };
    let second = TypeDefinitionView::Object {
        definition: supertype,
        may_have_id_field: supertype_may_have_id_field,
    };
    lemma_two_definitions(schema, first, second, options);
    lemma_two_definitions(schema, second, first, options);
    let forward = process_document(schema, seq![first, second], options);
    let backward = process_document(schema, seq![second, first], options);
    let t = choose|t: int|
        0 <= t < subtype.interfaces.len() && (#[trigger] subtype.interfaces[t]).item
            == supertype.name.item;
    if forward.result is Ok {
        lemma_room_for_two(schema, first, second);
        lemma_room_for_two(schema, second, first);
        lemma_declared_edge_is_resolved(schema, seq![first, second], options, 0, t);
        lemma_declared_edge_is_resolved(schema, seq![second, first], options, 1, t);
    }
}

/// A registry with room for two objects has room for a document of those
/// two.
proof fn lemma_room_for_two(schema: SchemaView, a: TypeDefinitionView, b: TypeDefinitionView)
    requires
        a is Object,
        b is Object,
        schema.fields.len() + a->definition.fields.len() + b->definition.fields.len() + 2
            <= usize::MAX,
        schema.objects.len() + 2 <= usize::MAX,
        schema.resolvers.len() + 2 <= usize::MAX,
        schema.wf(),
    ensures
        has_room(schema, seq![a, b], 0),
{
    let definitions = seq![a, b];
    reveal_with_fuel(field_demand, 3);
    reveal_with_fuel(object_demand, 3);
    reveal_with_fuel(scalar_demand, 3);
    assert(definitions[0] == a);
    assert(definitions[1] == b);
}

/// Whether a document of two objects succeeds does not depend on their
/// order.
proof fn lemma_two_definitions(
    schema: SchemaView,
    a: TypeDefinitionView,
    b: TypeDefinitionView,
    options: ConfigOptions,
)
    requires
        a is Object,
        b is Object,
    ensures
        process_document(schema, seq![a, b], options).result is Ok ==> process_document(
            schema,
            seq![b, a],
            options,
        ).result is Ok,
{
    let forward = seq![a, b];
    let backward = seq![b, a];
    let start = first_pass_start(schema);
    if process_document(schema, forward, options).result is Ok {
        reveal_with_fuel(register_definitions, 3);
        assert(forward[0] == a && forward[1] == b);
        assert(backward[0] == b && backward[1] == a);
        let x = a->definition;
        let y = b->definition;
        let after_a = register_definition(start, a, options);
        let after_ab = register_definition(after_a, b, options);
        assert(register_definitions(start, forward, 0, options) == after_ab);
        lemma_object_is_accepted(schema, start.pending, x, a->may_have_id_field, options);
        lemma_object_is_accepted(
            after_a.schema,
            after_a.pending,
            y,
            b->may_have_id_field,
            options,
        );
        lemma_object_is_accepted(schema, start.pending, y, b->may_have_id_field, options);
        let after_b = register_definition(start, b, options);
        assert(after_b.error is None);
        lemma_object_is_accepted(
            after_b.schema,
            after_b.pending,
            x,
            a->may_have_id_field,
            options,
        );
        let after_ba = register_definition(after_b, a, options);
        assert(after_ba.error is None);
        assert(register_definitions(start, backward, 0, options) == after_ba);
        lemma_unresolved_supertype_is_refused(schema, forward, options);
        lemma_unresolved_supertype_is_refused(schema, backward, options);
        assert forall|name: Seq<char>| #[trigger]
            document_names_supertype(backward, 0, name) implies is_object_name(
            after_ba.schema,
            name,
        ) by {
            let d = choose|d: int|
                0 <= d < backward.len() && names_supertype(#[trigger] backward[d], name);
            assert(names_supertype(forward[1 - d], name));
            assert(document_names_supertype(forward, 0, name));
            assert(is_object_name(after_ab.schema, name));
        }
    }
}

} // verus!
