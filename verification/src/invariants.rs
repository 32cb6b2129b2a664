//! Every step of building the registry keeps it well formed.

use vstd::prelude::*;
use crate::common::WithLocation;
use crate::graphql_types::{ObjectDefinitionView, ObjectExtensionView, ScalarDefinitionView};
use crate::lang_types::{DefinedField, DefinedTypeId, ObjectId, ResolverFieldId, ServerFieldId};
use crate::model::{
    FieldDefinitions, PendingRefinementView, PendingView, add_edge, add_edges, apply_extension,
    entry_index, field_error, field_index, fields_outcome, first_field_error, first_index_of,
    lemma_entry_index, lemma_field_index_names, lemma_first_index_of, pending_wf, refetch_resolver,
    register_object, register_scalar, resolve_entry, resolvers_outcome,
};
use crate::schema::{
    ConfigOptions, ObjectView, SchemaView, id_field_name, is_refetch_resolver, refetch_field_name,
    typename_field_name,
};

verus! {

/// No two of the fields have the same name.
pub open spec fn names_distinct(fields: FieldDefinitions) -> bool {
    forall|i: int, j: int|
        0 <= i < j < fields.len() ==> (#[trigger] fields[i]).item.name.item != (
        #[trigger] fields[j]).item.name.item
}

/// Where no field from `from` on has an error, field `i` has none.
pub proof fn lemma_no_field_error(
    fields: FieldDefinitions,
    from: int,
    parent_name: Seq<char>,
    may_have_id_field: bool,
    options: ConfigOptions,
    i: int,
)
    requires
        0 <= from <= i < fields.len(),
        first_field_error(fields, from, parent_name, may_have_id_field, options) is None,
    ensures
        field_error(fields, i, parent_name, may_have_id_field, options) is None,
    decreases i - from,
{
    if from < i {
        lemma_no_field_error(fields, from + 1, parent_name, may_have_id_field, options, i);
    }
}

/// Where no field has an error, no two fields have the same name.
pub proof fn lemma_no_error_names_distinct(
    fields: FieldDefinitions,
    parent_name: Seq<char>,
    may_have_id_field: bool,
    options: ConfigOptions,
)
    requires
        first_field_error(fields, 0, parent_name, may_have_id_field, options) is None,
    ensures
        names_distinct(fields),
{
    assert forall|i: int, j: int| 0 <= i < j < fields.len() implies (#[trigger] fields[i]).item.name.item
        != (#[trigger] fields[j]).item.name.item by {
        lemma_no_field_error(fields, 0, parent_name, may_have_id_field, options, j);
        lemma_first_index_of(fields, fields[j].item.name.item, j);
    }
}

/// Where names are distinct, the name of field `k` resolves to the handle
/// of field `k`.
pub proof fn lemma_field_index_value(fields: FieldDefinitions, next_field_id: int, n: int, k: int)
    requires
        0 <= k < n <= fields.len(),
        names_distinct(fields),
    ensures
        field_index(fields, next_field_id, n).contains_key(fields[k].item.name.item),
        field_index(fields, next_field_id, n)[fields[k].item.name.item]
            == DefinedField::ServerField(ServerFieldId((next_field_id + k) as usize)),
    decreases n,
{
    if k < n - 1 {
        lemma_field_index_value(fields, next_field_id, n - 1, k);
        assert(fields[k].item.name.item != fields[n - 1].item.name.item);
    }
}

/// Whether `after` holds everything that `before` holds, at the same
/// handles.
pub open spec fn extends(before: SchemaView, after: SchemaView) -> bool {
    &&& before.fields.len() <= after.fields.len()
    &&& forall|i: int| 0 <= i < before.fields.len() ==> #[trigger] after.fields[i] == before.fields[i]
    &&& before.resolvers.len() <= after.resolvers.len()
    &&& forall|i: int|
        0 <= i < before.resolvers.len() ==> #[trigger] after.resolvers[i] == before.resolvers[i]
    &&& before.objects.len() <= after.objects.len()
}

/// An object that is well formed in a registry is well formed in every
/// registry that extends it.
pub proof fn lemma_object_wf_extends(before: SchemaView, after: SchemaView, o: ObjectView)
    requires
        before.object_wf(o),
        extends(before, after),
    ensures
        after.object_wf(o),
{
    assert forall|k: int| 0 <= k < o.server_fields.len() implies after.owns_server_field(
        o,
        #[trigger] o.server_fields[k],
    ) by {
        assert(before.owns_server_field(o, o.server_fields[k]));
    }
    assert(before.owns_server_field(o, o.server_fields[o.server_fields.len() - 1]));
    assert forall|k: int| 0 <= k < o.resolvers.len() implies after.owns_resolver(
        o,
        #[trigger] o.resolvers[k],
    ) by {
        assert(before.owns_resolver(o, o.resolvers[k]));
    }
    assert(after.server_fields_wf(o));
    match o.id_field {
        Some(id) => {
            let r = o.encountered_fields[refetch_field_name()]->ResolverField_0;
            assert forall|k: int|
                0 <= k < o.resolvers.len() && after.resolvers[(
                #[trigger] o.resolvers[k]).0 as int].variant
                    == crate::schema::ResolverVariant::RefetchField implies o.resolvers[k]
                == r by {
                assert(before.owns_resolver(o, o.resolvers[k]));
            }
        },
        None => {
            assert forall|k: int| 0 <= k < o.resolvers.len() implies after.resolvers[(
            #[trigger] o.resolvers[k]).0 as int].variant
                != crate::schema::ResolverVariant::RefetchField by {
                assert(before.owns_resolver(o, o.resolvers[k]));
            }
        },
    }
    assert(after.id_field_wf(o));
}

/// Registering an object keeps the registry well formed, whether the call
/// succeeds or not.
pub proof fn lemma_register_object_wf(
    schema: SchemaView,
    pending: PendingView,
    definition: ObjectDefinitionView,
    may_have_id_field: bool,
    options: ConfigOptions,
)
    requires
        schema.wf(),
        register_object(schema, pending, definition, may_have_id_field, options).schema.bounded(),
    ensures
        register_object(schema, pending, definition, may_have_id_field, options).schema.wf(),
        extends(
            schema,
            register_object(schema, pending, definition, may_have_id_field, options).schema,
        ),
{
    let step = register_object(schema, pending, definition, may_have_id_field, options);
    if step.result is Err {
        return ;
    }
    let after = step.schema;
    let id = ObjectId(schema.objects.len() as usize);
    let name = definition.name.item;
    let declared = definition.fields;
    let n = declared.len() as int;
    let next = schema.fields.len() as int;
    let fields = fields_outcome(declared, next, id, name, may_have_id_field, options)->Ok_0;
    let resolvers = resolvers_outcome(
        fields.id_field,
        fields.encountered_fields,
        schema.resolvers.len() as int,
        id,
        definition.name,
    )->Ok_0;
    let o = after.objects[id.0 as int];
    assert(extends(schema, after));
    assert(!schema.defined_types.contains_key(name));

    assert forall|other: Seq<char>| #[trigger]
        after.defined_types.contains_key(other) implies match after.defined_types[other] {
        DefinedTypeId::Object(x) => after.is_object_named(x, other),
        DefinedTypeId::Scalar(x) => after.is_scalar_named(x, other),
    } by {
        if other != name {
            assert(schema.defined_types.contains_key(other));
        }
    }
    assert forall|i: int| 0 <= i < after.objects.len() implies {
        let x = #[trigger] after.objects[i];
        &&& x.id.0 == i
        &&& after.lookup(x.name.item) == Some(DefinedTypeId::Object(x.id))
    } by {
        if i < schema.objects.len() {
            let x = schema.objects[i];
            assert(schema.lookup(x.name.item) == Some(DefinedTypeId::Object(x.id)));
        }
    }
    assert forall|i: int| 0 <= i < after.scalars.len() implies {
        let x = #[trigger] after.scalars[i];
        &&& x.id.0 == i
        &&& after.lookup(x.name.item) == Some(DefinedTypeId::Scalar(x.id))
    } by {
        let x = schema.scalars[i];
        assert(schema.lookup(x.name.item) == Some(DefinedTypeId::Scalar(x.id)));
    }
    assert(after.fields_indexed()) by {
        assert forall|i: int| 0 <= i < after.fields.len() implies {
            let f = #[trigger] after.fields[i];
            f.id.0 == i && f.parent_type_id.0 < after.objects.len()
        } by {
            if i < next {
                assert(after.fields[i] == schema.fields[i]);
            }
        }
        assert forall|i: int| 0 <= i < after.resolvers.len() implies {
            let r = #[trigger] after.resolvers[i];
            r.id.0 == i && r.parent_object_id.0 < after.objects.len()
        } by {
            if i < schema.resolvers.len() {
                assert(after.resolvers[i] == schema.resolvers[i]);
            }
        }
    }
    assert(after.roots_wf());

    // The new object.
    lemma_no_error_names_distinct(declared, name, may_have_id_field, options);
    lemma_field_index_names(declared, next, n, typename_field_name());
    lemma_field_index_names(declared, next, n, refetch_field_name());
    lemma_first_index_of(declared, typename_field_name(), n);
    assert forall|k: int| 0 <= k < o.server_fields.len() implies after.owns_server_field(
        o,
        #[trigger] o.server_fields[k],
    ) by {
        assert(after.fields[next + k] == fields.unvalidated_schema_fields[k]);
        if k < n {
            lemma_field_index_value(declared, next, n, k);
            assert(declared[k].item.name.item != typename_field_name());
        }
    }
    assert(after.fields[next + n] == fields.unvalidated_schema_fields[n]);
    assert(after.server_fields_wf(o));
    assert(after.id_field_wf(o)) by {
        lemma_first_index_of(declared, id_field_name(), n);
        match o.id_field {
            Some(id_field) => {
                let j = first_index_of(declared, id_field_name(), n)->Some_0;
                let r = ResolverFieldId(schema.resolvers.len() as usize);
                assert(o.server_fields[j] == ServerFieldId(id_field.0));
                assert(after.fields[next + j] == fields.unvalidated_schema_fields[j]);
                assert(o.resolvers[0] == r);
                assert(after.resolvers[r.0 as int] == refetch_resolver(
                    schema.resolvers.len() as int,
                    id,
                    name,
                ));
                assert(is_refetch_resolver(after.resolvers[r.0 as int], id));
                assert(after.owns_resolver(o, r));
            },
            None => {},
        }
    }
    assert(after.object_wf(o));
    assert forall|i: int| 0 <= i < after.objects.len() implies after.object_wf(
        #[trigger] after.objects[i],
    ) by {
        if i < schema.objects.len() {
            lemma_object_wf_extends(schema, after, schema.objects[i]);
        }
    }
}

/// Registering a scalar keeps the registry well formed, whether the call
/// succeeds or not.
pub proof fn lemma_register_scalar_wf(schema: SchemaView, definition: ScalarDefinitionView)
    requires
        schema.wf(),
        register_scalar(schema, definition).schema.bounded(),
    ensures
        register_scalar(schema, definition).schema.wf(),
        extends(schema, register_scalar(schema, definition).schema),
{
    let step = register_scalar(schema, definition);
    if step.error is Some {
        return ;
    }
    let after = step.schema;
    let name = definition.name.item;
    assert forall|other: Seq<char>| #[trigger]
        after.defined_types.contains_key(other) implies match after.defined_types[other] {
        DefinedTypeId::Object(x) => after.is_object_named(x, other),
        DefinedTypeId::Scalar(x) => after.is_scalar_named(x, other),
    } by {
        if other != name {
            assert(schema.defined_types.contains_key(other));
        }
    }
    assert forall|i: int| 0 <= i < after.objects.len() implies {
        let x = #[trigger] after.objects[i];
        &&& x.id.0 == i
        &&& after.lookup(x.name.item) == Some(DefinedTypeId::Object(x.id))
    } by {
        let x = schema.objects[i];
        assert(schema.lookup(x.name.item) == Some(DefinedTypeId::Object(x.id)));
    }
    assert forall|i: int| 0 <= i < after.scalars.len() implies {
        let x = #[trigger] after.scalars[i];
        &&& x.id.0 == i
        &&& after.lookup(x.name.item) == Some(DefinedTypeId::Scalar(x.id))
    } by {
        if i < schema.scalars.len() {
            let x = schema.scalars[i];
            assert(schema.lookup(x.name.item) == Some(DefinedTypeId::Scalar(x.id)));
        }
    }
    assert forall|i: int| 0 <= i < after.objects.len() implies after.object_wf(
        #[trigger] after.objects[i],
    ) by {
        lemma_object_wf_extends(schema, after, schema.objects[i]);
    }
}

/// Whether `after` is `before` with nothing changed but the refinements
/// and the directives of its objects.
pub open spec fn same_but_edges_and_directives(before: SchemaView, after: SchemaView) -> bool {
    &&& after.fields == before.fields
    &&& after.resolvers == before.resolvers
    &&& after.scalars == before.scalars
    &&& after.defined_types == before.defined_types
    &&& after.query_type_id == before.query_type_id
    &&& after.objects.len() == before.objects.len()
    &&& forall|i: int|
        0 <= i < before.objects.len() ==> (#[trigger] after.objects[i]) == (ObjectView {
            valid_refinements: after.objects[i].valid_refinements,
            directives: after.objects[i].directives,
            ..before.objects[i]
        })
}

/// A registry stays well formed where nothing changes but the refinements
/// and the directives of its objects, and every refinement leads to an
/// object of the registry.
pub proof fn lemma_edges_and_directives_wf(before: SchemaView, after: SchemaView)
    requires
        before.wf(),
        same_but_edges_and_directives(before, after),
        forall|i: int, k: int|
            0 <= i < after.objects.len() && 0 <= k < after.objects[i].valid_refinements.len()
                ==> (#[trigger] after.objects[i].valid_refinements[k]).target.0
                < after.objects.len(),
    ensures
        after.wf(),
{
    assert forall|other: Seq<char>| #[trigger]
        after.defined_types.contains_key(other) implies match after.defined_types[other] {
        DefinedTypeId::Object(x) => after.is_object_named(x, other),
        DefinedTypeId::Scalar(x) => after.is_scalar_named(x, other),
    } by {
        assert(before.defined_types.contains_key(other));
        match before.defined_types[other] {
            DefinedTypeId::Object(x) => {
                assert(after.objects[x.0 as int].name == before.objects[x.0 as int].name);
            },
            DefinedTypeId::Scalar(x) => {},
        }
    }
    assert forall|i: int| 0 <= i < after.objects.len() implies {
        let x = #[trigger] after.objects[i];
        &&& x.id.0 == i
        &&& after.lookup(x.name.item) == Some(DefinedTypeId::Object(x.id))
    } by {
        let x = before.objects[i];
        assert(before.lookup(x.name.item) == Some(DefinedTypeId::Object(x.id)));
    }
    assert(after.roots_wf()) by {
        if let Some(q) = before.query_type_id {
            assert(after.objects[q.0 as int].name == before.objects[q.0 as int].name);
        }
    }
    assert forall|i: int| 0 <= i < after.objects.len() implies after.object_wf(
        #[trigger] after.objects[i],
    ) by {
        let o = after.objects[i];
        let b = before.objects[i];
        assert(before.object_wf(b));
        assert forall|k: int| 0 <= k < o.server_fields.len() implies after.owns_server_field(
            o,
            #[trigger] o.server_fields[k],
        ) by {
            assert(before.owns_server_field(b, b.server_fields[k]));
        }
        assert forall|k: int| 0 <= k < o.resolvers.len() implies after.owns_resolver(
            o,
            #[trigger] o.resolvers[k],
        ) by {
            assert(before.owns_resolver(b, b.resolvers[k]));
        }
        assert(after.server_fields_wf(o));
        assert(after.id_field_wf(o));
    }
}

/// Resolving the edges to one supertype keeps the registry well formed,
/// and changes nothing but refinements.
pub proof fn lemma_resolve_entry_wf(schema: SchemaView, entry: PendingRefinementView)
    requires
        schema.wf(),
        forall|k: int|
            0 <= k < entry.subtypes.len() ==> (#[trigger] entry.subtypes[k]).item.0
                < schema.objects.len(),
    ensures
        resolve_entry(schema, entry).schema.wf(),
        same_but_edges_and_directives(schema, resolve_entry(schema, entry).schema),
{
    let after = resolve_entry(schema, entry).schema;
    if let Some(DefinedTypeId::Object(id)) = schema.lookup(entry.supertype) {
        assert(schema.defined_types.contains_key(entry.supertype));
        assert(schema.is_object_named(id, entry.supertype));
        assert(schema.object_wf(schema.objects[id.0 as int]));
        assert forall|i: int, k: int|
            0 <= i < after.objects.len() && 0 <= k
                < after.objects[i].valid_refinements.len() implies (
        #[trigger] after.objects[i].valid_refinements[k]).target.0 < after.objects.len() by {
            assert(schema.object_wf(schema.objects[i]));
            if i == id.0 {
                let old_count = schema.objects[i].valid_refinements.len();
                if k >= old_count {
                    assert(after.objects[i].valid_refinements[k].target == entry.subtypes[k
                        - old_count].item);
                } else {
                    assert(after.objects[i].valid_refinements[k]
                        == schema.objects[i].valid_refinements[k]);
                }
            } else {
                assert(after.objects[i].valid_refinements[k]
                    == schema.objects[i].valid_refinements[k]);
            }
        }
        lemma_edges_and_directives_wf(schema, after);
    }
}

/// Applying an extension keeps the registry well formed, and changes
/// nothing but directives.
pub proof fn lemma_apply_extension_wf(schema: SchemaView, extension: ObjectExtensionView)
    requires
        schema.wf(),
    ensures
        apply_extension(schema, extension).schema.wf(),
        same_but_edges_and_directives(schema, apply_extension(schema, extension).schema),
{
    let step = apply_extension(schema, extension);
    let after = step.schema;
    if step.error is None {
        let id = schema.lookup(extension.name.item)->Some_0->Object_0;
        assert(schema.defined_types.contains_key(extension.name.item));
        assert(schema.is_object_named(id, extension.name.item));
        assert forall|i: int, k: int|
            0 <= i < after.objects.len() && 0 <= k
                < after.objects[i].valid_refinements.len() implies (
        #[trigger] after.objects[i].valid_refinements[k]).target.0 < after.objects.len() by {
            assert(schema.object_wf(schema.objects[i]));
            assert(after.objects[i].valid_refinements[k]
                == schema.objects[i].valid_refinements[k]);
        }
        lemma_edges_and_directives_wf(schema, after);
    }
}

/// One more edge from an object of the registry keeps the waiting edges
/// well formed.
pub proof fn lemma_add_edge_wf(
    pending: PendingView,
    name: Seq<char>,
    edge: WithLocation<ObjectId>,
    object_count: int,
)
    requires
        pending_wf(pending, object_count),
        edge.item.0 < object_count,
    ensures
        pending_wf(add_edge(pending, name, edge), object_count),
{
    lemma_entry_index(pending, name, pending.len() as int);
    let after = add_edge(pending, name, edge);
    match entry_index(pending, name, pending.len() as int) {
        Some(j) => {
            assert forall|i: int, k: int|
                0 <= i < after.len() && 0 <= k < after[i].subtypes.len() implies (
            #[trigger] after[i].subtypes[k]).item.0 < object_count by {
                if i == j && k == pending[j].subtypes.len() {
                } else {
                    assert(after[i].subtypes[k] == pending[i].subtypes[k]);
                }
            }
            assert forall|a: int, b: int| 0 <= a < b < after.len() implies (
            #[trigger] after[a]).supertype != (#[trigger] after[b]).supertype by {
                assert(after[a].supertype == pending[a].supertype);
                assert(after[b].supertype == pending[b].supertype);
            }
            assert forall|i: int| 0 <= i < after.len() implies (
            #[trigger] after[i]).subtypes.len() > 0 by {
                if i != j {
                    assert(after[i] == pending[i]);
                }
            }
        },
        None => {
            assert forall|i: int, k: int|
                0 <= i < after.len() && 0 <= k < after[i].subtypes.len() implies (
            #[trigger] after[i].subtypes[k]).item.0 < object_count by {
                if i < pending.len() {
                    assert(after[i].subtypes[k] == pending[i].subtypes[k]);
                }
            }
            assert forall|a: int, b: int| 0 <= a < b < after.len() implies (
            #[trigger] after[a]).supertype != (#[trigger] after[b]).supertype by {
                assert(after[a] == pending[a]);
                if b < pending.len() {
                    assert(after[b] == pending[b]);
                }
            }
        },
    }
}

/// More edges from an object of the registry keep the waiting edges well
/// formed.
pub proof fn lemma_add_edges_wf(
    pending: PendingView,
    interfaces: Seq<WithLocation<Seq<char>>>,
    n: int,
    edge: WithLocation<ObjectId>,
    object_count: int,
)
    requires
        pending_wf(pending, object_count),
        edge.item.0 < object_count,
    ensures
        pending_wf(add_edges(pending, interfaces, n, edge), object_count),
    decreases n,
{
    if n > 0 {
        lemma_add_edges_wf(pending, interfaces, n - 1, edge, object_count);
        lemma_add_edge_wf(
            add_edges(pending, interfaces, n - 1, edge),
            interfaces[n - 1].item,
            edge,
            object_count,
        );
    }
}

/// Registering an object keeps the waiting edges well formed.
pub proof fn lemma_register_object_pending_wf(
    schema: SchemaView,
    pending: PendingView,
    definition: ObjectDefinitionView,
    may_have_id_field: bool,
    options: ConfigOptions,
)
    requires
        pending_wf(pending, schema.objects.len() as int),
        register_object(schema, pending, definition, may_have_id_field, options).schema.bounded(),
    ensures
        ({
            let step = register_object(schema, pending, definition, may_have_id_field, options);
            pending_wf(step.pending, step.schema.objects.len() as int)
        }),
{
    let step = register_object(schema, pending, definition, may_have_id_field, options);
    if step.result is Ok {
        let id = ObjectId(schema.objects.len() as usize);
        assert(pending_wf(pending, step.schema.objects.len() as int));
        lemma_add_edges_wf(
            pending,
            definition.interfaces,
            definition.interfaces.len() as int,
            WithLocation { location: definition.name.location, item: id },
            step.schema.objects.len() as int,
        );
    }
}

} // verus!
